//! The allowlist: which exports of which guest module the host may call.
//!
//! A [`DlinkWMConfig`] maps the path of a guest module to the names of its
//! permitted entry points, in the order in which they were written. A
//! [`DynamicConfig`] holds the snapshot that is in force and replaces it as a
//! whole when the file behind it has changed and could be read again.

use vstd::prelude::*;
use crate::table::Table;
use crate::watch::{is_modification, step_after, ChangeKind, WatchEvent, WatchStep};

verus! {

/// The characters of each name of a list.
pub open spec fn names_view(names: Seq<String>) -> Seq<Seq<char>> {
    Seq::new(names.len(), |i: int| names[i]@)
}

/// The entry points that `config` permits for `path`: none where the path
/// has no entry.
pub open spec fn allowed_functions(
    config: Map<Seq<char>, Seq<Seq<char>>>,
    path: Seq<char>,
) -> Seq<Seq<char>> {
    if config.contains_key(path) {
        config[path]
    } else {
        Seq::empty()
    }
}

/// The allowlist that a sequence of entries stands for: where a path occurs
/// more than once, its last entry counts.
pub open spec fn entries_map(entries: Seq<(String, Vec<String>)>) -> Map<Seq<char>, Seq<Seq<char>>>
    decreases entries.len(),
{
    if entries.len() == 0 {
        Map::empty()
    } else {
        entries_map(entries.drop_last()).insert(
            entries.last().0@,
            names_view(entries.last().1@),
        )
    }
}

/// A copy of a list of names.
pub fn clone_names(names: &Vec<String>) -> (copy: Vec<String>)
    ensures
        names_view(copy@) == names_view(names@),
{
    let mut copy: Vec<String> = Vec::new();
    let mut i: usize = 0;
    while i < names.len()
        invariant
            i <= names@.len(),
            copy@.len() == i,
            forall|j: int| 0 <= j < i ==> #[trigger] copy@[j]@ == names@[j]@,
        decreases names@.len() - i,
    {
        copy.push(names[i].clone());
        i = i + 1;
    }
    assert(names_view(copy@) =~= names_view(names@));
    copy
}

/// Whether `name` is one of `names`.
pub fn names_contain(names: &Vec<String>, name: &str) -> (found: bool)
    ensures
        found == names_view(names@).contains(name@),
{
    let owned: String = name.to_owned();
    let mut i: usize = 0;
    while i < names.len()
        invariant
            i <= names@.len(),
            owned@ == name@,
            forall|j: int| 0 <= j < i ==> #[trigger] names@[j]@ != name@,
        decreases names@.len() - i,
    {
        if names[i] == owned {
            assert(names_view(names@)[i as int] == name@);
            return true;
        }
        i = i + 1;
    }
    assert forall|j: int| 0 <= j < names_view(names@).len() implies names_view(names@)[j]
        != name@ by {
        assert(names@[j]@ != name@);
    }
    false
}

/// The allowlist: for each guest module, by its path, the entry points that
/// the host may call.
#[derive(Debug)]
pub struct DlinkWMConfig {
    /// The permitted entry points of each module.
    pub entry_functions: Table<Vec<String>>,
}

impl View for DlinkWMConfig {
    type V = Map<Seq<char>, Seq<Seq<char>>>;

    open spec fn view(&self) -> Map<Seq<char>, Seq<Seq<char>>> {
        Map::new(
            |path: Seq<char>| self.entry_functions@.contains_key(path),
            |path: Seq<char>| names_view(self.entry_functions@[path]@),
        )
    }
}

/// Entries whose paths all differ stand for the allowlist that gives each
/// path the names of its entry, and has no other path.
pub proof fn lemma_entries_map_of_distinct_paths(entries: Seq<(String, Vec<String>)>)
    requires
        forall|i: int, j: int|
            0 <= i < j < entries.len() ==> (#[trigger] entries[i]).0@ != (#[trigger] entries[j]).0@,
    ensures
        forall|i: int|
            0 <= i < entries.len() ==> entries_map(entries).contains_key(
                (#[trigger] entries[i]).0@,
            ) && entries_map(entries)[entries[i].0@] == names_view(entries[i].1@),
        forall|path: Seq<char>| #[trigger]
            entries_map(entries).contains_key(path) ==> exists|i: int|
                0 <= i < entries.len() && (#[trigger] entries[i]).0@ == path,
    decreases entries.len(),
{
    if entries.len() > 0 {
        let earlier = entries.drop_last();
        let last = entries.last();
        assert forall|i: int, j: int| 0 <= i < j < earlier.len() implies (#[trigger] earlier[i]).0@
            != (#[trigger] earlier[j]).0@ by {
            assert(entries[i].0@ != entries[j].0@);
        }
        lemma_entries_map_of_distinct_paths(earlier);
        assert forall|i: int| 0 <= i < entries.len() implies entries_map(entries).contains_key(
            (#[trigger] entries[i]).0@,
        ) && entries_map(entries)[entries[i].0@] == names_view(entries[i].1@) by {
            if i < earlier.len() {
                assert(earlier[i] == entries[i]);
                assert(entries[i].0@ != entries[entries.len() - 1].0@);
            }
        }
        assert forall|path: Seq<char>| #[trigger]
            entries_map(entries).contains_key(path) implies exists|i: int|
            0 <= i < entries.len() && (#[trigger] entries[i]).0@ == path by {
            if path == last.0@ {
                assert(entries[entries.len() - 1].0@ == path);
            } else {
                assert(entries_map(earlier).contains_key(path));
                let i = choose|i: int| 0 <= i < earlier.len() && (#[trigger] earlier[i]).0@ == path;
                assert(entries[i].0@ == path);
            }
        }
    }
}

impl Clone for DlinkWMConfig {
    /// A copy that permits the same functions.
    fn clone(&self) -> (copy: Self)
        ensures
            copy@ == self@,
    {
        let entries = self.entries();
        proof {
            lemma_entries_map_of_distinct_paths(entries@);
            assert(entries_map(entries@) =~= self@);
        }
        DlinkWMConfig::from_entries(entries)
    }
}

impl Default for DlinkWMConfig {
    /// The allowlist that permits nothing.
    fn default() -> (config: Self)
        ensures
            config@ == Map::<Seq<char>, Seq<Seq<char>>>::empty(),
    {
        let config = DlinkWMConfig { entry_functions: Table::new() };
        assert(config@ =~= Map::<Seq<char>, Seq<Seq<char>>>::empty());
        config
    }
}

impl DlinkWMConfig {
    /// The allowlist with the given entries. Where a path occurs more than
    /// once, its last entry counts.
    pub fn from_entries(entries: Vec<(String, Vec<String>)>) -> (config: Self)
        ensures
            config@ == entries_map(entries@),
    {
        let mut table: Table<Vec<String>> = Table::new();
        let ghost mut built: Map<Seq<char>, Seq<Seq<char>>> = Map::empty();
        let mut i: usize = 0;
        while i < entries.len()
            invariant
                i <= entries@.len(),
                built == entries_map(entries@.subrange(0, i as int)),
                forall|path: Seq<char>| table@.contains_key(path) <==> built.contains_key(path),
                forall|path: Seq<char>|
                    table@.contains_key(path) ==> names_view(#[trigger] table@[path]@)
                        == built[path],
            decreases entries@.len() - i,
        {
            let names = clone_names(&entries[i].1);
            table.insert(entries[i].0.as_str(), names);
            proof {
                let prefix = entries@.subrange(0, i + 1);
                assert(prefix.drop_last() == entries@.subrange(0, i as int));
                assert(prefix.last() == entries@[i as int]);
                built = built.insert(entries@[i as int].0@, names_view(entries@[i as int].1@));
            }
            i = i + 1;
        }
        assert(entries@.subrange(0, entries@.len() as int) == entries@);
        let config = DlinkWMConfig { entry_functions: table };
        assert(config@ =~= built);
        config
    }

    /// The entries of the allowlist, each path once, in no particular order.
    pub fn entries(&self) -> (entries: Vec<(String, Vec<String>)>)
        ensures
            forall|i: int|
                0 <= i < entries@.len() ==> self@.contains_key(#[trigger] entries@[i].0@)
                    && self@[entries@[i].0@] == names_view(entries@[i].1@),
            forall|path: Seq<char>|
                self@.contains_key(path) ==> exists|i: int|
                    0 <= i < entries@.len() && #[trigger] entries@[i].0@ == path,
            forall|i: int, j: int|
                0 <= i < j < entries@.len() ==> #[trigger] entries@[i].0@
                    != #[trigger] entries@[j].0@,
    {
        let keys = self.entry_functions.keys();
        let mut entries: Vec<(String, Vec<String>)> = Vec::new();
        let mut i: usize = 0;
        while i < keys.len()
            invariant
                i <= keys@.len(),
                entries@.len() == i,
                forall|j: int|
                    0 <= j < keys@.len() ==> self.entry_functions@.contains_key(
                        #[trigger] keys@[j]@,
                    ),
                forall|j: int|
                    0 <= j < i ==> (#[trigger] entries@[j]).0@ == keys@[j]@ && names_view(
                        entries@[j].1@,
                    ) == self@[keys@[j]@],
            decreases keys@.len() - i,
        {
            let names = match self.entry_functions.get(keys[i].as_str()) {
                Some(names) => clone_names(names),
                None => Vec::new(),
            };
            entries.push((keys[i].clone(), names));
            i = i + 1;
        }
        assert forall|path: Seq<char>| self@.contains_key(path) implies exists|j: int|
            0 <= j < entries@.len() && #[trigger] entries@[j].0@ == path by {
            let j = choose|j: int| 0 <= j < keys@.len() && #[trigger] keys@[j]@ == path;
            assert(entries@[j].0@ == path);
        }
        assert forall|a: int, b: int| 0 <= a < b < entries@.len() implies #[trigger] entries@[a].0@
            != #[trigger] entries@[b].0@ by {
            assert(keys@[a]@ != keys@[b]@);
        }
        entries
    }

    /// The entry points permitted for the module at `file_path`: none where
    /// the allowlist has no entry for it.
    pub fn entry_functions_for(&self, file_path: &str) -> (functions: Vec<String>)
        ensures
            names_view(functions@) == allowed_functions(self@, file_path@),
    {
        match self.entry_functions.get(file_path) {
            Some(names) => clone_names(names),
            None => {
                let functions: Vec<String> = Vec::new();
                assert(names_view(functions@) =~= Seq::<Seq<char>>::empty());
                functions
            },
        }
    }

    /// The allowlist that a configuration file stands for.
    ///
    /// A file that does not exist, `None`, stands for the allowlist that
    /// permits nothing. The text of a file that exists is handed to `parse`,
    /// whose answer is returned as it is.
    pub fn load_from_file<P: Fn(&str) -> Result<DlinkWMConfig, String>>(
        content: Option<&str>,
        parse: &P,
    ) -> (result: Result<DlinkWMConfig, String>)
        requires
            content matches Some(text) ==> call_requires(*parse, (text,)),
        ensures
            content is None ==> (result matches Ok(config) && config@ == Map::<
                Seq<char>,
                Seq<Seq<char>>,
            >::empty()),
            content matches Some(text) ==> call_ensures(*parse, (text,), result),
    {
        match content {
            None => Ok(DlinkWMConfig::default()),
            Some(text) => parse(text),
        }
    }
}

/// The file consulted for the allowlist when no other path is given.
pub fn get_default_config_path() -> (path: String)
    ensures
        path@ == "dlinkwm.toml"@,
{
    "dlinkwm.toml".to_owned()
}

/// The allowlist to write to the default path when no file is there yet:
/// the one that permits nothing. A file that exists is left alone.
pub fn create_default_config_if_missing(exists: bool) -> (to_write: Option<DlinkWMConfig>)
    ensures
        to_write is Some <==> !exists,
        to_write matches Some(config) ==> config@ == Map::<Seq<char>, Seq<Seq<char>>>::empty(),
{
    if exists {
        None
    } else {
        Some(DlinkWMConfig::default())
    }
}

/// The allowlist in force, and the file it was read from.
///
/// A reload takes the store exclusively and replaces the snapshot in one
/// assignment: a reader sees the old snapshot or the new one, never a mix.
#[derive(Debug)]
pub struct DynamicConfig {
    config: DlinkWMConfig,
    config_path: String,
}

/// The snapshot in force after an attempt to read the file again: the new
/// one where the attempt succeeded, the old one where it failed.
pub open spec fn snapshot_after_reload(
    current: Map<Seq<char>, Seq<Seq<char>>>,
    outcome: Result<DlinkWMConfig, String>,
) -> Map<Seq<char>, Seq<Seq<char>>> {
    match outcome {
        Ok(config) => config@,
        Err(_) => current,
    }
}

impl DynamicConfig {
    /// The allowlist in force.
    pub closed spec fn view(self) -> Map<Seq<char>, Seq<Seq<char>>> {
        self.config@
    }

    /// The path of the file behind the allowlist.
    pub closed spec fn path(self) -> Seq<char> {
        self.config_path@
    }

    /// A store that starts with `config`, read from the file at `config_path`.
    pub fn new(config_path: &str, config: DlinkWMConfig) -> (store: Self)
        ensures
            store@ == config@,
            store.path() == config_path@,
    {
        DynamicConfig { config, config_path: config_path.to_owned() }
    }

    /// The snapshot in force.
    pub fn get_config(&self) -> (config: &DlinkWMConfig)
        ensures
            config@ == self@,
    {
        &self.config
    }

    /// The path of the file behind the allowlist.
    pub fn config_path(&self) -> (path: &str)
        ensures
            path@ == self.path(),
    {
        self.config_path.as_str()
    }

    /// The entry points permitted for the module at `file_path`: none where
    /// the snapshot in force has no entry for it.
    pub fn get_entry_functions_for_file(&self, file_path: &str) -> (functions: Vec<String>)
        ensures
            names_view(functions@) == allowed_functions(self@, file_path@),
    {
        self.config.entry_functions_for(file_path)
    }

    /// Takes in the outcome of reading the file again.
    ///
    /// A snapshot that could be read replaces the one in force as a whole. A
    /// failure leaves the one in force as it is. Returns whether the snapshot
    /// was replaced.
    pub fn apply_reload(&mut self, outcome: Result<DlinkWMConfig, String>) -> (replaced: bool)
        ensures
            replaced == outcome is Ok,
            final(self)@ == snapshot_after_reload(old(self)@, outcome),
            final(self).path() == old(self).path(),
    {
        match outcome {
            Ok(config) => {
                self.config = config;
                true
            },
            Err(_) => false,
        }
    }

    /// Takes in one message of the watcher of the configuration file.
    ///
    /// A modification has the file read again, by `load`, and the outcome
    /// applied as [`DynamicConfig::apply_reload`] says. Every other message
    /// leaves the snapshot as it is. The loop ends only when the watcher is
    /// gone.
    pub fn handle_watch_event<L: Fn(&str) -> Result<DlinkWMConfig, String>>(
        &mut self,
        event: &WatchEvent,
        load: &L,
    ) -> (step: WatchStep)
        requires
            forall|path: &str| path@ == old(self).path() ==> call_requires(*load, (path,)),
        ensures
            step == step_after(*event),
            final(self).path() == old(self).path(),
            reloads_config(*event) ==> exists|path: &str, outcome: Result<DlinkWMConfig, String>|
                path@ == old(self).path() && #[trigger] call_ensures(*load, (path,), outcome)
                    && final(self)@ == snapshot_after_reload(old(self)@, outcome),
            !reloads_config(*event) ==> final(self)@ == old(self)@,
    {
        match event {
            WatchEvent::Changed { kind, paths } => {
                match kind {
                    ChangeKind::DataModified | ChangeKind::OtherModified => {
                        let outcome = load(self.config_path.as_str());
                        self.apply_reload(outcome);
                    },
                    ChangeKind::Other => {},
                }
                WatchStep::Continue
            },
            WatchEvent::Failed { cause } => WatchStep::Continue,
            WatchEvent::Closed => WatchStep::Stop,
        }
    }
}

/// Whether a message has the configuration file read again: every
/// modification does, and nothing else.
pub open spec fn reloads_config(event: WatchEvent) -> bool {
    event matches WatchEvent::Changed { kind, .. } && is_modification(kind)
}

/// A reload that fails keeps the snapshot in force; one that succeeds puts
/// the new snapshot in its place, whatever was in force before.
pub proof fn lemma_reload_swaps_whole_snapshot(
    current: Map<Seq<char>, Seq<Seq<char>>>,
    other: Map<Seq<char>, Seq<Seq<char>>>,
    outcome: Result<DlinkWMConfig, String>,
)
    ensures
        outcome is Err ==> snapshot_after_reload(current, outcome) == current,
        outcome is Ok ==> snapshot_after_reload(current, outcome) == snapshot_after_reload(
            other,
            outcome,
        ),
{
}

} // verus!
