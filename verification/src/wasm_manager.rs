//! The cache of compiled and instantiated guest modules.
//!
//! Compiling and running guest code is the work of a [`GuestRuntime`]. The
//! cache decides when that work is needed: an instance that is cached is
//! handed out again without any of it, a compiled module is used again while
//! the file's bytes are the ones it was compiled from, and a hot reload
//! forgets both before it builds the instance anew.

use vstd::prelude::*;
use std::sync::Arc;
use vstd::string::{StrSliceExecFns, StringExecFns};
use vstd::utf8::{encode_utf8, valid_utf8};
use crate::config::{allowed_functions, names_contain, names_view, DynamicConfig};
use crate::table::Table;
use crate::utils::{
    bytes_equal, has_terminator, is_c_string_at, read_c_string, string_from_utf8,
    MemoryAccessError,
};
use crate::watch::{step_after, ChangeKind, WatchEvent, WatchStep};

verus! {

/// Whether a guest module has an export of a given name, and of what sort.
#[derive(Debug, Clone, Copy, PartialEq, Eq, Structural)]
pub enum ExportKind {
    /// The module exports nothing under the name.
    Missing,
    /// The export is not a function: a memory, a table, a global.
    NotFunction,
    /// The export is a function.
    Function,
}

/// How the attempt to call an export under one calling convention ended.
#[derive(Debug, Clone, PartialEq, Eq)]
pub enum CallOutcome<T> {
    /// The export has the signature of the convention, and returned.
    Returned(T),
    /// The export does not have the signature of the convention.
    SignatureMismatch {
        /// The signature that was found.
        detail: String,
    },
    /// The export has the signature, and the call failed while it ran.
    Failed {
        /// Why it failed.
        cause: String,
    },
}

/// What compiles and runs guest modules. The cache and the entry-point call
/// reach guest code through these operations alone, and rely on nothing but the values
/// they return.
pub trait GuestRuntime {
    /// A compiled module.
    type Module;

    /// An instantiated module, together with what it needs to run.
    type Instance;

    /// Reads the bytes of the module file at `path`.
    fn read_module(&self, path: &str) -> Result<Vec<u8>, String>;

    /// Compiles the bytes of a module.
    fn compile(&self, bytes: &Vec<u8>) -> Result<Self::Module, String>;

    /// Instantiates a compiled module, with the host's imports wired in.
    fn instantiate(&self, module: &Self::Module) -> Result<Self::Instance, String>;

    /// Looks for the export `name`.
    fn find_export(&self, instance: &Self::Instance, name: &str) -> ExportKind;

    /// Calls the export `name` as a function without arguments that returns
    /// one 32-bit integer.
    fn call_returning_pointer(&self, instance: &Self::Instance, name: &str) -> CallOutcome<i32>;

    /// Calls the export `name` as a function without arguments or result.
    fn call_without_result(&self, instance: &Self::Instance, name: &str) -> CallOutcome<()>;

    /// The bytes of the instance's exported memory, if it exports one.
    fn memory(&self, instance: &Self::Instance) -> Option<Vec<u8>>;
}

/// Why a module could not be loaded.
#[derive(Debug, Clone, PartialEq, Eq)]
pub enum LoadError {
    /// The module file could not be read.
    Io {
        /// The path of the file.
        path: String,
        /// What the runtime reported.
        cause: String,
    },
    /// The bytes of the file are not a valid module.
    Compile {
        /// The path of the file.
        path: String,
        /// What the runtime reported.
        cause: String,
    },
    /// The module could not be instantiated.
    Instantiation {
        /// The path of the file.
        path: String,
        /// What the runtime reported.
        cause: String,
    },
}

/// A compiled module, and the bytes it was compiled from.
pub struct ModuleRecord<M> {
    /// The bytes of the file.
    pub bytes: Vec<u8>,
    /// What the runtime compiled them to.
    pub module: M,
}

/// A live instance as the cache hands it out. Every instance that the cache
/// has built carries a number of its own, by which contracts tell a fresh
/// instance from a stale one.
pub struct InstanceHandle<I> {
    /// The instance, shared with the cache.
    pub instance: Arc<I>,
    /// The number of the instance among those this cache has built.
    pub generation: Ghost<nat>,
}

/// `Arc::clone`: another handle to the same allocation, which holds the same
/// value.
#[verifier::external_body]
fn share_instance<I>(instance: &Arc<I>) -> (shared: Arc<I>)
    ensures
        shared == *instance,
{
    Arc::clone(instance)
}

impl<I> InstanceHandle<I> {
    /// Another handle to the same instance.
    pub fn share(&self) -> (shared: Self)
        ensures
            shared == *self,
    {
        InstanceHandle {
            instance: share_instance(&self.instance),
            generation: Ghost(self.generation@),
        }
    }
}

/// What a cache holds.
pub struct CacheView<M, I> {
    /// The compiled module of each path.
    pub modules: Map<Seq<char>, ModuleRecord<M>>,
    /// The live instance of each path.
    pub instances: Map<Seq<char>, InstanceHandle<I>>,
    /// How many instances the cache has built so far.
    pub issued: nat,
}

impl<M, I> CacheView<M, I> {
    /// Every instance in the cache is one of those the cache has built.
    pub open spec fn consistent(self) -> bool {
        forall|path: Seq<char>| #[trigger]
            self.instances.contains_key(path) ==> self.instances[path].generation@ < self.issued
    }

    /// The cache without what it holds for `path`.
    pub open spec fn without(self, path: Seq<char>) -> Self {
        CacheView {
            modules: self.modules.remove(path),
            instances: self.instances.remove(path),
            issued: self.issued,
        }
    }

    /// The cache with `record` as the compiled module of `path`.
    pub open spec fn with_module(self, path: Seq<char>, record: ModuleRecord<M>) -> Self {
        CacheView {
            modules: self.modules.insert(path, record),
            instances: self.instances,
            issued: self.issued,
        }
    }

    /// The cache with `handle`, newly built, as the live instance of `path`.
    pub open spec fn with_instance(self, path: Seq<char>, handle: InstanceHandle<I>) -> Self {
        CacheView {
            modules: self.modules,
            instances: self.instances.insert(path, handle),
            issued: self.issued + 1,
        }
    }

    /// Whether the compiled module of `path` was compiled from `bytes`.
    pub open spec fn has_current_module(self, path: Seq<char>, bytes: Seq<u8>) -> bool {
        self.modules.contains_key(path) && self.modules[path].bytes@ == bytes
    }
}

/// What instantiating `module` for `path` can leave behind: on failure the
/// cache as it was, on success the cache with the new instance, which has the
/// next number.
pub open spec fn instantiate_outcome<R: GuestRuntime>(
    runtime: &R,
    before: CacheView<R::Module, R::Instance>,
    path: Seq<char>,
    module: R::Module,
    after: CacheView<R::Module, R::Instance>,
    result: Result<InstanceHandle<R::Instance>, LoadError>,
) -> bool {
    exists|instance: Result<R::Instance, String>| #[trigger]
        call_ensures(R::instantiate, (runtime, &module), instance) && match instance {
            Err(cause) => {
                &&& after == before
                &&& result matches Err(LoadError::Instantiation { path: p, cause: c })
                &&& p@ == path
                &&& c == cause
            },
            Ok(built) => {
                &&& result matches Ok(handle)
                &&& handle.instance == built
                &&& handle.generation@ == before.issued
                &&& after == before.with_instance(path, handle)
            },
        }
}

/// What compiling, where it is needed, and instantiating can leave behind,
/// once the file's bytes are read. The module is compiled unless the cache
/// holds one compiled from the same bytes; a module that was compiled stays
/// in the cache even where instantiating it fails.
pub open spec fn compile_outcome<R: GuestRuntime>(
    runtime: &R,
    before: CacheView<R::Module, R::Instance>,
    path: Seq<char>,
    bytes: Vec<u8>,
    after: CacheView<R::Module, R::Instance>,
    result: Result<InstanceHandle<R::Instance>, LoadError>,
) -> bool {
    if before.has_current_module(path, bytes@) {
        instantiate_outcome(runtime, before, path, before.modules[path].module, after, result)
    } else {
        exists|compiled: Result<R::Module, String>| #[trigger]
            call_ensures(R::compile, (runtime, &bytes), compiled) && match compiled {
                Err(cause) => {
                    &&& after == before
                    &&& result matches Err(LoadError::Compile { path: p, cause: c })
                    &&& p@ == path
                    &&& c == cause
                },
                Ok(module) => instantiate_outcome(
                    runtime,
                    before.with_module(path, ModuleRecord { bytes, module }),
                    path,
                    module,
                    after,
                    result,
                ),
            }
    }
}

/// What asking for the instance of `path` can leave behind. An instance that
/// is cached is the answer, and nothing changes. Otherwise the file is read,
/// and the outcome is that of [`compile_outcome`] on its bytes.
pub open spec fn load_outcome<R: GuestRuntime>(
    runtime: &R,
    before: CacheView<R::Module, R::Instance>,
    path: Seq<char>,
    after: CacheView<R::Module, R::Instance>,
    result: Result<InstanceHandle<R::Instance>, LoadError>,
) -> bool {
    if before.instances.contains_key(path) {
        after == before && result == Ok::<InstanceHandle<R::Instance>, LoadError>(
            before.instances[path],
        )
    } else {
        exists|file: &str, read: Result<Vec<u8>, String>|
            file@ == path && #[trigger] call_ensures(R::read_module, (runtime, file), read)
                && match read {
                Err(cause) => {
                    &&& after == before
                    &&& result matches Err(LoadError::Io { path: p, cause: c })
                    &&& p@ == path
                    &&& c == cause
                },
                Ok(bytes) => compile_outcome(runtime, before, path, bytes, after, result),
            }
    }
}

/// What a hot reload of `path` can leave behind: what asking for the
/// instance leaves once the cache has forgotten the path.
pub open spec fn hot_reload_outcome<R: GuestRuntime>(
    runtime: &R,
    before: CacheView<R::Module, R::Instance>,
    path: Seq<char>,
    after: CacheView<R::Module, R::Instance>,
    result: Result<InstanceHandle<R::Instance>, LoadError>,
) -> bool {
    load_outcome(runtime, before.without(path), path, after, result)
}

/// The compiled modules and live instances of guest modules, by path: at
/// most one of each for a path.
///
/// A load takes the cache exclusively from the lookup to the insertion, so
/// two loads of one path cannot both miss and both compile. A host that
/// shares one cache among threads puts the whole of it behind one lock.
pub struct WasmInstanceCache<R: GuestRuntime> {
    module_cache: Table<ModuleRecord<R::Module>>,
    instance_cache: Table<InstanceHandle<R::Instance>>,
    issued: Ghost<nat>,
}

impl<R: GuestRuntime> WasmInstanceCache<R> {
    #[verifier::type_invariant]
    spec fn instances_were_issued(self) -> bool {
        forall|path: Seq<char>| #[trigger]
            self.instance_cache@.contains_key(path) ==> self.instance_cache@[path].generation@
                < self.issued@
    }

    /// What the cache holds.
    pub closed spec fn view(self) -> CacheView<R::Module, R::Instance> {
        CacheView {
            modules: self.module_cache@,
            instances: self.instance_cache@,
            issued: self.issued@,
        }
    }

    /// A cache that holds nothing.
    pub fn new() -> (cache: Self)
        ensures
            cache@.modules == Map::<Seq<char>, ModuleRecord<R::Module>>::empty(),
            cache@.instances == Map::<Seq<char>, InstanceHandle<R::Instance>>::empty(),
            cache@.issued == 0,
            cache@.consistent(),
    {
        WasmInstanceCache {
            module_cache: Table::new(),
            instance_cache: Table::new(),
            issued: Ghost(0),
        }
    }

    /// The live instance of `wasm_path`, if the cache holds one.
    pub fn cached_instance(&self, wasm_path: &str) -> (handle: Option<InstanceHandle<R::Instance>>)
        ensures
            self@.consistent(),
            handle is Some <==> self@.instances.contains_key(wasm_path@),
            handle matches Some(h) ==> h == self@.instances[wasm_path@],
    {
        proof {
            use_type_invariant(self);
        }
        match self.instance_cache.get(wasm_path) {
            Some(handle) => Some(handle.share()),
            None => None,
        }
    }

    /// Whether the cache holds a module for `wasm_path` that was compiled
    /// from `bytes`.
    pub fn has_current_module(&self, wasm_path: &str, bytes: &[u8]) -> (current: bool)
        ensures
            current == self@.has_current_module(wasm_path@, bytes@),
            self@.consistent(),
    {
        proof {
            use_type_invariant(self);
        }
        match self.module_cache.get(wasm_path) {
            Some(record) => bytes_equal(record.bytes.as_slice(), bytes),
            None => false,
        }
    }

    /// Puts `module`, compiled from `bytes`, into the cache as the module of
    /// `wasm_path`, in place of the one that was there.
    pub fn store_module(&mut self, wasm_path: &str, bytes: Vec<u8>, module: R::Module)
        ensures
            final(self)@ == old(self)@.with_module(wasm_path@, ModuleRecord { bytes, module }),
            final(self)@.consistent(),
    {
        proof {
            use_type_invariant(&*self);
        }
        let mut modules: Table<ModuleRecord<R::Module>> = Table::new();
        core::mem::swap(&mut self.module_cache, &mut modules);
        modules.insert(wasm_path, ModuleRecord { bytes, module });
        self.module_cache = modules;
    }

    /// Puts `instance`, newly built, into the cache as the instance of
    /// `wasm_path`, in place of the one that was there, and hands it out
    /// under the next number.
    pub fn store_instance(&mut self, wasm_path: &str, instance: R::Instance) -> (handle:
        InstanceHandle<R::Instance>)
        ensures
            handle.instance == instance,
            handle.generation@ == old(self)@.issued,
            final(self)@ == old(self)@.with_instance(wasm_path@, handle),
            final(self)@.consistent(),
    {
        proof {
            use_type_invariant(&*self);
        }
        let handle = InstanceHandle { instance: Arc::new(instance), generation: Ghost(self.issued@) };
        let shared = handle.share();
        let mut instances: Table<InstanceHandle<R::Instance>> = Table::new();
        core::mem::swap(&mut self.instance_cache, &mut instances);
        self.issued = Ghost(self.issued@ + 1);
        instances.insert(wasm_path, handle);
        self.instance_cache = instances;
        shared
    }

    /// Hands out the instance of the module at `wasm_path`, building it if
    /// the cache does not hold it.
    ///
    /// A cached instance is returned as it is, and the runtime is not asked
    /// for anything. Otherwise the file is read, compiled unless the cache
    /// holds a module compiled from the same bytes, and instantiated; module
    /// and instance are put into the cache. An error of the runtime comes
    /// back as the error of the step that met it.
    pub fn load_and_instantiate(&mut self, wasm_path: &str, runtime: &R) -> (result: Result<
        InstanceHandle<R::Instance>,
        LoadError,
    >)
        ensures
            load_outcome(runtime, old(self)@, wasm_path@, final(self)@, result),
            final(self)@.consistent(),
    {
        proof {
            use_type_invariant(&*self);
        }
        match self.cached_instance(wasm_path) {
            Some(handle) => {
                return Ok(handle);
            },
            None => {},
        }
        let bytes = match runtime.read_module(wasm_path) {
            Ok(bytes) => bytes,
            Err(cause) => {
                return Err(LoadError::Io { path: wasm_path.to_owned(), cause });
            },
        };
        if !self.has_current_module(wasm_path, bytes.as_slice()) {
            match runtime.compile(&bytes) {
                Ok(module) => {
                    self.store_module(wasm_path, bytes, module);
                },
                Err(cause) => {
                    return Err(LoadError::Compile { path: wasm_path.to_owned(), cause });
                },
            }
        }
        // The module is in the cache: it was found there or just put there.
        let record = self.module_cache.get(wasm_path).unwrap();
        let built = runtime.instantiate(&record.module);
        match built {
            Ok(instance) => Ok(self.store_instance(wasm_path, instance)),
            Err(cause) => Err(LoadError::Instantiation { path: wasm_path.to_owned(), cause }),
        }
    }

    /// Forgets the compiled module and the live instance of `wasm_path`.
    /// Where the cache holds neither, nothing changes.
    pub fn clear_cache(&mut self, wasm_path: &str)
        ensures
            final(self)@ == old(self)@.without(wasm_path@),
            final(self)@.consistent(),
    {
        proof {
            use_type_invariant(&*self);
        }
        let mut modules: Table<ModuleRecord<R::Module>> = Table::new();
        core::mem::swap(&mut self.module_cache, &mut modules);
        modules.remove(wasm_path);
        self.module_cache = modules;
        let mut instances: Table<InstanceHandle<R::Instance>> = Table::new();
        core::mem::swap(&mut self.instance_cache, &mut instances);
        instances.remove(wasm_path);
        self.instance_cache = instances;
    }

    /// Builds the instance of the module at `wasm_path` anew.
    ///
    /// The cache forgets the path and then loads it as
    /// [`WasmInstanceCache::load_and_instantiate`] does, so the instance that
    /// was cached before is never handed out again.
    pub fn hot_reload(&mut self, wasm_path: &str, runtime: &R) -> (result: Result<
        InstanceHandle<R::Instance>,
        LoadError,
    >)
        ensures
            hot_reload_outcome(runtime, old(self)@, wasm_path@, final(self)@, result),
            final(self)@.consistent(),
    {
        self.clear_cache(wasm_path);
        self.load_and_instantiate(wasm_path, runtime)
    }
}

/// Hands out the instance of the module at `wasm_path` from `instance_cache`,
/// as [`WasmInstanceCache::load_and_instantiate`] does.
pub fn load_wasm_instance<R: GuestRuntime>(
    wasm_path: &str,
    instance_cache: &mut WasmInstanceCache<R>,
    runtime: &R,
) -> (result: Result<InstanceHandle<R::Instance>, LoadError>)
    ensures
        load_outcome(runtime, old(instance_cache)@, wasm_path@, final(instance_cache)@, result),
        final(instance_cache)@.consistent(),
{
    instance_cache.load_and_instantiate(wasm_path, runtime)
}

/// What asking for an instance does to the cache, whatever the runtime
/// answers: at most one instance is built, the answer is the instance that
/// the cache then holds for the path, and no other path is touched.
pub proof fn lemma_load_effects<R: GuestRuntime>(
    runtime: &R,
    before: CacheView<R::Module, R::Instance>,
    path: Seq<char>,
    after: CacheView<R::Module, R::Instance>,
    result: Result<InstanceHandle<R::Instance>, LoadError>,
)
    requires
        before.consistent(),
        load_outcome(runtime, before, path, after, result),
    ensures
        after.consistent(),
        before.issued <= after.issued <= before.issued + 1,
        result is Ok <==> after.instances.contains_key(path),
        result matches Ok(handle) ==> after.instances[path] == handle && handle.generation@
            < after.issued,
        result matches Ok(handle) ==> (before.instances.contains_key(path) || handle.generation@
            == before.issued),
        forall|other: Seq<char>|
            other != path ==> (#[trigger] after.instances.contains_key(other)
                <==> before.instances.contains_key(other)),
        forall|other: Seq<char>|
            other != path && before.instances.contains_key(other) ==> #[trigger] after.instances[other]
                == before.instances[other],
        forall|other: Seq<char>|
            other != path ==> (#[trigger] after.modules.contains_key(other)
                <==> before.modules.contains_key(other)),
        forall|other: Seq<char>|
            other != path && before.modules.contains_key(other) ==> #[trigger] after.modules[other]
                == before.modules[other],
{
}

/// Asking twice for the instance of a path gives the same instance twice:
/// once an instance is handed out, asking again changes nothing in the cache
/// and, whatever the runtime would answer, hands out that instance.
pub proof fn lemma_repeated_load_returns_same_instance<R: GuestRuntime>(
    runtime: &R,
    first: CacheView<R::Module, R::Instance>,
    path: Seq<char>,
    second: CacheView<R::Module, R::Instance>,
    handle: InstanceHandle<R::Instance>,
    third: CacheView<R::Module, R::Instance>,
    again: Result<InstanceHandle<R::Instance>, LoadError>,
)
    requires
        first.consistent(),
        load_outcome(runtime, first, path, second, Ok(handle)),
        load_outcome(runtime, second, path, third, again),
    ensures
        third == second,
        again == Ok::<InstanceHandle<R::Instance>, LoadError>(handle),
{
    lemma_load_effects(runtime, first, path, second, Ok(handle));
}

/// A hot reload that succeeds hands out an instance that was built in the
/// course of it: its number is none of those that the cache had given out
/// before, so it is none of the instances handed out before. Asking for the
/// path afterwards hands out that same new instance.
pub proof fn lemma_hot_reload_hands_out_fresh_instance<R: GuestRuntime>(
    runtime: &R,
    before: CacheView<R::Module, R::Instance>,
    path: Seq<char>,
    after: CacheView<R::Module, R::Instance>,
    handle: InstanceHandle<R::Instance>,
    later: CacheView<R::Module, R::Instance>,
    again: Result<InstanceHandle<R::Instance>, LoadError>,
)
    requires
        before.consistent(),
        hot_reload_outcome(runtime, before, path, after, Ok(handle)),
        load_outcome(runtime, after, path, later, again),
    ensures
        handle.generation@ == before.issued,
        forall|held: Seq<char>| #[trigger]
            before.instances.contains_key(held) ==> before.instances[held].generation@
                != handle.generation@,
        later == after,
        again == Ok::<InstanceHandle<R::Instance>, LoadError>(handle),
{
    lemma_load_effects(runtime, before.without(path), path, after, Ok(handle));
}

/// What a call of an entry point brought back.
#[derive(Debug, Clone, PartialEq, Eq)]
pub enum CallReport {
    /// The entry point returned the offset of a text.
    Text {
        /// The offset that was returned.
        pointer: i32,
        /// The text at that offset.
        text: String,
    },
    /// The entry point returned the offset of an empty text.
    EmptyText {
        /// The offset that was returned.
        pointer: i32,
    },
    /// The entry point returned a number, and the guest exports no memory in
    /// which to look it up.
    Pointer {
        /// The number that was returned.
        pointer: i32,
    },
    /// The entry point returns nothing, and returned.
    NoResult,
}

/// Why an entry point was not called, or why its call failed.
#[derive(Debug, Clone, PartialEq, Eq)]
pub enum CallError {
    /// The allowlist does not permit the function for the module.
    Unauthorized {
        /// The function that was asked for.
        function: String,
        /// The module it was asked of.
        path: String,
        /// The functions that the allowlist permits for the module.
        allowed: Vec<String>,
    },
    /// The module could not be loaded.
    Load(LoadError),
    /// The module has no export of that name.
    ExportNotFound {
        /// The function that was asked for.
        function: String,
    },
    /// The export of that name is not a function.
    NotCallable {
        /// The function that was asked for.
        function: String,
    },
    /// The function has neither of the two signatures that the host calls.
    SignatureMismatch {
        /// The function that was asked for.
        function: String,
        /// What the runtime reported of its signature.
        detail: String,
    },
    /// The call failed while the guest ran.
    CallFailed {
        /// The function that was called.
        function: String,
        /// What the runtime reported.
        cause: String,
    },
    /// The function returned an offset at which no text ends inside the
    /// guest's memory.
    Memory {
        /// The function that was called.
        function: String,
        /// The access that failed.
        error: MemoryAccessError,
    },
    /// The function returned the offset of bytes that are not UTF-8.
    InvalidText {
        /// The function that was called.
        function: String,
    },
}

/// Whether `result` reports the text that stands at `pointer` in the guest's
/// memory. Without a memory the number itself is reported. With one, the
/// bytes up to the first zero byte are the text: they must exist and, unless
/// there are none, be UTF-8.
pub open spec fn return_report(
    function: Seq<char>,
    pointer: i32,
    memory: Option<Vec<u8>>,
    result: Result<CallReport, CallError>,
) -> bool {
    match memory {
        None => result matches Ok(CallReport::Pointer { pointer: p }) && p == pointer,
        Some(bytes) => if !has_terminator(bytes@, pointer as int) {
            &&& result matches Err(CallError::Memory { function: f, error })
            &&& f@ == function
            &&& error == (MemoryAccessError { ptr: pointer, memory_len: bytes@.len() as usize })
        } else {
            exists|text: Seq<u8>| #[trigger]
                is_c_string_at(bytes@, pointer as int, text) && if text.len() == 0 {
                    result matches Ok(CallReport::EmptyText { pointer: p }) && p == pointer
                } else if !valid_utf8(text) {
                    result matches Err(CallError::InvalidText { function: f }) && f@ == function
                } else {
                    &&& result matches Ok(CallReport::Text { pointer: p, text: t })
                    &&& p == pointer
                    &&& encode_utf8(t@) == text
                }
        },
    }
}

/// What calling `function` as a function without result can bring back.
pub open spec fn plain_call_outcome<R: GuestRuntime>(
    runtime: &R,
    instance: R::Instance,
    function: Seq<char>,
    result: Result<CallReport, CallError>,
) -> bool {
    exists|name: &str, second: CallOutcome<()>|
        name@ == function && #[trigger] call_ensures(
            R::call_without_result,
            (runtime, &instance, name),
            second,
        ) && match second {
            CallOutcome::Returned(_) => result matches Ok(CallReport::NoResult),
            CallOutcome::Failed { cause } => {
                &&& result matches Err(CallError::CallFailed { function: f, cause: c })
                &&& f@ == function
                &&& c == cause
            },
            CallOutcome::SignatureMismatch { detail } => {
                &&& result matches Err(CallError::SignatureMismatch { function: f, detail: d })
                &&& f@ == function
                &&& d == detail
            },
        }
}

/// What calling `function` can bring back: it is tried first as a function
/// that returns an offset, and only where it does not have that signature as
/// a function without result.
pub open spec fn pointer_call_outcome<R: GuestRuntime>(
    runtime: &R,
    instance: R::Instance,
    function: Seq<char>,
    result: Result<CallReport, CallError>,
) -> bool {
    exists|name: &str, first: CallOutcome<i32>|
        name@ == function && #[trigger] call_ensures(
            R::call_returning_pointer,
            (runtime, &instance, name),
            first,
        ) && match first {
            CallOutcome::Returned(pointer) => exists|memory: Option<Vec<u8>>| #[trigger]
                call_ensures(R::memory, (runtime, &instance), memory) && return_report(
                    function,
                    pointer,
                    memory,
                    result,
                ),
            CallOutcome::Failed { cause } => {
                &&& result matches Err(CallError::CallFailed { function: f, cause: c })
                &&& f@ == function
                &&& c == cause
            },
            CallOutcome::SignatureMismatch { detail } => plain_call_outcome(
                runtime,
                instance,
                function,
                result,
            ),
        }
}

/// What invoking the export `function` of an instance can bring back: an
/// error where the export is missing or is no function, else the outcome of
/// the call.
pub open spec fn invoke_outcome<R: GuestRuntime>(
    runtime: &R,
    instance: R::Instance,
    function: Seq<char>,
    result: Result<CallReport, CallError>,
) -> bool {
    exists|name: &str, kind: ExportKind|
        name@ == function && #[trigger] call_ensures(
            R::find_export,
            (runtime, &instance, name),
            kind,
        ) && match kind {
            ExportKind::Missing => result matches Err(CallError::ExportNotFound { function: f })
                && f@ == function,
            ExportKind::NotFunction => result matches Err(CallError::NotCallable { function: f })
                && f@ == function,
            ExportKind::Function => pointer_call_outcome(runtime, instance, function, result),
        }
}

/// What a call of an entry point can leave behind. A function that the
/// allowlist does not permit for the module is refused, with the permitted
/// functions in the error, and the cache stays as it was. A function that is
/// permitted has the module reloaded and is then invoked on the new instance.
pub open spec fn entry_call_outcome<R: GuestRuntime>(
    runtime: &R,
    config: Map<Seq<char>, Seq<Seq<char>>>,
    before: CacheView<R::Module, R::Instance>,
    path: Seq<char>,
    function: Seq<char>,
    after: CacheView<R::Module, R::Instance>,
    result: Result<CallReport, CallError>,
) -> bool {
    if !allowed_functions(config, path).contains(function) {
        &&& after == before
        &&& result matches Err(CallError::Unauthorized { function: f, path: p, allowed })
        &&& f@ == function
        &&& p@ == path
        &&& names_view(allowed@) == allowed_functions(config, path)
    } else {
        exists|loaded: Result<InstanceHandle<R::Instance>, LoadError>| #[trigger]
            hot_reload_outcome(runtime, before, path, after, loaded) && match loaded {
                Err(error) => result matches Err(CallError::Load(e)) && e == error,
                Ok(handle) => invoke_outcome(runtime, *handle.instance, function, result),
            }
    }
}

/// Reports what stands at the offset that an entry point returned.
pub fn describe_return(func_name: &str, pointer: i32, memory: Option<Vec<u8>>) -> (result: Result<
    CallReport,
    CallError,
>)
    ensures
        return_report(func_name@, pointer, memory, result),
{
    let bytes = match memory {
        None => {
            return Ok(CallReport::Pointer { pointer });
        },
        Some(bytes) => bytes,
    };
    match read_c_string(bytes.as_slice(), pointer) {
        Err(error) => Err(CallError::Memory { function: func_name.to_owned(), error }),
        Ok(text) => {
            let ghost text_bytes = text@;
            if text.len() == 0 {
                Ok(CallReport::EmptyText { pointer })
            } else {
                match string_from_utf8(text) {
                    None => Err(CallError::InvalidText { function: func_name.to_owned() }),
                    Some(text) => Ok(CallReport::Text { pointer, text }),
                }
            }
        },
    }
}

/// Invokes the export `func_name` of `instance`.
pub fn invoke_export<R: GuestRuntime>(runtime: &R, instance: &R::Instance, func_name: &str) -> (result:
    Result<CallReport, CallError>)
    ensures
        invoke_outcome(runtime, *instance, func_name@, result),
{
    let kind = runtime.find_export(instance, func_name);
    match kind {
        ExportKind::Missing => Err(CallError::ExportNotFound { function: func_name.to_owned() }),
        ExportKind::NotFunction => Err(CallError::NotCallable { function: func_name.to_owned() }),
        ExportKind::Function => {
            let first = runtime.call_returning_pointer(instance, func_name);
            let result = match first {
                CallOutcome::Returned(pointer) => {
                    let memory = runtime.memory(instance);
                    describe_return(func_name, pointer, memory)
                },
                CallOutcome::Failed { cause } => Err(
                    CallError::CallFailed { function: func_name.to_owned(), cause },
                ),
                CallOutcome::SignatureMismatch { detail } => {
                    let second = runtime.call_without_result(instance, func_name);
                    let result = match second {
                        CallOutcome::Returned(_) => Ok(CallReport::NoResult),
                        CallOutcome::Failed { cause } => Err(
                            CallError::CallFailed { function: func_name.to_owned(), cause },
                        ),
                        CallOutcome::SignatureMismatch { detail } => Err(
                            CallError::SignatureMismatch {
                                function: func_name.to_owned(),
                                detail,
                            },
                        ),
                    };
                    assert(plain_call_outcome(runtime, *instance, func_name@, result));
                    result
                },
            };
            assert(pointer_call_outcome(runtime, *instance, func_name@, result));
            result
        },
    }
}

/// Calls the entry point `func_name` of the module at `wasm_path`, if the
/// allowlist permits it.
///
/// A function that is not permitted is refused before anything is loaded.
/// One that is permitted is called on a fresh instance: the module is
/// reloaded first, so that the call runs what the file holds now.
pub fn call_wasm_function<R: GuestRuntime>(
    wasm_path: &str,
    func_name: &str,
    instance_cache: &mut WasmInstanceCache<R>,
    dynamic_config: &DynamicConfig,
    runtime: &R,
) -> (result: Result<CallReport, CallError>)
    ensures
        entry_call_outcome(
            runtime,
            dynamic_config@,
            old(instance_cache)@,
            wasm_path@,
            func_name@,
            final(instance_cache)@,
            result,
        ),
        final(instance_cache)@.consistent(),
{
    let allowed = dynamic_config.get_entry_functions_for_file(wasm_path);
    if !names_contain(&allowed, func_name) {
        proof {
            use_type_invariant(&*instance_cache);
        }
        return Err(
            CallError::Unauthorized {
                function: func_name.to_owned(),
                path: wasm_path.to_owned(),
                allowed,
            },
        );
    }
    let loaded = instance_cache.hot_reload(wasm_path, runtime);
    match loaded {
        Err(error) => Err(CallError::Load(error)),
        Ok(handle) => invoke_export(runtime, &*handle.instance, func_name),
    }
}

/// The text that `{:?}` gives for a list of names.
pub uninterp spec fn debug_list_text(names: Seq<Seq<char>>) -> Seq<char>;

/// `format!` with `{:?}` on a list of strings: the list as the standard
/// library prints it for debugging. The contract claims of it only that the
/// text depends on the characters of the names and on nothing else.
#[verifier::external_body]
fn debug_list(names: &Vec<String>) -> (text: String)
    ensures
        text@ == debug_list_text(names_view(names@)),
{
    format!("{:?}", names)
}

/// The words of a load error.
pub open spec fn load_error_text(error: LoadError) -> Seq<char> {
    match error {
        LoadError::Io { path, cause } => "Failed to read WASM file '"@ + path@ + "': "@ + cause@,
        LoadError::Compile { path, cause } => "Failed to compile WASM file '"@ + path@ + "': "@
            + cause@,
        LoadError::Instantiation { path, cause } => "Failed to instantiate WASM file '"@ + path@
            + "': "@ + cause@,
    }
}

/// The words of a call error. A refusal names the function, the module and
/// the functions that are permitted for the module.
pub open spec fn call_error_text(error: CallError) -> Seq<char> {
    match error {
        CallError::Unauthorized { function, path, allowed } => "Function '"@ + function@
            + "' is not configured as an entry function for WASM file '"@ + path@
            + "'. Allowed functions: "@ + debug_list_text(names_view(allowed@)),
        CallError::Load(error) => load_error_text(error),
        CallError::ExportNotFound { function } => "Export '"@ + function@
            + "' not found in WASM module"@,
        CallError::NotCallable { function } => "Export '"@ + function@ + "' is not a function"@,
        CallError::SignatureMismatch { function, detail } => "Cannot call function '"@ + function@
            + "': incompatible signature, error: "@ + detail@,
        CallError::CallFailed { function, cause } => "Call of function '"@ + function@
            + "' failed: "@ + cause@,
        CallError::Memory { function, error } => "Function '"@ + function@
            + "' returned a pointer to text that does not end inside the guest memory"@,
        CallError::InvalidText { function } => "Function '"@ + function@
            + "' returned text that is not valid UTF-8"@,
    }
}

fn text_of_three(first: &str, second: &str, third: &str) -> (text: String)
    ensures
        text@ == first@ + second@ + third@,
{
    let mut text: String = first.to_owned();
    text.append(second);
    text.append(third);
    text
}

fn text_of_four(first: &str, second: &str, third: &str, fourth: &str) -> (text: String)
    ensures
        text@ == first@ + second@ + third@ + fourth@,
{
    let mut text = text_of_three(first, second, third);
    text.append(fourth);
    text
}

impl LoadError {
    /// The error in words.
    pub fn message(&self) -> (text: String)
        ensures
            text@ == load_error_text(*self),
    {
        match self {
            LoadError::Io { path, cause } => text_of_four(
                "Failed to read WASM file '",
                path.as_str(),
                "': ",
                cause.as_str(),
            ),
            LoadError::Compile { path, cause } => text_of_four(
                "Failed to compile WASM file '",
                path.as_str(),
                "': ",
                cause.as_str(),
            ),
            LoadError::Instantiation { path, cause } => text_of_four(
                "Failed to instantiate WASM file '",
                path.as_str(),
                "': ",
                cause.as_str(),
            ),
        }
    }
}

impl CallError {
    /// The error in words.
    pub fn message(&self) -> (text: String)
        ensures
            text@ == call_error_text(*self),
    {
        match self {
            CallError::Unauthorized { function, path, allowed } => {
                let mut text = text_of_four(
                    "Function '",
                    function.as_str(),
                    "' is not configured as an entry function for WASM file '",
                    path.as_str(),
                );
                text.append("'. Allowed functions: ");
                let list = debug_list(allowed);
                text.append(list.as_str());
                text
            },
            CallError::Load(error) => error.message(),
            CallError::ExportNotFound { function } => text_of_three(
                "Export '",
                function.as_str(),
                "' not found in WASM module",
            ),
            CallError::NotCallable { function } => text_of_three(
                "Export '",
                function.as_str(),
                "' is not a function",
            ),
            CallError::SignatureMismatch { function, detail } => text_of_four(
                "Cannot call function '",
                function.as_str(),
                "': incompatible signature, error: ",
                detail.as_str(),
            ),
            CallError::CallFailed { function, cause } => text_of_four(
                "Call of function '",
                function.as_str(),
                "' failed: ",
                cause.as_str(),
            ),
            CallError::Memory { function, error } => text_of_three(
                "Function '",
                function.as_str(),
                "' returned a pointer to text that does not end inside the guest memory",
            ),
            CallError::InvalidText { function } => text_of_three(
                "Function '",
                function.as_str(),
                "' returned text that is not valid UTF-8",
            ),
        }
    }
}

/// Whether `path` names a guest module: the name of the file, which is what
/// follows the last `/`, ends in `.wasm` and is longer than that.
pub open spec fn has_wasm_extension(path: Seq<char>) -> bool {
    let n = path.len() as int;
    &&& n > 5
    &&& path[n - 6] != '/'
    &&& path[n - 5] == '.'
    &&& path[n - 4] == 'w'
    &&& path[n - 3] == 'a'
    &&& path[n - 2] == 's'
    &&& path[n - 1] == 'm'
}

/// Whether `path` names a guest module.
pub fn is_wasm_path(path: &str) -> (wasm: bool)
    ensures
        wasm == has_wasm_extension(path@),
{
    let n: usize = path.unicode_len();
    if n <= 5 {
        return false;
    }
    path.get_char(n - 6) != '/' && path.get_char(n - 5) == '.' && path.get_char(n - 4) == 'w'
        && path.get_char(n - 3) == 'a' && path.get_char(n - 2) == 's' && path.get_char(n - 1)
        == 'm'
}

/// The guest modules among `paths`, in the order of `paths`.
pub open spec fn wasm_paths(paths: Seq<String>) -> Seq<Seq<char>>
    decreases paths.len(),
{
    if paths.len() == 0 {
        Seq::empty()
    } else if has_wasm_extension(paths.last()@) {
        wasm_paths(paths.drop_last()).push(paths.last()@)
    } else {
        wasm_paths(paths.drop_last())
    }
}

/// The guest modules that a message has reloaded: those named by a change of
/// file contents. No other message reloads anything.
pub open spec fn modules_to_reload(event: WatchEvent) -> Seq<Seq<char>> {
    match event {
        WatchEvent::Changed { kind, paths } => if kind == ChangeKind::DataModified {
            wasm_paths(paths@)
        } else {
            Seq::empty()
        },
        _ => Seq::empty(),
    }
}

/// How the reload of one guest module ended.
#[derive(Debug, Clone, PartialEq, Eq)]
pub struct ReloadReport {
    /// The path of the module.
    pub path: String,
    /// Why the reload failed, if it failed.
    pub error: Option<LoadError>,
}

/// Whether `report` reports `result` as the end of the reload of `path`.
pub open spec fn reports_reload<I>(
    report: ReloadReport,
    path: Seq<char>,
    result: Result<InstanceHandle<I>, LoadError>,
) -> bool {
    &&& report.path@ == path
    &&& match result {
        Ok(_) => report.error is None,
        Err(error) => report.error == Some(error),
    }
}

/// Whether hot reloads of `paths`, one after the other, can lead from the
/// cache `before` to the cache `after`, with `reports` telling how each of
/// them ended.
pub open spec fn reload_chain<R: GuestRuntime>(
    runtime: &R,
    before: CacheView<R::Module, R::Instance>,
    paths: Seq<Seq<char>>,
    after: CacheView<R::Module, R::Instance>,
    reports: Seq<ReloadReport>,
) -> bool
    decreases paths.len(),
{
    if paths.len() == 0 {
        after == before && reports.len() == 0
    } else {
        &&& reports.len() == paths.len()
        &&& exists|
            middle: CacheView<R::Module, R::Instance>,
            result: Result<InstanceHandle<R::Instance>, LoadError>,
        |
            {
                &&& reload_chain(runtime, before, paths.drop_last(), middle, reports.drop_last())
                &&& #[trigger] hot_reload_outcome(runtime, middle, paths.last(), after, result)
                &&& reports_reload(reports.last(), paths.last(), result)
            }
    }
}

/// After a chain of hot reloads no instance that was cached before for one
/// of the reloaded paths is left: such a path has a newly built instance or
/// none. What the cache holds for every other path is untouched.
pub proof fn lemma_reload_chain_leaves_no_stale_instance<R: GuestRuntime>(
    runtime: &R,
    before: CacheView<R::Module, R::Instance>,
    paths: Seq<Seq<char>>,
    after: CacheView<R::Module, R::Instance>,
    reports: Seq<ReloadReport>,
)
    requires
        before.consistent(),
        reload_chain(runtime, before, paths, after, reports),
    ensures
        after.consistent(),
        before.issued <= after.issued,
        forall|path: Seq<char>|
            paths.contains(path) && #[trigger] after.instances.contains_key(path)
                ==> after.instances[path].generation@ >= before.issued,
        forall|path: Seq<char>|
            !paths.contains(path) ==> (#[trigger] after.instances.contains_key(path)
                <==> before.instances.contains_key(path)),
        forall|path: Seq<char>|
            !paths.contains(path) && before.instances.contains_key(path)
                ==> #[trigger] after.instances[path] == before.instances[path],
        forall|path: Seq<char>|
            !paths.contains(path) ==> (#[trigger] after.modules.contains_key(path)
                <==> before.modules.contains_key(path)),
        forall|path: Seq<char>|
            !paths.contains(path) && before.modules.contains_key(path)
                ==> #[trigger] after.modules[path] == before.modules[path],
    decreases paths.len(),
{
    if paths.len() > 0 {
        let (middle, result) = choose|
            middle: CacheView<R::Module, R::Instance>,
            result: Result<InstanceHandle<R::Instance>, LoadError>,
        |
            {
                &&& reload_chain(runtime, before, paths.drop_last(), middle, reports.drop_last())
                &&& #[trigger] hot_reload_outcome(runtime, middle, paths.last(), after, result)
                &&& reports_reload(reports.last(), paths.last(), result)
            };
        let earlier = paths.drop_last();
        let last = paths.last();
        lemma_reload_chain_leaves_no_stale_instance(
            runtime,
            before,
            earlier,
            middle,
            reports.drop_last(),
        );
        lemma_load_effects(runtime, middle.without(last), last, after, result);
        assert(paths.contains(last)) by {
            assert(paths[paths.len() - 1] == last);
        }
        assert forall|path: Seq<char>| earlier.contains(path) implies paths.contains(path) by {
            let i = choose|i: int| 0 <= i < earlier.len() && earlier[i] == path;
            assert(paths[i] == path);
        }
        assert forall|path: Seq<char>| paths.contains(path) && path != last implies earlier.contains(
            path,
        ) by {
            let i = choose|i: int| 0 <= i < paths.len() && paths[i] == path;
            assert(earlier[i] == path);
        }
    }
}

/// The watcher's side of hot reloading: which directory is watched, and what
/// a message of the watcher does to the cache.
pub struct WasmHotReloader {
    watch_path: String,
}

impl WasmHotReloader {
    /// The directory that is watched.
    pub closed spec fn view(self) -> Seq<char> {
        self.watch_path@
    }

    /// A reloader for the guest modules below `watch_path`.
    pub fn new(watch_path: &str) -> (reloader: Self)
        ensures
            reloader@ == watch_path@,
    {
        WasmHotReloader { watch_path: watch_path.to_owned() }
    }

    /// The directory that is watched.
    pub fn watch_path(&self) -> (path: &str)
        ensures
            path@ == self@,
    {
        self.watch_path.as_str()
    }

    /// Takes in one message of the watcher.
    ///
    /// A change of file contents has every guest module that it names
    /// reloaded, in the order in which it names them; a reload that fails is
    /// reported and the next one is made all the same. Every other message
    /// leaves the cache as it is. The loop ends only when the watcher is
    /// gone.
    pub fn handle_event<R: GuestRuntime>(
        &self,
        instance_cache: &mut WasmInstanceCache<R>,
        runtime: &R,
        event: &WatchEvent,
    ) -> (outcome: (WatchStep, Vec<ReloadReport>))
        ensures
            outcome.0 == step_after(*event),
            reload_chain(
                runtime,
                old(instance_cache)@,
                modules_to_reload(*event),
                final(instance_cache)@,
                outcome.1@,
            ),
            final(instance_cache)@.consistent(),
    {
        proof {
            use_type_invariant(&*instance_cache);
        }
        let mut reports: Vec<ReloadReport> = Vec::new();
        match event {
            WatchEvent::Changed { kind, paths } => {
                match kind {
                    ChangeKind::DataModified => {
                        let mut i: usize = 0;
                        while i < paths.len()
                            invariant
                                i <= paths@.len(),
                                instance_cache@.consistent(),
                                reload_chain(
                                    runtime,
                                    old(instance_cache)@,
                                    wasm_paths(paths@.subrange(0, i as int)),
                                    instance_cache@,
                                    reports@,
                                ),
                            decreases paths@.len() - i,
                        {
                            let ghost done = wasm_paths(paths@.subrange(0, i as int));
                            let ghost middle = instance_cache@;
                            let ghost earlier = reports@;
                            proof {
                                assert(paths@.subrange(0, i + 1).drop_last() == paths@.subrange(
                                    0,
                                    i as int,
                                ));
                                assert(paths@.subrange(0, i + 1).last() == paths@[i as int]);
                            }
                            if is_wasm_path(paths[i].as_str()) {
                                let result = instance_cache.hot_reload(paths[i].as_str(), runtime);
                                let ghost seen = result;
                                let error = match result {
                                    Ok(_) => None,
                                    Err(error) => Some(error),
                                };
                                reports.push(ReloadReport { path: paths[i].clone(), error });
                                proof {
                                    let now = done.push(paths@[i as int]@);
                                    assert(now.drop_last() == done);
                                    assert(reports@.drop_last() == earlier);
                                    assert(reports_reload(reports@.last(), now.last(), seen));
                                    assert(hot_reload_outcome(
                                        runtime,
                                        middle,
                                        now.last(),
                                        instance_cache@,
                                        seen,
                                    ));
                                }
                            }
                            i = i + 1;
                        }
                        assert(paths@.subrange(0, paths@.len() as int) == paths@);
                    },
                    _ => {},
                }
                (WatchStep::Continue, reports)
            },
            WatchEvent::Failed { cause } => (WatchStep::Continue, reports),
            WatchEvent::Closed => (WatchStep::Stop, reports),
        }
    }
}

} // verus!
