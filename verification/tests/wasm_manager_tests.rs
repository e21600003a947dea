use dlink_wm::config::{DlinkWMConfig, DynamicConfig};
use dlink_wm::utils::MemoryAccessError;
use dlink_wm::wasm_manager::{
    call_wasm_function, describe_return, invoke_export, is_wasm_path, load_wasm_instance,
    CallError, CallOutcome, CallReport, ExportKind, GuestRuntime, InstanceHandle, LoadError,
    ReloadReport, WasmHotReloader, WasmInstanceCache,
};
use dlink_wm::watch::{ChangeKind, WatchEvent, WatchStep};
use std::cell::{Cell, RefCell};
use std::collections::HashMap;
use std::sync::Arc;

/// A module of the stub runtime is a text of lines:
/// `text NAME WORDS` exports a function that returns the offset of WORDS,
/// `void NAME` one that returns nothing, `odd NAME` one with another
/// signature, `trap NAME` one that fails when called, `global NAME` an
/// export that is no function, `nomemory` takes the memory away, and
/// `refuse` makes instantiation fail. A text that does not start with
/// `module` does not compile.
#[derive(Debug, Clone, PartialEq)]
struct StubModule {
    lines: Vec<String>,
    serial: u32,
}

#[derive(Debug)]
struct StubInstance {
    exports: HashMap<String, (String, i32)>,
    memory: Option<Vec<u8>>,
    module_serial: u32,
}

struct StubRuntime {
    files: RefCell<HashMap<String, Vec<u8>>>,
    reads: Cell<u32>,
    compiles: Cell<u32>,
    instantiations: Cell<u32>,
    calls: Cell<u32>,
}

impl StubRuntime {
    fn new() -> Self {
        StubRuntime {
            files: RefCell::new(HashMap::new()),
            reads: Cell::new(0),
            compiles: Cell::new(0),
            instantiations: Cell::new(0),
            calls: Cell::new(0),
        }
    }

    fn with_file(path: &str, text: &str) -> Self {
        let runtime = StubRuntime::new();
        runtime.write(path, text);
        runtime
    }

    fn write(&self, path: &str, text: &str) {
        self.files.borrow_mut().insert(path.to_string(), text.as_bytes().to_vec());
    }

    fn remove(&self, path: &str) {
        self.files.borrow_mut().remove(path);
    }
}

impl GuestRuntime for StubRuntime {
    type Module = StubModule;
    type Instance = StubInstance;

    fn read_module(&self, path: &str) -> Result<Vec<u8>, String> {
        self.reads.set(self.reads.get() + 1);
        self.files.borrow().get(path).cloned().ok_or(format!("no such file: {}", path))
    }

    fn compile(&self, bytes: &Vec<u8>) -> Result<StubModule, String> {
        self.compiles.set(self.compiles.get() + 1);
        let text = String::from_utf8(bytes.clone()).map_err(|_| "not a module".to_string())?;
        let mut lines = text.lines().map(|line| line.to_string());
        if lines.next().as_deref() != Some("module") {
            return Err("bad magic".to_string());
        }
        Ok(StubModule { lines: lines.collect(), serial: self.compiles.get() })
    }

    fn instantiate(&self, module: &StubModule) -> Result<StubInstance, String> {
        self.instantiations.set(self.instantiations.get() + 1);
        let mut exports = HashMap::new();
        let mut memory = vec![0u8; 8];
        let mut has_memory = true;
        for line in &module.lines {
            let mut words = line.splitn(3, ' ');
            let kind = words.next().unwrap_or("");
            let name = words.next().unwrap_or("").to_string();
            match kind {
                "text" => {
                    let offset = memory.len() as i32;
                    memory.extend_from_slice(words.next().unwrap_or("").as_bytes());
                    memory.push(0);
                    exports.insert(name, ("text".to_string(), offset));
                }
                "raw" => {
                    let offset = memory.len() as i32;
                    memory.extend_from_slice(&[0xFF, 0xFE]);
                    memory.push(0);
                    exports.insert(name, ("text".to_string(), offset));
                }
                "far" => {
                    exports.insert(name, ("text".to_string(), 1_000_000));
                }
                "void" | "odd" | "trap" | "global" => {
                    exports.insert(name, (kind.to_string(), 0));
                }
                "nomemory" => has_memory = false,
                "refuse" => return Err("unknown import".to_string()),
                _ => {}
            }
        }
        Ok(StubInstance {
            exports,
            memory: if has_memory { Some(memory) } else { None },
            module_serial: module.serial,
        })
    }

    fn find_export(&self, instance: &StubInstance, name: &str) -> ExportKind {
        match instance.exports.get(name) {
            None => ExportKind::Missing,
            Some((kind, _)) if kind == "global" => ExportKind::NotFunction,
            Some(_) => ExportKind::Function,
        }
    }

    fn call_returning_pointer(&self, instance: &StubInstance, name: &str) -> CallOutcome<i32> {
        self.calls.set(self.calls.get() + 1);
        match instance.exports.get(name) {
            Some((kind, offset)) if kind == "text" => CallOutcome::Returned(*offset),
            Some((kind, _)) if kind == "trap" => {
                CallOutcome::Failed { cause: "unreachable executed".to_string() }
            }
            _ => CallOutcome::SignatureMismatch { detail: "expected () -> i32".to_string() },
        }
    }

    fn call_without_result(&self, instance: &StubInstance, name: &str) -> CallOutcome<()> {
        self.calls.set(self.calls.get() + 1);
        match instance.exports.get(name) {
            Some((kind, _)) if kind == "void" => CallOutcome::Returned(()),
            _ => CallOutcome::SignatureMismatch { detail: "expected () -> ()".to_string() },
        }
    }

    fn memory(&self, instance: &StubInstance) -> Option<Vec<u8>> {
        instance.memory.clone()
    }
}

fn names(list: &[&str]) -> Vec<String> {
    list.iter().map(|name| name.to_string()).collect()
}

fn store_of(entries: &[(&str, &[&str])]) -> DynamicConfig {
    let config = DlinkWMConfig::from_entries(
        entries.iter().map(|(path, list)| (path.to_string(), names(list))).collect(),
    );
    DynamicConfig::new("dlinkwm.toml", config)
}

fn loaded(result: Result<InstanceHandle<StubInstance>, LoadError>) -> Arc<StubInstance> {
    match result {
        Ok(handle) => handle.instance,
        Err(error) => panic!("load failed: {}", error.message()),
    }
}

fn failed(result: Result<InstanceHandle<StubInstance>, LoadError>) -> LoadError {
    match result {
        Ok(_) => panic!("load succeeded"),
        Err(error) => error,
    }
}

fn data_change(paths: &[&str]) -> WatchEvent {
    WatchEvent::Changed { kind: ChangeKind::DataModified, paths: names(paths) }
}

const HELLO: &str = "module\ntext foo hello wasm!\nvoid quiet";

#[test]
fn a_function_that_is_not_permitted_is_refused() {
    let runtime = StubRuntime::with_file("a.mod", "module\ntext foo hi\ntext bar ho");
    let mut cache = WasmInstanceCache::new();
    let store = store_of(&[("a.mod", &["foo"])]);

    let error = call_wasm_function("a.mod", "bar", &mut cache, &store, &runtime)
        .expect_err("bar is not permitted");
    assert_eq!(
        error,
        CallError::Unauthorized {
            function: "bar".to_string(),
            path: "a.mod".to_string(),
            allowed: names(&["foo"]),
        }
    );
    assert_eq!(
        error.message(),
        "Function 'bar' is not configured as an entry function for WASM file 'a.mod'. \
         Allowed functions: [\"foo\"]"
    );
    // Nothing was read, compiled or run for the refused call.
    assert_eq!(runtime.reads.get(), 0);
    assert_eq!(runtime.compiles.get(), 0);
    assert_eq!(runtime.calls.get(), 0);
    assert!(cache.cached_instance("a.mod").is_none());

    let report = call_wasm_function("a.mod", "foo", &mut cache, &store, &runtime)
        .expect("foo is permitted");
    assert_eq!(report, CallReport::Text { pointer: 8, text: "hi".to_string() });
}

#[test]
fn a_module_without_entry_in_the_allowlist_permits_nothing() {
    let runtime = StubRuntime::with_file("b.mod", HELLO);
    let mut cache = WasmInstanceCache::new();
    let store = store_of(&[("a.mod", &["foo"])]);
    let error = call_wasm_function("b.mod", "foo", &mut cache, &store, &runtime)
        .expect_err("b.mod has no entry");
    assert_eq!(
        error.message(),
        "Function 'foo' is not configured as an entry function for WASM file 'b.mod'. \
         Allowed functions: []"
    );
}

#[test]
fn a_refusal_lists_every_permitted_function_in_order() {
    let runtime = StubRuntime::new();
    let mut cache = WasmInstanceCache::new();
    let store = store_of(&[("a.mod", &["zeta", "al\"pha"])]);
    let error = call_wasm_function("a.mod", "Zeta", &mut cache, &store, &runtime)
        .expect_err("names are compared as they are");
    assert_eq!(
        error.message(),
        "Function 'Zeta' is not configured as an entry function for WASM file 'a.mod'. \
         Allowed functions: [\"zeta\", \"al\\\"pha\"]"
    );
}

#[test]
fn repeated_loads_hand_out_the_same_instance_without_compiling_again() {
    let runtime = StubRuntime::with_file("a.wasm", HELLO);
    let mut cache = WasmInstanceCache::new();
    let first = loaded(cache.load_and_instantiate("a.wasm", &runtime));
    assert_eq!((runtime.reads.get(), runtime.compiles.get(), runtime.instantiations.get()), (1, 1, 1));

    let second = loaded(cache.load_and_instantiate("a.wasm", &runtime));
    let third = loaded(load_wasm_instance("a.wasm", &mut cache, &runtime));
    let fourth = cache.cached_instance("a.wasm").expect("cached").instance;
    assert!(Arc::ptr_eq(&first, &second));
    assert!(Arc::ptr_eq(&first, &third));
    assert!(Arc::ptr_eq(&first, &fourth));
    assert_eq!((runtime.reads.get(), runtime.compiles.get(), runtime.instantiations.get()), (1, 1, 1));
}

#[test]
fn a_cached_instance_is_handed_out_even_when_the_file_is_gone() {
    let runtime = StubRuntime::with_file("a.wasm", HELLO);
    let mut cache = WasmInstanceCache::new();
    let first = loaded(cache.load_and_instantiate("a.wasm", &runtime));
    runtime.remove("a.wasm");
    let second = loaded(cache.load_and_instantiate("a.wasm", &runtime));
    assert!(Arc::ptr_eq(&first, &second));
}

#[test]
fn a_hot_reload_hands_out_a_new_instance_with_the_new_behavior() {
    let runtime = StubRuntime::with_file("a.wasm", "module\ntext foo old");
    let mut cache = WasmInstanceCache::new();
    let old = loaded(cache.load_and_instantiate("a.wasm", &runtime));
    let old_again = loaded(cache.load_and_instantiate("a.wasm", &runtime));
    assert_eq!(
        invoke_export(&runtime, &old, "foo"),
        Ok(CallReport::Text { pointer: 8, text: "old".to_string() })
    );

    runtime.write("a.wasm", "module\ntext foo new!");
    let new = loaded(cache.hot_reload("a.wasm", &runtime));
    assert!(!Arc::ptr_eq(&new, &old));
    assert!(!Arc::ptr_eq(&new, &old_again));
    assert_eq!(runtime.compiles.get(), 2);
    assert_eq!(new.module_serial, 2);

    let after = loaded(cache.load_and_instantiate("a.wasm", &runtime));
    assert!(Arc::ptr_eq(&after, &new));
    assert!(!Arc::ptr_eq(&after, &old));
    assert_eq!(runtime.compiles.get(), 2);
    assert_eq!(
        invoke_export(&runtime, &after, "foo"),
        Ok(CallReport::Text { pointer: 8, text: "new!".to_string() })
    );
    // Who still holds the old instance can finish with it.
    assert_eq!(
        invoke_export(&runtime, &old, "foo"),
        Ok(CallReport::Text { pointer: 8, text: "old".to_string() })
    );
}

#[test]
fn a_hot_reload_of_an_unchanged_file_still_builds_a_new_instance() {
    let runtime = StubRuntime::with_file("a.wasm", HELLO);
    let mut cache = WasmInstanceCache::new();
    let old = loaded(cache.load_and_instantiate("a.wasm", &runtime));
    let new = loaded(cache.hot_reload("a.wasm", &runtime));
    assert!(!Arc::ptr_eq(&new, &old));
    assert_eq!((runtime.compiles.get(), runtime.instantiations.get()), (2, 2));
}

#[test]
fn clearing_the_cache_forgets_one_path() {
    let runtime = StubRuntime::with_file("a.wasm", HELLO);
    runtime.write("b.wasm", HELLO);
    let mut cache = WasmInstanceCache::new();
    let a = loaded(cache.load_and_instantiate("a.wasm", &runtime));
    let b = loaded(cache.load_and_instantiate("b.wasm", &runtime));

    cache.clear_cache("a.wasm");
    assert!(cache.cached_instance("a.wasm").is_none());
    assert!(Arc::ptr_eq(&cache.cached_instance("b.wasm").expect("b stays").instance, &b));

    // Clearing again, or clearing what was never loaded, is no error.
    cache.clear_cache("a.wasm");
    cache.clear_cache("never.wasm");
    assert!(Arc::ptr_eq(&cache.cached_instance("b.wasm").expect("b stays").instance, &b));

    let again = loaded(cache.load_and_instantiate("a.wasm", &runtime));
    assert!(!Arc::ptr_eq(&again, &a));
    assert_eq!(runtime.compiles.get(), 3);
}

#[test]
fn a_new_cache_holds_nothing() {
    let cache: WasmInstanceCache<StubRuntime> = WasmInstanceCache::new();
    assert!(cache.cached_instance("a.wasm").is_none());
}

#[test]
fn a_file_that_cannot_be_read_is_an_io_error() {
    let runtime = StubRuntime::new();
    let mut cache = WasmInstanceCache::new();
    let error = failed(cache.load_and_instantiate("gone.wasm", &runtime));
    assert_eq!(
        error,
        LoadError::Io {
            path: "gone.wasm".to_string(),
            cause: "no such file: gone.wasm".to_string()
        }
    );
    assert_eq!(error.message(), "Failed to read WASM file 'gone.wasm': no such file: gone.wasm");
    assert_eq!(runtime.compiles.get(), 0);
    assert!(cache.cached_instance("gone.wasm").is_none());
}

#[test]
fn bytes_that_are_no_module_are_a_compile_error() {
    let runtime = StubRuntime::with_file("bad.wasm", "garbage");
    let mut cache = WasmInstanceCache::new();
    let error = failed(cache.load_and_instantiate("bad.wasm", &runtime));
    assert_eq!(
        error,
        LoadError::Compile { path: "bad.wasm".to_string(), cause: "bad magic".to_string() }
    );
    assert_eq!(error.message(), "Failed to compile WASM file 'bad.wasm': bad magic");
    assert_eq!(runtime.instantiations.get(), 0);
    // Nothing was cached: the next load compiles again.
    let _ = failed(cache.load_and_instantiate("bad.wasm", &runtime));
    assert_eq!(runtime.compiles.get(), 2);
}

#[test]
fn a_module_that_cannot_be_instantiated_is_an_instantiation_error() {
    let runtime = StubRuntime::with_file("a.wasm", "module\nrefuse");
    let mut cache = WasmInstanceCache::new();
    let error = failed(cache.load_and_instantiate("a.wasm", &runtime));
    assert_eq!(
        error,
        LoadError::Instantiation { path: "a.wasm".to_string(), cause: "unknown import".to_string() }
    );
    assert_eq!(error.message(), "Failed to instantiate WASM file 'a.wasm': unknown import");
    assert!(cache.cached_instance("a.wasm").is_none());
}

#[test]
fn a_compiled_module_is_used_again_while_the_bytes_are_the_same() {
    let runtime = StubRuntime::with_file("a.wasm", "module\nrefuse");
    let mut cache = WasmInstanceCache::new();
    let _ = failed(cache.load_and_instantiate("a.wasm", &runtime));
    assert_eq!((runtime.compiles.get(), runtime.instantiations.get()), (1, 1));

    // Same bytes: the module that was compiled is instantiated again.
    let _ = failed(cache.load_and_instantiate("a.wasm", &runtime));
    assert_eq!((runtime.reads.get(), runtime.compiles.get(), runtime.instantiations.get()), (2, 1, 2));

    // Other bytes: the file is compiled anew.
    runtime.write("a.wasm", HELLO);
    let instance = loaded(cache.load_and_instantiate("a.wasm", &runtime));
    assert_eq!((runtime.compiles.get(), runtime.instantiations.get()), (2, 3));
    assert_eq!(instance.module_serial, 2);
}

#[test]
fn every_permitted_call_runs_on_a_fresh_instance() {
    let runtime = StubRuntime::with_file("a.wasm", "module\ntext foo one");
    let mut cache = WasmInstanceCache::new();
    let store = store_of(&[("a.wasm", &["foo"])]);
    assert_eq!(
        call_wasm_function("a.wasm", "foo", &mut cache, &store, &runtime),
        Ok(CallReport::Text { pointer: 8, text: "one".to_string() })
    );
    let first = cache.cached_instance("a.wasm").expect("cached").instance;

    runtime.write("a.wasm", "module\ntext foo two");
    assert_eq!(
        call_wasm_function("a.wasm", "foo", &mut cache, &store, &runtime),
        Ok(CallReport::Text { pointer: 8, text: "two".to_string() })
    );
    let second = cache.cached_instance("a.wasm").expect("cached").instance;
    assert!(!Arc::ptr_eq(&first, &second));
    assert_eq!(runtime.compiles.get(), 2);
}

#[test]
fn a_permitted_call_of_a_module_that_does_not_load_fails_with_the_load_error() {
    let runtime = StubRuntime::new();
    let mut cache = WasmInstanceCache::new();
    let store = store_of(&[("a.wasm", &["foo"])]);
    let error = call_wasm_function("a.wasm", "foo", &mut cache, &store, &runtime)
        .expect_err("no file");
    assert_eq!(
        error,
        CallError::Load(LoadError::Io {
            path: "a.wasm".to_string(),
            cause: "no such file: a.wasm".to_string()
        })
    );
    assert_eq!(error.message(), "Failed to read WASM file 'a.wasm': no such file: a.wasm");
}

#[test]
fn exports_are_called_by_the_signature_they_have() {
    let runtime = StubRuntime::with_file(
        "a.wasm",
        "module\ntext foo hello wasm!\nvoid quiet\nodd strange\ntrap boom\nglobal counter\ntext empty \nraw bytes\nfar away",
    );
    let mut cache = WasmInstanceCache::new();
    let instance = loaded(cache.load_and_instantiate("a.wasm", &runtime));

    assert_eq!(
        invoke_export(&runtime, &instance, "foo"),
        Ok(CallReport::Text { pointer: 8, text: "hello wasm!".to_string() })
    );
    assert_eq!(invoke_export(&runtime, &instance, "quiet"), Ok(CallReport::NoResult));
    assert_eq!(invoke_export(&runtime, &instance, "empty"), Ok(CallReport::EmptyText { pointer: 20 }));

    let cases: [(&str, CallError, &str); 6] = [
        (
            "missing",
            CallError::ExportNotFound { function: "missing".to_string() },
            "Export 'missing' not found in WASM module",
        ),
        (
            "counter",
            CallError::NotCallable { function: "counter".to_string() },
            "Export 'counter' is not a function",
        ),
        (
            "strange",
            CallError::SignatureMismatch {
                function: "strange".to_string(),
                detail: "expected () -> ()".to_string(),
            },
            "Cannot call function 'strange': incompatible signature, error: expected () -> ()",
        ),
        (
            "boom",
            CallError::CallFailed {
                function: "boom".to_string(),
                cause: "unreachable executed".to_string(),
            },
            "Call of function 'boom' failed: unreachable executed",
        ),
        (
            "bytes",
            CallError::InvalidText { function: "bytes".to_string() },
            "Function 'bytes' returned text that is not valid UTF-8",
        ),
        (
            "away",
            CallError::Memory {
                function: "away".to_string(),
                error: MemoryAccessError { ptr: 1_000_000, memory_len: 24 },
            },
            "Function 'away' returned a pointer to text that does not end inside the guest memory",
        ),
    ];
    for (name, error, message) in cases {
        let result = invoke_export(&runtime, &instance, name);
        assert_eq!(result, Err(error));
        assert_eq!(result.expect_err("an error").message(), message);
    }
}

#[test]
fn a_function_without_result_is_tried_only_after_the_other_signature() {
    let runtime = StubRuntime::with_file("a.wasm", HELLO);
    let mut cache = WasmInstanceCache::new();
    let instance = loaded(cache.load_and_instantiate("a.wasm", &runtime));
    assert!(invoke_export(&runtime, &instance, "foo").is_ok());
    assert_eq!(runtime.calls.get(), 1);
    assert!(invoke_export(&runtime, &instance, "quiet").is_ok());
    assert_eq!(runtime.calls.get(), 3);
    assert!(invoke_export(&runtime, &instance, "missing").is_err());
    assert_eq!(runtime.calls.get(), 3);
}

#[test]
fn without_a_memory_the_number_itself_is_reported() {
    let runtime = StubRuntime::with_file("a.wasm", "module\ntext foo hi\nnomemory");
    let mut cache = WasmInstanceCache::new();
    let instance = loaded(cache.load_and_instantiate("a.wasm", &runtime));
    assert_eq!(invoke_export(&runtime, &instance, "foo"), Ok(CallReport::Pointer { pointer: 8 }));
}

#[test]
fn describe_return_reads_the_text_at_the_offset() {
    let memory = b"..hello\0\0\xC3\x28\0tail".to_vec();
    assert_eq!(
        describe_return("f", 2, Some(memory.clone())),
        Ok(CallReport::Text { pointer: 2, text: "hello".to_string() })
    );
    assert_eq!(describe_return("f", 7, Some(memory.clone())), Ok(CallReport::EmptyText { pointer: 7 }));
    assert_eq!(
        describe_return("f", 9, Some(memory.clone())),
        Err(CallError::InvalidText { function: "f".to_string() })
    );
    assert_eq!(
        describe_return("f", 12, Some(memory.clone())),
        Err(CallError::Memory {
            function: "f".to_string(),
            error: MemoryAccessError { ptr: 12, memory_len: 16 }
        })
    );
    assert_eq!(
        describe_return("f", -4, Some(memory)),
        Err(CallError::Memory {
            function: "f".to_string(),
            error: MemoryAccessError { ptr: -4, memory_len: 16 }
        })
    );
    assert_eq!(describe_return("f", -4, None), Ok(CallReport::Pointer { pointer: -4 }));
    assert_eq!(
        describe_return("f", 0, Some("grüße\0".as_bytes().to_vec())),
        Ok(CallReport::Text { pointer: 0, text: "grüße".to_string() })
    );
}

#[test]
fn guest_modules_are_known_by_their_extension() {
    for path in ["a.wasm", "dir/a.wasm", "/abs/dir/mod.v2.wasm", "..wasm", "a.wasm.wasm", "ü.wasm", "dir.wasm/a.wasm"] {
        assert!(is_wasm_path(path), "{}", path);
    }
    for path in [
        "", "wasm", ".wasm", "dir/.wasm", "a.wasm2", "a.WASM", "a.wasm/", "a.wasm.bak", "awasm",
        "a.was", "dir.wasm/a", "a.wat", "a.wasm ",
    ] {
        assert!(!is_wasm_path(path), "{}", path);
    }
}

#[test]
fn a_change_of_contents_reloads_the_guest_modules_it_names() {
    let runtime = StubRuntime::with_file("wasm/a.wasm", "module\ntext foo old");
    runtime.write("wasm/b.wasm", HELLO);
    runtime.write("wasm/notes.txt", "module");
    let mut cache = WasmInstanceCache::new();
    let old_a = loaded(cache.load_and_instantiate("wasm/a.wasm", &runtime));
    let old_b = loaded(cache.load_and_instantiate("wasm/b.wasm", &runtime));
    let reloader = WasmHotReloader::new("wasm");
    assert_eq!(reloader.watch_path(), "wasm");

    runtime.write("wasm/a.wasm", "module\ntext foo new");
    let event = data_change(&["wasm/notes.txt", "wasm/a.wasm", "wasm/gone.wasm"]);
    let (step, reports) = reloader.handle_event(&mut cache, &runtime, &event);
    assert_eq!(step, WatchStep::Continue);
    assert_eq!(
        reports,
        vec![
            ReloadReport { path: "wasm/a.wasm".to_string(), error: None },
            ReloadReport {
                path: "wasm/gone.wasm".to_string(),
                error: Some(LoadError::Io {
                    path: "wasm/gone.wasm".to_string(),
                    cause: "no such file: wasm/gone.wasm".to_string()
                }),
            },
        ]
    );

    let new_a = cache.cached_instance("wasm/a.wasm").expect("reloaded").instance;
    assert!(!Arc::ptr_eq(&new_a, &old_a));
    assert_eq!(
        invoke_export(&runtime, &new_a, "foo"),
        Ok(CallReport::Text { pointer: 8, text: "new".to_string() })
    );
    // What the change does not name stays as it is.
    assert!(Arc::ptr_eq(&cache.cached_instance("wasm/b.wasm").expect("kept").instance, &old_b));
    assert!(cache.cached_instance("wasm/notes.txt").is_none());
    assert!(cache.cached_instance("wasm/gone.wasm").is_none());
}

#[test]
fn a_reload_that_fails_leaves_no_stale_instance() {
    let runtime = StubRuntime::with_file("a.wasm", HELLO);
    let mut cache = WasmInstanceCache::new();
    let _old = loaded(cache.load_and_instantiate("a.wasm", &runtime));
    runtime.write("a.wasm", "half written");
    let reloader = WasmHotReloader::new(".");
    let (step, reports) = reloader.handle_event(&mut cache, &runtime, &data_change(&["a.wasm"]));
    assert_eq!(step, WatchStep::Continue);
    assert_eq!(reports.len(), 1);
    assert_eq!(
        reports[0].error,
        Some(LoadError::Compile { path: "a.wasm".to_string(), cause: "bad magic".to_string() })
    );
    assert!(cache.cached_instance("a.wasm").is_none());
}

#[test]
fn a_path_named_twice_is_reloaded_twice() {
    let runtime = StubRuntime::with_file("a.wasm", HELLO);
    let mut cache = WasmInstanceCache::new();
    let reloader = WasmHotReloader::new(".");
    let (_, reports) =
        reloader.handle_event(&mut cache, &runtime, &data_change(&["a.wasm", "a.wasm"]));
    assert_eq!(reports.len(), 2);
    assert_eq!(runtime.instantiations.get(), 2);
}

#[test]
fn other_messages_reload_nothing() {
    let runtime = StubRuntime::with_file("a.wasm", HELLO);
    let mut cache = WasmInstanceCache::new();
    let old = loaded(cache.load_and_instantiate("a.wasm", &runtime));
    let reloader = WasmHotReloader::new(".");
    let events = [
        (WatchEvent::Changed { kind: ChangeKind::OtherModified, paths: names(&["a.wasm"]) }, WatchStep::Continue),
        (WatchEvent::Changed { kind: ChangeKind::Other, paths: names(&["a.wasm"]) }, WatchStep::Continue),
        (data_change(&[]), WatchStep::Continue),
        (data_change(&["a.txt"]), WatchStep::Continue),
        (WatchEvent::Failed { cause: "overflow".to_string() }, WatchStep::Continue),
        (WatchEvent::Closed, WatchStep::Stop),
    ];
    for (event, expected) in events {
        let (step, reports) = reloader.handle_event(&mut cache, &runtime, &event);
        assert_eq!(step, expected);
        assert!(reports.is_empty());
    }
    assert!(Arc::ptr_eq(&cache.cached_instance("a.wasm").expect("kept").instance, &old));
    assert_eq!(runtime.reads.get(), 1);
}

#[test]
fn a_module_put_into_the_cache_is_current_for_its_bytes() {
    let runtime = StubRuntime::new();
    let mut cache: WasmInstanceCache<StubRuntime> = WasmInstanceCache::new();
    let bytes = HELLO.as_bytes().to_vec();
    assert!(!cache.has_current_module("a.wasm", &bytes));
    let module = runtime.compile(&bytes).expect("a module");
    cache.store_module("a.wasm", bytes.clone(), module);
    assert!(cache.has_current_module("a.wasm", &bytes));
    assert!(!cache.has_current_module("a.wasm", b"module"));
    assert!(!cache.has_current_module("b.wasm", &bytes));

    // Loading finds the module and does not compile again.
    runtime.write("a.wasm", HELLO);
    let _ = loaded(cache.load_and_instantiate("a.wasm", &runtime));
    assert_eq!((runtime.compiles.get(), runtime.instantiations.get()), (1, 1));
}

#[test]
fn an_instance_put_into_the_cache_is_handed_out() {
    let runtime = StubRuntime::new();
    let mut cache: WasmInstanceCache<StubRuntime> = WasmInstanceCache::new();
    let module = runtime.compile(&HELLO.as_bytes().to_vec()).expect("a module");
    let first = runtime.instantiate(&module).expect("an instance");
    let handle = cache.store_instance("a.wasm", first).instance;
    assert!(Arc::ptr_eq(&cache.cached_instance("a.wasm").expect("cached").instance, &handle));
    assert!(Arc::ptr_eq(&loaded(cache.load_and_instantiate("a.wasm", &runtime)), &handle));
    assert_eq!(runtime.reads.get(), 0);

    let second = runtime.instantiate(&module).expect("an instance");
    let replaced = cache.store_instance("a.wasm", second).instance;
    assert!(!Arc::ptr_eq(&replaced, &handle));
    assert!(Arc::ptr_eq(&cache.cached_instance("a.wasm").expect("cached").instance, &replaced));
}
