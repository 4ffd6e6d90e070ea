use logline::events::EventKind;
use logline::plugin::engine::ImportName;
use logline::plugin::error::PluginError;
use logline::plugin::hooks::HookType;
use logline::plugin::manager::{metadata_failure, PluginFile, PluginManager};
use logline::plugin::marshal::{
    alloc_arguments, allocated_pointer, answer_region, bind_hooks, decode_region, first_value,
    hook_arguments, in_bounds, metadata_from_fields, metadata_region, parse_metadata, read_region,
    to_signed, to_unsigned, value_pair, write_region,
};
use logline::plugin::paths::{is_wasm_file, plugin_id_of};
use logline::plugin::sandbox::{check_imports, default_allow_list, is_import_allowed};
use logline::plugin::watcher::{action_for, process_watcher_event, WatchAction, WatchKind};
use logline::runtime::{Runtime, RuntimeError};

fn escape(text: &str) -> String {
    let mut out = String::new();
    for byte in text.bytes() {
        out.push_str(&format!("\\{:02x}", byte));
    }
    out
}

// A plugin whose hooks answer with a fixed text, or echo their input.
fn plugin(name: &str, hooks: &[(&str, Option<&str>)]) -> Vec<u8> {
    let names: Vec<String> = hooks.iter().map(|(h, _)| format!("\"{}\"", h)).collect();
    let metadata = format!(
        "{{\"name\":\"{}\",\"version\":\"1.0.0\",\"author\":\"tests\",\"description\":\"a plugin\",\"hooks\":[{}]}}",
        name,
        names.join(",")
    );
    let mut wat = String::from("(module\n  (memory (export \"memory\") 1)\n  (global $next (mut i32) (i32.const 8192))\n");
    wat.push_str(&format!("  (data (i32.const 0) \"{}\")\n", escape(&metadata)));
    wat.push_str("  (func (export \"alloc\") (param $n i32) (result i32) (local $p i32)\n    global.get $next\n    local.set $p\n    global.get $next\n    local.get $n\n    i32.add\n    global.set $next\n    local.get $p)\n");
    wat.push_str("  (func (export \"dealloc\") (param i32 i32))\n");
    wat.push_str(&format!(
        "  (func (export \"get_metadata\") (result i32 i32)\n    i32.const 0\n    i32.const {})\n",
        metadata.len()
    ));
    let mut offset = 2048;
    for (hook, answer) in hooks {
        match answer {
            Some(text) => {
                wat.push_str(&format!("  (data (i32.const {}) \"{}\")\n", offset, escape(text)));
                wat.push_str(&format!(
                    "  (func (export \"hook_{}\") (param i32 i32) (result i32 i32)\n    i32.const {}\n    i32.const {})\n",
                    hook,
                    offset,
                    text.len()
                ));
                offset += 512;
            }
            None => {
                wat.push_str(&format!(
                    "  (func (export \"hook_{}\") (param i32 i32) (result i32 i32)\n    local.get 0\n    local.get 1)\n",
                    hook
                ));
            }
        }
    }
    wat.push_str(")\n");
    wat.into_bytes()
}

#[test]
fn test_load_and_invoke_plugin() {
    let mut manager = PluginManager::new("tmp_plugins_1");
    let loaded = manager.load_plugin("tmp_plugins_1/echo.wasm", &plugin("echo", &[("echo", None)])).unwrap();
    assert_eq!(loaded.id, "echo");
    assert_eq!(loaded.metadata.name, "echo");
    assert_eq!(loaded.metadata.version, "1.0.0");
    assert_eq!(loaded.metadata.author, "tests");
    assert_eq!(loaded.metadata.description, "a plugin");
    assert_eq!(loaded.metadata.hooks, vec!["echo".to_string()]);

    let payload = "hello from test";
    let result = manager.invoke("echo", "echo", payload).unwrap();
    assert_eq!(result, payload);
    assert_eq!(manager.invoke("echo", "echo", "olá, é você? ✓").unwrap(), "olá, é você? ✓");
    assert_eq!(manager.invoke("echo", "echo", "").unwrap(), "");
}

#[test]
fn test_plugin_manager_initialization() {
    let manager = PluginManager::new("./target/plugin_test");
    assert_eq!(manager.plugin_dir, "./target/plugin_test");
    assert!(manager.list_plugins().is_empty());
    assert!(manager.plugin_ids().is_empty());
}

#[test]
fn test_invoke_errors_are_named() {
    let mut manager = PluginManager::new("p");
    manager.load_plugin("p/fixed.wasm", &plugin("fixed", &[("greet", Some("olá"))])).unwrap();
    assert_eq!(manager.invoke("fixed", "greet", "x").unwrap(), "olá");
    match manager.invoke("missing", "greet", "x") {
        Err(PluginError::PluginNotFound(id)) => assert_eq!(id, "missing"),
        other => panic!("{:?}", other),
    }
    match manager.invoke("fixed", "other", "x") {
        Err(PluginError::FunctionNotFound(what)) => assert_eq!(what, "other em fixed"),
        other => panic!("{:?}", other),
    }
    assert_eq!(
        manager.invoke("missing", "greet", "x").unwrap_err().message(),
        "Plugin não encontrado: missing"
    );
}

#[test]
fn test_declared_hook_without_function_is_unbound() {
    let metadata = "{\"name\":\"half\",\"version\":\"1\",\"author\":\"a\",\"description\":\"d\",\"hooks\":[\"real\",\"ghost\"]}";
    let module = format!(
        "(module (memory (export \"memory\") 1)\n (data (i32.const 0) \"{}\")\n (data (i32.const 2048) \"ok\")\n (func (export \"alloc\") (param i32) (result i32) i32.const 4096)\n (func (export \"get_metadata\") (result i32 i32) i32.const 0 i32.const {})\n (func (export \"hook_real\") (param i32 i32) (result i32 i32) i32.const 2048 i32.const 2))",
        escape(metadata),
        metadata.len()
    );
    let mut manager = PluginManager::new("p");
    let loaded = manager.load_plugin("half.wasm", &module.into_bytes()).unwrap();
    assert_eq!(loaded.metadata.hooks, vec!["real".to_string(), "ghost".to_string()]);
    assert!(loaded.has_hook("real"));
    assert!(!loaded.has_hook("ghost"));
    assert_eq!(loaded.lookup("real"), Some("hook_real".to_string()));
    assert_eq!(manager.invoke("half", "real", "payload").unwrap(), "ok");
    assert!(matches!(manager.invoke("half", "ghost", "x"), Err(PluginError::FunctionNotFound(_))));
}

#[test]
fn test_plugin_sandbox() {
    let mut manager = PluginManager::new("p");
    let forbidden = "(module (import \"wasi_snapshot_preview1\" \"path_open\" (func (param i32 i32 i32 i32 i32 i64 i64 i32 i32) (result i32))) (memory (export \"memory\") 1))";
    match manager.load_plugin("p/bad.wasm", &forbidden.as_bytes().to_vec()) {
        Err(PluginError::WasmImportError(what)) => assert_eq!(what, "wasi_snapshot_preview1::path_open"),
        other => panic!("{:?}", other.map(|p| p.id)),
    }
    let host = "(module (import \"env\" \"read_file\" (func (param i32) (result i32))) (memory (export \"memory\") 1))";
    match manager.load_plugin("p/host.wasm", &host.as_bytes().to_vec()) {
        Err(PluginError::WasmImportError(what)) => assert_eq!(what, "env::read_file"),
        other => panic!("{:?}", other.map(|p| p.id)),
    }
    let socket = "(module (import \"wasi_snapshot_preview1\" \"sock_send\" (func (param i32 i32 i32 i32 i32) (result i32))))";
    assert!(matches!(
        manager.load_plugin("p/socket.wasm", &socket.as_bytes().to_vec()),
        Err(PluginError::WasmImportError(_))
    ));
    // The first import is on the list, the second is not.
    let mixed = "(module (import \"wasi_snapshot_preview1\" \"environ_get\" (func (param i32 i32) (result i32))) (import \"env\" \"memory\" (memory 1)))";
    match manager.load_plugin("p/mixed.wasm", &mixed.as_bytes().to_vec()) {
        Err(PluginError::WasmImportError(what)) => assert_eq!(what, "env::memory"),
        other => panic!("{:?}", other.map(|p| p.id)),
    }
    // An import that is on the list passes the sandbox; the engine then
    // finds nothing to link it to.
    let environment = "(module (import \"wasi_snapshot_preview1\" \"environ_sizes_get\" (func (param i32 i32) (result i32))) (import \"wasi_snapshot_preview1\" \"environ_get\" (func (param i32 i32) (result i32))) (memory (export \"memory\") 1))";
    assert!(matches!(
        manager.load_plugin("p/environment.wasm", &environment.as_bytes().to_vec()),
        Err(PluginError::WasmInstantiationError(_))
    ));
    assert!(manager.plugin_ids().is_empty());
    let mut closed = PluginManager::with_allow_list("p", vec![]);
    match closed.load_plugin("p/environment.wasm", &environment.as_bytes().to_vec()) {
        Err(PluginError::WasmImportError(what)) => assert_eq!(what, "wasi_snapshot_preview1::environ_sizes_get"),
        other => panic!("{:?}", other.map(|p| p.id)),
    }
    closed.load_plugin("p/free.wasm", &plugin("free", &[])).unwrap();
    assert_eq!(closed.plugin_ids(), vec!["free".to_string()]);
    let mut open = PluginManager::with_allow_list(
        "p",
        vec![ImportName { module: "env".to_string(), name: "read_file".to_string() }],
    );
    assert!(matches!(
        open.load_plugin("p/host.wasm", &host.as_bytes().to_vec()),
        Err(PluginError::WasmInstantiationError(_))
    ));
    match open.load_plugin("p/bad.wasm", &forbidden.as_bytes().to_vec()) {
        Err(PluginError::WasmImportError(what)) => assert_eq!(what, "wasi_snapshot_preview1::path_open"),
        other => panic!("{:?}", other.map(|p| p.id)),
    }
}

#[test]
fn test_import_allow_list() {
    let import = |module: &str, name: &str| ImportName { module: module.to_string(), name: name.to_string() };
    let list = default_allow_list();
    let pairs: Vec<(String, String)> = list.iter().map(|i| (i.module.clone(), i.name.clone())).collect();
    assert_eq!(
        pairs,
        vec![
            ("wasi_snapshot_preview1".to_string(), "environ_sizes_get".to_string()),
            ("wasi_snapshot_preview1".to_string(), "environ_get".to_string()),
        ]
    );
    assert!(is_import_allowed(&list, &import("wasi_snapshot_preview1", "environ_get")));
    assert!(is_import_allowed(&list, &import("wasi_snapshot_preview1", "environ_sizes_get")));
    assert!(!is_import_allowed(&list, &import("wasi_snapshot_preview1", "fd_write")));
    assert!(!is_import_allowed(&list, &import("wasi_snapshot_preview1", "path_open")));
    assert!(!is_import_allowed(&list, &import("wasi_snapshot_preview1", "sock_send")));
    assert!(!is_import_allowed(&list, &import("wasi_snapshot_preview1", "environ")));
    assert!(!is_import_allowed(&list, &import("wasi_unstable", "environ_get")));
    assert!(!is_import_allowed(&list, &import("env", "environ_get")));
    assert!(!is_import_allowed(&list, &import("env", "memory")));
    assert!(!is_import_allowed(&list, &import("environ_get", "wasi_snapshot_preview1")));
    assert!(!is_import_allowed(&vec![], &import("wasi_snapshot_preview1", "environ_get")));
    assert!(check_imports(&list, &vec![]).is_ok());
    assert!(check_imports(&vec![], &vec![]).is_ok());
    assert!(check_imports(
        &list,
        &vec![import("wasi_snapshot_preview1", "environ_get"), import("wasi_snapshot_preview1", "environ_get")]
    )
    .is_ok());
    let custom = vec![import("host", "log"), import("host", "now")];
    assert!(is_import_allowed(&custom, &import("host", "now")));
    assert!(!is_import_allowed(&custom, &import("host", "a")));
    assert!(check_imports(&custom, &vec![import("host", "now"), import("host", "log")]).is_ok());
    match check_imports(&custom, &vec![import("host", "log"), import("host", "a"), import("host", "b")]) {
        Err(PluginError::WasmImportError(what)) => assert_eq!(what, "host::a"),
        other => panic!("{:?}", other),
    }
    match check_imports(&vec![], &vec![import("wasi_snapshot_preview1", "environ_get")]) {
        Err(PluginError::WasmImportError(what)) => assert_eq!(what, "wasi_snapshot_preview1::environ_get"),
        other => panic!("{:?}", other),
    }
}

#[test]
fn test_load_failures_keep_the_active_plugin() {
    let mut manager = PluginManager::new("p");
    manager.load_plugin("p/a.wasm", &plugin("first", &[("greet", Some("one"))])).unwrap();
    assert!(matches!(
        manager.load_plugin("p/a.wasm", &b"not a module".to_vec()),
        Err(PluginError::WasmCompileError(_))
    ));
    let no_metadata = "(module (memory (export \"memory\") 1))";
    match manager.load_plugin("p/a.wasm", &no_metadata.as_bytes().to_vec()) {
        Err(PluginError::MetadataError(message)) => {
            assert_eq!(message, "Função do plugin não encontrada: get_metadata");
        }
        other => panic!("{:?}", other.map(|p| p.id)),
    }
    let bad_json = "(module (memory (export \"memory\") 1) (data (i32.const 0) \"{oops\") (func (export \"get_metadata\") (result i32 i32) i32.const 0 i32.const 5))";
    assert!(matches!(
        manager.load_plugin("p/a.wasm", &bad_json.as_bytes().to_vec()),
        Err(PluginError::MetadataError(_))
    ));
    let outside = "(module (memory (export \"memory\") 1) (func (export \"get_metadata\") (result i32 i32) i32.const 65530 i32.const 100))";
    match manager.load_plugin("p/a.wasm", &outside.as_bytes().to_vec()) {
        Err(PluginError::MetadataError(message)) => {
            assert!(message.starts_with("Erro ao executar função WASM: "), "{}", message);
        }
        other => panic!("{:?}", other.map(|p| p.id)),
    }
    assert!(matches!(
        manager.load_plugin("p/", &plugin("x", &[])),
        Err(PluginError::InvalidPluginFile(_))
    ));
    let failing_start = "(module (memory (export \"memory\") 1) (func $start unreachable) (start $start))";
    assert!(matches!(
        manager.load_plugin("p/a.wasm", &failing_start.as_bytes().to_vec()),
        Err(PluginError::WasmInstantiationError(_))
    ));
    assert_eq!(manager.invoke("a", "greet", "").unwrap(), "one");
    assert_eq!(manager.list_plugins().len(), 1);
    assert_eq!(manager.list_plugins()[0].name, "first");
}

#[test]
fn test_hot_reload_functionality() {
    let mut manager = PluginManager::new("tmp_plugins_2");
    manager.load_plugin("tmp_plugins_2/reloader.wasm", &plugin("v1", &[("run", Some("0"))])).unwrap();
    assert_eq!(manager.invoke("reloader", "run", "").unwrap(), "0");
    manager.load_plugin("tmp_plugins_2/reloader.wasm", &plugin("v2", &[("run", Some("42"))])).unwrap();
    assert_eq!(manager.invoke("reloader", "run", "").unwrap(), "42");
    assert_eq!(manager.list_plugins().len(), 1);
    assert_eq!(manager.list_plugins()[0].name, "v2");
    assert!(manager.unload_plugin("reloader"));
    assert!(!manager.unload_plugin("reloader"));
    assert!(matches!(manager.invoke("reloader", "run", ""), Err(PluginError::PluginNotFound(_))));
}

#[test]
fn test_malformed_answers_are_execution_errors() {
    let metadata = "{\"name\":\"m\",\"version\":\"1\",\"author\":\"a\",\"description\":\"d\",\"hooks\":[\"far\",\"one\",\"bytes\",\"trap\",\"wide\"]}";
    let module = format!(
        "(module (memory (export \"memory\") 1)\n (data (i32.const 0) \"{}\")\n (data (i32.const 2048) \"\\ff\\fe\")\n (func (export \"alloc\") (param i32) (result i32) i32.const 4096)\n (func (export \"get_metadata\") (result i32 i32) i32.const 0 i32.const {})\n (func (export \"hook_far\") (param i32 i32) (result i32 i32) i32.const 65530 i32.const 10)\n (func (export \"hook_one\") (param i32 i32) (result i32) i32.const 0)\n (func (export \"hook_bytes\") (param i32 i32) (result i32 i32) i32.const 2048 i32.const 2)\n (func (export \"hook_trap\") (param i32 i32) (result i32 i32) unreachable)\n (func (export \"hook_wide\") (param i32 i32) (result i32 i32) i32.const -1 i32.const -1))",
        escape(metadata),
        metadata.len()
    );
    let mut manager = PluginManager::new("p");
    manager.load_plugin("m.wasm", &module.into_bytes()).unwrap();
    assert!(matches!(manager.invoke("m", "far", "x"), Err(PluginError::WasmExecutionError(_))));
    assert!(matches!(manager.invoke("m", "wide", "x"), Err(PluginError::WasmExecutionError(_))));
    match manager.invoke("m", "one", "x") {
        Err(PluginError::WasmExecutionError(message)) => assert_eq!(message, "Retorno de função inválido"),
        other => panic!("{:?}", other),
    }
    assert!(matches!(manager.invoke("m", "bytes", "x"), Err(PluginError::SerializationError(_))));
    assert!(matches!(manager.invoke("m", "trap", "x"), Err(PluginError::WasmExecutionError(_))));
    let no_room = format!(
        "(module (memory (export \"memory\") 1)\n (data (i32.const 0) \"{}\")\n (func (export \"alloc\") (param i32) (result i32) i32.const 65535)\n (func (export \"get_metadata\") (result i32 i32) i32.const 0 i32.const {})\n (func (export \"hook_far\") (param i32 i32) (result i32 i32) i32.const 0 i32.const 1))",
        escape(metadata),
        metadata.len()
    );
    manager.load_plugin("n.wasm", &no_room.into_bytes()).unwrap();
    assert!(matches!(manager.invoke("n", "far", "too long"), Err(PluginError::WasmExecutionError(_))));
}

#[test]
fn test_plugins_are_listed_by_id() {
    let mut manager = PluginManager::new("p");
    for id in ["zeta", "alpha", "Beta", "alpha2", "al"] {
        let hooks: Vec<(&str, Option<&str>)> = if id == "alpha" { vec![] } else { vec![("precommand", Some("{}"))] };
        manager.load_plugin(&format!("p/{}.wasm", id), &plugin(id, &hooks)).unwrap();
    }
    let expected: Vec<String> = ["Beta", "al", "alpha", "alpha2", "zeta"].iter().map(|s| s.to_string()).collect();
    assert_eq!(manager.plugin_ids(), expected);
    let names: Vec<String> = manager.list_plugins().into_iter().map(|m| m.name).collect();
    assert_eq!(names, expected);
    let serving: Vec<String> = ["Beta", "al", "alpha2", "zeta"].iter().map(|s| s.to_string()).collect();
    assert_eq!(manager.plugins_serving("precommand"), serving);
    assert!(manager.plugins_serving("postcommand").is_empty());
}

#[test]
fn test_reload_all_plugins() {
    let mut manager = PluginManager::new("p");
    let files = vec![
        PluginFile { path: "p/a.wasm".to_string(), bytes: plugin("a", &[]) },
        PluginFile { path: "p/readme.txt".to_string(), bytes: plugin("t", &[]) },
        PluginFile { path: "p/broken.wasm".to_string(), bytes: b"nothing".to_vec() },
        PluginFile { path: "p/sub/b.wasm".to_string(), bytes: plugin("b", &[]) },
    ];
    assert_eq!(manager.reload_all_plugins(&files), 2);
    assert_eq!(manager.plugin_ids(), vec!["a".to_string(), "b".to_string()]);
    let fewer = vec![
        PluginFile { path: "p/b.wasm".to_string(), bytes: b"broken now".to_vec() },
        PluginFile { path: "p/c.wasm".to_string(), bytes: plugin("c", &[]) },
        PluginFile { path: "p/a.txt".to_string(), bytes: plugin("a", &[]) },
    ];
    assert_eq!(manager.reload_all_plugins(&fewer), 1);
    assert_eq!(manager.plugin_ids(), vec!["b".to_string(), "c".to_string()]);
    assert_eq!(manager.list_plugins()[0].name, "b");
    assert_eq!(manager.reload_all_plugins(&vec![]), 0);
    assert!(manager.plugin_ids().is_empty());
}

#[test]
fn test_pre_hook_veto_and_post_hook_failure() {
    let mut runtime = Runtime::new("p", 1);
    runtime
        .plugins
        .load_plugin("p/b-quiet.wasm", &plugin("quiet", &[("precommand", Some("{\"veto\":false}")), ("postcommand", Some("\u{1}"))]))
        .unwrap();
    assert_eq!(runtime.process_command("DEFINE IDEA i1 \"x\"").unwrap(), "Ideia registrada: i1");
    runtime
        .plugins
        .load_plugin("p/a-broken.wasm", &plugin("broken", &[]))
        .unwrap();
    let metadata = "{\"name\":\"t\",\"version\":\"1\",\"author\":\"a\",\"description\":\"d\",\"hooks\":[\"precommand\",\"postcommand\"]}";
    let trap = format!(
        "(module (memory (export \"memory\") 1) (data (i32.const 0) \"{}\") (func (export \"alloc\") (param i32) (result i32) i32.const 4096) (func (export \"get_metadata\") (result i32 i32) i32.const 0 i32.const {}) (func (export \"hook_precommand\") (param i32 i32) (result i32 i32) unreachable) (func (export \"hook_postcommand\") (param i32 i32) (result i32 i32) unreachable))",
        escape(metadata),
        metadata.len()
    );
    runtime.plugins.load_plugin("p/a-trap.wasm", &trap.as_bytes().to_vec()).unwrap();
    runtime.timeline.clear_timeline();
    assert_eq!(runtime.process_command("DEFINE IDEA i2 \"y\"").unwrap(), "Ideia registrada: i2");
    let kinds: Vec<String> = runtime.timeline.list_events().iter().map(|e| e.kind.name()).collect();
    assert_eq!(
        kinds,
        vec!["ErrorOccurred", "IdeaRegistered", "ImperativeExecuted", "ErrorOccurred"]
    );
    match &runtime.timeline.list_events()[0].kind {
        EventKind::ErrorOccurred { context, message } => {
            assert_eq!(context, "plugin");
            assert!(message.starts_with("Erro ao executar função WASM: "), "{}", message);
        }
        _ => panic!("wrong kind"),
    }
    runtime
        .plugins
        .load_plugin("p/c-veto.wasm", &plugin("veto", &[("precommand", Some("{\"veto\":true,\"reason\":\"not today\"}"))]))
        .unwrap();
    runtime.timeline.clear_timeline();
    match runtime.process_command("DEFINE IDEA i3 \"z\"") {
        Err(RuntimeError::Veto(reason)) => assert_eq!(reason, "not today"),
        other => panic!("{:?}", other),
    }
    assert!(runtime.ideas.ideas.get("i3").is_none());
    let events = runtime.timeline.list_events();
    assert_eq!(events.len(), 2);
    match &events[1].kind {
        EventKind::ErrorOccurred { context, message } => {
            assert_eq!(context, "plugin_veto");
            assert_eq!(message, "not today");
        }
        _ => panic!("wrong kind"),
    }
    assert!(runtime.process_command("NOT A COMMAND").is_err());
    assert_eq!(runtime.timeline.list_events().len(), 3);
}

#[test]
fn test_hook_receives_the_command() {
    let mut runtime = Runtime::new("p", 1);
    runtime.plugins.load_plugin("p/echo.wasm", &plugin("echo", &[("see", None)])).unwrap();
    let command = logline::parser::parse("ORCHESTRATE parallel").unwrap();
    let payload = logline::runtime::hook_payload(&command);
    assert_eq!(runtime.plugins.invoke("echo", "see", &payload).unwrap(), "{\"command\":{\"kind\":\"Orchestrate\",\"mode\":\"parallel\"}}");
}

#[test]
fn test_hook_types() {
    assert_eq!(HookType::from_str("precommand"), HookType::PreCommand);
    assert_eq!(HookType::from_str("PostCommand"), HookType::PostCommand);
    assert_eq!(HookType::from_str("PREVALIDATION"), HookType::PreValidation);
    assert_eq!(HookType::from_str("postValidation"), HookType::PostValidation);
    assert_eq!(HookType::from_str("Simulation"), HookType::Simulation);
    assert_eq!(HookType::from_str("My-Hook"), HookType::Custom("My-Hook".to_string()));
    assert_eq!(HookType::from_str(""), HookType::Custom("".to_string()));
    assert_eq!(HookType::from_str("pre command"), HookType::Custom("pre command".to_string()));
    assert_eq!(HookType::PreCommand.as_str(), "precommand");
    assert_eq!(HookType::PostCommand.as_str(), "postcommand");
    assert_eq!(HookType::PreValidation.as_str(), "prevalidation");
    assert_eq!(HookType::PostValidation.as_str(), "postvalidation");
    assert_eq!(HookType::Simulation.as_str(), "simulation");
    assert_eq!(HookType::Custom("My-Hook".to_string()).as_str(), "My-Hook");
}

#[test]
fn test_wasm_paths() {
    assert!(is_wasm_file("plugins/echo.wasm"));
    assert!(is_wasm_file("echo.wasm"));
    assert!(is_wasm_file("a/b.c/d.tar.wasm"));
    assert!(!is_wasm_file("echo.WASM"));
    assert!(!is_wasm_file("echo.wasm.bak"));
    assert!(!is_wasm_file("echo.wat"));
    assert!(!is_wasm_file("plugins/.wasm"));
    assert!(!is_wasm_file("plugins.wasm/echo"));
    assert!(!is_wasm_file("wasm"));
    assert!(!is_wasm_file(""));
    assert_eq!(plugin_id_of("plugins/echo.wasm"), Some("echo".to_string()));
    assert_eq!(plugin_id_of("a/b.c/d.tar.wasm"), Some("d.tar".to_string()));
    assert_eq!(plugin_id_of("echo"), Some("echo".to_string()));
    assert_eq!(plugin_id_of(".hidden"), Some(".hidden".to_string()));
    assert_eq!(plugin_id_of("dir/"), None);
    assert_eq!(plugin_id_of(""), None);
}

#[test]
fn test_watcher_events() {
    let paths = vec![
        "p/a.wasm".to_string(),
        "p/notes.txt".to_string(),
        "p/sub/b.wasm".to_string(),
    ];
    let reloads = process_watcher_event(WatchKind::Create, &paths);
    assert_eq!(reloads.len(), 2);
    assert!(matches!(&reloads[0], WatchAction::Reload(p) if p == "p/a.wasm"));
    assert!(matches!(&reloads[1], WatchAction::Reload(p) if p == "p/sub/b.wasm"));
    let modified = process_watcher_event(WatchKind::Modify, &paths);
    assert!(matches!(&modified[1], WatchAction::Reload(p) if p == "p/sub/b.wasm"));
    let removals = process_watcher_event(WatchKind::Remove, &paths);
    assert_eq!(removals.len(), 2);
    assert!(matches!(&removals[0], WatchAction::Unload(id) if id == "a"));
    assert!(matches!(&removals[1], WatchAction::Unload(id) if id == "b"));
    assert!(process_watcher_event(WatchKind::Other, &paths).is_empty());
    assert!(process_watcher_event(WatchKind::Remove, &vec![]).is_empty());
    assert!(action_for(WatchKind::Create, "p/a.txt").is_none());
}

#[test]
fn test_marshalling_of_numbers_and_regions() {
    assert_eq!(to_unsigned(-1), u32::MAX);
    assert_eq!(to_unsigned(i32::MIN), 0x8000_0000);
    assert_eq!(to_unsigned(7), 7);
    assert_eq!(to_signed(u32::MAX), -1);
    assert_eq!(to_signed(0x8000_0000), i32::MIN);
    assert_eq!(to_signed(7), 7);
    assert_eq!(first_value(&vec![Some(-1), None]), Some(u32::MAX));
    assert_eq!(first_value(&vec![None, Some(1)]), None);
    assert_eq!(first_value(&vec![]), None);
    assert_eq!(value_pair(&vec![Some(1), Some(2), None]), Some((1, 2)));
    assert_eq!(value_pair(&vec![Some(1)]), None);
    assert_eq!(value_pair(&vec![Some(1), None]), None);
    assert!(in_bounds(0, 0, 0));
    assert!(in_bounds(65530, 6, 65536));
    assert!(!in_bounds(65530, 7, 65536));
    assert!(!in_bounds(u32::MAX, u32::MAX, u32::MAX as u64));
    assert_eq!(allocated_pointer(Ok(vec![Some(16)])).unwrap(), 16);
    match allocated_pointer(Ok(vec![None])) {
        Err(PluginError::WasmExecutionError(m)) => assert_eq!(m, "Falha na alocação de memória"),
        other => panic!("{:?}", other),
    }
    match allocated_pointer(Err("trap".to_string())) {
        Err(PluginError::WasmExecutionError(m)) => assert_eq!(m, "trap"),
        other => panic!("{:?}", other),
    }
    assert_eq!(answer_region(Ok(vec![Some(1), Some(2)])).unwrap(), (1, 2));
    assert!(matches!(answer_region(Ok(vec![Some(1)])), Err(PluginError::WasmExecutionError(_))));
    assert_eq!(metadata_region(Ok(vec![Some(1), Some(2)])).unwrap(), (1, 2));
    match metadata_region(Ok(vec![])) {
        Err(PluginError::MetadataError(m)) => assert_eq!(m, "Retorno de metadados inválido"),
        other => panic!("{:?}", other),
    }
    assert!(matches!(metadata_region(Err("t".to_string())), Err(PluginError::WasmExecutionError(_))));
    assert_eq!(decode_region("é ✓".as_bytes().to_vec()).unwrap(), "é ✓");
    assert!(matches!(decode_region(vec![0xff, 0x41]), Err(PluginError::SerializationError(_))));
    assert!(matches!(decode_region(vec![0xc3]), Err(PluginError::SerializationError(_))));
}

#[test]
fn test_metadata_parsing() {
    let good = "{\"name\":\"n\",\"version\":\"v\",\"author\":\"a\",\"description\":\"d\",\"hooks\":[\"h1\",\"h2\"],\"extra\":1}";
    let metadata = parse_metadata(good).unwrap();
    assert_eq!(metadata.name, "n");
    assert_eq!(metadata.version, "v");
    assert_eq!(metadata.author, "a");
    assert_eq!(metadata.description, "d");
    assert_eq!(metadata.hooks, vec!["h1".to_string(), "h2".to_string()]);
    for bad in [
        "",
        "[]",
        "{\"name\":\"n\"}",
        "{\"name\":1,\"version\":\"v\",\"author\":\"a\",\"description\":\"d\",\"hooks\":[]}",
        "{\"name\":\"n\",\"version\":\"v\",\"author\":\"a\",\"description\":\"d\",\"hooks\":\"h\"}",
        "{\"name\":\"n\",\"version\":\"v\",\"author\":\"a\",\"description\":\"d\",\"hooks\":[\"h\",2]}",
    ] {
        assert!(matches!(parse_metadata(bad), Err(PluginError::SerializationError(_))), "{}", bad);
    }
    let s = |t: &str| Some(t.to_string());
    assert!(metadata_from_fields(s("n"), s("v"), s("a"), s("d"), Some(vec![])).is_ok());
    assert!(metadata_from_fields(s("n"), None, s("a"), s("d"), Some(vec![])).is_err());
    assert!(metadata_from_fields(s("n"), s("v"), s("a"), s("d"), None).is_err());
    assert!(metadata_from_fields(s("n"), s("v"), s("a"), s("d"), Some(vec![s("h"), None])).is_err());
}

#[test]
fn test_plugin_error_messages() {
    let cases = vec![
        (PluginError::PluginNotFound("x".to_string()), "Plugin não encontrado: x"),
        (PluginError::FunctionNotFound("x".to_string()), "Função do plugin não encontrada: x"),
        (PluginError::WasmCompileError("x".to_string()), "Erro ao compilar WASM: x"),
        (PluginError::WasmImportError("x".to_string()), "Erro de importação WASM: x"),
        (PluginError::WasmInstantiationError("x".to_string()), "Erro ao instanciar WASM: x"),
        (PluginError::WasmExecutionError("x".to_string()), "Erro ao executar função WASM: x"),
        (PluginError::WasiError("x".to_string()), "Erro de configuração WASI: x"),
        (PluginError::MetadataError("x".to_string()), "Erro ao extrair metadados do plugin: x"),
        (PluginError::InvalidPluginFile("x".to_string()), "Formato inválido do arquivo de plugin: x"),
        (PluginError::SerializationError("x".to_string()), "Erro de serialização/deserialização: x"),
        (PluginError::WatcherError("x".to_string()), "Erro ao observar mudanças no diretório de plugins: x"),
        (PluginError::IoError("x".to_string()), "Erro de I/O: x"),
        (PluginError::Internal("x".to_string()), "Erro interno do gerenciador de plugins: x"),
    ];
    for (error, message) in cases {
        assert_eq!(error.message(), message);
    }
}

#[test]
fn test_plugin_load_unload() {
    let mut manager = PluginManager::new("./target/wasm_tests");
    let loaded = manager
        .load_plugin("./target/wasm_tests/test_plugin.wasm", &plugin("Test Plugin", &[("process_data", None)]))
        .unwrap();
    assert_eq!(loaded.metadata.name, "Test Plugin", "Nome do plugin incorreto");
    assert_eq!(loaded.metadata.version, "1.0.0", "Versão do plugin incorreta");

    let plugins = manager.list_plugins();
    assert_eq!(plugins.len(), 1, "Número incorreto de plugins carregados");
    assert_eq!(plugins[0].name, "Test Plugin", "Metadata do plugin incorreto");

    assert!(manager.unload_plugin("test_plugin"));
    assert!(manager.list_plugins().is_empty());
}

#[test]
fn test_plugin_function_invoke() {
    let mut manager = PluginManager::new("./target/wasm_tests");
    manager
        .load_plugin(
            "./target/wasm_tests/test_plugin.wasm",
            &plugin("Test Plugin", &[("process_data", Some("{\"success\": true}"))]),
        )
        .unwrap();

    let result = manager.invoke("test_plugin", "process_data", "{\"test\": true}").unwrap();

    let json_result: serde_json::Value = serde_json::from_str(&result).unwrap();
    assert_eq!(json_result["success"], true, "Resultado da invocação incorreto");
}

#[test]
fn test_plugin_isolation() {
    let mut manager = PluginManager::new("./target/wasm_tests");
    let malicious = "(module (import \"wasi_snapshot_preview1\" \"fd_read\" (func (param i32 i32 i32 i32) (result i32))) (memory (export \"memory\") 1))";
    let result = manager.load_plugin("./target/wasm_tests/malicious_plugin.wasm", &malicious.as_bytes().to_vec());
    assert!(matches!(result, Err(PluginError::WasmImportError(_))));
    let invoke_result = manager.invoke("malicious_plugin", "read_file", "{\"path\": \"/etc/passwd\"}");
    assert!(invoke_result.is_err(), "A função maliciosa deveria ser bloqueada");
}

#[test]
fn test_pre_hook_answers_that_are_no_veto() {
    for (i, answer) in ["not json", "[true]", "{\"veto\":\"true\"}", "{\"veto\":1,\"reason\":\"r\"}", "{\"reason\":\"r\"}"]
        .iter()
        .enumerate()
    {
        let mut runtime = Runtime::new("p", 1);
        runtime.plugins.load_plugin("p/q.wasm", &plugin("q", &[("precommand", Some(answer))])).unwrap();
        let id = format!("i{}", i);
        assert_eq!(
            runtime.process_command(&format!("DEFINE IDEA {} \"x\"", id)).unwrap(),
            format!("Ideia registrada: {}", id),
            "{}",
            answer
        );
    }
    for (answer, why) in [("{\"veto\":true}", ""), ("{\"veto\":true,\"reason\":7}", ""), ("{\"reason\":\"late\",\"veto\":true,\"more\":[]}", "late")] {
        let mut runtime = Runtime::new("p", 1);
        runtime.plugins.load_plugin("p/q.wasm", &plugin("q", &[("precommand", Some(answer))])).unwrap();
        match runtime.process_command("DEFINE IDEA i \"x\"") {
            Err(RuntimeError::Veto(reason)) => assert_eq!(reason, why, "{}", answer),
            other => panic!("{}: {:?}", answer, other),
        }
    }
}

#[test]
fn test_call_arguments() {
    assert_eq!(alloc_arguments(0), vec![0]);
    assert_eq!(alloc_arguments(17), vec![17]);
    assert_eq!(alloc_arguments(0x8000_0000), vec![i32::MIN]);
    assert_eq!(hook_arguments(8192, 5), vec![8192, 5]);
    assert_eq!(hook_arguments(u32::MAX, 0x7fff_ffff), vec![-1, i32::MAX]);
}

#[test]
fn test_hooks_are_bound_where_exported() {
    let hooks = vec!["a".to_string(), "b".to_string(), "c".to_string(), "a".to_string()];
    let bound = bind_hooks(&hooks, &vec![true, false, true, true]);
    let pairs: Vec<(String, String)> = bound.iter().map(|b| (b.hook.clone(), b.function.clone())).collect();
    assert_eq!(
        pairs,
        vec![
            ("a".to_string(), "hook_a".to_string()),
            ("c".to_string(), "hook_c".to_string()),
            ("a".to_string(), "hook_a".to_string()),
        ]
    );
    assert!(bind_hooks(&hooks, &vec![false, false, false, false]).is_empty());
    assert!(bind_hooks(&vec![], &vec![]).is_empty());
}

#[test]
fn test_metadata_failure_carries_the_message() {
    match metadata_failure(&PluginError::FunctionNotFound("get_metadata".to_string())) {
        PluginError::MetadataError(m) => assert_eq!(m, "Função do plugin não encontrada: get_metadata"),
        other => panic!("{:?}", other),
    }
    match metadata_failure(&PluginError::SerializationError("JSON inválido".to_string())) {
        PluginError::MetadataError(m) => assert_eq!(m, "Erro de serialização/deserialização: JSON inválido"),
        other => panic!("{:?}", other),
    }
}

#[test]
fn test_refusals_before_any_call() {
    let mut manager = PluginManager::new("p");
    let metadata = "{\"name\":\"n\",\"version\":\"v\",\"author\":\"a\",\"description\":\"d\",\"hooks\":[\"h\",\"g\"]}";
    let bare = format!(
        "(module (memory (export \"memory\") 1) (data (i32.const 0) \"{}\") (func (export \"get_metadata\") (result i32 i32) i32.const 0 i32.const {}) (func (export \"hook_h\") (param i32 i32) (result i32 i32) local.get 0 local.get 1))",
        escape(metadata),
        metadata.len()
    );
    let loaded = manager.load_plugin("p/bare.wasm", &bare.as_bytes().to_vec()).unwrap();
    assert_eq!(loaded.metadata.hooks, vec!["h".to_string(), "g".to_string()]);
    assert_eq!(loaded.functions.len(), 1);
    assert_eq!(loaded.functions[0].hook, "h");
    assert_eq!(loaded.functions[0].function, "hook_h");
    match manager.invoke("bare", "g", "x") {
        Err(PluginError::FunctionNotFound(m)) => assert_eq!(m, "g em bare"),
        other => panic!("{:?}", other),
    }
    match manager.invoke("bare", "h", "x") {
        Err(PluginError::FunctionNotFound(m)) => assert_eq!(m, "alloc"),
        other => panic!("{:?}", other),
    }
    match manager.invoke("none", "h", "x") {
        Err(PluginError::PluginNotFound(m)) => assert_eq!(m, "none"),
        other => panic!("{:?}", other),
    }
}

#[test]
fn test_regions_of_a_memory() {
    let mut engine = wasmer::Engine::default();
    let tunables = wasmer::sys::BaseTunables {
        static_memory_bound: wasmer::Pages(0),
        static_memory_offset_guard_size: 65536,
        dynamic_memory_offset_guard_size: 65536,
    };
    wasmer::sys::NativeEngineExt::set_tunables(&mut engine, tunables);
    let mut store = wasmer::Store::new(engine);
    let memory = wasmer::Memory::new(&mut store, wasmer::MemoryType::new(1, None, false)).unwrap();
    assert!(write_region(&mut store, &memory, 65530, &b"abcdef".to_vec()).is_ok());
    assert_eq!(read_region(&store, &memory, 65530, 6).unwrap(), "abcdef");
    assert_eq!(read_region(&store, &memory, 65532, 3).unwrap(), "cde");
    assert!(write_region(&mut store, &memory, 65533, &b"XY".to_vec()).is_ok());
    assert_eq!(read_region(&store, &memory, 65530, 6).unwrap(), "abcXYf");
    match write_region(&mut store, &memory, 65531, &b"123456".to_vec()) {
        Err(PluginError::WasmExecutionError(m)) => assert_eq!(m, "Região fora dos limites da memória"),
        other => panic!("{:?}", other),
    }
    assert_eq!(read_region(&store, &memory, 65530, 6).unwrap(), "abcXYf");
    assert_eq!(read_region(&store, &memory, 65536, 0).unwrap(), "");
    assert!(write_region(&mut store, &memory, 65536, &vec![]).is_ok());
    for (ptr, len) in [(65536, 1), (65531, 6), (u32::MAX, 1), (1, u32::MAX), (u32::MAX, u32::MAX)] {
        match read_region(&store, &memory, ptr, len) {
            Err(PluginError::WasmExecutionError(m)) => assert_eq!(m, "Região fora dos limites da memória"),
            other => panic!("{:?}", other),
        }
    }
    assert!(write_region(&mut store, &memory, 10, &vec![0x61, 0xff, 0x62]).is_ok());
    match read_region(&store, &memory, 10, 3) {
        Err(PluginError::SerializationError(m)) => assert_eq!(m, "UTF-8 inválido"),
        other => panic!("{:?}", other),
    }
    assert_eq!(read_region(&store, &memory, 0, 4).unwrap(), "\u{0}\u{0}\u{0}\u{0}");
}
