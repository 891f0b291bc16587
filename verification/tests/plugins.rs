use nestvim::loaders::{
    plugin_dir_parts,
    supports, JavaScriptLoader, LispLoader, LispPlugin, LuaLoader, NixLoader, RustLoader, RustPlugin,
};
use nestvim::plugin::{CommandOutcome, Plugin, PluginApi, PluginManager};
use nestvim::types::{Mode, PluginEvent};

struct Greeter {
    takes: bool,
}

impl Plugin for Greeter {
    fn name(&self) -> &str {
        "greeter"
    }

    fn setup(&mut self, api: &mut PluginApi) {
        api.add_command("greet".to_string(), 7);
        api.on("key".to_string(), 4);
        api.log("greeter ready");
    }

    fn handle_event(&mut self, _event: &PluginEvent) {}

    fn execute_command(&mut self, cmd: &str, _args: Vec<String>) -> bool {
        self.takes && cmd == "mine"
    }
}

#[test]
fn api_registers_commands_and_handlers() {
    let mut api = PluginApi::new();
    assert_eq!(api.command("hello"), None);
    api.add_command("hello".to_string(), 3);
    assert_eq!(api.command("hello"), Some(3));
    api.add_command("hello".to_string(), 5);
    assert_eq!(api.command("hello"), Some(5));
    api.on("key".to_string(), 1);
    api.on("mode_change".to_string(), 9);
    api.on("key".to_string(), 2);
    assert_eq!(api.handlers_for("key"), vec![1, 2]);
    assert_eq!(api.handlers_for("mode_change"), vec![9]);
    assert!(api.handlers_for("buffer_save").is_empty());
    api.log("one");
    api.log("two");
    assert_eq!(api.take_log(), vec!["one".to_string(), "two".to_string()]);
    assert!(api.take_log().is_empty());
}

#[test]
fn manager_routes_events_and_commands() {
    let mut m = PluginManager::new();
    m.install(Box::new(Greeter { takes: true }));
    m.add_plugin(Box::new(LispPlugin::new("lisp".to_string())));
    assert_eq!(m.take_log(), vec!["greeter ready".to_string()]);
    assert_eq!(m.emit(PluginEvent::Key { mode: Mode::Normal, key: 'x' }), vec![4]);
    assert!(m.emit(PluginEvent::BufferChange).is_empty());
    assert!(matches!(m.execute_command("greet"), CommandOutcome::Handler(7)));
    assert!(matches!(m.execute_command("mine"), CommandOutcome::TakenByPlugin));
    assert!(matches!(m.execute_command("other"), CommandOutcome::Unknown));
    assert_eq!(m.api().command("greet"), Some(7));
}

#[test]
fn empty_manager_knows_no_command() {
    let mut m = PluginManager::default();
    assert!(matches!(m.execute_command("x"), CommandOutcome::Unknown));
    assert!(m.emit(PluginEvent::ModeChange { from: Mode::Normal, to: Mode::Insert }).is_empty());
}

#[test]
fn wrapped_plugins_delegate() {
    let mut p = RustPlugin { inner: Box::new(Greeter { takes: true }) };
    assert_eq!(p.name(), "greeter");
    assert!(p.execute_command("mine", vec![]));
    let mut api = PluginApi::new();
    p.setup(&mut api);
    assert_eq!(api.command("greet"), Some(7));
    let mut l = LispPlugin::new("x".to_string());
    assert_eq!(l.name(), "x");
    assert!(!l.execute_command("mine", vec![]));
}

#[test]
fn loaders_name_their_files() {
    assert_eq!(LispLoader.name(), "lisp");
    assert_eq!(LuaLoader.name(), "lua");
    assert_eq!(JavaScriptLoader.name(), "javascript");
    assert_eq!(RustLoader.name(), "rust");
    assert_eq!(NixLoader.name(), "nix");
    assert!(supports(JavaScriptLoader.supported_extensions(), "mjs"));
    assert!(supports(RustLoader.supported_extensions(), "dll"));
    assert!(!supports(LuaLoader.supported_extensions(), "js"));
    assert_eq!(NixLoader.supported_extensions(), &["nix"]);
    assert_eq!(LispLoader.supported_extensions(), &["lisp"]);
}

struct Recorder {
    id: &'static str,
    takes: bool,
    log: std::rc::Rc<std::cell::RefCell<Vec<String>>>,
}

impl Plugin for Recorder {
    fn name(&self) -> &str {
        self.id
    }

    fn setup(&mut self, _api: &mut PluginApi) {}

    fn handle_event(&mut self, event: &PluginEvent) {
        self.log.borrow_mut().push(format!("{}:{}", self.id, event.name()));
    }

    fn execute_command(&mut self, cmd: &str, _args: Vec<String>) -> bool {
        self.log.borrow_mut().push(format!("{}?{}", self.id, cmd));
        self.takes
    }
}

#[test]
fn plugins_hear_events_and_are_asked_in_order() {
    let log = std::rc::Rc::new(std::cell::RefCell::new(Vec::new()));
    let mut m = PluginManager::new();
    for (id, takes) in [("a", false), ("b", true), ("c", true)] {
        m.add_plugin(Box::new(Recorder { id, takes, log: log.clone() }));
    }
    m.emit(PluginEvent::BufferChange);
    assert_eq!(*log.borrow(), vec!["a:buffer_change", "b:buffer_change", "c:buffer_change"]);
    log.borrow_mut().clear();
    assert!(matches!(m.execute_command("x"), CommandOutcome::TakenByPlugin));
    assert_eq!(*log.borrow(), vec!["a?x", "b?x"]);
}

#[test]
fn plugin_directory_choice() {
    let s = |x: &str| Some(x.to_string());
    assert_eq!(plugin_dir_parts(s("/p"), s("/x"), s("/h")), Some(vec!["/p".to_string()]));
    assert_eq!(
        plugin_dir_parts(None, s("/x"), s("/h")),
        Some(vec!["/x".to_string(), "nestvim".to_string(), "plugins".to_string()])
    );
    assert_eq!(
        plugin_dir_parts(None, None, s("/h")),
        Some(vec!["/h".to_string(), ".config".to_string(), "nestvim".to_string(), "plugins".to_string()])
    );
    assert_eq!(plugin_dir_parts(None, None, None), None);
}
