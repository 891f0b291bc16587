use vstd::prelude::*;
use crate::plugin::{Plugin, PluginApi};
use crate::text::{same_chars, str_chars};
use crate::types::PluginEvent;

verus! {

/// Whether `ext` is one of `exts`.
pub fn supports(exts: &[&str], ext: &str) -> (b: bool)
    ensures
        b == exists|i: int| 0 <= i < exts@.len() && #[trigger] exts@[i]@ == ext@,
{
    let key = str_chars(ext);
    let mut i: usize = 0;
    while i < exts.len()
        invariant
            i <= exts@.len(),
            key@ == ext@,
            forall|j: int| 0 <= j < i ==> #[trigger] exts@[j]@ != ext@,
        decreases exts@.len() - i,
    {
        if same_chars(&str_chars(exts[i]), &key) {
            return true;
        }
        i = i + 1;
    }
    false
}

/// Where plugins are looked for, as the parts of a path to join in order:
/// the directory named by `NESTVIM_PLUGIN_DIR` (`plugin_dir`) when set;
/// else `nestvim/plugins` under `XDG_CONFIG_HOME` (`config_home`) when set;
/// else `.config/nestvim/plugins` under `HOME` (`home`); nothing when that
/// is needed and not set.
pub fn plugin_dir_parts(plugin_dir: Option<String>, config_home: Option<String>, home: Option<String>) -> (r:
    Option<Vec<String>>)
    ensures
        match (plugin_dir, config_home, home) {
            (Some(d), _, _) => r matches Some(v) && v@.len() == 1 && v@[0] == d,
            (None, Some(c), _) => r matches Some(v) && v@.len() == 3 && v@[0] == c && v@[1]@
                == "nestvim"@ && v@[2]@ == "plugins"@,
            (None, None, Some(h)) => r matches Some(v) && v@.len() == 4 && v@[0] == h && v@[1]@
                == ".config"@ && v@[2]@ == "nestvim"@ && v@[3]@ == "plugins"@,
            (None, None, None) => r is None,
        },
{
    proof {
        reveal_strlit("nestvim");
        reveal_strlit("plugins");
        reveal_strlit(".config");
    }
    match (plugin_dir, config_home, home) {
        (Some(d), _, _) => Some(vec![d]),
        (None, Some(c), _) => Some(vec![c, "nestvim".to_string(), "plugins".to_string()]),
        (None, None, Some(h)) => Some(vec![h, ".config".to_string(), "nestvim".to_string(), "plugins".to_string()]),
        (None, None, None) => None,
    }
}

/// A Lisp plugin: it has a name and does nothing yet.
pub struct LispPlugin {
    pub name: String,
    heard: Ghost<Seq<PluginEvent>>,
    asked: Ghost<Seq<Seq<char>>>,
}

impl LispPlugin {
    /// The plugin's name.
    pub closed spec fn plugin_name(&self) -> Seq<char> {
        self.name@
    }

    /// A Lisp plugin called `name`, told of nothing yet.
    pub fn new(name: String) -> (p: Self)
        ensures
            p.plugin_name() == name@,
            p.keeps_record(),
            p.heard() == Seq::<PluginEvent>::empty(),
            p.asked() == Seq::<Seq<char>>::empty(),
    {
        LispPlugin { name, heard: Ghost(Seq::empty()), asked: Ghost(Seq::empty()) }
    }
}

impl Plugin for LispPlugin {
    closed spec fn keeps_record(&self) -> bool {
        true
    }

    closed spec fn heard(&self) -> Seq<PluginEvent> {
        self.heard@
    }

    closed spec fn asked(&self) -> Seq<Seq<char>> {
        self.asked@
    }

    fn name(&self) -> (s: &str)
        ensures
            s@ == self.plugin_name(),
    {
        self.name.as_str()
    }

    fn setup(&mut self, api: &mut PluginApi)
        ensures
            *final(self) == *old(self),
            *final(api) == *old(api),
    {
    }

    fn handle_event(&mut self, event: &PluginEvent)
        ensures
            final(self).plugin_name() == old(self).plugin_name(),
    {
        self.heard = Ghost(self.heard@.push(*event));
    }

    fn execute_command(&mut self, cmd: &str, args: Vec<String>) -> (b: bool)
        ensures
            !b,
            final(self).plugin_name() == old(self).plugin_name(),
    {
        self.asked = Ghost(self.asked@.push(cmd@));
        false
    }
}

/// A plugin from a native library, which does what the plugin inside it
/// does.
pub struct RustPlugin {
    pub inner: Box<dyn Plugin>,
}

impl Plugin for RustPlugin {
    open spec fn keeps_record(&self) -> bool {
        self.inner.keeps_record()
    }

    open spec fn heard(&self) -> Seq<PluginEvent> {
        self.inner.heard()
    }

    open spec fn asked(&self) -> Seq<Seq<char>> {
        self.inner.asked()
    }

    fn name(&self) -> &str {
        self.inner.name()
    }

    fn setup(&mut self, api: &mut PluginApi) {
        self.inner.setup(api);
    }

    fn handle_event(&mut self, event: &PluginEvent) {
        self.inner.handle_event(event);
    }

    fn execute_command(&mut self, cmd: &str, args: Vec<String>) -> bool {
        self.inner.execute_command(cmd, args)
    }
}

/// Loads Lisp plugins, from `.lisp` files.
pub struct LispLoader;

/// Loads Lua plugins, from `.lua` files.
pub struct LuaLoader;

/// Loads JavaScript plugins, from `.js` and `.mjs` files.
pub struct JavaScriptLoader;

/// Loads native plugins, from shared libraries.
pub struct RustLoader;

/// Loads Nix plugins, from `.nix` files.
pub struct NixLoader;

impl LispLoader {
    pub fn name(&self) -> (s: &'static str)
        ensures
            s@ == "lisp"@,
    {
        "lisp"
    }

    pub fn supported_extensions(&self) -> (e: &'static [&'static str])
        ensures
            e@.len() == 1,
            e@[0]@ == "lisp"@,
    {
        &["lisp"]
    }
}

impl LuaLoader {
    pub fn name(&self) -> (s: &'static str)
        ensures
            s@ == "lua"@,
    {
        "lua"
    }

    pub fn supported_extensions(&self) -> (e: &'static [&'static str])
        ensures
            e@.len() == 1,
            e@[0]@ == "lua"@,
    {
        &["lua"]
    }
}

impl JavaScriptLoader {
    pub fn name(&self) -> (s: &'static str)
        ensures
            s@ == "javascript"@,
    {
        "javascript"
    }

    pub fn supported_extensions(&self) -> (e: &'static [&'static str])
        ensures
            e@.len() == 2,
            e@[0]@ == "js"@,
            e@[1]@ == "mjs"@,
    {
        &["js", "mjs"]
    }
}

impl RustLoader {
    pub fn name(&self) -> (s: &'static str)
        ensures
            s@ == "rust"@,
    {
        "rust"
    }

    pub fn supported_extensions(&self) -> (e: &'static [&'static str])
        ensures
            e@.len() == 3,
            e@[0]@ == "so"@,
            e@[1]@ == "dylib"@,
            e@[2]@ == "dll"@,
    {
        &["so", "dylib", "dll"]
    }
}

impl NixLoader {
    pub fn name(&self) -> (s: &'static str)
        ensures
            s@ == "nix"@,
    {
        "nix"
    }

    pub fn supported_extensions(&self) -> (e: &'static [&'static str])
        ensures
            e@.len() == 1,
            e@[0]@ == "nix"@,
    {
        &["nix"]
    }
}

} // verus!
