use vstd::prelude::*;
use crate::text::{same_chars, str_chars};
use crate::types::{event_name, PluginEvent};

verus! {

/// A plugin: it has a name, registers its commands and event handlers
/// when set up, hears every event, and may take a command.
pub trait Plugin {
    /// Whether the plugin keeps the records `heard` and `asked`.  The
    /// contracts below speak of those records only for a plugin that keeps
    /// them; by default a plugin keeps none.
    closed spec fn keeps_record(&self) -> bool {
        false
    }

    /// The events the plugin has been told of, oldest first, for a plugin
    /// that keeps the record.
    closed spec fn heard(&self) -> Seq<PluginEvent> {
        Seq::empty()
    }

    /// The commands the plugin has been offered, oldest first, for a plugin
    /// that keeps the record.
    closed spec fn asked(&self) -> Seq<Seq<char>> {
        Seq::empty()
    }

    fn name(&self) -> &str;

    fn setup(&mut self, api: &mut PluginApi);

    /// Hears `event`.
    fn handle_event(&mut self, event: &PluginEvent)
        ensures
            final(self).keeps_record() == old(self).keeps_record(),
            old(self).keeps_record() ==> final(self).heard() == old(self).heard().push(*event)
                && final(self).asked() == old(self).asked(),
    ;

    /// Is offered command `cmd`; true when it takes it.
    fn execute_command(&mut self, cmd: &str, args: Vec<String>) -> (taken: bool)
        ensures
            final(self).keeps_record() == old(self).keeps_record(),
            old(self).keeps_record() ==> final(self).asked() == old(self).asked().push(cmd@)
                && final(self).heard() == old(self).heard(),
    ;
}

/// What plugins register with the editor: commands by name and handlers
/// by event name, each a handler number that the host maps to the code to
/// run, and the lines plugins log.
pub struct PluginApi {
    commands: Vec<(String, usize)>,
    event_handlers: Vec<(String, usize)>,
    messages: Vec<String>,
}

/// The value of the last entry named `k`, if any: a later registration
/// under a name replaces an earlier one.
pub open spec fn lookup(entries: Seq<(String, usize)>, k: Seq<char>) -> Option<usize>
    decreases entries.len(),
{
    if entries.len() == 0 {
        None
    } else if entries.last().0@ == k {
        Some(entries.last().1)
    } else {
        lookup(entries.drop_last(), k)
    }
}

/// The values of all entries named `k`, in order.
pub open spec fn all_of(entries: Seq<(String, usize)>, k: Seq<char>) -> Seq<usize>
    decreases entries.len(),
{
    if entries.len() == 0 {
        Seq::empty()
    } else {
        all_of(entries.drop_last(), k) + if entries.last().0@ == k {
            seq![entries.last().1]
        } else {
            Seq::empty()
        }
    }
}

impl PluginApi {
    /// The handler of command `k`, if one is registered.
    pub closed spec fn command_of(&self, k: Seq<char>) -> Option<usize> {
        lookup(self.commands@, k)
    }

    /// The handlers of the event named `k`, in the order they were
    /// registered.
    pub closed spec fn handlers_of(&self, k: Seq<char>) -> Seq<usize> {
        all_of(self.event_handlers@, k)
    }

    /// The lines logged, oldest first.
    pub closed spec fn logged(&self) -> Seq<Seq<char>> {
        self.messages@.map_values(|m: String| m@)
    }

    /// Nothing registered or logged.
    pub fn new() -> (a: Self)
        ensures
            forall|k: Seq<char>| #[trigger] a.command_of(k) is None,
            forall|k: Seq<char>| #[trigger] a.handlers_of(k) == Seq::<usize>::empty(),
            a.logged() == Seq::<Seq<char>>::empty(),
    {
        let a = PluginApi { commands: Vec::new(), event_handlers: Vec::new(), messages: Vec::new() };
        assert(a.logged() =~= Seq::<Seq<char>>::empty());
        a
    }

    /// Registers handler `f` as command `name`, in place of a handler
    /// registered under that name before.
    pub fn add_command(&mut self, name: String, f: usize)
        ensures
            forall|k: Seq<char>| #[trigger]
                final(self).command_of(k) == if k == name@ {
                    Some(f)
                } else {
                    old(self).command_of(k)
                },
            forall|k: Seq<char>| #[trigger] final(self).handlers_of(k) == old(self).handlers_of(k),
            final(self).logged() == old(self).logged(),
    {
        let ghost old_entries = self.commands@;
        self.commands.push((name, f));
        assert(self.commands@.drop_last() == old_entries);
    }

    /// Registers handler `f` for the event named `event`, after the ones
    /// registered for it before.
    pub fn on(&mut self, event: String, f: usize)
        ensures
            forall|k: Seq<char>| #[trigger]
                final(self).handlers_of(k) == if k == event@ {
                    old(self).handlers_of(k).push(f)
                } else {
                    old(self).handlers_of(k)
                },
            forall|k: Seq<char>| #[trigger] final(self).command_of(k) == old(self).command_of(k),
            final(self).logged() == old(self).logged(),
    {
        let ghost old_entries = self.event_handlers@;
        self.event_handlers.push((event, f));
        assert(self.event_handlers@.drop_last() == old_entries);
        assert forall|k: Seq<char>| #[trigger]
            self.handlers_of(k) == if k == event@ {
                old(self).handlers_of(k).push(f)
            } else {
                old(self).handlers_of(k)
            } by {
            if k == event@ {
                assert(all_of(self.event_handlers@, k) =~= all_of(old_entries, k).push(f));
            } else {
                assert(all_of(self.event_handlers@, k) =~= all_of(old_entries, k));
            }
        }
    }

    /// Logs `msg`.
    pub fn log(&mut self, msg: &str)
        ensures
            final(self).logged() == old(self).logged().push(msg@),
            forall|k: Seq<char>| #[trigger] final(self).command_of(k) == old(self).command_of(k),
            forall|k: Seq<char>| #[trigger] final(self).handlers_of(k) == old(self).handlers_of(k),
    {
        self.messages.push(msg.to_string());
        assert(self.logged() =~= old(self).logged().push(msg@));
    }

    /// The handler of command `name`, if one is registered.
    pub fn command(&self, name: &str) -> (r: Option<usize>)
        ensures
            r == self.command_of(name@),
    {
        let key = str_chars(name);
        let mut found: Option<usize> = None;
        let mut i: usize = 0;
        while i < self.commands.len()
            invariant
                i <= self.commands@.len(),
                key@ == name@,
                found == lookup(self.commands@.subrange(0, i as int), name@),
            decreases self.commands@.len() - i,
        {
            let ghost next = self.commands@.subrange(0, i + 1);
            assert(next.drop_last() =~= self.commands@.subrange(0, i as int));
            assert(next.last() == self.commands@[i as int]);
            if same_chars(&str_chars(self.commands[i].0.as_str()), &key) {
                found = Some(self.commands[i].1);
            }
            i = i + 1;
        }
        assert(self.commands@.subrange(0, i as int) =~= self.commands@);
        found
    }

    /// The handlers of the event named `event`, in the order they were
    /// registered.
    pub fn handlers_for(&self, event: &str) -> (r: Vec<usize>)
        ensures
            r@ == self.handlers_of(event@),
    {
        let key = str_chars(event);
        let mut out: Vec<usize> = Vec::new();
        let mut i: usize = 0;
        while i < self.event_handlers.len()
            invariant
                i <= self.event_handlers@.len(),
                key@ == event@,
                out@ == all_of(self.event_handlers@.subrange(0, i as int), event@),
            decreases self.event_handlers@.len() - i,
        {
            let ghost next = self.event_handlers@.subrange(0, i + 1);
            assert(next.drop_last() =~= self.event_handlers@.subrange(0, i as int));
            assert(next.last() == self.event_handlers@[i as int]);
            if same_chars(&str_chars(self.event_handlers[i].0.as_str()), &key) {
                out.push(self.event_handlers[i].1);
            } else {
                assert(out@ =~= out@ + Seq::<usize>::empty());
            }
            i = i + 1;
        }
        assert(self.event_handlers@.subrange(0, i as int) =~= self.event_handlers@);
        out
    }

    /// Takes the lines logged so far.
    pub fn take_log(&mut self) -> (r: Vec<String>)
        ensures
            r@.map_values(|m: String| m@) == old(self).logged(),
            final(self).logged() == Seq::<Seq<char>>::empty(),
            forall|k: Seq<char>| #[trigger] final(self).command_of(k) == old(self).command_of(k),
            forall|k: Seq<char>| #[trigger] final(self).handlers_of(k) == old(self).handlers_of(k),
    {
        let mut r: Vec<String> = Vec::new();
        std::mem::swap(&mut r, &mut self.messages);
        assert(self.logged() =~= Seq::<Seq<char>>::empty());
        r
    }
}

/// What became of a command: a plugin took it, a registered handler is to
/// run it, or nothing knows it.
pub enum CommandOutcome {
    TakenByPlugin,
    Handler(usize),
    Unknown,
}

/// The plugins loaded and what they registered.
pub struct PluginManager {
    plugins: Vec<Box<dyn Plugin>>,
    api: PluginApi,
}

/// `x` appended to `v`, with the length and the prefix stated apart, as
/// the callers use them for elements that hold a trait object.
fn push_counted<T>(v: &mut Vec<T>, x: T)
    ensures
        final(v)@ == old(v)@.push(x),
        final(v)@.len() == old(v)@.len() + 1,
        final(v)@.drop_last() == old(v)@,
{
    v.push(x);
    assert(v@.drop_last() =~= old(v)@);
}

/// Plugins `after` are `before` once the first `k + 1` of them (all of them
/// for `k` past the last) were offered command `cmd`: of those that keep
/// records, the first were offered it once more, the others not, and none
/// heard an event.
pub open spec fn offered_through(
    before: Seq<Box<dyn Plugin>>,
    after: Seq<Box<dyn Plugin>>,
    cmd: Seq<char>,
    k: int,
) -> bool {
    forall|j: int|
        0 <= j < before.len() ==> (#[trigger] after[j]).keeps_record() == before[j].keeps_record() && (
        before[j].keeps_record() ==> after[j].heard() == before[j].heard() && after[j].asked() == if j
            <= k {
            before[j].asked().push(cmd)
        } else {
            before[j].asked()
        })
}

impl PluginManager {
    /// The plugins loaded, in the order they were added.
    pub closed spec fn plugins(&self) -> Seq<Box<dyn Plugin>> {
        self.plugins@
    }

    /// Number of plugins loaded.
    pub closed spec fn plugin_count(&self) -> nat {
        self.plugins@.len()
    }

    /// What the plugins registered.
    pub closed spec fn registry(&self) -> PluginApi {
        self.api
    }

    /// No plugins, nothing registered.
    pub fn new() -> (m: Self)
        ensures
            forall|k: Seq<char>| #[trigger] m.registry().command_of(k) is None,
            forall|k: Seq<char>| #[trigger] m.registry().handlers_of(k) == Seq::<usize>::empty(),
            m.registry().logged() == Seq::<Seq<char>>::empty(),
            m.plugin_count() == 0,
    {
        PluginManager { plugins: Vec::new(), api: PluginApi::new() }
    }

    /// Tells every plugin of `event`, in the order they were added, and
    /// gives the handlers registered for the event's name, in the order
    /// they were registered, for the host to run.  Each plugin that keeps a
    /// record has heard the event once more.
    pub fn emit(&mut self, event: PluginEvent) -> (r: Vec<usize>)
        ensures
            r@ == old(self).registry().handlers_of(event_name(event)),
            final(self).registry() == old(self).registry(),
            final(self).plugin_count() == old(self).plugin_count(),
            forall|j: int|
                0 <= j < old(self).plugin_count() ==> (#[trigger] final(self).plugins()[j]).keeps_record()
                    == old(self).plugins()[j].keeps_record() && (old(self).plugins()[j].keeps_record() ==> final(self).plugins()[j].heard() == old(self).plugins()[j].heard().push(event) && final(self).plugins()[j].asked()
                    == old(self).plugins()[j].asked()),
    {
        let mut i: usize = 0;
        while i < self.plugins.len()
            invariant
                i <= self.plugins@.len(),
                self.plugins@.len() == old(self).plugins@.len(),
                self.api == old(self).api,
                forall|j: int|
                    0 <= j < i ==> (#[trigger] self.plugins@[j]).keeps_record() == old(self).plugins@[j].keeps_record()
                        && (old(self).plugins@[j].keeps_record() ==> self.plugins@[j].heard() == old(self).plugins@[j].heard().push(event) && self.plugins@[j].asked() == old(self).plugins@[j].asked()),
                forall|j: int| i <= j < self.plugins@.len() ==> #[trigger] self.plugins@[j] == old(self).plugins@[j],
            decreases self.plugins@.len() - i,
        {
            self.plugins[i].handle_event(&event);
            i = i + 1;
        }
        self.api.handlers_for(event.name())
    }

    /// Offers `cmd` to each plugin in turn, with no arguments, until one
    /// takes it; when none does, the handler registered as `cmd` is to run
    /// it, if there is one.  The plugins asked are those before `k` and,
    /// when one took it, the one at `k`; for those that keep a record, the
    /// record says so.
    pub fn execute_command(&mut self, cmd: &str) -> (r: CommandOutcome)
        ensures
            final(self).registry() == old(self).registry(),
            final(self).plugin_count() == old(self).plugin_count(),
            exists|k: int|
                0 <= k <= old(self).plugin_count() && (r is TakenByPlugin <==> k < old(self).plugin_count())
                    && #[trigger] offered_through(old(self).plugins(), final(self).plugins(), cmd@, k),
            r matches CommandOutcome::Handler(f) ==> old(self).registry().command_of(cmd@) == Some(f),
            r is Unknown <==> old(self).registry().command_of(cmd@) is None && !(r is TakenByPlugin),
    {
        let mut i: usize = 0;
        while i < self.plugins.len()
            invariant
                i <= self.plugins@.len(),
                self.plugins@.len() == old(self).plugins@.len(),
                self.api == old(self).api,
                forall|j: int|
                    0 <= j < i ==> (#[trigger] self.plugins@[j]).keeps_record() == old(self).plugins@[j].keeps_record()
                        && (old(self).plugins@[j].keeps_record() ==> self.plugins@[j].asked() == old(self).plugins@[j].asked().push(cmd@) && self.plugins@[j].heard() == old(self).plugins@[j].heard()),
                forall|j: int| i <= j < self.plugins@.len() ==> #[trigger] self.plugins@[j] == old(self).plugins@[j],
            decreases self.plugins@.len() - i,
        {
            if self.plugins[i].execute_command(cmd, Vec::new()) {
                assert(offered_through(old(self).plugins@, self.plugins@, cmd@, i as int));
                assert(offered_through(old(self).plugins(), self.plugins(), cmd@, i as int));
                return CommandOutcome::TakenByPlugin;
            }
            i = i + 1;
        }
        assert(offered_through(old(self).plugins@, self.plugins@, cmd@, self.plugins@.len() as int));
        assert(offered_through(old(self).plugins(), self.plugins(), cmd@, old(self).plugin_count() as int));
        match self.api.command(cmd) {
            Some(f) => CommandOutcome::Handler(f),
            None => CommandOutcome::Unknown,
        }
    }

    /// Adds a plugin after the others.
    pub fn add_plugin(&mut self, plugin: Box<dyn Plugin>)
        ensures
            final(self).registry() == old(self).registry(),
            final(self).plugins() == old(self).plugins().push(plugin),
            final(self).plugin_count() == old(self).plugin_count() + 1,
    {
        push_counted(&mut self.plugins, plugin);
    }

    /// What the plugins registered.
    pub fn api(&self) -> (a: &PluginApi)
        ensures
            *a == self.registry(),
    {
        &self.api
    }

    /// Takes the lines the plugins logged so far.
    pub fn take_log(&mut self) -> (r: Vec<String>)
        ensures
            r@.map_values(|m: String| m@) == old(self).registry().logged(),
            final(self).registry().logged() == Seq::<Seq<char>>::empty(),
    {
        self.api.take_log()
    }

    /// Sets `plugin` up against the registry, then adds it after the
    /// others.
    pub fn install(&mut self, plugin: Box<dyn Plugin>)
        ensures
            final(self).plugin_count() == old(self).plugin_count() + 1,
            final(self).plugins().drop_last() == old(self).plugins(),
    {
        let mut plugin = plugin;
        plugin.setup(&mut self.api);
        push_counted(&mut self.plugins, plugin);
    }
}

impl Default for PluginManager {
    fn default() -> (m: Self)
        ensures
            forall|k: Seq<char>| #[trigger] m.registry().command_of(k) is None,
            forall|k: Seq<char>| #[trigger] m.registry().handlers_of(k) == Seq::<usize>::empty(),
    {
        PluginManager::new()
    }
}

} // verus!
