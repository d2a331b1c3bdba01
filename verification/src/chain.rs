//! The plugin chain: an ordered sequence of plugins behind one owning
//! handle, and the functions that run every lifecycle hook through it in
//! registration order.

use vstd::prelude::*;
use crate::plugin::TerminalPlugin;
use crate::plugins::AliasPlugin;
use crate::plugins::AutoCompletePlugin;
use crate::plugins::ColorPlugin;
use crate::plugins::GitPlugin;
use crate::plugins::HistoryPlugin;
use crate::plugins::MonitorPlugin;
use crate::plugins::PrefixPlugin;
use crate::plugins::ThemeModel;
use crate::plugins::ThemePlugin;
use crate::plugins::TimingPlugin;
use crate::plugins::UppercasePlugin;

verus! {

/// One plugin of any built-in kind, owned by a session's chain.
pub enum Plugin {
    History(HistoryPlugin),
    Color(ColorPlugin),
    Timing(TimingPlugin),
    Git(GitPlugin),
    AutoComplete(AutoCompletePlugin),
    Alias(AliasPlugin),
    Theme(ThemePlugin),
    Monitor(MonitorPlugin),
    Uppercase(UppercasePlugin),
    Prefix(PrefixPlugin),
}

/// The viewed state of one plugin.
pub enum PluginModel {
    History(Seq<Seq<char>>),
    Color,
    Timing(Seq<(u64, u64)>),
    Git,
    AutoComplete(Seq<Seq<char>>),
    Alias(Seq<(Seq<char>, Seq<char>)>),
    Theme(ThemeModel),
    Monitor(bool),
    Uppercase,
    Prefix(Seq<char>),
}

impl View for Plugin {
    type V = PluginModel;

    open spec fn view(&self) -> PluginModel {
        match self {
            Plugin::History(p) => PluginModel::History(p@),
            Plugin::Color(_) => PluginModel::Color,
            Plugin::Timing(p) => PluginModel::Timing(p@),
            Plugin::Git(_) => PluginModel::Git,
            Plugin::AutoComplete(p) => PluginModel::AutoComplete(p@),
            Plugin::Alias(p) => PluginModel::Alias(p@),
            Plugin::Theme(p) => PluginModel::Theme(p@),
            Plugin::Monitor(p) => PluginModel::Monitor(p@),
            Plugin::Uppercase(_) => PluginModel::Uppercase,
            Plugin::Prefix(p) => PluginModel::Prefix(p@),
        }
    }
}

impl TerminalPlugin for Plugin {
    open spec fn spec_name(&self) -> Seq<char> {
        match self {
            Plugin::History(p) => p.spec_name(),
            Plugin::Color(p) => p.spec_name(),
            Plugin::Timing(p) => p.spec_name(),
            Plugin::Git(p) => p.spec_name(),
            Plugin::AutoComplete(p) => p.spec_name(),
            Plugin::Alias(p) => p.spec_name(),
            Plugin::Theme(p) => p.spec_name(),
            Plugin::Monitor(p) => p.spec_name(),
            Plugin::Uppercase(p) => p.spec_name(),
            Plugin::Prefix(p) => p.spec_name(),
        }
    }

    open spec fn model_session_start(m: PluginModel, session_id: u64) -> PluginModel {
        match m {
            PluginModel::History(s) => PluginModel::History(
                HistoryPlugin::model_session_start(s, session_id),
            ),
            PluginModel::Color => PluginModel::Color,
            PluginModel::Timing(s) => PluginModel::Timing(
                TimingPlugin::model_session_start(s, session_id),
            ),
            PluginModel::Git => PluginModel::Git,
            PluginModel::AutoComplete(s) => PluginModel::AutoComplete(
                AutoCompletePlugin::model_session_start(s, session_id),
            ),
            PluginModel::Alias(s) => PluginModel::Alias(
                AliasPlugin::model_session_start(s, session_id),
            ),
            PluginModel::Theme(s) => PluginModel::Theme(
                ThemePlugin::model_session_start(s, session_id),
            ),
            PluginModel::Monitor(s) => PluginModel::Monitor(
                MonitorPlugin::model_session_start(s, session_id),
            ),
            PluginModel::Uppercase => PluginModel::Uppercase,
            PluginModel::Prefix(s) => PluginModel::Prefix(
                PrefixPlugin::model_session_start(s, session_id),
            ),
        }
    }

    open spec fn model_session_end(m: PluginModel, session_id: u64) -> PluginModel {
        match m {
            PluginModel::History(s) => PluginModel::History(
                HistoryPlugin::model_session_end(s, session_id),
            ),
            PluginModel::Color => PluginModel::Color,
            PluginModel::Timing(s) => PluginModel::Timing(
                TimingPlugin::model_session_end(s, session_id),
            ),
            PluginModel::Git => PluginModel::Git,
            PluginModel::AutoComplete(s) => PluginModel::AutoComplete(
                AutoCompletePlugin::model_session_end(s, session_id),
            ),
            PluginModel::Alias(s) => PluginModel::Alias(
                AliasPlugin::model_session_end(s, session_id),
            ),
            PluginModel::Theme(s) => PluginModel::Theme(
                ThemePlugin::model_session_end(s, session_id),
            ),
            PluginModel::Monitor(s) => PluginModel::Monitor(
                MonitorPlugin::model_session_end(s, session_id),
            ),
            PluginModel::Uppercase => PluginModel::Uppercase,
            PluginModel::Prefix(s) => PluginModel::Prefix(
                PrefixPlugin::model_session_end(s, session_id),
            ),
        }
    }

    open spec fn model_command_start(
        m: PluginModel,
        cmd: Seq<char>,
        session_id: u64,
        now_ms: u64,
    ) -> PluginModel {
        match m {
            PluginModel::History(s) => PluginModel::History(
                HistoryPlugin::model_command_start(s, cmd, session_id, now_ms),
            ),
            PluginModel::Color => PluginModel::Color,
            PluginModel::Timing(s) => PluginModel::Timing(
                TimingPlugin::model_command_start(s, cmd, session_id, now_ms),
            ),
            PluginModel::Git => PluginModel::Git,
            PluginModel::AutoComplete(s) => PluginModel::AutoComplete(
                AutoCompletePlugin::model_command_start(s, cmd, session_id, now_ms),
            ),
            PluginModel::Alias(s) => PluginModel::Alias(
                AliasPlugin::model_command_start(s, cmd, session_id, now_ms),
            ),
            PluginModel::Theme(s) => PluginModel::Theme(
                ThemePlugin::model_command_start(s, cmd, session_id, now_ms),
            ),
            PluginModel::Monitor(s) => PluginModel::Monitor(
                MonitorPlugin::model_command_start(s, cmd, session_id, now_ms),
            ),
            PluginModel::Uppercase => PluginModel::Uppercase,
            PluginModel::Prefix(s) => PluginModel::Prefix(
                PrefixPlugin::model_command_start(s, cmd, session_id, now_ms),
            ),
        }
    }

    open spec fn model_command_end(
        m: PluginModel,
        exit_code: Option<i32>,
        session_id: u64,
        now_ms: u64,
    ) -> PluginModel {
        match m {
            PluginModel::History(s) => PluginModel::History(
                HistoryPlugin::model_command_end(s, exit_code, session_id, now_ms),
            ),
            PluginModel::Color => PluginModel::Color,
            PluginModel::Timing(s) => PluginModel::Timing(
                TimingPlugin::model_command_end(s, exit_code, session_id, now_ms),
            ),
            PluginModel::Git => PluginModel::Git,
            PluginModel::AutoComplete(s) => PluginModel::AutoComplete(
                AutoCompletePlugin::model_command_end(s, exit_code, session_id, now_ms),
            ),
            PluginModel::Alias(s) => PluginModel::Alias(
                AliasPlugin::model_command_end(s, exit_code, session_id, now_ms),
            ),
            PluginModel::Theme(s) => PluginModel::Theme(
                ThemePlugin::model_command_end(s, exit_code, session_id, now_ms),
            ),
            PluginModel::Monitor(s) => PluginModel::Monitor(
                MonitorPlugin::model_command_end(s, exit_code, session_id, now_ms),
            ),
            PluginModel::Uppercase => PluginModel::Uppercase,
            PluginModel::Prefix(s) => PluginModel::Prefix(
                PrefixPlugin::model_command_end(s, exit_code, session_id, now_ms),
            ),
        }
    }

    open spec fn model_output_state(m: PluginModel, chunk: Seq<char>, session_id: u64) -> PluginModel {
        match m {
            PluginModel::History(s) => PluginModel::History(
                HistoryPlugin::model_output_state(s, chunk, session_id),
            ),
            PluginModel::Color => PluginModel::Color,
            PluginModel::Timing(s) => PluginModel::Timing(
                TimingPlugin::model_output_state(s, chunk, session_id),
            ),
            PluginModel::Git => PluginModel::Git,
            PluginModel::AutoComplete(s) => PluginModel::AutoComplete(
                AutoCompletePlugin::model_output_state(s, chunk, session_id),
            ),
            PluginModel::Alias(s) => PluginModel::Alias(
                AliasPlugin::model_output_state(s, chunk, session_id),
            ),
            PluginModel::Theme(s) => PluginModel::Theme(
                ThemePlugin::model_output_state(s, chunk, session_id),
            ),
            PluginModel::Monitor(s) => PluginModel::Monitor(
                MonitorPlugin::model_output_state(s, chunk, session_id),
            ),
            PluginModel::Uppercase => PluginModel::Uppercase,
            PluginModel::Prefix(s) => PluginModel::Prefix(
                PrefixPlugin::model_output_state(s, chunk, session_id),
            ),
        }
    }

    open spec fn model_output_text(m: PluginModel, chunk: Seq<char>, session_id: u64) -> Seq<char> {
        match m {
            PluginModel::History(s) => HistoryPlugin::model_output_text(s, chunk, session_id),
            PluginModel::Color => chunk,
            PluginModel::Timing(s) => TimingPlugin::model_output_text(s, chunk, session_id),
            PluginModel::Git => chunk,
            PluginModel::AutoComplete(s) => AutoCompletePlugin::model_output_text(
                s,
                chunk,
                session_id,
            ),
            PluginModel::Alias(s) => AliasPlugin::model_output_text(s, chunk, session_id),
            PluginModel::Theme(s) => ThemePlugin::model_output_text(s, chunk, session_id),
            PluginModel::Monitor(s) => MonitorPlugin::model_output_text(s, chunk, session_id),
            PluginModel::Uppercase => UppercasePlugin::model_output_text((), chunk, session_id),
            PluginModel::Prefix(s) => PrefixPlugin::model_output_text(s, chunk, session_id),
        }
    }

    fn name(&self) -> (r: &'static str) {
        match self {
            Plugin::History(p) => p.name(),
            Plugin::Color(p) => p.name(),
            Plugin::Timing(p) => p.name(),
            Plugin::Git(p) => p.name(),
            Plugin::AutoComplete(p) => p.name(),
            Plugin::Alias(p) => p.name(),
            Plugin::Theme(p) => p.name(),
            Plugin::Monitor(p) => p.name(),
            Plugin::Uppercase(p) => p.name(),
            Plugin::Prefix(p) => p.name(),
        }
    }

    fn on_session_start(&mut self, session_id: u64) {
        match self {
            Plugin::History(p) => p.on_session_start(session_id),
            Plugin::Color(p) => p.on_session_start(session_id),
            Plugin::Timing(p) => p.on_session_start(session_id),
            Plugin::Git(p) => p.on_session_start(session_id),
            Plugin::AutoComplete(p) => p.on_session_start(session_id),
            Plugin::Alias(p) => p.on_session_start(session_id),
            Plugin::Theme(p) => p.on_session_start(session_id),
            Plugin::Monitor(p) => p.on_session_start(session_id),
            Plugin::Uppercase(p) => p.on_session_start(session_id),
            Plugin::Prefix(p) => p.on_session_start(session_id),
        }
    }

    fn on_session_end(&mut self, session_id: u64) {
        match self {
            Plugin::History(p) => p.on_session_end(session_id),
            Plugin::Color(p) => p.on_session_end(session_id),
            Plugin::Timing(p) => p.on_session_end(session_id),
            Plugin::Git(p) => p.on_session_end(session_id),
            Plugin::AutoComplete(p) => p.on_session_end(session_id),
            Plugin::Alias(p) => p.on_session_end(session_id),
            Plugin::Theme(p) => p.on_session_end(session_id),
            Plugin::Monitor(p) => p.on_session_end(session_id),
            Plugin::Uppercase(p) => p.on_session_end(session_id),
            Plugin::Prefix(p) => p.on_session_end(session_id),
        }
    }

    fn on_command_start(&mut self, command: &str, session_id: u64, now_ms: u64) {
        match self {
            Plugin::History(p) => p.on_command_start(command, session_id, now_ms),
            Plugin::Color(p) => p.on_command_start(command, session_id, now_ms),
            Plugin::Timing(p) => p.on_command_start(command, session_id, now_ms),
            Plugin::Git(p) => p.on_command_start(command, session_id, now_ms),
            Plugin::AutoComplete(p) => p.on_command_start(command, session_id, now_ms),
            Plugin::Alias(p) => p.on_command_start(command, session_id, now_ms),
            Plugin::Theme(p) => p.on_command_start(command, session_id, now_ms),
            Plugin::Monitor(p) => p.on_command_start(command, session_id, now_ms),
            Plugin::Uppercase(p) => p.on_command_start(command, session_id, now_ms),
            Plugin::Prefix(p) => p.on_command_start(command, session_id, now_ms),
        }
    }

    fn on_command_end(&mut self, exit_code: Option<i32>, session_id: u64, now_ms: u64) {
        match self {
            Plugin::History(p) => p.on_command_end(exit_code, session_id, now_ms),
            Plugin::Color(p) => p.on_command_end(exit_code, session_id, now_ms),
            Plugin::Timing(p) => p.on_command_end(exit_code, session_id, now_ms),
            Plugin::Git(p) => p.on_command_end(exit_code, session_id, now_ms),
            Plugin::AutoComplete(p) => p.on_command_end(exit_code, session_id, now_ms),
            Plugin::Alias(p) => p.on_command_end(exit_code, session_id, now_ms),
            Plugin::Theme(p) => p.on_command_end(exit_code, session_id, now_ms),
            Plugin::Monitor(p) => p.on_command_end(exit_code, session_id, now_ms),
            Plugin::Uppercase(p) => p.on_command_end(exit_code, session_id, now_ms),
            Plugin::Prefix(p) => p.on_command_end(exit_code, session_id, now_ms),
        }
    }

    fn on_output(&mut self, chunk: &str, session_id: u64) -> (r: String) {
        match self {
            Plugin::History(p) => p.on_output(chunk, session_id),
            Plugin::Color(p) => p.on_output(chunk, session_id),
            Plugin::Timing(p) => p.on_output(chunk, session_id),
            Plugin::Git(p) => p.on_output(chunk, session_id),
            Plugin::AutoComplete(p) => p.on_output(chunk, session_id),
            Plugin::Alias(p) => p.on_output(chunk, session_id),
            Plugin::Theme(p) => p.on_output(chunk, session_id),
            Plugin::Monitor(p) => p.on_output(chunk, session_id),
            Plugin::Uppercase(p) => p.on_output(chunk, session_id),
            Plugin::Prefix(p) => p.on_output(chunk, session_id),
        }
    }
}

/// The views of the plugins of a chain, in chain order.
pub open spec fn models_of(ps: Seq<Plugin>) -> Seq<PluginModel> {
    ps.map_values(|p: Plugin| p@)
}

/// Every plugin's state after `on_session_start` ran through the chain
/// in order. The hooks are side-effecting only: each acts on its own
/// state, so the chain's effect is the pointwise step.
pub open spec fn chain_session_start(ms: Seq<PluginModel>, session_id: u64) -> Seq<PluginModel> {
    ms.map_values(|m: PluginModel| Plugin::model_session_start(m, session_id))
}

/// Every plugin's state after `on_session_end` ran through the chain in
/// order.
pub open spec fn chain_session_end(ms: Seq<PluginModel>, session_id: u64) -> Seq<PluginModel> {
    ms.map_values(|m: PluginModel| Plugin::model_session_end(m, session_id))
}

/// Every plugin's state after `on_command_start` ran through the chain
/// in order.
pub open spec fn chain_command_start(
    ms: Seq<PluginModel>,
    cmd: Seq<char>,
    session_id: u64,
    now_ms: u64,
) -> Seq<PluginModel> {
    ms.map_values(|m: PluginModel| Plugin::model_command_start(m, cmd, session_id, now_ms))
}

/// Every plugin's state after `on_command_end` ran through the chain in
/// order.
pub open spec fn chain_command_end(
    ms: Seq<PluginModel>,
    exit_code: Option<i32>,
    session_id: u64,
    now_ms: u64,
) -> Seq<PluginModel> {
    ms.map_values(|m: PluginModel| Plugin::model_command_end(m, exit_code, session_id, now_ms))
}

/// One chunk threaded through the chain left to right: plugin `i`'s
/// transformed output becomes plugin `i + 1`'s input. Yields the new
/// plugin states and the text handed to the sink.
pub open spec fn chain_output(ms: Seq<PluginModel>, chunk: Seq<char>, session_id: u64) -> (
    Seq<PluginModel>,
    Seq<char>,
)
    decreases ms.len(),
{
    if ms.len() == 0 {
        (ms, chunk)
    } else {
        let m0 = Plugin::model_output_state(ms[0], chunk, session_id);
        let t0 = Plugin::model_output_text(ms[0], chunk, session_id);
        let rec = chain_output(ms.drop_first(), t0, session_id);
        (seq![m0] + rec.0, rec.1)
    }
}

/// Runs `on_session_start` on every plugin, in chain order.
pub fn run_session_start(plugins: &mut Vec<Plugin>, session_id: u64)
    ensures
        models_of(final(plugins)@) == chain_session_start(models_of(old(plugins)@), session_id),
{
    let n = plugins.len();
    let mut i: usize = 0;
    while i < n
        invariant
            i <= n,
            n == plugins@.len(),
            plugins@.len() == old(plugins)@.len(),
            forall|j: int| i <= j < n ==> plugins@[j] == old(plugins)@[j],
            forall|j: int|
                0 <= j < i ==> (#[trigger] plugins@[j])@ == Plugin::model_session_start(
                    old(plugins)@[j]@,
                    session_id,
                ),
        decreases n - i,
    {
        let p = &mut plugins[i];
        p.on_session_start(session_id);
        i += 1;
    }
    proof {
        assert(models_of(plugins@) =~= chain_session_start(models_of(old(plugins)@), session_id));
    }
}

/// Runs `on_session_end` on every plugin, in chain order.
pub fn run_session_end(plugins: &mut Vec<Plugin>, session_id: u64)
    ensures
        models_of(final(plugins)@) == chain_session_end(models_of(old(plugins)@), session_id),
{
    let n = plugins.len();
    let mut i: usize = 0;
    while i < n
        invariant
            i <= n,
            n == plugins@.len(),
            plugins@.len() == old(plugins)@.len(),
            forall|j: int| i <= j < n ==> plugins@[j] == old(plugins)@[j],
            forall|j: int|
                0 <= j < i ==> (#[trigger] plugins@[j])@ == Plugin::model_session_end(
                    old(plugins)@[j]@,
                    session_id,
                ),
        decreases n - i,
    {
        let p = &mut plugins[i];
        p.on_session_end(session_id);
        i += 1;
    }
    proof {
        assert(models_of(plugins@) =~= chain_session_end(models_of(old(plugins)@), session_id));
    }
}

/// Runs `on_command_start` on every plugin, in chain order.
pub fn run_command_start(plugins: &mut Vec<Plugin>, command: &str, session_id: u64, now_ms: u64)
    ensures
        models_of(final(plugins)@) == chain_command_start(
            models_of(old(plugins)@),
            command@,
            session_id,
            now_ms,
        ),
{
    let n = plugins.len();
    let mut i: usize = 0;
    while i < n
        invariant
            i <= n,
            n == plugins@.len(),
            plugins@.len() == old(plugins)@.len(),
            forall|j: int| i <= j < n ==> plugins@[j] == old(plugins)@[j],
            forall|j: int|
                0 <= j < i ==> (#[trigger] plugins@[j])@ == Plugin::model_command_start(
                    old(plugins)@[j]@,
                    command@,
                    session_id,
                    now_ms,
                ),
        decreases n - i,
    {
        let p = &mut plugins[i];
        p.on_command_start(command, session_id, now_ms);
        i += 1;
    }
    proof {
        assert(models_of(plugins@) =~= chain_command_start(
            models_of(old(plugins)@),
            command@,
            session_id,
            now_ms,
        ));
    }
}

/// Runs `on_command_end` on every plugin, in chain order.
pub fn run_command_end(
    plugins: &mut Vec<Plugin>,
    exit_code: Option<i32>,
    session_id: u64,
    now_ms: u64,
)
    ensures
        models_of(final(plugins)@) == chain_command_end(
            models_of(old(plugins)@),
            exit_code,
            session_id,
            now_ms,
        ),
{
    let n = plugins.len();
    let mut i: usize = 0;
    while i < n
        invariant
            i <= n,
            n == plugins@.len(),
            plugins@.len() == old(plugins)@.len(),
            forall|j: int| i <= j < n ==> plugins@[j] == old(plugins)@[j],
            forall|j: int|
                0 <= j < i ==> (#[trigger] plugins@[j])@ == Plugin::model_command_end(
                    old(plugins)@[j]@,
                    exit_code,
                    session_id,
                    now_ms,
                ),
        decreases n - i,
    {
        let p = &mut plugins[i];
        p.on_command_end(exit_code, session_id, now_ms);
        i += 1;
    }
    proof {
        assert(models_of(plugins@) =~= chain_command_end(
            models_of(old(plugins)@),
            exit_code,
            session_id,
            now_ms,
        ));
    }
}

/// Threads one chunk through the chain left to right and returns the
/// transformed text.
pub fn run_output(plugins: &mut Vec<Plugin>, chunk: String, session_id: u64) -> (r: String)
    ensures
        models_of(final(plugins)@) == chain_output(
            models_of(old(plugins)@),
            chunk@,
            session_id,
        ).0,
        r@ == chain_output(models_of(old(plugins)@), chunk@, session_id).1,
{
    let n = plugins.len();
    let mut text = chunk;
    let mut i: usize = 0;
    proof {
        assert(models_of(plugins@.subrange(0, 0)) =~= Seq::<PluginModel>::empty());
        assert(models_of(plugins@.subrange(0, n as int)) =~= models_of(plugins@));
    }
    while i < n
        invariant
            i <= n,
            n == plugins@.len(),
            plugins@.len() == old(plugins)@.len(),
            forall|j: int| i <= j < n ==> plugins@[j] == old(plugins)@[j],
            chain_output(models_of(old(plugins)@), chunk@, session_id).0 == models_of(
                plugins@.subrange(0, i as int),
            ) + chain_output(
                models_of(old(plugins)@.subrange(i as int, n as int)),
                text@,
                session_id,
            ).0,
            chain_output(models_of(old(plugins)@), chunk@, session_id).1 == chain_output(
                models_of(old(plugins)@.subrange(i as int, n as int)),
                text@,
                session_id,
            ).1,
        decreases n - i,
    {
        let ghost suffix = models_of(old(plugins)@.subrange(i as int, n as int));
        let ghost done = models_of(plugins@.subrange(0, i as int));
        let ghost text_before = text@;
        let new_text = {
            let p = &mut plugins[i];
            p.on_output(text.as_str(), session_id)
        };
        text = new_text;
        proof {
            assert(suffix[0] == old(plugins)@[i as int]@);
            assert(models_of(old(plugins)@.subrange(i as int + 1, n as int)) =~= suffix.drop_first());
            assert(chain_output(suffix, text_before, session_id).0 =~= seq![
                Plugin::model_output_state(suffix[0], text_before, session_id),
            ] + chain_output(suffix.drop_first(), text@, session_id).0);
            assert(models_of(plugins@.subrange(0, i as int + 1)) =~= done.push(
                plugins@[i as int]@,
            ));
            assert(done + chain_output(suffix, text_before, session_id).0 =~= models_of(
                plugins@.subrange(0, i as int + 1),
            ) + chain_output(suffix.drop_first(), text@, session_id).0);
        }
        i += 1;
    }
    proof {
        assert(models_of(old(plugins)@.subrange(n as int, n as int)) =~= Seq::<
            PluginModel,
        >::empty());
        assert(chain_output(Seq::<PluginModel>::empty(), text@, session_id).0 =~= Seq::<
            PluginModel,
        >::empty());
        assert(models_of(plugins@.subrange(0, n as int)) + Seq::<PluginModel>::empty()
            =~= models_of(plugins@));
        assert(models_of(plugins@) =~= chain_output(
            models_of(old(plugins)@),
            chunk@,
            session_id,
        ).0);
    }
    text
}

/// `m` never alters output text: its `on_output` is the identity
/// transform.
pub open spec fn spec_output_identity(m: PluginModel) -> bool {
    forall|chunk: Seq<char>, session_id: u64|
        #[trigger] Plugin::model_output_text(m, chunk, session_id) == chunk
}

/// Every plugin of the original capability set only observes output: all
/// of them are identity transforms. Only the two decorating plugins
/// rewrite text.
pub proof fn lemma_builtin_output_identity(m: PluginModel)
    requires
        !(m is Uppercase),
        !(m is Prefix),
    ensures
        spec_output_identity(m),
{
}

/// An all-identity chain is a no-op end to end: whatever states the
/// plugins reach, the text that comes out is the text that went in.
pub proof fn lemma_identity_chain_output(ms: Seq<PluginModel>, chunk: Seq<char>, session_id: u64)
    requires
        forall|k: int| 0 <= k < ms.len() ==> spec_output_identity(#[trigger] ms[k]),
    ensures
        chain_output(ms, chunk, session_id).1 == chunk,
    decreases ms.len(),
{
    if ms.len() > 0 {
        assert(Plugin::model_output_text(ms[0], chunk, session_id) == chunk);
        assert(forall|k: int|
            0 <= k < ms.len() - 1 ==> spec_output_identity(#[trigger] ms.drop_first()[k]));
        lemma_identity_chain_output(ms.drop_first(), chunk, session_id);
    }
}

/// A chain made only of observing plugins — any of the original
/// capability set, in any order and any states — hands the sink exactly
/// the chunk that was read.
pub proof fn lemma_observer_chain_output(ms: Seq<PluginModel>, chunk: Seq<char>, session_id: u64)
    requires
        forall|k: int|
            0 <= k < ms.len() ==> !((#[trigger] ms[k]) is Uppercase) && !(ms[k] is Prefix),
    ensures
        chain_output(ms, chunk, session_id).1 == chunk,
{
    assert forall|k: int| 0 <= k < ms.len() implies spec_output_identity(#[trigger] ms[k]) by {
        lemma_builtin_output_identity(ms[k]);
    }
    lemma_identity_chain_output(ms, chunk, session_id);
}

/// Output transforms compose left to right: a two-plugin chain hands the
/// sink the second plugin's transform of the first plugin's transform.
pub proof fn lemma_output_composes(
    m1: PluginModel,
    m2: PluginModel,
    chunk: Seq<char>,
    session_id: u64,
)
    ensures
        chain_output(seq![m1, m2], chunk, session_id).1 == Plugin::model_output_text(
            m2,
            Plugin::model_output_text(m1, chunk, session_id),
            session_id,
        ),
{
    let s = seq![m1, m2];
    let t1 = Plugin::model_output_text(m1, chunk, session_id);
    let t2 = Plugin::model_output_text(m2, t1, session_id);
    assert(s.drop_first() =~= seq![m2]);
    assert(seq![m2].drop_first() =~= Seq::<PluginModel>::empty());
    assert(chain_output(Seq::<PluginModel>::empty(), t2, session_id).1 == t2);
    assert(chain_output(seq![m2], t1, session_id).1 == t2);
}

/// Hooks run in registration order, each exactly once: a two-plugin
/// chain's states step to the first plugin's successor followed by the
/// second plugin's successor, never the other way round.
pub proof fn lemma_command_start_order(
    m1: PluginModel,
    m2: PluginModel,
    cmd: Seq<char>,
    session_id: u64,
    now_ms: u64,
)
    ensures
        chain_command_start(seq![m1, m2], cmd, session_id, now_ms) == seq![
            Plugin::model_command_start(m1, cmd, session_id, now_ms),
            Plugin::model_command_start(m2, cmd, session_id, now_ms),
        ],
{
    assert(chain_command_start(seq![m1, m2], cmd, session_id, now_ms) =~= seq![
        Plugin::model_command_start(m1, cmd, session_id, now_ms),
        Plugin::model_command_start(m2, cmd, session_id, now_ms),
    ]);
}

/// The names of the plugins a chain holds, in chain order.
pub open spec fn spec_model_name(m: PluginModel) -> Seq<char> {
    match m {
        PluginModel::History(_) => "history"@,
        PluginModel::Color => "color"@,
        PluginModel::Timing(_) => "timing"@,
        PluginModel::Git => "git"@,
        PluginModel::AutoComplete(_) => "autocomplete"@,
        PluginModel::Alias(_) => "alias"@,
        PluginModel::Theme(_) => "theme"@,
        PluginModel::Monitor(_) => "monitor"@,
        PluginModel::Uppercase => "uppercase"@,
        PluginModel::Prefix(_) => "prefix"@,
    }
}

/// The names of all plugins of the chain, in chain order.
pub fn plugin_names(plugins: &Vec<Plugin>) -> (r: Vec<String>)
    ensures
        r@.map_values(|s: String| s@) == models_of(plugins@).map_values(
            |m: PluginModel| spec_model_name(m),
        ),
{
    let mut names: Vec<String> = Vec::new();
    let mut i: usize = 0;
    while i < plugins.len()
        invariant
            i <= plugins@.len(),
            names@.len() == i,
            forall|j: int|
                0 <= j < i ==> (#[trigger] names@[j])@ == spec_model_name(plugins@[j]@),
        decreases plugins@.len() - i,
    {
        names.push(plugins[i].name().to_owned());
        proof {
            assert(plugins@[i as int].spec_name() == spec_model_name(plugins@[i as int]@));
        }
        i += 1;
    }
    proof {
        assert(names@.map_values(|s: String| s@) =~= models_of(plugins@).map_values(
            |m: PluginModel| spec_model_name(m),
        ));
    }
    names
}

/// The chain a new session starts with: a history recorder and the
/// colour pass-through.
pub open spec fn spec_session_default_models() -> Seq<PluginModel> {
    seq![PluginModel::History(Seq::empty()), PluginModel::Color]
}

/// Builds the default chain for a new session.
pub fn session_default_plugins() -> (r: Vec<Plugin>)
    ensures
        models_of(r@) == spec_session_default_models(),
{
    let mut plugins: Vec<Plugin> = Vec::new();
    plugins.push(Plugin::History(HistoryPlugin::new()));
    plugins.push(Plugin::Color(ColorPlugin));
    proof {
        assert(models_of(plugins@) =~= spec_session_default_models());
    }
    plugins
}

/// An ordered collection of plugins with registration order preserved.
pub struct PluginManager {
    plugins: Vec<Plugin>,
}

/// The models that `register_default_plugins` appends, in order.
pub open spec fn spec_default_registered_models() -> Seq<PluginModel> {
    seq![
        PluginModel::Timing(Seq::empty()),
        PluginModel::Git,
        PluginModel::AutoComplete(
            seq![
                "ls"@,
                "cd"@,
                "pwd"@,
                "cat"@,
                "grep"@,
                "find"@,
                "git status"@,
                "git add"@,
                "git commit"@,
                "git push"@,
                "git pull"@,
                "npm install"@,
                "npm run"@,
                "cargo build"@,
                "cargo run"@,
                "cargo test"@,
            ],
        ),
        PluginModel::Alias(
            seq![
                ("ll"@, "ls -la"@),
                ("la"@, "ls -A"@),
                ("l"@, "ls -CF"@),
                (".."@, "cd .."@),
                ("..."@, "cd ../.."@),
                ("gs"@, "git status"@),
                ("ga"@, "git add"@),
                ("gc"@, "git commit"@),
                ("gp"@, "git push"@),
                ("gl"@, "git pull"@),
            ],
        ),
        PluginModel::Theme(crate::plugins::spec_stock_theme_model()),
        PluginModel::Monitor(false),
    ]
}

impl PluginManager {
    /// An empty collection.
    pub fn new() -> (r: Self)
        ensures
            r@ == Seq::<PluginModel>::empty(),
    {
        let r = PluginManager { plugins: Vec::new() };
        proof {
            assert(r@ =~= Seq::<PluginModel>::empty());
        }
        r
    }

    /// Appends the stock plugin set, in its standard order.
    pub fn register_default_plugins(&mut self)
        ensures
            final(self)@ == old(self)@ + spec_default_registered_models(),
    {
        self.plugins.push(Plugin::Timing(TimingPlugin::new()));
        self.plugins.push(Plugin::Git(GitPlugin::new()));
        self.plugins.push(Plugin::AutoComplete(AutoCompletePlugin::new()));
        self.plugins.push(Plugin::Alias(AliasPlugin::new()));
        self.plugins.push(Plugin::Theme(ThemePlugin::new()));
        self.plugins.push(Plugin::Monitor(MonitorPlugin::new()));
        proof {
            assert(self@ =~~= old(self)@ + spec_default_registered_models());
        }
    }

    /// Appends one plugin at the end of the chain.
    pub fn add_plugin(&mut self, plugin: Plugin)
        ensures
            final(self)@ == old(self)@.push(plugin@),
    {
        self.plugins.push(plugin);
        proof {
            assert(self@ =~= old(self)@.push(plugin@));
        }
    }

    /// The plugins, in registration order.
    pub fn get_plugins(&self) -> (r: &Vec<Plugin>)
        ensures
            models_of(r@) == self@,
    {
        &self.plugins
    }

    /// The plugins, in registration order, open to mutation.
    pub fn get_plugins_mut(&mut self) -> (r: &mut Vec<Plugin>)
        ensures
            models_of((*r)@) == old(self)@,
            final(self)@ == models_of((*final(r))@),
    {
        &mut self.plugins
    }

    /// The registered plugins' names, in registration order.
    pub fn list_plugins(&self) -> (r: Vec<String>)
        ensures
            r@.map_values(|s: String| s@) == self@.map_values(
                |m: PluginModel| spec_model_name(m),
            ),
    {
        plugin_names(&self.plugins)
    }
}

impl View for PluginManager {
    type V = Seq<PluginModel>;

    closed spec fn view(&self) -> Seq<PluginModel> {
        models_of(self.plugins@)
    }
}

} // verus!
