//! The capability interface every plugin satisfies.

use vstd::prelude::*;

verus! {

/// A pluggable observer/transformer of session lifecycle events.
///
/// Each hook's effect on the plugin's own state, and the text a plugin
/// hands to the next stage, are pinned by the spec functions over the
/// plugin's view. Hooks run under the manager's registry guard, so an
/// implementation never sees two hooks for one session concurrently.
pub trait TerminalPlugin: View + Sized {
    /// The plugin's name, as a view.
    spec fn spec_name(&self) -> Seq<char>;

    /// The state after `on_session_start`.
    spec fn model_session_start(m: Self::V, session_id: u64) -> Self::V;

    /// The state after `on_session_end`.
    spec fn model_session_end(m: Self::V, session_id: u64) -> Self::V;

    /// The state after `on_command_start`.
    spec fn model_command_start(m: Self::V, cmd: Seq<char>, session_id: u64, now_ms: u64) -> Self::V;

    /// The state after `on_command_end`.
    spec fn model_command_end(m: Self::V, exit_code: Option<i32>, session_id: u64, now_ms: u64) -> Self::V;

    /// The state after `on_output`.
    spec fn model_output_state(m: Self::V, chunk: Seq<char>, session_id: u64) -> Self::V;

    /// The text `on_output` hands to the next stage.
    spec fn model_output_text(m: Self::V, chunk: Seq<char>, session_id: u64) -> Seq<char>;

    /// The plugin's name.
    fn name(&self) -> (r: &'static str)
        ensures
            r@ == self.spec_name(),
    ;

    /// Observes the start of the session this plugin is attached to.
    fn on_session_start(&mut self, session_id: u64)
        ensures
            final(self)@ == Self::model_session_start(old(self)@, session_id),
    ;

    /// Observes the end of the session this plugin is attached to.
    fn on_session_end(&mut self, session_id: u64)
        ensures
            final(self)@ == Self::model_session_end(old(self)@, session_id),
    ;

    /// Observes a command line about to be written to the session.
    /// `now_ms` is the caller's clock reading, in milliseconds.
    fn on_command_start(&mut self, command: &str, session_id: u64, now_ms: u64)
        ensures
            final(self)@ == Self::model_command_start(old(self)@, command@, session_id, now_ms),
    ;

    /// Observes the end of a command; `None` means the exit status could
    /// not be determined.
    fn on_command_end(&mut self, exit_code: Option<i32>, session_id: u64, now_ms: u64)
        ensures
            final(self)@ == Self::model_command_end(old(self)@, exit_code, session_id, now_ms),
    ;

    /// Transforms one chunk of decoded session output; the result replaces
    /// the chunk for the next plugin in the chain.
    fn on_output(&mut self, chunk: &str, session_id: u64) -> (r: String)
        ensures
            final(self)@ == Self::model_output_state(old(self)@, chunk@, session_id),
            r@ == Self::model_output_text(old(self)@, chunk@, session_id),
    ;
}

} // verus!
