//! The built-in plugins.
//!
//! Each plugin is an independent state machine over its own private
//! state; its view and the model functions of its `TerminalPlugin`
//! implementation pin what every hook does to that state.

use vstd::prelude::*;
use crate::assoc;
use crate::plugin::TerminalPlugin;
use crate::text;
use vstd::string::StrSliceExecFns;
use vstd::string::StringExecFns;

verus! {

/// Records every visible command line submitted to its session.
pub struct HistoryPlugin {
    history: Vec<String>,
}

impl HistoryPlugin {
    /// An empty history.
    pub fn new() -> (r: Self)
        ensures
            r@ == Seq::<Seq<char>>::empty(),
    {
        let r = HistoryPlugin { history: Vec::new() };
        proof {
            assert(r@ =~= Seq::<Seq<char>>::empty());
        }
        r
    }

    /// The recorded command lines, oldest first.
    pub fn history(&self) -> (r: &Vec<String>)
        ensures
            r@.map_values(|s: String| s@) == self@,
    {
        &self.history
    }
}

impl View for HistoryPlugin {
    type V = Seq<Seq<char>>;

    closed spec fn view(&self) -> Seq<Seq<char>> {
        self.history@.map_values(|s: String| s@)
    }
}

impl TerminalPlugin for HistoryPlugin {
    open spec fn spec_name(&self) -> Seq<char> {
        "history"@
    }

    open spec fn model_session_start(m: Self::V, session_id: u64) -> Self::V {
        m
    }

    open spec fn model_session_end(m: Self::V, session_id: u64) -> Self::V {
        m
    }

    open spec fn model_command_start(m: Self::V, cmd: Seq<char>, session_id: u64, now_ms: u64) -> Self::V {
        if text::spec_has_visible(cmd) {
            m.push(cmd)
        } else {
            m
        }
    }

    open spec fn model_command_end(m: Self::V, exit_code: Option<i32>, session_id: u64, now_ms: u64) -> Self::V {
        m
    }

    open spec fn model_output_state(m: Self::V, chunk: Seq<char>, session_id: u64) -> Self::V {
        m
    }

    open spec fn model_output_text(m: Self::V, chunk: Seq<char>, session_id: u64) -> Seq<char> {
        chunk
    }

    fn name(&self) -> (r: &'static str) {
        "history"
    }

    fn on_session_start(&mut self, _session_id: u64) {
    }

    fn on_session_end(&mut self, _session_id: u64) {
    }

    fn on_command_start(&mut self, command: &str, _session_id: u64, _now_ms: u64) {
        if text::has_visible(command) {
            let ghost before = self@;
            self.history.push(command.to_owned());
            proof {
                assert(self@ =~= before.push(command@));
            }
        }
    }

    fn on_command_end(&mut self, _exit_code: Option<i32>, _session_id: u64, _now_ms: u64) {
    }

    fn on_output(&mut self, chunk: &str, _session_id: u64) -> (r: String) {
        chunk.to_owned()
    }
}

/// Passes output through unchanged; a placeholder stage for colour
/// handling.
pub struct ColorPlugin;

impl View for ColorPlugin {
    type V = ();

    open spec fn view(&self) -> () {
        ()
    }
}

impl TerminalPlugin for ColorPlugin {
    open spec fn spec_name(&self) -> Seq<char> {
        "color"@
    }

    open spec fn model_session_start(m: Self::V, session_id: u64) -> Self::V {
        m
    }

    open spec fn model_session_end(m: Self::V, session_id: u64) -> Self::V {
        m
    }

    open spec fn model_command_start(m: Self::V, cmd: Seq<char>, session_id: u64, now_ms: u64) -> Self::V {
        m
    }

    open spec fn model_command_end(m: Self::V, exit_code: Option<i32>, session_id: u64, now_ms: u64) -> Self::V {
        m
    }

    open spec fn model_output_state(m: Self::V, chunk: Seq<char>, session_id: u64) -> Self::V {
        m
    }

    open spec fn model_output_text(m: Self::V, chunk: Seq<char>, session_id: u64) -> Seq<char> {
        chunk
    }

    fn name(&self) -> (r: &'static str) {
        "color"
    }

    fn on_session_start(&mut self, _session_id: u64) {
    }

    fn on_session_end(&mut self, _session_id: u64) {
    }

    fn on_command_start(&mut self, _command: &str, _session_id: u64, _now_ms: u64) {
    }

    fn on_command_end(&mut self, _exit_code: Option<i32>, _session_id: u64, _now_ms: u64) {
    }

    fn on_output(&mut self, chunk: &str, _session_id: u64) -> (r: String) {
        chunk.to_owned()
    }
}

/// `command` mentions `git` as a word: the letters `g`, `i`, `t` followed
/// by a whitespace character, anywhere in the line.
pub open spec fn spec_is_git_command(s: Seq<char>) -> bool {
    exists|i: int|
        0 <= i && i + 3 < s.len() && #[trigger] s[i] == 'g' && s[i + 1] == 'i' && s[i + 2] == 't'
            && text::spec_is_space(s[i + 3])
}

/// Watches for git commands; the surrounding application looks up the
/// repository branch when one is seen.
pub struct GitPlugin {}

impl GitPlugin {
    /// A fresh git watcher.
    pub fn new() -> (r: Self) {
        GitPlugin {  }
    }

    /// Decides whether `command` runs git.
    pub fn is_git_command(&self, command: &str) -> (r: bool)
        ensures
            r == spec_is_git_command(command@),
    {
        let cs = text::chars_vec(command);
        let n = cs.len();
        if n < 4 {
            return false;
        }
        let mut i: usize = 0;
        let last = n - 4;
        while i <= last
            invariant
                n == cs@.len(),
                cs@ == command@,
                n >= 4,
                last == n - 4,
                i <= last + 1,
                forall|j: int|
                    0 <= j < i ==> !(#[trigger] cs@[j] == 'g' && cs@[j + 1] == 'i' && cs@[j + 2]
                        == 't' && text::spec_is_space(cs@[j + 3])),
            decreases last + 1 - i,
        {
            if cs[i] == 'g' && cs[i + 1] == 'i' && cs[i + 2] == 't' && text::is_space(cs[i + 3]) {
                return true;
            }
            i += 1;
        }
        false
    }
}

impl View for GitPlugin {
    type V = ();

    open spec fn view(&self) -> () {
        ()
    }
}

impl TerminalPlugin for GitPlugin {
    open spec fn spec_name(&self) -> Seq<char> {
        "git"@
    }

    open spec fn model_session_start(m: Self::V, session_id: u64) -> Self::V {
        m
    }

    open spec fn model_session_end(m: Self::V, session_id: u64) -> Self::V {
        m
    }

    open spec fn model_command_start(m: Self::V, cmd: Seq<char>, session_id: u64, now_ms: u64) -> Self::V {
        m
    }

    open spec fn model_command_end(m: Self::V, exit_code: Option<i32>, session_id: u64, now_ms: u64) -> Self::V {
        m
    }

    open spec fn model_output_state(m: Self::V, chunk: Seq<char>, session_id: u64) -> Self::V {
        m
    }

    open spec fn model_output_text(m: Self::V, chunk: Seq<char>, session_id: u64) -> Seq<char> {
        chunk
    }

    fn name(&self) -> (r: &'static str) {
        "git"
    }

    fn on_session_start(&mut self, _session_id: u64) {
    }

    fn on_session_end(&mut self, _session_id: u64) {
    }

    fn on_command_start(&mut self, _command: &str, _session_id: u64, _now_ms: u64) {
    }

    fn on_command_end(&mut self, _exit_code: Option<i32>, _session_id: u64, _now_ms: u64) {
    }

    fn on_output(&mut self, chunk: &str, _session_id: u64) -> (r: String) {
        chunk.to_owned()
    }
}

/// The summary the system monitor shows: the first load-average token and
/// a memory line, joined with a separator, or a fallback when neither
/// source was readable.
pub open spec fn spec_system_info(loadavg: Option<Seq<char>>, meminfo: Option<Seq<char>>) -> Seq<
    char,
> {
    let load = spec_load_part(loadavg);
    let mem = spec_mem_part(meminfo);
    if load is Some && mem is Some {
        load->0 + " | "@ + mem->0
    } else if load is Some {
        load->0
    } else if mem is Some {
        mem->0
    } else {
        "System info not available"@
    }
}

/// The load summary: present when the load-average text has a first
/// whitespace-separated token.
pub open spec fn spec_load_part(loadavg: Option<Seq<char>>) -> Option<Seq<char>> {
    match loadavg {
        Some(l) => if text::spec_tokens(l).len() > 0 {
            Some("Load: "@ + text::spec_tokens(l)[0])
        } else {
            None
        },
        None => None,
    }
}

/// The memory summary: present when the memory text has at least two
/// lines.
pub open spec fn spec_mem_part(meminfo: Option<Seq<char>>) -> Option<Seq<char>> {
    match meminfo {
        Some(m) => if spec_has_two_lines(m) {
            Some("Mem: OK"@)
        } else {
            None
        },
        None => None,
    }
}

/// `s` breaks into at least two lines: a newline occurs before the last
/// character.
pub open spec fn spec_has_two_lines(s: Seq<char>) -> bool {
    exists|i: int| 0 <= i && i + 1 < s.len() && #[trigger] s[i] == '\n'
}

/// Toggles system monitoring on command, and announces system state when
/// monitoring is on; the surrounding application reads the files and
/// prints the summary.
pub struct MonitorPlugin {
    show_system_info: bool,
}

impl MonitorPlugin {
    /// A monitor with announcements switched off.
    pub fn new() -> (r: Self)
        ensures
            r@ == false,
    {
        MonitorPlugin { show_system_info: false }
    }

    /// Whether session-start announcements are switched on.
    pub fn shows_system_info(&self) -> (r: bool)
        ensures
            r == self@,
    {
        self.show_system_info
    }

    /// The system summary for the given file contents.
    pub fn format_system_info(loadavg: Option<&str>, meminfo: Option<&str>) -> (r: String)
        ensures
            r@ == spec_system_info(text::spec_view_opt(loadavg), text::spec_view_opt(meminfo)),
    {
        let load: Option<String> = match loadavg {
            Some(l) => {
                let toks = text::tokens_chars(&text::chars_vec(l));
                if toks.len() > 0 {
                    proof {
                        assert(toks.deep_view()[0] == toks@[0]@);
                    }
                    Some("Load: ".to_owned().concat(text::string_from_chars(&toks[0]).as_str()))
                } else {
                    None
                }
            },
            None => None,
        };
        let mem: Option<String> = match meminfo {
            Some(m) => {
                if Self::has_two_lines(m) {
                    Some("Mem: OK".to_owned())
                } else {
                    None
                }
            },
            None => None,
        };
        match (load, mem) {
            (Some(l), Some(m)) => l.concat(" | ").concat(m.as_str()),
            (Some(l), None) => l,
            (None, Some(m)) => m,
            (None, None) => "System info not available".to_owned(),
        }
    }

    /// Decides whether `s` has at least two lines.
    fn has_two_lines(s: &str) -> (r: bool)
        ensures
            r == spec_has_two_lines(s@),
    {
        let cs = text::chars_vec(s);
        let n = cs.len();
        if n < 2 {
            return false;
        }
        let mut i: usize = 0;
        let last = n - 2;
        while i <= last
            invariant
                n == cs@.len(),
                cs@ == s@,
                n >= 2,
                last == n - 2,
                i <= last + 1,
                forall|j: int| 0 <= j < i ==> #[trigger] cs@[j] != '\n',
            decreases last + 1 - i,
        {
            if cs[i] == '\n' {
                return true;
            }
            i += 1;
        }
        false
    }
}

impl View for MonitorPlugin {
    type V = bool;

    closed spec fn view(&self) -> bool {
        self.show_system_info
    }
}

impl TerminalPlugin for MonitorPlugin {
    open spec fn spec_name(&self) -> Seq<char> {
        "monitor"@
    }

    open spec fn model_session_start(m: Self::V, session_id: u64) -> Self::V {
        m
    }

    open spec fn model_session_end(m: Self::V, session_id: u64) -> Self::V {
        m
    }

    open spec fn model_command_start(m: Self::V, cmd: Seq<char>, session_id: u64, now_ms: u64) -> Self::V {
        if cmd == "doge monitor on"@ {
            true
        } else if cmd == "doge monitor off"@ {
            false
        } else {
            m
        }
    }

    open spec fn model_command_end(m: Self::V, exit_code: Option<i32>, session_id: u64, now_ms: u64) -> Self::V {
        m
    }

    open spec fn model_output_state(m: Self::V, chunk: Seq<char>, session_id: u64) -> Self::V {
        m
    }

    open spec fn model_output_text(m: Self::V, chunk: Seq<char>, session_id: u64) -> Seq<char> {
        chunk
    }

    fn name(&self) -> (r: &'static str) {
        "monitor"
    }

    fn on_session_start(&mut self, _session_id: u64) {
    }

    fn on_session_end(&mut self, _session_id: u64) {
    }

    fn on_command_start(&mut self, command: &str, _session_id: u64, _now_ms: u64) {
        if text::str_eq(command, "doge monitor on") {
            self.show_system_info = true;
        } else if text::str_eq(command, "doge monitor off") {
            self.show_system_info = false;
        }
    }

    fn on_command_end(&mut self, _exit_code: Option<i32>, _session_id: u64, _now_ms: u64) {
    }

    fn on_output(&mut self, chunk: &str, _session_id: u64) -> (r: String) {
        chunk.to_owned()
    }
}

/// Maps every ASCII letter of the output to uppercase.
pub struct UppercasePlugin;

impl View for UppercasePlugin {
    type V = ();

    open spec fn view(&self) -> () {
        ()
    }
}

impl TerminalPlugin for UppercasePlugin {
    open spec fn spec_name(&self) -> Seq<char> {
        "uppercase"@
    }

    open spec fn model_session_start(m: Self::V, session_id: u64) -> Self::V {
        m
    }

    open spec fn model_session_end(m: Self::V, session_id: u64) -> Self::V {
        m
    }

    open spec fn model_command_start(m: Self::V, cmd: Seq<char>, session_id: u64, now_ms: u64) -> Self::V {
        m
    }

    open spec fn model_command_end(m: Self::V, exit_code: Option<i32>, session_id: u64, now_ms: u64) -> Self::V {
        m
    }

    open spec fn model_output_state(m: Self::V, chunk: Seq<char>, session_id: u64) -> Self::V {
        m
    }

    open spec fn model_output_text(m: Self::V, chunk: Seq<char>, session_id: u64) -> Seq<char> {
        text::spec_upper(chunk)
    }

    fn name(&self) -> (r: &'static str) {
        "uppercase"
    }

    fn on_session_start(&mut self, _session_id: u64) {
    }

    fn on_session_end(&mut self, _session_id: u64) {
    }

    fn on_command_start(&mut self, _command: &str, _session_id: u64, _now_ms: u64) {
    }

    fn on_command_end(&mut self, _exit_code: Option<i32>, _session_id: u64, _now_ms: u64) {
    }

    fn on_output(&mut self, chunk: &str, _session_id: u64) -> (r: String) {
        let cs = text::chars_vec(chunk);
        let up = text::upper_chars(&cs);
        text::string_from_chars(&up)
    }
}

/// Prepends a fixed marker to every output chunk.
pub struct PrefixPlugin {
    prefix: String,
}

impl PrefixPlugin {
    /// A plugin that prepends `prefix`.
    pub fn new(prefix: String) -> (r: Self)
        ensures
            r@ == prefix@,
    {
        PrefixPlugin { prefix }
    }
}

impl View for PrefixPlugin {
    type V = Seq<char>;

    closed spec fn view(&self) -> Seq<char> {
        self.prefix@
    }
}

impl TerminalPlugin for PrefixPlugin {
    open spec fn spec_name(&self) -> Seq<char> {
        "prefix"@
    }

    open spec fn model_session_start(m: Self::V, session_id: u64) -> Self::V {
        m
    }

    open spec fn model_session_end(m: Self::V, session_id: u64) -> Self::V {
        m
    }

    open spec fn model_command_start(m: Self::V, cmd: Seq<char>, session_id: u64, now_ms: u64) -> Self::V {
        m
    }

    open spec fn model_command_end(m: Self::V, exit_code: Option<i32>, session_id: u64, now_ms: u64) -> Self::V {
        m
    }

    open spec fn model_output_state(m: Self::V, chunk: Seq<char>, session_id: u64) -> Self::V {
        m
    }

    open spec fn model_output_text(m: Self::V, chunk: Seq<char>, session_id: u64) -> Seq<char> {
        m + chunk
    }

    fn name(&self) -> (r: &'static str) {
        "prefix"
    }

    fn on_session_start(&mut self, _session_id: u64) {
    }

    fn on_session_end(&mut self, _session_id: u64) {
    }

    fn on_command_start(&mut self, _command: &str, _session_id: u64, _now_ms: u64) {
    }

    fn on_command_end(&mut self, _exit_code: Option<i32>, _session_id: u64, _now_ms: u64) {
    }

    fn on_output(&mut self, chunk: &str, _session_id: u64) -> (r: String) {
        self.prefix.clone().concat(chunk)
    }
}

/// Remembers when each session's current command started, keyed by
/// session id.
pub struct TimingPlugin {
    command_start_times: Vec<(u64, u64)>,
}

impl TimingPlugin {
    /// A timer with no command in flight.
    pub fn new() -> (r: Self)
        ensures
            r@ == Seq::<(u64, u64)>::empty(),
    {
        TimingPlugin { command_start_times: Vec::new() }
    }

    /// The start time recorded for `session_id`, if a command is in
    /// flight there.
    pub fn start_time_of(&self, session_id: u64) -> (r: Option<u64>)
        ensures
            assoc::spec_has_key(self@, session_id) ==> r == Some(
                assoc::spec_value_of(self@, session_id),
            ),
            !assoc::spec_has_key(self@, session_id) ==> r is None,
    {
        proof {
            assoc::lemma_index_of(self@, session_id);
        }
        match Self::find_session(&self.command_start_times, session_id) {
            Some(i) => Some(self.command_start_times[i].1),
            None => None,
        }
    }

    /// The position of the entry for `session_id`, if there is one.
    fn find_session(m: &Vec<(u64, u64)>, session_id: u64) -> (r: Option<usize>)
        ensures
            r matches Some(i) ==> assoc::spec_index_of(m@, session_id) == i as int,
            r is None ==> assoc::spec_index_of(m@, session_id) < 0,
    {
        proof {
            assoc::lemma_index_of(m@, session_id);
        }
        let mut i: usize = 0;
        while i < m.len()
            invariant
                i <= m@.len(),
                forall|j: int| 0 <= j < i ==> (#[trigger] m@[j]).0 != session_id,
            decreases m@.len() - i,
        {
            if m[i].0 == session_id {
                proof {
                    assoc::lemma_index_found(m@, session_id, i as int);
                }
                return Some(i);
            }
            i += 1;
        }
        None
    }
}

impl View for TimingPlugin {
    type V = Seq<(u64, u64)>;

    closed spec fn view(&self) -> Seq<(u64, u64)> {
        self.command_start_times@
    }
}

impl TerminalPlugin for TimingPlugin {
    open spec fn spec_name(&self) -> Seq<char> {
        "timing"@
    }

    open spec fn model_session_start(m: Self::V, session_id: u64) -> Self::V {
        m
    }

    open spec fn model_session_end(m: Self::V, session_id: u64) -> Self::V {
        m
    }

    open spec fn model_command_start(m: Self::V, cmd: Seq<char>, session_id: u64, now_ms: u64) -> Self::V {
        assoc::spec_upsert(m, session_id, now_ms)
    }

    open spec fn model_command_end(m: Self::V, exit_code: Option<i32>, session_id: u64, now_ms: u64) -> Self::V {
        assoc::spec_remove(m, session_id)
    }

    open spec fn model_output_state(m: Self::V, chunk: Seq<char>, session_id: u64) -> Self::V {
        m
    }

    open spec fn model_output_text(m: Self::V, chunk: Seq<char>, session_id: u64) -> Seq<char> {
        chunk
    }

    fn name(&self) -> (r: &'static str) {
        "timing"
    }

    fn on_session_start(&mut self, _session_id: u64) {
    }

    fn on_session_end(&mut self, _session_id: u64) {
    }

    fn on_command_start(&mut self, _command: &str, session_id: u64, now_ms: u64) {
        proof {
            assoc::lemma_index_of(self.command_start_times@, session_id);
        }
        match Self::find_session(&self.command_start_times, session_id) {
            Some(i) => {
                self.command_start_times[i] = (session_id, now_ms);
                proof {
                    assert(self@ =~= assoc::spec_upsert(old(self)@, session_id, now_ms));
                }
            },
            None => {
                self.command_start_times.push((session_id, now_ms));
                proof {
                    assert(self@ =~= assoc::spec_upsert(old(self)@, session_id, now_ms));
                }
            },
        }
    }

    fn on_command_end(&mut self, _exit_code: Option<i32>, session_id: u64, _now_ms: u64) {
        proof {
            assoc::lemma_index_of(self.command_start_times@, session_id);
        }
        match Self::find_session(&self.command_start_times, session_id) {
            Some(i) => {
                self.command_start_times.remove(i);
                proof {
                    assert(self@ =~= assoc::spec_remove(old(self)@, session_id));
                }
            },
            None => {
            },
        }
    }

    fn on_output(&mut self, chunk: &str, _session_id: u64) -> (r: String) {
        chunk.to_owned()
    }
}

/// Offers completions for a partially typed command from a fixed
/// suggestion list.
pub struct AutoCompletePlugin {
    suggestions: Vec<String>,
}

impl AutoCompletePlugin {
    /// The stock suggestion list.
    pub fn new() -> (r: Self)
        ensures
            r@ == seq![
                "ls"@,
                "cd"@,
                "pwd"@,
                "cat"@,
                "grep"@,
                "find"@,
                "git status"@,
                "git add"@,
                "git commit"@,
                "git push"@,
                "git pull"@,
                "npm install"@,
                "npm run"@,
                "cargo build"@,
                "cargo run"@,
                "cargo test"@,
            ],
    {
        let mut suggestions: Vec<String> = Vec::new();
        suggestions.push("ls".to_owned());
        suggestions.push("cd".to_owned());
        suggestions.push("pwd".to_owned());
        suggestions.push("cat".to_owned());
        suggestions.push("grep".to_owned());
        suggestions.push("find".to_owned());
        suggestions.push("git status".to_owned());
        suggestions.push("git add".to_owned());
        suggestions.push("git commit".to_owned());
        suggestions.push("git push".to_owned());
        suggestions.push("git pull".to_owned());
        suggestions.push("npm install".to_owned());
        suggestions.push("npm run".to_owned());
        suggestions.push("cargo build".to_owned());
        suggestions.push("cargo run".to_owned());
        suggestions.push("cargo test".to_owned());
        let r = AutoCompletePlugin { suggestions };
        proof {
            assert(r@ =~= seq![
                "ls"@,
                "cd"@,
                "pwd"@,
                "cat"@,
                "grep"@,
                "find"@,
                "git status"@,
                "git add"@,
                "git commit"@,
                "git push"@,
                "git pull"@,
                "npm install"@,
                "npm run"@,
                "cargo build"@,
                "cargo run"@,
                "cargo test"@,
            ]);
        }
        r
    }

    /// The suggestions that start with `input`, in list order.
    pub fn get_suggestions(&self, input: &str) -> (r: Vec<String>)
        ensures
            r@.map_values(|s: String| s@) == self@.filter(
                |s: Seq<char>| text::spec_starts_with(s, input@),
            ),
    {
        let ghost pred = |s: Seq<char>| text::spec_starts_with(s, input@);
        let mut out: Vec<String> = Vec::new();
        let mut i: usize = 0;
        proof {
            assert(self@.subrange(0, 0) =~= Seq::<Seq<char>>::empty());
            reveal(Seq::filter);
            assert(out@.map_values(|s: String| s@) =~= self@.subrange(0, 0).filter(pred));
        }
        while i < self.suggestions.len()
            invariant
                i <= self.suggestions@.len(),
                self@ == self.suggestions@.map_values(|s: String| s@),
                self@.len() == self.suggestions@.len(),
                out@.map_values(|s: String| s@) == self@.subrange(0, i as int).filter(pred),
                pred == (|s: Seq<char>| text::spec_starts_with(s, input@)),
            decreases self.suggestions@.len() - i,
        {
            proof {
                reveal(Seq::filter);
                assert(self@.subrange(0, i as int + 1).drop_last() =~= self@.subrange(0, i as int));
                assert(self@.subrange(0, i as int + 1).last() == self@[i as int]);
            }
            if text::starts_with(self.suggestions[i].as_str(), input) {
                let ghost before = out@.map_values(|s: String| s@);
                out.push(self.suggestions[i].clone());
                proof {
                    assert(out@.map_values(|s: String| s@) =~= before.push(self@[i as int]));
                }
            }
            i += 1;
        }
        proof {
            assert(self@.subrange(0, self@.len() as int) =~= self@);
        }
        out
    }
}

impl View for AutoCompletePlugin {
    type V = Seq<Seq<char>>;

    closed spec fn view(&self) -> Seq<Seq<char>> {
        self.suggestions@.map_values(|s: String| s@)
    }
}

impl TerminalPlugin for AutoCompletePlugin {
    open spec fn spec_name(&self) -> Seq<char> {
        "autocomplete"@
    }

    open spec fn model_session_start(m: Self::V, session_id: u64) -> Self::V {
        m
    }

    open spec fn model_session_end(m: Self::V, session_id: u64) -> Self::V {
        m
    }

    open spec fn model_command_start(m: Self::V, cmd: Seq<char>, session_id: u64, now_ms: u64) -> Self::V {
        m
    }

    open spec fn model_command_end(m: Self::V, exit_code: Option<i32>, session_id: u64, now_ms: u64) -> Self::V {
        m
    }

    open spec fn model_output_state(m: Self::V, chunk: Seq<char>, session_id: u64) -> Self::V {
        m
    }

    open spec fn model_output_text(m: Self::V, chunk: Seq<char>, session_id: u64) -> Seq<char> {
        chunk
    }

    fn name(&self) -> (r: &'static str) {
        "autocomplete"
    }

    fn on_session_start(&mut self, _session_id: u64) {
    }

    fn on_session_end(&mut self, _session_id: u64) {
    }

    fn on_command_start(&mut self, _command: &str, _session_id: u64, _now_ms: u64) {
    }

    fn on_command_end(&mut self, _exit_code: Option<i32>, _session_id: u64, _now_ms: u64) {
    }

    fn on_output(&mut self, chunk: &str, _session_id: u64) -> (r: String) {
        chunk.to_owned()
    }
}

/// What an alias table makes of a command line: the first word replaced
/// by its expansion, the remaining words joined by single spaces; the
/// line is unchanged when it has no words or its first word is no alias.
pub open spec fn spec_expand(aliases: Seq<(Seq<char>, Seq<char>)>, cmd: Seq<char>) -> Seq<char> {
    let toks = text::spec_tokens(cmd);
    if toks.len() == 0 {
        cmd
    } else if !assoc::spec_has_key(aliases, toks[0]) {
        cmd
    } else {
        let exp = assoc::spec_value_of(aliases, toks[0]);
        if toks.len() > 1 {
            exp + seq![' '] + text::spec_join_space(toks.drop_first())
        } else {
            exp
        }
    }
}

/// Expands command shorthands from a table of aliases.
pub struct AliasPlugin {
    aliases: Vec<(String, String)>,
}

impl AliasPlugin {
    /// The stock alias table.
    pub fn new() -> (r: Self)
        ensures
            r@ == seq![
                ("ll"@, "ls -la"@),
                ("la"@, "ls -A"@),
                ("l"@, "ls -CF"@),
                (".."@, "cd .."@),
                ("..."@, "cd ../.."@),
                ("gs"@, "git status"@),
                ("ga"@, "git add"@),
                ("gc"@, "git commit"@),
                ("gp"@, "git push"@),
                ("gl"@, "git pull"@),
            ],
    {
        let mut aliases: Vec<(String, String)> = Vec::new();
        aliases.push(("ll".to_owned(), "ls -la".to_owned()));
        aliases.push(("la".to_owned(), "ls -A".to_owned()));
        aliases.push(("l".to_owned(), "ls -CF".to_owned()));
        aliases.push(("..".to_owned(), "cd ..".to_owned()));
        aliases.push(("...".to_owned(), "cd ../..".to_owned()));
        aliases.push(("gs".to_owned(), "git status".to_owned()));
        aliases.push(("ga".to_owned(), "git add".to_owned()));
        aliases.push(("gc".to_owned(), "git commit".to_owned()));
        aliases.push(("gp".to_owned(), "git push".to_owned()));
        aliases.push(("gl".to_owned(), "git pull".to_owned()));
        let r = AliasPlugin { aliases };
        proof {
            assert(r@ =~~= seq![
                ("ll"@, "ls -la"@),
                ("la"@, "ls -A"@),
                ("l"@, "ls -CF"@),
                (".."@, "cd .."@),
                ("..."@, "cd ../.."@),
                ("gs"@, "git status"@),
                ("ga"@, "git add"@),
                ("gc"@, "git commit"@),
                ("gp"@, "git push"@),
                ("gl"@, "git pull"@),
            ]);
        }
        r
    }

    /// Binds `alias` to `command`, overriding any earlier binding.
    pub fn add_alias(&mut self, alias: &str, command: &str)
        ensures
            final(self)@ == assoc::spec_upsert(old(self)@, alias@, command@),
    {
        proof {
            assert(forall|i: int|
                0 <= i < self.aliases@.len() ==> (#[trigger] assoc::kv(self.aliases@)[i]).0
                    == assoc::kview(self.aliases@)[i].0);
            assoc::lemma_index_same_keys(
                assoc::kv(self.aliases@),
                assoc::kview(self.aliases@),
                alias@,
            );
            assoc::lemma_index_of(assoc::kv(self.aliases@), alias@);
            assoc::lemma_index_of(assoc::kview(self.aliases@), alias@);
        }
        let command_string = command.to_owned();
        let ghost gvalue = command_string;
        assoc::upsert(&mut self.aliases, alias.to_owned(), command_string);
        proof {
            let a_old = old(self).aliases@;
            let a_new = self.aliases@;
            let m_old = assoc::kview(a_old);
            let m_new = assoc::kview(a_new);
            let target = assoc::spec_upsert(m_old, alias@, command@);
            assert(assoc::kv(a_new) == assoc::spec_upsert(assoc::kv(a_old), alias@, gvalue));
            assert(m_new.len() == target.len());
            assert forall|i: int| 0 <= i < m_new.len() implies #[trigger] m_new[i] == target[i] by {
                assert(assoc::kv(a_new)[i] == assoc::spec_upsert(
                    assoc::kv(a_old),
                    alias@,
                    gvalue,
                )[i]);
                assert(m_new[i] == (a_new[i].0@, a_new[i].1@));
                assert(assoc::kv(a_new)[i] == (a_new[i].0@, a_new[i].1));
            }
            assert(m_new =~= target);
        }
    }

    /// The alias expansion of `command`.
    pub fn expand_alias(&self, command: &str) -> (r: String)
        ensures
            r@ == spec_expand(self@, command@),
    {
        let cs = text::chars_vec(command);
        let parts = text::tokens_chars(&cs);
        let ghost toks = text::spec_tokens(command@);
        if parts.len() == 0 {
            return command.to_owned();
        }
        let first = text::string_from_chars(&parts[0]);
        proof {
            assert(first@ == toks[0]);
            assert(forall|i: int|
                0 <= i < self.aliases@.len() ==> (#[trigger] assoc::kv(self.aliases@)[i]).0
                    == assoc::kview(self.aliases@)[i].0);
            assoc::lemma_index_same_keys(assoc::kv(self.aliases@), self@, first@);
            assoc::lemma_index_of(assoc::kv(self.aliases@), first@);
            assoc::lemma_index_of(self@, first@);
        }
        match assoc::find_key(&self.aliases, first.as_str()) {
            None => command.to_owned(),
            Some(i) => {
                let expanded = self.aliases[i].1.clone();
                proof {
                    assert(expanded@ == assoc::spec_value_of(self@, toks[0]));
                }
                if parts.len() > 1 {
                    let rest = text::join_space_from(&parts, 1);
                    let joined = text::string_from_chars(&rest);
                    proof {
                        reveal_strlit(" ");
                        assert(" "@ =~= seq![' ']);
                        assert(parts.deep_view().skip(1) =~= toks.drop_first());
                    }
                    expanded.concat(" ").concat(joined.as_str())
                } else {
                    expanded
                }
            },
        }
    }
}

impl View for AliasPlugin {
    type V = Seq<(Seq<char>, Seq<char>)>;

    closed spec fn view(&self) -> Seq<(Seq<char>, Seq<char>)> {
        assoc::kview(self.aliases@)
    }
}

impl TerminalPlugin for AliasPlugin {
    open spec fn spec_name(&self) -> Seq<char> {
        "alias"@
    }

    open spec fn model_session_start(m: Self::V, session_id: u64) -> Self::V {
        m
    }

    open spec fn model_session_end(m: Self::V, session_id: u64) -> Self::V {
        m
    }

    open spec fn model_command_start(m: Self::V, cmd: Seq<char>, session_id: u64, now_ms: u64) -> Self::V {
        m
    }

    open spec fn model_command_end(m: Self::V, exit_code: Option<i32>, session_id: u64, now_ms: u64) -> Self::V {
        m
    }

    open spec fn model_output_state(m: Self::V, chunk: Seq<char>, session_id: u64) -> Self::V {
        m
    }

    open spec fn model_output_text(m: Self::V, chunk: Seq<char>, session_id: u64) -> Seq<char> {
        chunk
    }

    fn name(&self) -> (r: &'static str) {
        "alias"
    }

    fn on_session_start(&mut self, _session_id: u64) {
    }

    fn on_session_end(&mut self, _session_id: u64) {
    }

    fn on_command_start(&mut self, _command: &str, _session_id: u64, _now_ms: u64) {
    }

    fn on_command_end(&mut self, _exit_code: Option<i32>, _session_id: u64, _now_ms: u64) {
    }

    fn on_output(&mut self, chunk: &str, _session_id: u64) -> (r: String) {
        chunk.to_owned()
    }
}

/// Answers a plugin-command line: anything led by the `doge ` prefix is
/// acknowledged, anything else is refused.
pub fn execute_plugin_command(command: &str) -> (r: Result<String, String>)
    ensures
        text::spec_starts_with(command@, "doge "@) ==> (r matches Ok(m) && m@
            == "\u{1f436} Plugin command executed: "@ + command@),
        !text::spec_starts_with(command@, "doge "@) ==> (r matches Err(m) && m@
            == "Not a plugin command"@),
{
    if text::starts_with(command, "doge ") {
        Ok("\u{1f436} Plugin command executed: ".to_owned().concat(command))
    } else {
        Err("Not a plugin command".to_owned())
    }
}

/// One named theme's colours.
pub struct ThemeConfig {
    pub background: String,
    pub foreground: String,
    pub cursor: String,
    pub selection: String,
}

/// The viewed form of a theme's colours.
pub struct ThemeStyle {
    pub background: Seq<char>,
    pub foreground: Seq<char>,
    pub cursor: Seq<char>,
    pub selection: Seq<char>,
}

impl View for ThemeConfig {
    type V = ThemeStyle;

    open spec fn view(&self) -> ThemeStyle {
        ThemeStyle {
            background: self.background@,
            foreground: self.foreground@,
            cursor: self.cursor@,
            selection: self.selection@,
        }
    }
}

/// The viewed form of the theme store: the current theme's name and the
/// named themes in table order.
pub struct ThemeModel {
    pub current: Seq<char>,
    pub themes: Seq<(Seq<char>, ThemeStyle)>,
}

/// The stock theme table, with `default` current.
pub open spec fn spec_stock_theme_model() -> ThemeModel {
    ThemeModel {
        current: "default"@,
        themes: seq![
            (
                "default"@,
                ThemeStyle {
                    background: "#1e1e1e"@,
                    foreground: "#d4d4d4"@,
                    cursor: "#ffffff"@,
                    selection: "#264f78"@,
                },
            ),
            (
                "dark"@,
                ThemeStyle {
                    background: "#000000"@,
                    foreground: "#ffffff"@,
                    cursor: "#ffffff"@,
                    selection: "#404040"@,
                },
            ),
            (
                "light"@,
                ThemeStyle {
                    background: "#ffffff"@,
                    foreground: "#000000"@,
                    cursor: "#000000"@,
                    selection: "#b3d7ff"@,
                },
            ),
            (
                "monokai"@,
                ThemeStyle {
                    background: "#272822"@,
                    foreground: "#f8f8f2"@,
                    cursor: "#f8f8f0"@,
                    selection: "#49483e"@,
                },
            ),
            (
                "dracula"@,
                ThemeStyle {
                    background: "#282a36"@,
                    foreground: "#f8f8f2"@,
                    cursor: "#f8f8f0"@,
                    selection: "#44475a"@,
                },
            ),
        ],
    }
}

/// Keeps a table of named colour themes and the name of the current one,
/// switched by `doge theme` commands.
pub struct ThemePlugin {
    current_theme: String,
    themes: Vec<(String, ThemeConfig)>,
}

impl ThemePlugin {
    /// The stock themes, with `default` current.
    pub fn new() -> (r: Self)
        ensures
            r@ == spec_stock_theme_model(),
    {
        let mut themes: Vec<(String, ThemeConfig)> = Vec::new();
        themes.push(
            (
                "default".to_owned(),
                ThemeConfig {
                    background: "#1e1e1e".to_owned(),
                    foreground: "#d4d4d4".to_owned(),
                    cursor: "#ffffff".to_owned(),
                    selection: "#264f78".to_owned(),
                },
            ),
        );
        themes.push(
            (
                "dark".to_owned(),
                ThemeConfig {
                    background: "#000000".to_owned(),
                    foreground: "#ffffff".to_owned(),
                    cursor: "#ffffff".to_owned(),
                    selection: "#404040".to_owned(),
                },
            ),
        );
        themes.push(
            (
                "light".to_owned(),
                ThemeConfig {
                    background: "#ffffff".to_owned(),
                    foreground: "#000000".to_owned(),
                    cursor: "#000000".to_owned(),
                    selection: "#b3d7ff".to_owned(),
                },
            ),
        );
        themes.push(
            (
                "monokai".to_owned(),
                ThemeConfig {
                    background: "#272822".to_owned(),
                    foreground: "#f8f8f2".to_owned(),
                    cursor: "#f8f8f0".to_owned(),
                    selection: "#49483e".to_owned(),
                },
            ),
        );
        themes.push(
            (
                "dracula".to_owned(),
                ThemeConfig {
                    background: "#282a36".to_owned(),
                    foreground: "#f8f8f2".to_owned(),
                    cursor: "#f8f8f0".to_owned(),
                    selection: "#44475a".to_owned(),
                },
            ),
        );
        let r = ThemePlugin { current_theme: "default".to_owned(), themes };
        proof {
            assert(r@.themes =~~= seq![
                (
                    "default"@,
                    ThemeStyle {
                        background: "#1e1e1e"@,
                        foreground: "#d4d4d4"@,
                        cursor: "#ffffff"@,
                        selection: "#264f78"@,
                    },
                ),
                (
                    "dark"@,
                    ThemeStyle {
                        background: "#000000"@,
                        foreground: "#ffffff"@,
                        cursor: "#ffffff"@,
                        selection: "#404040"@,
                    },
                ),
                (
                    "light"@,
                    ThemeStyle {
                        background: "#ffffff"@,
                        foreground: "#000000"@,
                        cursor: "#000000"@,
                        selection: "#b3d7ff"@,
                    },
                ),
                (
                    "monokai"@,
                    ThemeStyle {
                        background: "#272822"@,
                        foreground: "#f8f8f2"@,
                        cursor: "#f8f8f0"@,
                        selection: "#49483e"@,
                    },
                ),
                (
                    "dracula"@,
                    ThemeStyle {
                        background: "#282a36"@,
                        foreground: "#f8f8f2"@,
                        cursor: "#f8f8f0"@,
                        selection: "#44475a"@,
                    },
                ),
            ]);
        }
        r
    }

    /// Makes `theme_name` current when the table has it; otherwise
    /// reports the name as unknown and changes nothing.
    pub fn set_theme(&mut self, theme_name: &str) -> (r: Result<(), String>)
        ensures
            assoc::spec_has_key(old(self)@.themes, theme_name@) ==> r is Ok && final(self)@
                == (ThemeModel { current: theme_name@, ..old(self)@ }),
            !assoc::spec_has_key(old(self)@.themes, theme_name@) ==> *final(self) == *old(self)
                && (r matches Err(m) && m@ == "Theme '"@ + theme_name@ + "' not found"@),
    {
        proof {
            assert(forall|i: int|
                0 <= i < self.themes@.len() ==> (#[trigger] assoc::kv(self.themes@)[i]).0
                    == assoc::kview(self.themes@)[i].0);
            assoc::lemma_index_same_keys(
                assoc::kv(self.themes@),
                assoc::kview(self.themes@),
                theme_name@,
            );
        }
        match assoc::find_key(&self.themes, theme_name) {
            Some(_) => {
                self.current_theme = theme_name.to_owned();
                Ok(())
            },
            None => Err("Theme '".to_owned().concat(theme_name).concat("' not found")),
        }
    }

    /// The colours of the current theme, while the table still has it.
    pub fn get_current_theme(&self) -> (r: Option<&ThemeConfig>)
        ensures
            assoc::spec_has_key(self@.themes, self@.current) ==> (r matches Some(c) && c@
                == assoc::spec_value_of(self@.themes, self@.current)),
            !assoc::spec_has_key(self@.themes, self@.current) ==> r is None,
    {
        proof {
            assert(forall|i: int|
                0 <= i < self.themes@.len() ==> (#[trigger] assoc::kv(self.themes@)[i]).0
                    == assoc::kview(self.themes@)[i].0);
            assoc::lemma_index_same_keys(
                assoc::kv(self.themes@),
                assoc::kview(self.themes@),
                self.current_theme@,
            );
            assoc::lemma_index_of(assoc::kv(self.themes@), self.current_theme@);
            assoc::lemma_index_of(self@.themes, self@.current);
        }
        match assoc::find_key(&self.themes, self.current_theme.as_str()) {
            Some(i) => {
                let entry = &self.themes[i];
                Some(&entry.1)
            },
            None => None,
        }
    }

    /// The theme names, in table order.
    pub fn list_themes(&self) -> (r: Vec<&String>)
        ensures
            r@.len() == self@.themes.len(),
            forall|i: int| 0 <= i < r@.len() ==> (#[trigger] r@[i])@ == self@.themes[i].0,
    {
        let mut names: Vec<&String> = Vec::new();
        let mut i: usize = 0;
        while i < self.themes.len()
            invariant
                i <= self.themes@.len(),
                self@.themes.len() == self.themes@.len(),
                names@.len() == i,
                forall|j: int| 0 <= j < i ==> (#[trigger] names@[j])@ == self@.themes[j].0,
            decreases self.themes@.len() - i,
        {
            let entry = &self.themes[i];
            names.push(&entry.0);
            i += 1;
        }
        names
    }
}

impl View for ThemePlugin {
    type V = ThemeModel;

    closed spec fn view(&self) -> ThemeModel {
        ThemeModel { current: self.current_theme@, themes: assoc::kview(self.themes@) }
    }
}

impl TerminalPlugin for ThemePlugin {
    open spec fn spec_name(&self) -> Seq<char> {
        "theme"@
    }

    open spec fn model_session_start(m: Self::V, session_id: u64) -> Self::V {
        m
    }

    open spec fn model_session_end(m: Self::V, session_id: u64) -> Self::V {
        m
    }

    open spec fn model_command_start(m: Self::V, cmd: Seq<char>, session_id: u64, now_ms: u64) -> Self::V {
        if text::spec_starts_with(cmd, "doge theme "@) {
            let name = text::spec_trim(text::spec_strip_prefix_rep(cmd, "doge theme "@));
            if assoc::spec_has_key(m.themes, name) {
                ThemeModel { current: name, ..m }
            } else {
                m
            }
        } else {
            m
        }
    }

    open spec fn model_command_end(m: Self::V, exit_code: Option<i32>, session_id: u64, now_ms: u64) -> Self::V {
        m
    }

    open spec fn model_output_state(m: Self::V, chunk: Seq<char>, session_id: u64) -> Self::V {
        m
    }

    open spec fn model_output_text(m: Self::V, chunk: Seq<char>, session_id: u64) -> Seq<char> {
        chunk
    }

    fn name(&self) -> (r: &'static str) {
        "theme"
    }

    fn on_session_start(&mut self, _session_id: u64) {
    }

    fn on_session_end(&mut self, _session_id: u64) {
    }

    fn on_command_start(&mut self, command: &str, _session_id: u64, _now_ms: u64) {
        if text::starts_with(command, "doge theme ") {
            let cs = text::chars_vec(command);
            let prefix = text::chars_vec("doge theme ");
            let stripped = text::strip_prefix_rep(&cs, &prefix);
            let trimmed = text::trim_chars(&stripped);
            let name = text::string_from_chars(&trimmed);
            let _ = self.set_theme(name.as_str());
        }
    }

    fn on_command_end(&mut self, _exit_code: Option<i32>, _session_id: u64, _now_ms: u64) {
    }

    fn on_output(&mut self, chunk: &str, _session_id: u64) -> (r: String) {
        chunk.to_owned()
    }
}

} // verus!
