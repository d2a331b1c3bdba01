//! Per-session terminal configuration.

use vstd::prelude::*;
use crate::assoc;

verus! {

/// The shape of one shell session: program, environment overrides,
/// optional initial working directory, and terminal geometry.
///
/// The environment keeps unique keys in insertion order; geometry is
/// positive in both dimensions. Everything but the geometry is fixed once
/// a session is created; the geometry changes on resize.
pub struct TerminalConfig {
    pub shell: String,
    pub env: Vec<(String, String)>,
    pub working_dir: Option<String>,
    pub columns: u16,
    pub rows: u16,
}

/// The map an environment list denotes: its pairs bound in order, later
/// bindings overriding earlier ones.
pub open spec fn spec_env_map(env: Seq<(String, String)>) -> Map<Seq<char>, Seq<char>>
    decreases env.len(),
{
    if env.len() == 0 {
        Map::empty()
    } else {
        spec_env_map(env.drop_last()).insert(env.last().0@, env.last().1@)
    }
}

impl TerminalConfig {
    /// The configuration invariant: positive geometry, unique
    /// environment keys.
    pub open spec fn wf(self) -> bool {
        self.columns > 0 && self.rows > 0 && assoc::spec_keys_unique(assoc::kv(self.env@))
    }

    /// Decides the configuration invariant.
    pub fn is_wf(&self) -> (r: bool)
        ensures
            r == self.wf(),
    {
        if !(self.columns > 0 && self.rows > 0) {
            return false;
        }
        let ghost m = assoc::kv(self.env@);
        let n = self.env.len();
        let mut i: usize = 0;
        while i < n
            invariant
                i <= n,
                n == self.env@.len(),
                m == assoc::kv(self.env@),
                m.len() == n,
                forall|a: int, b: int| 0 <= a < i && a < b < n ==> m[a].0 != m[b].0,
            decreases n - i,
        {
            let mut j: usize = i + 1;
            while j < n
                invariant
                    i < j <= n,
                    n == self.env@.len(),
                    m == assoc::kv(self.env@),
                    m.len() == n,
                    forall|b: int| i < b < j ==> m[i as int].0 != m[b].0,
                decreases n - j,
            {
                if crate::text::str_eq(self.env[i].0.as_str(), self.env[j].0.as_str()) {
                    proof {
                        assert(m[i as int].0 == m[j as int].0);
                    }
                    return false;
                }
                j += 1;
            }
            i += 1;
        }
        true
    }

    /// Binds one environment variable, overriding any earlier binding of
    /// the same name.
    pub fn insert_env(&mut self, key: String, value: String)
        ensures
            assoc::kv(final(self).env@) == assoc::spec_upsert(
                assoc::kv(old(self).env@),
                key@,
                value,
            ),
            final(self).shell == old(self).shell,
            final(self).working_dir == old(self).working_dir,
            final(self).columns == old(self).columns,
            final(self).rows == old(self).rows,
            old(self).wf() ==> final(self).wf(),
    {
        proof {
            if assoc::spec_keys_unique(assoc::kv(self.env@)) {
                assoc::lemma_upsert_unique(assoc::kv(self.env@), key@, value);
            }
        }
        assoc::upsert(&mut self.env, key, value);
    }
}

impl Default for TerminalConfig {
    /// A bash session at 80 by 24 with a terminal-type environment and no
    /// explicit working directory.
    fn default() -> (r: Self)
        ensures
            r.wf(),
            r.shell@ == "/bin/bash"@,
            r.env@.len() == 2,
            r.env@[0].0@ == "TERM"@ && r.env@[0].1@ == "xterm-256color"@,
            r.env@[1].0@ == "COLORTERM"@ && r.env@[1].1@ == "truecolor"@,
            r.working_dir is None,
            r.columns == 80,
            r.rows == 24,
    {
        let mut env: Vec<(String, String)> = Vec::new();
        env.push(("TERM".to_owned(), "xterm-256color".to_owned()));
        env.push(("COLORTERM".to_owned(), "truecolor".to_owned()));
        proof {
            reveal_strlit("TERM");
            reveal_strlit("COLORTERM");
            assert(env@[0].0@ == "TERM"@ && env@[1].0@ == "COLORTERM"@);
            assert("TERM"@.len() != "COLORTERM"@.len());
            let m = assoc::kv(env@);
            assert forall|i: int, j: int| 0 <= i < j < m.len() implies m[i].0 != m[j].0 by {
                assert(i == 0 && j == 1);
                assert(m[0].0 == "TERM"@ && m[1].0 == "COLORTERM"@);
            }
        }
        TerminalConfig {
            shell: "/bin/bash".to_owned(),
            env,
            working_dir: None,
            columns: 80,
            rows: 24,
        }
    }
}

} // verus!
