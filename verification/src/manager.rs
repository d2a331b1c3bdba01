//! The process-wide session registry.
//!
//! A `TerminalManager` maps session ids to running sessions, tracks the
//! single active session, and is the sole entry point for creation,
//! input delivery, resize, closure and output transformation. Callers
//! serialize on one guard around the manager; every operation here has
//! atomic effect on the registry.

use vstd::prelude::*;
use crate::TermError;
use crate::assoc;
use crate::chain;
use crate::chain::Plugin;
use crate::chain::PluginModel;
use crate::config::TerminalConfig;
use crate::pty;
use crate::pty::PtyHandle;
use crate::pty::PtyReader;
use vstd::string::StrSliceExecFns;
use vstd::string::StringExecFns;

verus! {

/// One running shell session: a fresh id, exclusive ownership of the
/// pseudo-terminal's master side, the session's configuration, and its
/// plugin chain in invocation order.
pub struct TerminalSession {
    pub id: u64,
    pub pty: PtyHandle,
    pub config: TerminalConfig,
    pub plugins: Vec<Plugin>,
}

/// The viewed state of one session: what of it the registry's contracts
/// speak of.
pub struct SessionView {
    pub config: TerminalConfig,
    pub plugins: Seq<PluginModel>,
}

impl View for TerminalSession {
    type V = SessionView;

    open spec fn view(&self) -> SessionView {
        SessionView { config: self.config, plugins: chain::models_of(self.plugins@) }
    }
}

/// The sessions as a key/value sequence: each session under its id.
pub open spec fn session_kv(ss: Seq<TerminalSession>) -> Seq<(u64, SessionView)> {
    ss.map_values(|s: TerminalSession| (s.id, s@))
}

/// The registry of running sessions, keyed by session id, with the
/// optional active-session pointer.
pub struct TerminalManager {
    sessions: Vec<TerminalSession>,
    active_session: Option<u64>,
    next_id: u64,
}

impl View for TerminalManager {
    type V = Map<u64, SessionView>;

    closed spec fn view(&self) -> Map<u64, SessionView> {
        assoc::map_of_kv(session_kv(self.sessions@))
    }
}

/// Replacing one session in place, with its id kept, inserts its new view
/// under that id and leaves every other binding alone.
proof fn lemma_kv_update(
    ss_old: Seq<TerminalSession>,
    ss_new: Seq<TerminalSession>,
    i: int,
    id: u64,
    v: SessionView,
)
    requires
        0 <= i < ss_old.len(),
        ss_new.len() == ss_old.len(),
        ss_old[i].id == id,
        ss_new[i].id == id,
        ss_new[i]@ == v,
        forall|j: int| 0 <= j < ss_old.len() && j != i ==> ss_new[j] == ss_old[j],
        assoc::spec_keys_unique(session_kv(ss_old)),
    ensures
        assoc::spec_keys_unique(session_kv(ss_new)),
        assoc::map_of_kv(session_kv(ss_new)) == assoc::map_of_kv(session_kv(ss_old)).insert(id, v),
{
    let ko = session_kv(ss_old);
    let kn = session_kv(ss_new);
    assert forall|j: int| 0 <= j < kn.len() implies (#[trigger] kn[j]).0 == ko[j].0 by {
        assert(kn[j] == (ss_new[j].id, ss_new[j]@));
        assert(ko[j] == (ss_old[j].id, ss_old[j]@));
    }
    assert forall|a: int, b: int|
        0 <= a < b < kn.len() implies (#[trigger] kn[a]).0 != (#[trigger] kn[b]).0 by {
        assert(ko[a].0 != ko[b].0);
    }
    let mo = assoc::map_of_kv(ko);
    let mn = assoc::map_of_kv(kn);
    assert(kn[i] == (ss_new[i].id, ss_new[i]@));
    assert(ko[i] == (ss_old[i].id, ss_old[i]@));
    assert forall|k: u64| mn.contains_key(k) == mo.insert(id, v).contains_key(k) by {
        assoc::lemma_has_key_exists(kn, k);
        assoc::lemma_has_key_exists(ko, k);
        if k == id {
            assert(kn[i].0 == id);
            assert(ko[i].0 == id);
        }
        if assoc::spec_has_key(kn, k) {
            let j = choose|j: int| 0 <= j < kn.len() && kn[j].0 == k;
            assert(ko[j].0 == k);
        }
        if assoc::spec_has_key(ko, k) {
            let j = choose|j: int| 0 <= j < ko.len() && ko[j].0 == k;
            assert(kn[j].0 == k);
        }
    }
    assert forall|k: u64| mn.contains_key(k) implies mn[k] == mo.insert(id, v)[k] by {
        assoc::lemma_has_key_exists(kn, k);
        let j = choose|j: int| 0 <= j < kn.len() && kn[j].0 == k;
        assoc::lemma_unique_value(kn, k, j);
        if k == id {
            assert(ko[i].0 == id);
            assert(ko[j].0 == k);
            assert(j == i);
            assert(kn[j].1 == v);
        } else {
            assert(j != i);
            assert(ko[j].0 == k);
            assoc::lemma_unique_value(ko, k, j);
            assert(kn[j].1 == ko[j].1);
        }
    }
    assert(mn =~= mo.insert(id, v));
}

/// One session replaced in place — its id kept, its configuration still
/// well formed, everything else untouched — preserves the registry
/// invariant and inserts the session's new view under its id.
proof fn lemma_wf_update(m0: TerminalManager, m1: TerminalManager, i: int)
    requires
        m0.wf(),
        0 <= i < m0.sessions@.len(),
        m1.sessions@.len() == m0.sessions@.len(),
        m1.sessions@[i].id == m0.sessions@[i].id,
        m1.sessions@[i].config.wf(),
        forall|j: int|
            0 <= j < m0.sessions@.len() && j != i ==> m1.sessions@[j] == m0.sessions@[j],
        m1.active_session == m0.active_session,
        m1.next_id == m0.next_id,
    ensures
        m1.wf(),
        m1@ == m0@.insert(m0.sessions@[i].id, m1.sessions@[i]@),
{
    let id = m0.sessions@[i].id;
    lemma_kv_update(m0.sessions@, m1.sessions@, i, id, m1.sessions@[i]@);
    assert forall|j: int|
        0 <= j < m1.sessions@.len() implies (#[trigger] m1.sessions@[j]).id < m1.next_id && (
        #[trigger] m1.sessions@[j]).config.wf() by {
        if j != i {
            assert(m1.sessions@[j] == m0.sessions@[j]);
        }
    }
    if m1.active_session is Some {
        let a = m1.active_session->0;
        assert(assoc::spec_has_key(session_kv(m0.sessions@), a));
        assert(m0@.contains_key(a));
        assert(m1@.contains_key(a));
        assert(assoc::spec_has_key(session_kv(m1.sessions@), a));
    }
}

/// Appending a session with a fresh id inserts its view under that id and
/// leaves every other binding alone.
proof fn lemma_kv_push(
    ss_old: Seq<TerminalSession>,
    ss_new: Seq<TerminalSession>,
    id: u64,
    v: SessionView,
)
    requires
        ss_new.len() == ss_old.len() + 1,
        ss_new[ss_old.len() as int].id == id,
        ss_new[ss_old.len() as int]@ == v,
        forall|j: int| 0 <= j < ss_old.len() ==> ss_new[j] == ss_old[j],
        forall|j: int| 0 <= j < ss_old.len() ==> (#[trigger] ss_old[j]).id != id,
        assoc::spec_keys_unique(session_kv(ss_old)),
    ensures
        assoc::spec_keys_unique(session_kv(ss_new)),
        !assoc::map_of_kv(session_kv(ss_old)).contains_key(id),
        assoc::map_of_kv(session_kv(ss_new)) == assoc::map_of_kv(session_kv(ss_old)).insert(id, v),
{
    let ko = session_kv(ss_old);
    let kn = session_kv(ss_new);
    let n = ss_old.len() as int;
    assert forall|j: int| 0 <= j < n implies #[trigger] kn[j] == ko[j] by {
        assert(kn[j] == (ss_new[j].id, ss_new[j]@));
        assert(ko[j] == (ss_old[j].id, ss_old[j]@));
    }
    assert(kn[n] == (ss_new[n].id, ss_new[n]@));
    assert forall|j: int| 0 <= j < n implies (#[trigger] ko[j]).0 != id by {
        assert(ko[j] == (ss_old[j].id, ss_old[j]@));
    }
    assert forall|a: int, b: int|
        0 <= a < b < kn.len() implies (#[trigger] kn[a]).0 != (#[trigger] kn[b]).0 by {
        if b < n {
            assert(ko[a].0 != ko[b].0);
        } else {
            assert(kn[b].0 == id);
            assert(kn[a].0 == ko[a].0);
        }
    }
    let mo = assoc::map_of_kv(ko);
    let mn = assoc::map_of_kv(kn);
    assoc::lemma_has_key_exists(ko, id);
    assert forall|k: u64| mn.contains_key(k) == mo.insert(id, v).contains_key(k) by {
        assoc::lemma_has_key_exists(kn, k);
        assoc::lemma_has_key_exists(ko, k);
        if assoc::spec_has_key(kn, k) {
            let j = choose|j: int| 0 <= j < kn.len() && kn[j].0 == k;
            if j < n {
                assert(ko[j].0 == k);
            } else {
                assert(k == id);
            }
        }
        if assoc::spec_has_key(ko, k) {
            let j = choose|j: int| 0 <= j < ko.len() && ko[j].0 == k;
            assert(kn[j].0 == k);
        }
    }
    assert forall|k: u64| mn.contains_key(k) implies mn[k] == mo.insert(id, v)[k] by {
        assoc::lemma_has_key_exists(kn, k);
        let j = choose|j: int| 0 <= j < kn.len() && kn[j].0 == k;
        assoc::lemma_unique_value(kn, k, j);
        if k == id {
            assert(j == n);
            assert(kn[j].1 == v);
        } else {
            assert(j < n);
            assert(ko[j].0 == k);
            assoc::lemma_unique_value(ko, k, j);
        }
    }
    assert(mn =~= mo.insert(id, v));
}

/// Taking one session out removes its binding and leaves every other
/// binding alone.
proof fn lemma_kv_remove(ss_old: Seq<TerminalSession>, ss_new: Seq<TerminalSession>, i: int, id: u64)
    requires
        0 <= i < ss_old.len(),
        ss_new.len() == ss_old.len() - 1,
        ss_old[i].id == id,
        forall|j: int| 0 <= j < i ==> ss_new[j] == ss_old[j],
        forall|j: int| i <= j < ss_new.len() ==> ss_new[j] == ss_old[j + 1],
        assoc::spec_keys_unique(session_kv(ss_old)),
    ensures
        assoc::spec_keys_unique(session_kv(ss_new)),
        assoc::map_of_kv(session_kv(ss_new)) == assoc::map_of_kv(session_kv(ss_old)).remove(id),
        forall|k: u64|
            k != id ==> assoc::spec_has_key(session_kv(ss_new), k) == assoc::spec_has_key(
                session_kv(ss_old),
                k,
            ),
{
    let ko = session_kv(ss_old);
    let kn = session_kv(ss_new);
    assert forall|j: int|
        0 <= j < kn.len() implies #[trigger] kn[j] == (if j < i {
            ko[j]
        } else {
            ko[j + 1]
        }) by {
        assert(kn[j] == (ss_new[j].id, ss_new[j]@));
        if j < i {
            assert(ko[j] == (ss_old[j].id, ss_old[j]@));
        } else {
            assert(ko[j + 1] == (ss_old[j + 1].id, ss_old[j + 1]@));
        }
    }
    assert forall|a: int, b: int|
        0 <= a < b < kn.len() implies (#[trigger] kn[a]).0 != (#[trigger] kn[b]).0 by {
        if b < i {
            assert(ko[a].0 != ko[b].0);
        } else if a < i {
            assert(ko[a].0 != ko[b + 1].0);
        } else {
            assert(ko[a + 1].0 != ko[b + 1].0);
        }
    }
    let mo = assoc::map_of_kv(ko);
    let mn = assoc::map_of_kv(kn);
    assert forall|k: u64|
        k != id implies assoc::spec_has_key(kn, k) == assoc::spec_has_key(ko, k) by {
        assoc::lemma_has_key_exists(kn, k);
        assoc::lemma_has_key_exists(ko, k);
        if assoc::spec_has_key(ko, k) {
            let j = choose|j: int| 0 <= j < ko.len() && ko[j].0 == k;
            assert(j != i);
            if j < i {
                assert(kn[j].0 == k);
            } else {
                assert(kn[j - 1].0 == k);
            }
        }
        if assoc::spec_has_key(kn, k) {
            let j = choose|j: int| 0 <= j < kn.len() && kn[j].0 == k;
            if j < i {
                assert(ko[j].0 == k);
            } else {
                assert(ko[j + 1].0 == k);
            }
        }
    }
    assert forall|k: u64| mn.contains_key(k) == mo.remove(id).contains_key(k) by {
        assoc::lemma_has_key_exists(kn, k);
        assoc::lemma_has_key_exists(ko, k);
        if k == id && assoc::spec_has_key(kn, id) {
            let j = choose|j: int| 0 <= j < kn.len() && kn[j].0 == id;
            if j < i {
                assert(ko[j].0 == id);
                assert(ko[j].0 == ko[i].0);
            } else {
                assert(ko[j + 1].0 == id);
                assert(ko[j + 1].0 == ko[i].0);
            }
        }
    }
    assert forall|k: u64| mn.contains_key(k) implies mn[k] == mo.remove(id)[k] by {
        assoc::lemma_has_key_exists(kn, k);
        let j = choose|j: int| 0 <= j < kn.len() && kn[j].0 == k;
        assoc::lemma_unique_value(kn, k, j);
        if j < i {
            assoc::lemma_unique_value(ko, k, j);
        } else {
            assoc::lemma_unique_value(ko, k, j + 1);
        }
    }
    assert(mn =~= mo.remove(id));
}

impl TerminalManager {
    /// The registry invariant: session ids are unique and below the next
    /// id to be handed out, the active pointer resolves to a live entry,
    /// and every stored configuration is well formed.
    pub closed spec fn wf(&self) -> bool {
        &&& assoc::spec_keys_unique(session_kv(self.sessions@))
        &&& (match self.active_session {
            Some(id) => assoc::spec_has_key(session_kv(self.sessions@), id),
            None => true,
        })
        &&& forall|i: int|
            0 <= i < self.sessions@.len() ==> (#[trigger] self.sessions@[i]).id < self.next_id
        &&& forall|i: int| 0 <= i < self.sessions@.len() ==> (#[trigger] self.sessions@[i]).config.wf()
    }

    /// The active session's id, if one is set.
    pub closed spec fn active_id(&self) -> Option<u64> {
        self.active_session
    }

    /// How many sessions the registry holds.
    pub closed spec fn spec_count(&self) -> nat {
        self.sessions@.len()
    }

    /// An empty registry with no active session.
    pub fn new() -> (r: Self)
        ensures
            r.wf(),
            r@ == Map::<u64, SessionView>::empty(),
            r.active_id() is None,
            r.spec_count() == 0,
    {
        let r = TerminalManager { sessions: Vec::new(), active_session: None, next_id: 0 };
        proof {
            assert(session_kv(r.sessions@) =~= Seq::<(u64, SessionView)>::empty());
            assert forall|k: u64| !r@.contains_key(k) by {
                assoc::lemma_index_of(session_kv(r.sessions@), k);
            }
            assert(r@ =~= Map::<u64, SessionView>::empty());
        }
        r
    }

    /// The position of the session with `session_id`, if one is
    /// registered.
    fn find_session(&self, session_id: u64) -> (r: Option<usize>)
        ensures
            r matches Some(i) ==> i < self.sessions@.len() && assoc::spec_index_of(
                session_kv(self.sessions@),
                session_id,
            ) == i as int,
            r is None ==> !assoc::spec_has_key(session_kv(self.sessions@), session_id),
    {
        proof {
            assoc::lemma_index_of(session_kv(self.sessions@), session_id);
        }
        let mut i: usize = 0;
        while i < self.sessions.len()
            invariant
                i <= self.sessions@.len(),
                forall|j: int| 0 <= j < i ==> (#[trigger] self.sessions@[j]).id != session_id,
            decreases self.sessions@.len() - i,
        {
            if self.sessions[i].id == session_id {
                proof {
                    assert(forall|j: int|
                        0 <= j < i ==> (#[trigger] session_kv(self.sessions@)[j]).0 != session_id);
                    assoc::lemma_index_found(
                        session_kv(self.sessions@),
                        session_id,
                        i as int,
                    );
                }
                return Some(i);
            }
            i += 1;
        }
        None
    }

    /// The active session's id; under the registry invariant it always
    /// resolves to a live entry.
    pub fn get_active_session(&self) -> (r: Option<u64>)
        ensures
            r == self.active_id(),
            self.wf() ==> (r matches Some(id) ==> self@.contains_key(id)),
    {
        self.active_session
    }

    /// Makes `session_id` the active session; fails, changing nothing,
    /// when the registry has no such session.
    pub fn set_active_session(&mut self, session_id: u64) -> (r: Result<(), TermError>)
        requires
            old(self).wf(),
        ensures
            final(self).wf(),
            final(self)@ == old(self)@,
            final(self).spec_count() == old(self).spec_count(),
            old(self)@.contains_key(session_id) ==> r is Ok && final(self).active_id() == Some(
                session_id,
            ),
            !old(self)@.contains_key(session_id) ==> (r matches Err(
                TermError::SessionNotFound,
            )) && final(self).active_id() == old(self).active_id(),
    {
        proof {
            assoc::lemma_index_of(session_kv(self.sessions@), session_id);
        }
        match self.find_session(session_id) {
            Some(_) => {
                self.active_session = Some(session_id);
                Ok(())
            },
            None => Err(TermError::SessionNotFound),
        }
    }

    /// How many sessions are registered.
    pub fn session_count(&self) -> (r: usize)
        ensures
            r == self.spec_count(),
    {
        self.sessions.len()
    }

    /// Whether the registry has a session with `session_id`.
    pub fn contains_session(&self, session_id: u64) -> (r: bool)
        ensures
            r == self@.contains_key(session_id),
    {
        proof {
            assoc::lemma_index_of(session_kv(self.sessions@), session_id);
        }
        match self.find_session(session_id) {
            Some(_) => true,
            None => false,
        }
    }

    /// Builds the command a session's configuration asks for: argv is the
    /// configured shell, the environment overrides are the configured
    /// pairs in order, and the working directory is the configured one.
    fn build_command(config: &TerminalConfig) -> (r: portable_pty::CommandBuilder)
        ensures
            pty::builder_program(r) == config.shell@,
            pty::builder_env(r) == crate::config::spec_env_map(config.env@),
            pty::builder_cwd(r) == (match config.working_dir {
                Some(d) => Some(d@),
                None => None::<Seq<char>>,
            }),
    {
        let mut cmd = pty::command_new(config.shell.as_str());
        let mut i: usize = 0;
        proof {
            assert(config.env@.subrange(0, 0) =~= Seq::<(String, String)>::empty());
        }
        while i < config.env.len()
            invariant
                i <= config.env@.len(),
                pty::builder_program(cmd) == config.shell@,
                pty::builder_env(cmd) == crate::config::spec_env_map(
                    config.env@.subrange(0, i as int),
                ),
                pty::builder_cwd(cmd) is None,
            decreases config.env@.len() - i,
        {
            let entry = &config.env[i];
            pty::command_env(&mut cmd, entry.0.as_str(), entry.1.as_str());
            proof {
                assert(config.env@.subrange(0, i as int + 1).drop_last() =~= config.env@.subrange(
                    0,
                    i as int,
                ));
                assert(config.env@.subrange(0, i as int + 1).last() == config.env@[i as int]);
            }
            i += 1;
        }
        proof {
            assert(config.env@.subrange(0, config.env@.len() as int) =~= config.env@);
        }
        match &config.working_dir {
            Some(dir) => pty::command_cwd(&mut cmd, dir.as_str()),
            None => {},
        }
        cmd
    }

    /// Opens a pseudo-terminal sized to the configuration's geometry,
    /// spawns the configured shell on its slave end with the configured
    /// environment and working directory, registers the new session under
    /// a fresh id with the default plugin chain (its `on_session_start`
    /// already run), makes it active, and hands back the id with the read
    /// handle the output listener runs on. Fails, changing nothing, when
    /// the pseudo-terminal cannot be allocated or the shell cannot be
    /// launched; the practically unreachable exhaustion of the id space
    /// fails the same way, as a pty error.
    pub fn create_session(&mut self, config: TerminalConfig) -> (r: Result<
        (u64, PtyReader),
        TermError,
    >)
        requires
            old(self).wf(),
            config.wf(),
        ensures
            final(self).wf(),
            r matches Ok(ok) ==> !old(self)@.contains_key(ok.0) && final(self)@ == old(
                self,
            )@.insert(
                ok.0,
                (SessionView {
                    config,
                    plugins: chain::chain_session_start(
                        chain::spec_session_default_models(),
                        ok.0,
                    ),
                }),
            ) && final(self).active_id() == Some(ok.0) && final(self).spec_count() == old(
                self,
            ).spec_count() + 1,
            r is Err ==> *final(self) == *old(self),
            r matches Err(e) ==> (e matches TermError::Pty(_) || e matches TermError::Spawn(_)),
    {
        if self.next_id == u64::MAX {
            return Err(TermError::Pty("session id space exhausted".to_owned()));
        }
        let cmd = Self::build_command(&config);
        match pty::pty_open(config.rows, config.columns, cmd) {
            Err(e) => Err(e),
            Ok((handle, reader)) => {
                let id = self.next_id;
                self.next_id = id + 1;
                let mut plugins = chain::session_default_plugins();
                chain::run_session_start(&mut plugins, id);
                let ghost v = SessionView {
                    config,
                    plugins: chain::chain_session_start(
                        chain::spec_session_default_models(),
                        id,
                    ),
                };
                let session = TerminalSession { id, pty: handle, config, plugins };
                let ghost ss_old = self.sessions@;
                self.sessions.push(session);
                self.active_session = Some(id);
                proof {
                    assert(self.sessions@[ss_old.len() as int]@ == v);
                    lemma_kv_push(ss_old, self.sessions@, id, v);
                    assoc::lemma_has_key_exists(session_kv(self.sessions@), id);
                    assert(session_kv(self.sessions@)[ss_old.len() as int].0 == id);
                }
                Ok((id, reader))
            },
        }
    }

    /// Writes raw bytes to the session's pseudo-terminal, synchronously
    /// and without adding a newline. Fails with the not-found error
    /// exactly when the registry has no such session; an I/O failure on
    /// the terminal is the only other error. The registry itself is
    /// unchanged either way.
    pub fn write_to_session(&mut self, session_id: u64, data: &str) -> (r: Result<(), TermError>)
        requires
            old(self).wf(),
        ensures
            final(self).wf(),
            final(self)@ == old(self)@,
            final(self).active_id() == old(self).active_id(),
            final(self).spec_count() == old(self).spec_count(),
            (r matches Err(TermError::SessionNotFound)) <==> !old(self)@.contains_key(session_id),
            r is Ok || (r matches Err(e) && (e is SessionNotFound || e matches TermError::Io(_))),
    {
        proof {
            assoc::lemma_index_of(session_kv(self.sessions@), session_id);
        }
        match self.find_session(session_id) {
            None => Err(TermError::SessionNotFound),
            Some(i) => {
                let ghost ss_old = self.sessions@;
                let session = &mut self.sessions[i];
                let result = session.pty.write_all(data);
                proof {
                    assert(self.sessions@[i as int]@ == ss_old[i as int]@);
                    lemma_wf_update(*old(self), *self, i as int);
                    assoc::lemma_has_key_exists(session_kv(ss_old), session_id);
                    assoc::lemma_unique_value(session_kv(ss_old), session_id, i as int);
                    assert(self@ =~= old(self)@);
                }
                result
            },
        }
    }

    /// Propagates the new geometry to the session's pseudo-terminal and,
    /// when the terminal accepted it, stores exactly those values in the
    /// session's configuration; no other session is touched. Fails with
    /// the not-found error exactly when the registry has no such session.
    pub fn resize_session(&mut self, session_id: u64, cols: u16, rows: u16) -> (r: Result<
        (),
        TermError,
    >)
        requires
            old(self).wf(),
            cols > 0,
            rows > 0,
        ensures
            final(self).wf(),
            final(self).active_id() == old(self).active_id(),
            final(self).spec_count() == old(self).spec_count(),
            (r matches Err(TermError::SessionNotFound)) <==> !old(self)@.contains_key(session_id),
            r is Ok ==> final(self)@ == old(self)@.insert(
                session_id,
                (SessionView {
                    config: (TerminalConfig {
                        columns: cols,
                        rows,
                        ..old(self)@[session_id].config
                    }),
                    plugins: old(self)@[session_id].plugins,
                }),
            ),
            r is Err ==> final(self)@ == old(self)@,
            old(self)@.contains_key(session_id) ==> (r is Ok || r matches Err(
                TermError::Pty(_),
            )),
    {
        proof {
            assoc::lemma_index_of(session_kv(self.sessions@), session_id);
        }
        match self.find_session(session_id) {
            None => Err(TermError::SessionNotFound),
            Some(i) => {
                proof {
                    assoc::lemma_has_key_exists(session_kv(self.sessions@), session_id);
                    assoc::lemma_unique_value(session_kv(self.sessions@), session_id, i as int);
                }
                let ghost ss_old = self.sessions@;
                let session = &mut self.sessions[i];
                match session.pty.resize(rows, cols) {
                    Err(e) => {
                        proof {
                            assert(self.sessions@[i as int]@ == ss_old[i as int]@);
                            lemma_wf_update(*old(self), *self, i as int);
                            assert(self@ =~= old(self)@);
                        }
                        Err(e)
                    },
                    Ok(()) => {
                        session.config.columns = cols;
                        session.config.rows = rows;
                        proof {
                            let v = SessionView {
                                config: (TerminalConfig {
                                    columns: cols,
                                    rows,
                                    ..old(self)@[session_id].config
                                }),
                                plugins: old(self)@[session_id].plugins,
                            };
                            assert(self.sessions@[i as int]@ == v);
                            lemma_wf_update(*old(self), *self, i as int);
                        }
                        Ok(())
                    },
                }
            },
        }
    }

    /// Runs every plugin's `on_session_end`, removes the session from the
    /// registry — dropping its pseudo-terminal handles, which makes the
    /// session's output listener observe end of stream — and clears the
    /// active pointer if it pointed here. Fails with the not-found error
    /// exactly when the registry has no such session.
    pub fn close_session(&mut self, session_id: u64) -> (r: Result<(), TermError>)
        requires
            old(self).wf(),
        ensures
            final(self).wf(),
            (r matches Err(TermError::SessionNotFound)) <==> !old(self)@.contains_key(session_id),
            r is Ok || r matches Err(TermError::SessionNotFound),
            r is Err ==> *final(self) == *old(self),
            r is Ok ==> final(self)@ == old(self)@.remove(session_id) && final(self).spec_count()
                + 1 == old(self).spec_count() && final(self).active_id() == (if old(
                self,
            ).active_id() == Some(session_id) {
                Option::<u64>::None
            } else {
                old(self).active_id()
            }),
    {
        proof {
            assoc::lemma_index_of(session_kv(self.sessions@), session_id);
        }
        match self.find_session(session_id) {
            None => Err(TermError::SessionNotFound),
            Some(i) => {
                proof {
                    assoc::lemma_has_key_exists(session_kv(self.sessions@), session_id);
                }
                let ghost ss_old = self.sessions@;
                let session = &mut self.sessions[i];
                chain::run_session_end(&mut session.plugins, session_id);
                let ghost ss_mid = self.sessions@;
                proof {
                    assert(ss_mid[i as int].id == session_id);
                    lemma_wf_update(*old(self), *self, i as int);
                }
                self.sessions.remove(i);
                match self.active_session {
                    Some(active) => {
                        if active == session_id {
                            self.active_session = None;
                        }
                    },
                    None => {},
                }
                proof {
                    lemma_kv_remove(ss_mid, self.sessions@, i as int, session_id);
                    assert forall|j: int|
                        0 <= j < self.sessions@.len() implies (#[trigger] self.sessions@[j]).id
                        < self.next_id && (#[trigger] self.sessions@[j]).config.wf() by {
                        let src = if j < i as int {
                            j
                        } else {
                            j + 1
                        };
                        assert(self.sessions@[j] == ss_mid[src]);
                        if src != i as int {
                            assert(ss_mid[src] == ss_old[src]);
                        } else {
                            assert(ss_mid[src].id == ss_old[src].id);
                            assert(ss_mid[src].config == ss_old[src].config);
                        }
                    }
                    assert(assoc::map_of_kv(session_kv(ss_mid)) =~= assoc::map_of_kv(
                        session_kv(ss_old),
                    ).insert(session_id, ss_mid[i as int]@));
                    assert(self@ =~= old(self)@.remove(session_id));
                    if self.active_session is Some {
                        let a = self.active_session->0;
                        assert(assoc::spec_has_key(session_kv(ss_old), a));
                        assert(old(self)@.contains_key(a));
                        assert(a != session_id);
                        assert(self@.contains_key(a));
                        assert(assoc::spec_has_key(session_kv(self.sessions@), a));
                    }
                }
                Ok(())
            },
        }
    }

    /// Runs `on_command_start` on every plugin of the session, in chain
    /// order; the command text itself is not altered or written. `now_ms`
    /// is the caller's clock reading in milliseconds. Fails with the
    /// not-found error exactly when the registry has no such session.
    pub fn dispatch_command_start(
        &mut self,
        session_id: u64,
        command: &str,
        now_ms: u64,
    ) -> (r: Result<(), TermError>)
        requires
            old(self).wf(),
        ensures
            final(self).wf(),
            final(self).active_id() == old(self).active_id(),
            final(self).spec_count() == old(self).spec_count(),
            (r matches Err(TermError::SessionNotFound)) <==> !old(self)@.contains_key(session_id),
            r is Ok || r matches Err(TermError::SessionNotFound),
            r is Ok ==> final(self)@ == old(self)@.insert(
                session_id,
                (SessionView {
                    config: old(self)@[session_id].config,
                    plugins: chain::chain_command_start(
                        old(self)@[session_id].plugins,
                        command@,
                        session_id,
                        now_ms,
                    ),
                }),
            ),
            r is Err ==> *final(self) == *old(self),
    {
        proof {
            assoc::lemma_index_of(session_kv(self.sessions@), session_id);
        }
        match self.find_session(session_id) {
            None => Err(TermError::SessionNotFound),
            Some(i) => {
                proof {
                    assoc::lemma_has_key_exists(session_kv(self.sessions@), session_id);
                    assoc::lemma_unique_value(session_kv(self.sessions@), session_id, i as int);
                }
                let ghost ss_old = self.sessions@;
                let session = &mut self.sessions[i];
                chain::run_command_start(&mut session.plugins, command, session_id, now_ms);
                proof {
                    let v = SessionView {
                        config: old(self)@[session_id].config,
                        plugins: chain::chain_command_start(
                            old(self)@[session_id].plugins,
                            command@,
                            session_id,
                            now_ms,
                        ),
                    };
                    assert(self.sessions@[i as int]@ == v);
                    lemma_wf_update(*old(self), *self, i as int);
                }
                Ok(())
            },
        }
    }

    /// Submits one command line to the active session: runs the
    /// command-start hooks on its chain, then writes the command with a
    /// trailing newline to its pseudo-terminal. Fails when no session is
    /// active; after the hooks have run, an I/O failure on the terminal
    /// is the only other error.
    pub fn run_command(&mut self, command: &str, now_ms: u64) -> (r: Result<(), TermError>)
        requires
            old(self).wf(),
        ensures
            final(self).wf(),
            final(self).active_id() == old(self).active_id(),
            final(self).spec_count() == old(self).spec_count(),
            old(self).active_id() is None ==> (r matches Err(TermError::NoActiveSession))
                && *final(self) == *old(self),
            old(self).active_id() matches Some(id) ==> final(self)@ == old(self)@.insert(
                id,
                (SessionView {
                    config: old(self)@[id].config,
                    plugins: chain::chain_command_start(
                        old(self)@[id].plugins,
                        command@,
                        id,
                        now_ms,
                    ),
                }),
            ) && (r is Ok || r matches Err(TermError::Io(_))),
    {
        let session_id = match self.active_session {
            None => {
                return Err(TermError::NoActiveSession);
            },
            Some(id) => id,
        };
        proof {
            assoc::lemma_index_of(session_kv(self.sessions@), session_id);
            assoc::lemma_has_key_exists(session_kv(self.sessions@), session_id);
        }
        match self.find_session(session_id) {
            None => vstd::pervasive::unreached(),
            Some(i) => {
                proof {
                    assoc::lemma_unique_value(session_kv(self.sessions@), session_id, i as int);
                }
                let ghost ss_old = self.sessions@;
                let session = &mut self.sessions[i];
                chain::run_command_start(&mut session.plugins, command, session_id, now_ms);
                let line = command.to_owned().concat("\n");
                let result = session.pty.write_all(line.as_str());
                proof {
                    let v = SessionView {
                        config: old(self)@[session_id].config,
                        plugins: chain::chain_command_start(
                            old(self)@[session_id].plugins,
                            command@,
                            session_id,
                            now_ms,
                        ),
                    };
                    assert(self.sessions@[i as int]@ == v);
                    lemma_wf_update(*old(self), *self, i as int);
                }
                result
            },
        }
    }

    /// Transforms one decoded output chunk through the session's plugin
    /// chain, left to right, and returns the text for the sink. A chunk
    /// for an unknown session passes through unchanged, as when a
    /// listener outlives its session's registry entry.
    pub fn process_output(&mut self, session_id: u64, chunk: &str) -> (r: String)
        requires
            old(self).wf(),
        ensures
            final(self).wf(),
            final(self).active_id() == old(self).active_id(),
            final(self).spec_count() == old(self).spec_count(),
            old(self)@.contains_key(session_id) ==> final(self)@ == old(self)@.insert(
                session_id,
                (SessionView {
                    config: old(self)@[session_id].config,
                    plugins: chain::chain_output(
                        old(self)@[session_id].plugins,
                        chunk@,
                        session_id,
                    ).0,
                }),
            ) && r@ == chain::chain_output(
                old(self)@[session_id].plugins,
                chunk@,
                session_id,
            ).1,
            !old(self)@.contains_key(session_id) ==> *final(self) == *old(self) && r@ == chunk@,
    {
        proof {
            assoc::lemma_index_of(session_kv(self.sessions@), session_id);
        }
        match self.find_session(session_id) {
            None => chunk.to_owned(),
            Some(i) => {
                proof {
                    assoc::lemma_has_key_exists(session_kv(self.sessions@), session_id);
                    assoc::lemma_unique_value(session_kv(self.sessions@), session_id, i as int);
                }
                let ghost ss_old = self.sessions@;
                let session = &mut self.sessions[i];
                let out = chain::run_output(&mut session.plugins, chunk.to_owned(), session_id);
                proof {
                    let v = SessionView {
                        config: old(self)@[session_id].config,
                        plugins: chain::chain_output(
                            old(self)@[session_id].plugins,
                            chunk@,
                            session_id,
                        ).0,
                    };
                    assert(self.sessions@[i as int]@ == v);
                    lemma_wf_update(*old(self), *self, i as int);
                }
                out
            },
        }
    }

    /// The names of the active session's plugins, in chain order. Fails
    /// when no session is active.
    pub fn list_plugins(&self) -> (r: Result<Vec<String>, TermError>)
        requires
            self.wf(),
        ensures
            self.active_id() is None ==> r matches Err(TermError::NoActiveSession),
            self.active_id() matches Some(id) ==> (r matches Ok(names) && names@.map_values(
                |s: String| s@,
            ) == self@[id].plugins.map_values(|m: PluginModel| chain::spec_model_name(m))),
    {
        let session_id = match self.active_session {
            None => {
                return Err(TermError::NoActiveSession);
            },
            Some(id) => id,
        };
        proof {
            assoc::lemma_index_of(session_kv(self.sessions@), session_id);
            assoc::lemma_has_key_exists(session_kv(self.sessions@), session_id);
        }
        match self.find_session(session_id) {
            None => vstd::pervasive::unreached(),
            Some(i) => {
                proof {
                    assoc::lemma_unique_value(session_kv(self.sessions@), session_id, i as int);
                }
                let session = &self.sessions[i];
                Ok(chain::plugin_names(&session.plugins))
            },
        }
    }

    /// The stored configuration of the session with `session_id`.
    pub fn session_config(&self, session_id: u64) -> (r: Option<&TerminalConfig>)
        ensures
            self@.contains_key(session_id) ==> (r matches Some(c) && *c
                == self@[session_id].config),
            !self@.contains_key(session_id) ==> r is None,
    {
        proof {
            assoc::lemma_index_of(session_kv(self.sessions@), session_id);
        }
        match self.find_session(session_id) {
            Some(i) => {
                let s = &self.sessions[i];
                Some(&s.config)
            },
            None => None,
        }
    }
}

} // verus!
