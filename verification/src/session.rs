//! Bookkeeping for session records: names, working directories, chosen model
//! and mode, and which session is currently active.
//!
//! The registry of live processes is separate (see [`crate::pty`]); this
//! module only tracks the caller-visible session list.

use vstd::prelude::*;

use crate::types::{AgentMode, SessionInfo, SessionInfoView};

verus! {

/// Mathematical state of one [`SessionManager`].
pub struct SessionManagerView {
    /// The stored records, in insertion order.
    pub sessions: Seq<SessionInfoView>,
    /// Id of the active session, if any.
    pub active: Option<Seq<char>>,
}

/// First index in `s` holding a record with the given id, or `-1`.
pub open spec fn session_idx(s: Seq<SessionInfoView>, id: Seq<char>) -> int
    decreases s.len(),
{
    if s.len() == 0 {
        -1
    } else if s[0].id == id {
        0
    } else if session_idx(s.drop_first(), id) == -1 {
        -1
    } else {
        session_idx(s.drop_first(), id) + 1
    }
}

/// Characterization of [`session_idx`]: `-1` means the id is absent; otherwise
/// it is the first position holding the id.
pub proof fn lemma_session_idx(s: Seq<SessionInfoView>, id: Seq<char>)
    ensures
        session_idx(s, id) == -1 ==> forall|i: int| 0 <= i < s.len() ==> s[i].id != id,
        session_idx(s, id) != -1 ==> 0 <= session_idx(s, id) < s.len() && s[session_idx(s, id)].id
            == id && (forall|i: int| 0 <= i < session_idx(s, id) ==> s[i].id != id),
    decreases s.len(),
{
    if s.len() > 0 && s[0].id != id {
        lemma_session_idx(s.drop_first(), id);
        let f = session_idx(s.drop_first(), id);
        if f == -1 {
            assert forall|i: int| 0 <= i < s.len() implies s[i].id != id by {
                if i >= 1 {
                    assert(s[i] == s.drop_first()[i - 1]);
                }
            }
        } else {
            assert(s[f + 1] == s.drop_first()[f]);
            assert forall|i: int| 0 <= i < f + 1 implies s[i].id != id by {
                if i >= 1 {
                    assert(s[i] == s.drop_first()[i - 1]);
                }
            }
        }
    }
}

/// Field-for-field copy of a session record.
fn clone_session(s: &SessionInfo) -> (r: SessionInfo)
    ensures
        r@ == s@,
{
    SessionInfo {
        id: s.id.clone(),
        name: s.name.clone(),
        working_dir: s.working_dir.clone(),
        model: match &s.model {
            Some(m) => Some(m.clone()),
            None => None,
        },
        mode: s.mode,
        created_at: s.created_at,
        is_active: s.is_active,
    }
}

/// First index in `v` holding a record with the given id.
fn index_of_id(v: &Vec<SessionInfo>, id: &String) -> (r: Option<usize>)
    ensures
        match r {
            Some(i) => session_idx(v.deep_view(), id@) == i && i < v.len(),
            None => session_idx(v.deep_view(), id@) == -1,
        },
{
    let n = v.len();
    let mut i: usize = 0;
    while i < n
        invariant
            i <= n,
            n == v.len(),
            forall|j: int| 0 <= j < i ==> v.deep_view()[j].id != id@,
        decreases n - i,
    {
        if v[i].id == *id {
            proof {
                assert(v.deep_view()[i as int].id == id@);
                lemma_session_idx(v.deep_view(), id@);
            }
            return Some(i);
        }
        i = i + 1;
    }
    proof {
        lemma_session_idx(v.deep_view(), id@);
    }
    None
}

/// Owner of the session records and of the active-session marker.
pub struct SessionManager {
    sessions: Vec<SessionInfo>,
    active_session: Option<String>,
}

impl View for SessionManager {
    type V = SessionManagerView;

    closed spec fn view(&self) -> SessionManagerView {
        SessionManagerView {
            sessions: self.sessions.deep_view(),
            active: match &self.active_session {
                Some(a) => Some(a@),
                None => None,
            },
        }
    }
}

impl SessionManager {
    /// An empty manager with no active session.
    pub fn new() -> (r: SessionManager)
        ensures
            r@.sessions.len() == 0,
            r@.active is None,
    {
        SessionManager { sessions: Vec::new(), active_session: None }
    }

    /// Create a record under a fresh random id, store it, and make it active.
    /// A stored record that happens to carry the same id is replaced.
    pub fn create_session(&mut self, name: &str, working_dir: &str) -> (r: SessionInfo)
        ensures
            r@.name == name@,
            r@.working_dir == working_dir@,
            r@.model is None,
            r@.mode == AgentMode::Suggest,
            r@.is_active == true,
            final(self)@.active == Some(r@.id),
            ({
                let s = old(self)@.sessions;
                let f = session_idx(s, r@.id);
                final(self)@.sessions == (if f == -1 {
                    s
                } else {
                    s.remove(f)
                }).push(r@)
            }),
    {
        let id = fresh_session_id();
        let now = unix_timestamp();
        let session = SessionInfo {
            id: id.clone(),
            name: name.to_owned(),
            working_dir: working_dir.to_owned(),
            model: None,
            mode: AgentMode::Suggest,
            created_at: now,
            is_active: true,
        };
        match index_of_id(&self.sessions, &id) {
            Some(i) => {
                self.sessions.remove(i);
            },
            None => (),
        }
        let stored = clone_session(&session);
        self.sessions.push(stored);
        self.active_session = Some(id);
        session
    }

    /// All records, each with its activity flag set from the active marker.
    pub fn list_sessions(&self) -> (r: Vec<SessionInfo>)
        ensures
            r.deep_view().len() == self@.sessions.len(),
            forall|i: int|
                0 <= i < self@.sessions.len() ==> r.deep_view()[i] == (SessionInfoView {
                    is_active: self@.active == Some(self@.sessions[i].id),
                    ..self@.sessions[i]
                }),
    {
        let n = self.sessions.len();
        let mut r: Vec<SessionInfo> = Vec::new();
        let mut i: usize = 0;
        while i < n
            invariant
                i <= n,
                n == self.sessions.len(),
                r.deep_view().len() == i,
                forall|j: int|
                    0 <= j < i ==> r.deep_view()[j] == (SessionInfoView {
                        is_active: self@.active == Some(self@.sessions[j].id),
                        ..self@.sessions[j]
                    }),
            decreases n - i,
        {
            let mut s = clone_session(&self.sessions[i]);
            s.is_active = match &self.active_session {
                Some(a) => s.id == *a,
                None => false,
            };
            let ghost prev = r.deep_view();
            let ghost sv = s@;
            r.push(s);
            proof {
                assert(r.deep_view() =~= prev.push(sv));
            }
            i = i + 1;
        }
        r
    }

    /// Id of the active session, if any.
    pub fn get_active_session_id(&self) -> (r: Option<String>)
        ensures
            match r {
                Some(id) => self@.active == Some(id@),
                None => self@.active is None,
            },
    {
        match &self.active_session {
            Some(a) => Some(a.clone()),
            None => None,
        }
    }

    /// Mark the given id active; fails without effect when it is unknown.
    pub fn set_active_session(&mut self, session_id: &str) -> (r: bool)
        ensures
            r == (session_idx(old(self)@.sessions, session_id@) != -1),
            final(self)@.sessions == old(self)@.sessions,
            final(self)@.active == (if r {
                Some(session_id@)
            } else {
                old(self)@.active
            }),
    {
        let owned = session_id.to_owned();
        match index_of_id(&self.sessions, &owned) {
            Some(_) => {
                self.active_session = Some(owned);
                true
            },
            None => false,
        }
    }

    /// Remove the record with the given id; clears the active marker when the
    /// removed session was active.
    pub fn remove_session(&mut self, session_id: &str) -> (r: bool)
        ensures
            r == (session_idx(old(self)@.sessions, session_id@) != -1),
            !r ==> final(self)@ == old(self)@,
            r ==> final(self)@.sessions == old(self)@.sessions.remove(
                session_idx(old(self)@.sessions, session_id@),
            ),
            r ==> final(self)@.active == (if old(self)@.active == Some(session_id@) {
                None::<Seq<char>>
            } else {
                old(self)@.active
            }),
    {
        let owned = session_id.to_owned();
        match index_of_id(&self.sessions, &owned) {
            Some(i) => {
                self.sessions.remove(i);
                let was_active = match &self.active_session {
                    Some(a) => *a == owned,
                    None => false,
                };
                if was_active {
                    self.active_session = None;
                }
                true
            },
            None => false,
        }
    }

    /// Look up a record by id, with its activity flag set from the active
    /// marker.
    pub fn get_session(&self, session_id: &str) -> (r: Option<SessionInfo>)
        ensures
            ({
                let f = session_idx(self@.sessions, session_id@);
                match r {
                    Some(s) => f != -1 && s@ == (SessionInfoView {
                        is_active: self@.active == Some(self@.sessions[f].id),
                        ..self@.sessions[f]
                    }),
                    None => f == -1,
                }
            }),
    {
        let owned = session_id.to_owned();
        match index_of_id(&self.sessions, &owned) {
            Some(i) => {
                let mut s = clone_session(&self.sessions[i]);
                s.is_active = match &self.active_session {
                    Some(a) => s.id == *a,
                    None => false,
                };
                Some(s)
            },
            None => None,
        }
    }

    /// Rename the record with the given id.
    pub fn rename_session(&mut self, session_id: &str, new_name: &str) -> (r: bool)
        ensures
            r == (session_idx(old(self)@.sessions, session_id@) != -1),
            !r ==> final(self)@ == old(self)@,
            r ==> final(self)@ == (SessionManagerView {
                sessions: old(self)@.sessions.update(
                    session_idx(old(self)@.sessions, session_id@),
                    SessionInfoView {
                        name: new_name@,
                        ..old(self)@.sessions[session_idx(old(self)@.sessions, session_id@)]
                    },
                ),
                ..old(self)@
            }),
    {
        let owned = session_id.to_owned();
        match index_of_id(&self.sessions, &owned) {
            Some(i) => {
                let mut s = clone_session(&self.sessions[i]);
                s.name = new_name.to_owned();
                self.sessions.remove(i);
                self.sessions.insert(i, s);
                proof {
                    assert(self.sessions.deep_view() =~= old(self)@.sessions.update(
                        i as int,
                        SessionInfoView {
                            name: new_name@,
                            ..old(self)@.sessions[i as int]
                        },
                    ));
                }
                true
            },
            None => false,
        }
    }

    /// Record the chosen model on the session with the given id.
    pub fn set_session_model(&mut self, session_id: &str, model: &str) -> (r: bool)
        ensures
            r == (session_idx(old(self)@.sessions, session_id@) != -1),
            !r ==> final(self)@ == old(self)@,
            r ==> final(self)@ == (SessionManagerView {
                sessions: old(self)@.sessions.update(
                    session_idx(old(self)@.sessions, session_id@),
                    SessionInfoView {
                        model: Some(model@),
                        ..old(self)@.sessions[session_idx(old(self)@.sessions, session_id@)]
                    },
                ),
                ..old(self)@
            }),
    {
        let owned = session_id.to_owned();
        match index_of_id(&self.sessions, &owned) {
            Some(i) => {
                let mut s = clone_session(&self.sessions[i]);
                s.model = Some(model.to_owned());
                self.sessions.remove(i);
                self.sessions.insert(i, s);
                proof {
                    assert(self.sessions.deep_view() =~= old(self)@.sessions.update(
                        i as int,
                        SessionInfoView {
                            model: Some(model@),
                            ..old(self)@.sessions[i as int]
                        },
                    ));
                }
                true
            },
            None => false,
        }
    }

    /// Record the chosen mode on the session with the given id.
    pub fn set_session_mode(&mut self, session_id: &str, mode: AgentMode) -> (r: bool)
        ensures
            r == (session_idx(old(self)@.sessions, session_id@) != -1),
            !r ==> final(self)@ == old(self)@,
            r ==> final(self)@ == (SessionManagerView {
                sessions: old(self)@.sessions.update(
                    session_idx(old(self)@.sessions, session_id@),
                    SessionInfoView {
                        mode,
                        ..old(self)@.sessions[session_idx(old(self)@.sessions, session_id@)]
                    },
                ),
                ..old(self)@
            }),
    {
        let owned = session_id.to_owned();
        match index_of_id(&self.sessions, &owned) {
            Some(i) => {
                let mut s = clone_session(&self.sessions[i]);
                s.mode = mode;
                self.sessions.remove(i);
                self.sessions.insert(i, s);
                proof {
                    assert(self.sessions.deep_view() =~= old(self)@.sessions.update(
                        i as int,
                        SessionInfoView {
                            mode,
                            ..old(self)@.sessions[i as int]
                        },
                    ));
                }
                true
            },
            None => false,
        }
    }
}

/// Relies on `uuid::Uuid::new_v4`: a freshly generated random identifier,
/// rendered as its canonical string. Nothing is assumed of the value.
#[verifier::external_body]
fn fresh_session_id() -> (r: String) {
    uuid::Uuid::new_v4().to_string()
}

/// Relies on `std::time::SystemTime::now`: the clock reading, converted to
/// whole seconds since the Unix epoch, or zero when the clock reads earlier
/// than the epoch. Nothing is assumed of the value.
#[verifier::external_body]
fn unix_timestamp() -> (r: u64) {
    match std::time::SystemTime::now().duration_since(std::time::UNIX_EPOCH) {
        Ok(d) => d.as_secs(),
        Err(_) => 0,
    }
}

} // verus!
