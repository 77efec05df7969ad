//! The session engine: a registry of interactive child-process sessions and
//! the decisions of the facade operations (create, write, resize, close,
//! status query) and of the per-session output pump.
//!
//! The engine performs no I/O of its own. The host opens the pseudo-terminal,
//! spawns the child and runs the two pumps; it reports what happened (a
//! [`SetupOutcome`], an [`OutputEvent`]) and carries out what the engine
//! returns (an [`OutputDirective`], the commands handed back by
//! [`SessionEngine::take_commands`]). Every registry decision is made here
//! and verified against a mathematical view of the registry: a map from
//! session identifier to [`SessionModel`].

use vstd::prelude::*;
use vstd::string::StrSliceExecFns;
use vstd::string::StringSliceAdditionalSpecFns;
use vstd::string::StringExecFns;

use crate::clock::now_rfc3339;
use crate::idgen::fresh_uuid_string;
use crate::models::agent::{AgentMode, AgentSession, AgentStatus};
use crate::strutil::str_eq;

verus! {

/// Which flavour of session an entry is: a plain interactive shell, or an
/// agent process launched in a given mode.
#[derive(Clone, Copy, Debug, PartialEq, Eq, Structural)]
pub enum SessionKind {
    Shell,
    Agent(AgentMode),
}

impl SessionKind {
    /// Only agent sessions report lifecycle transitions to the notification
    /// sink; plain shell sessions end silently.
    pub open spec fn reports_status(self) -> bool {
        self is Agent
    }

    /// The status a freshly created session announces to the sink, before
    /// the create call returns: agent sessions report `Running`, shell
    /// sessions report nothing.
    pub fn creation_status(&self) -> (r: Option<AgentStatus>)
        ensures
            r == (if self.reports_status() {
                Some(AgentStatus::Running)
            } else {
                None
            }),
    {
        match self {
            SessionKind::Agent(_) => Some(AgentStatus::Running),
            SessionKind::Shell => None,
        }
    }
}

/// A command queued for a session's command pump.
#[derive(Debug)]
pub enum PtyCommand {
    Write(Vec<u8>),
    Resize(u16, u16),
    Close,
}

/// The mathematical view of a queued command.
pub ghost enum CommandModel {
    Write(Seq<u8>),
    Resize(u16, u16),
    Close,
}

impl PtyCommand {
    pub open spec fn model(self) -> CommandModel {
        match self {
            PtyCommand::Write(data) => CommandModel::Write(data@),
            PtyCommand::Resize(cols, rows) => CommandModel::Resize(cols, rows),
            PtyCommand::Close => CommandModel::Close,
        }
    }
}

/// The view of a whole command queue, oldest command first.
pub open spec fn queue_model(q: Seq<PtyCommand>) -> Seq<CommandModel> {
    q.map_values(|c: PtyCommand| c.model())
}

/// What the host reports of its attempt to open the pseudo-terminal and
/// spawn the child process bound to it.
#[derive(Debug)]
pub enum SetupOutcome {
    Ready,
    Failed(String),
}

/// What a session's output pump observed: bytes read from the terminal,
/// an orderly end of stream, a failed read, or the notification sink
/// rejecting an emission.
#[derive(Debug)]
pub enum OutputEvent {
    Data(Vec<u8>),
    Eof,
    ReadFailed,
    EmitRejected,
}

impl OutputEvent {
    /// The state a live session moves to on this event: end of stream
    /// completes the session, any failure puts it in error, plain data moves
    /// it nowhere.
    pub open spec fn status_after(self) -> Option<AgentStatus> {
        match self {
            OutputEvent::Data(_) => None,
            OutputEvent::Eof => Some(AgentStatus::Completed),
            OutputEvent::ReadFailed => Some(AgentStatus::Error),
            OutputEvent::EmitRejected => Some(AgentStatus::Error),
        }
    }
}

/// What the host must do after handing the engine an output event: forward
/// bytes to the sink, report a status change, and/or stop the output pump.
#[derive(Debug)]
pub struct OutputDirective {
    pub emit_output: Option<Vec<u8>>,
    pub emit_status: Option<AgentStatus>,
    pub stop: bool,
}

/// Why an engine operation failed.
#[derive(Debug)]
pub enum EngineError {
    /// The identifier names no live session: it was never issued, or the
    /// session has been closed.
    NotFound(String),
    /// The session could not be set up, with the reason.
    Setup(String),
}

impl EngineError {
    /// A readable description of the failure.
    pub fn message(&self) -> (r: String)
        ensures
            match self {
                EngineError::NotFound(id) => r@ == "Session not found: "@ + id@,
                EngineError::Setup(reason) => r@ == "Failed to create session: "@ + reason@,
            },
    {
        match self {
            EngineError::NotFound(id) => "Session not found: ".to_owned().concat(id.as_str()),
            EngineError::Setup(reason) => "Failed to create session: ".to_owned().concat(
                reason.as_str(),
            ),
        }
    }
}

/// One registry entry: the session record plus the command queue the engine
/// keeps on the session's behalf.
#[derive(Debug)]
pub struct SessionEntry {
    pub id: String,
    pub kind: SessionKind,
    pub status: AgentStatus,
    pub queue: Vec<PtyCommand>,
    pub working_dir: String,
    pub started_at: String,
    pub completed_at: Option<String>,
}

/// The mathematical view of a registry entry.
pub ghost struct SessionModel {
    pub kind: SessionKind,
    pub status: AgentStatus,
    pub queue: Seq<CommandModel>,
    pub working_dir: Seq<char>,
    pub started_at: Seq<char>,
    pub completed_at: Option<Seq<char>>,
}

impl SessionEntry {
    pub open spec fn model(self) -> SessionModel {
        SessionModel {
            kind: self.kind,
            status: self.status,
            queue: queue_model(self.queue@),
            working_dir: self.working_dir@,
            started_at: self.started_at@,
            completed_at: match self.completed_at {
                Some(t) => Some(t@),
                None => None,
            },
        }
    }

    /// The completion timestamp is set exactly when the session has reached a
    /// terminal state.
    pub open spec fn wf(self) -> bool {
        self.status.is_terminal() <==> self.completed_at is Some
    }
}

/// No identifier occurs twice among the entries.
pub open spec fn unique_ids(entries: Seq<SessionEntry>) -> bool {
    forall|i: int, j: int|
        #![auto]
        0 <= i < j < entries.len() ==> entries[i].id@ != entries[j].id@
}

/// Some entry carries the identifier `sid`.
pub open spec fn has_sid(entries: Seq<SessionEntry>, sid: Seq<char>) -> bool {
    exists|i: int| #![auto] 0 <= i < entries.len() && entries[i].id@ == sid
}

/// The position of the entry carrying `sid` (meaningful only when `has_sid`).
pub open spec fn sid_index(entries: Seq<SessionEntry>, sid: Seq<char>) -> int {
    choose|i: int| #![auto] 0 <= i < entries.len() && entries[i].id@ == sid
}

/// The registry as a map from session identifier to session view.
pub open spec fn map_of(entries: Seq<SessionEntry>) -> Map<Seq<char>, SessionModel> {
    Map::new(
        |sid: Seq<char>| has_sid(entries, sid),
        |sid: Seq<char>| entries[sid_index(entries, sid)].model(),
    )
}

proof fn lemma_sid_index_of(entries: Seq<SessionEntry>, i: int)
    requires
        unique_ids(entries),
        0 <= i < entries.len(),
    ensures
        has_sid(entries, entries[i].id@),
        sid_index(entries, entries[i].id@) == i,
{
    let sid = entries[i].id@;
    assert(0 <= i < entries.len() && entries[i].id@ == sid);
    assert(has_sid(entries, sid));
    let j = sid_index(entries, sid);
    assert(0 <= j < entries.len() && entries[j].id@ == sid);
    if j != i {
        assert(entries[i].id@ != entries[j].id@);
        assert(false);
    }
}

proof fn lemma_map_push(entries: Seq<SessionEntry>, e: SessionEntry)
    requires
        unique_ids(entries),
        !has_sid(entries, e.id@),
    ensures
        unique_ids(entries.push(e)),
        map_of(entries.push(e)) == map_of(entries).insert(e.id@, e.model()),
{
    let post = entries.push(e);
    let n = entries.len() as int;
    assert forall|i: int, j: int| 0 <= i < j < post.len() implies post[i].id@ != post[j].id@ by {
        if j < n {
            assert(entries[i].id@ != entries[j].id@);
        } else {
            assert(post[j] == e);
            assert(post[i] == entries[i]);
            if entries[i].id@ == e.id@ {
                assert(has_sid(entries, e.id@));
            }
        }
    }
    assert forall|sid: Seq<char>|
        #[trigger] has_sid(post, sid) == (has_sid(entries, sid) || sid == e.id@) by {
        if has_sid(post, sid) {
            let k = choose|k: int| #![auto] 0 <= k < post.len() && post[k].id@ == sid;
            if k < n {
                assert(entries[k].id@ == sid);
                assert(has_sid(entries, sid));
            } else {
                assert(post[k] == e);
            }
        }
        if has_sid(entries, sid) {
            let k = choose|k: int| #![auto] 0 <= k < entries.len() && entries[k].id@ == sid;
            assert(post[k] == entries[k]);
            assert(has_sid(post, sid));
        }
        if sid == e.id@ {
            assert(post[n] == e);
            assert(has_sid(post, sid));
        }
    }
    let target = map_of(entries).insert(e.id@, e.model());
    assert forall|sid: Seq<char>| has_sid(post, sid) implies #[trigger] map_of(post)[sid]
        == target[sid] by {
        if sid == e.id@ {
            lemma_sid_index_of(post, n);
            assert(map_of(post)[sid] == e.model());
        } else {
            assert(has_sid(entries, sid));
            let k = sid_index(entries, sid);
            assert(0 <= k < entries.len() && entries[k].id@ == sid);
            assert(post[k] == entries[k]);
            lemma_sid_index_of(post, k);
            assert(map_of(post)[sid] == entries[k].model());
            assert(target[sid] == map_of(entries)[sid]);
            assert(map_of(entries)[sid] == entries[k].model());
        }
    }
    assert(map_of(post) =~= target);
}

proof fn lemma_map_update(entries: Seq<SessionEntry>, i: int, e: SessionEntry)
    requires
        unique_ids(entries),
        0 <= i < entries.len(),
        e.id@ == entries[i].id@,
    ensures
        unique_ids(entries.update(i, e)),
        map_of(entries.update(i, e)) == map_of(entries).insert(e.id@, e.model()),
{
    let post = entries.update(i, e);
    assert forall|k: int| 0 <= k < post.len() implies #[trigger] post[k].id@ == entries[k].id@ by {
        if k != i {
            assert(post[k] == entries[k]);
        }
    }
    assert forall|p: int, q: int| 0 <= p < q < post.len() implies post[p].id@ != post[q].id@ by {
        assert(entries[p].id@ != entries[q].id@);
    }
    assert forall|sid: Seq<char>| #[trigger] has_sid(post, sid) == has_sid(entries, sid) by {
        if has_sid(post, sid) {
            let k = choose|k: int| #![auto] 0 <= k < post.len() && post[k].id@ == sid;
            assert(entries[k].id@ == sid);
            assert(has_sid(entries, sid));
        }
        if has_sid(entries, sid) {
            let k = choose|k: int| #![auto] 0 <= k < entries.len() && entries[k].id@ == sid;
            assert(post[k].id@ == sid);
            assert(has_sid(post, sid));
        }
    }
    let target = map_of(entries).insert(e.id@, e.model());
    lemma_sid_index_of(entries, i);
    assert forall|sid: Seq<char>| has_sid(post, sid) implies #[trigger] map_of(post)[sid]
        == target[sid] by {
        if sid == e.id@ {
            lemma_sid_index_of(post, i);
            assert(post[i] == e);
            assert(map_of(post)[sid] == e.model());
        } else {
            let k = sid_index(entries, sid);
            assert(0 <= k < entries.len() && entries[k].id@ == sid);
            assert(k != i);
            assert(post[k] == entries[k]);
            lemma_sid_index_of(post, k);
            assert(map_of(post)[sid] == entries[k].model());
            assert(target[sid] == map_of(entries)[sid]);
            assert(map_of(entries)[sid] == entries[k].model());
        }
    }
    assert(map_of(post).dom() =~= target.dom());
    assert(map_of(post) =~= target);
}

proof fn lemma_map_remove(entries: Seq<SessionEntry>, i: int)
    requires
        unique_ids(entries),
        0 <= i < entries.len(),
    ensures
        unique_ids(entries.remove(i)),
        map_of(entries.remove(i)) == map_of(entries).remove(entries[i].id@),
{
    let post = entries.remove(i);
    let n = entries.len() as int;
    let sid0 = entries[i].id@;
    entries.remove_ensures(i);
    assert forall|p: int, q: int| 0 <= p < q < post.len() implies post[p].id@ != post[q].id@ by {
        let p1 = if p < i {
            p
        } else {
            p + 1
        };
        let q1 = if q < i {
            q
        } else {
            q + 1
        };
        assert(p1 < q1);
        assert(entries[p1].id@ != entries[q1].id@);
    }
    assert forall|sid: Seq<char>|
        #[trigger] has_sid(post, sid) == (has_sid(entries, sid) && sid != sid0) by {
        if has_sid(post, sid) {
            let k = choose|k: int| #![auto] 0 <= k < post.len() && post[k].id@ == sid;
            let k1 = if k < i {
                k
            } else {
                k + 1
            };
            assert(entries[k1].id@ == sid);
            assert(has_sid(entries, sid));
            if sid == sid0 {
                assert(k1 != i);
                if k1 < i {
                    assert(entries[k1].id@ != entries[i].id@);
                } else {
                    assert(entries[i].id@ != entries[k1].id@);
                }
                assert(false);
            }
        }
        if has_sid(entries, sid) && sid != sid0 {
            let k1 = choose|k: int| #![auto] 0 <= k < entries.len() && entries[k].id@ == sid;
            assert(k1 != i);
            let k = if k1 < i {
                k1
            } else {
                k1 - 1
            };
            assert(post[k] == entries[k1]);
            assert(has_sid(post, sid));
        }
    }
    let target = map_of(entries).remove(sid0);
    assert forall|sid: Seq<char>| has_sid(post, sid) implies #[trigger] map_of(post)[sid]
        == target[sid] by {
        let k1 = sid_index(entries, sid);
        assert(has_sid(entries, sid));
        assert(0 <= k1 < entries.len() && entries[k1].id@ == sid);
        assert(k1 != i);
        let k = if k1 < i {
            k1
        } else {
            k1 - 1
        };
        assert(post[k] == entries[k1]);
        lemma_sid_index_of(post, k);
        assert(map_of(post)[sid] == entries[k1].model());
        assert(target[sid] == map_of(entries)[sid]);
        assert(map_of(entries)[sid] == entries[k1].model());
    }
    assert(map_of(post) =~= target);
}

/// The commands an agent session's queue starts with: the initial context,
/// newline-terminated, as one write; nothing for a shell session or an empty
/// context.
pub open spec fn initial_queue(kind: SessionKind, context_bytes: Seq<u8>) -> Seq<CommandModel> {
    if kind is Agent && context_bytes.len() > 0 {
        seq![CommandModel::Write(context_bytes + seq![10u8])]
    } else {
        Seq::empty()
    }
}

/// The session registry and facade. All operations look sessions up by
/// identifier; the registry is described throughout by [`Self::as_map`].
pub struct SessionEngine {
    sessions: Vec<SessionEntry>,
}

impl SessionEngine {
    pub closed spec fn entries(self) -> Seq<SessionEntry> {
        self.sessions@
    }

    /// Registry well-formedness: identifiers are unique and every entry
    /// carries its completion timestamp exactly when terminal.
    pub open spec fn wf(self) -> bool {
        &&& unique_ids(self.entries())
        &&& forall|i: int| 0 <= i < self.entries().len() ==> (#[trigger] self.entries()[i]).wf()
    }

    /// The registry as a map from session identifier to session view.
    pub open spec fn as_map(self) -> Map<Seq<char>, SessionModel> {
        map_of(self.entries())
    }

    /// Whether a session with this identifier is live.
    pub open spec fn contains_sid(self, sid: Seq<char>) -> bool {
        self.as_map().dom().contains(sid)
    }

    /// An empty registry.
    pub fn new() -> (r: SessionEngine)
        ensures
            r.wf(),
            r.as_map() == Map::<Seq<char>, SessionModel>::empty(),
    {
        let r = SessionEngine { sessions: Vec::new() };
        proof {
            assert(r.as_map() =~= Map::<Seq<char>, SessionModel>::empty());
        }
        r
    }

    /// The position of the entry for `session_id`, if one is live.
    fn find_index(&self, session_id: &str) -> (r: Option<usize>)
        ensures
            match r {
                Some(i) => i < self.entries().len() && self.entries()[i as int].id@
                    == session_id@,
                None => !has_sid(self.entries(), session_id@),
            },
    {
        let n = self.sessions.len();
        let mut i: usize = 0;
        while i < n
            invariant
                n == self.entries().len(),
                i <= n,
                forall|j: int| #![auto] 0 <= j < i ==> self.entries()[j].id@ != session_id@,
            decreases n - i,
        {
            if str_eq(self.sessions[i].id.as_str(), session_id) {
                return Some(i);
            }
            i = i + 1;
        }
        None
    }

    /// Registers a session under a caller-chosen identifier, provided setup
    /// succeeded and the identifier is not in use. On success the session is
    /// live with status `Running` — a freshly created session passes through
    /// `Starting` only inside this call, so no `Starting` window is ever
    /// observable — and its queue holds exactly the initial context (for
    /// agent sessions); on any failure the registry is unchanged.
    pub fn register_session(
        &mut self,
        id: String,
        kind: SessionKind,
        working_dir: String,
        initial_context: &str,
        started_at: String,
        setup: SetupOutcome,
    ) -> (r: Result<String, EngineError>)
        requires
            old(self).wf(),
        ensures
            final(self).wf(),
            r is Err ==> *final(self) == *old(self),
            match setup {
                SetupOutcome::Failed(reason) => r matches Err(EngineError::Setup(m)) && m@
                    == reason@,
                SetupOutcome::Ready => {
                    if old(self).contains_sid(id@) {
                        &&& r matches Err(EngineError::Setup(m)) && m@
                            == "session id already registered"@
                    } else {
                        &&& r matches Ok(rid) && rid@ == id@
                        &&& final(self).as_map() == old(self).as_map().insert(
                            id@,
                            (SessionModel {
                                kind,
                                status: AgentStatus::Running,
                                queue: initial_queue(kind, initial_context.spec_bytes()),
                                working_dir: working_dir@,
                                started_at: started_at@,
                                completed_at: None,
                            }),
                        )
                    }
                },
            },
    {
        let failed: Option<String> = match setup {
            SetupOutcome::Ready => None,
            SetupOutcome::Failed(reason) => Some(reason),
        };
        if let Some(reason) = failed {
            return Err(EngineError::Setup(reason));
        }
        if self.find_index(id.as_str()).is_some() {
            return Err(EngineError::Setup("session id already registered".to_owned()));
        }
        let mut queue: Vec<PtyCommand> = Vec::new();
        let is_agent = match kind {
            SessionKind::Agent(_) => true,
            SessionKind::Shell => false,
        };
        if is_agent && !initial_context.is_empty() {
            let mut payload = initial_context.as_bytes_vec();
            payload.push(10u8);
            proof {
                assert(payload@ =~= initial_context.spec_bytes() + seq![10u8]);
            }
            queue.push(PtyCommand::Write(payload));
        }
        proof {
            assert(queue_model(queue@) =~= initial_queue(kind, initial_context.spec_bytes()));
        }
        let rid = id.clone();
        let entry = SessionEntry {
            id,
            kind,
            status: AgentStatus::Running,
            queue,
            working_dir,
            started_at,
            completed_at: None,
        };
        let ghost pre = self.entries();
        let ghost gentry = entry;
        proof {
            lemma_map_push(pre, gentry);
        }
        self.sessions.push(entry);
        proof {
            assert forall|k: int| 0 <= k < self.entries().len() implies (
            #[trigger] self.entries()[k]).wf() by {
                if k < pre.len() {
                    assert(self.entries()[k] == pre[k]);
                } else {
                    assert(self.entries()[k] == gentry);
                }
            }
        }
        Ok(rid)
    }

    /// Creates a session under a fresh identifier, started now. The host has
    /// already attempted to open the pseudo-terminal and spawn the child, and
    /// reports the outcome: on failure, or in the vanishingly unlikely event
    /// that the fresh identifier is already in use, the registry is unchanged
    /// and the error is returned; on success the new session is live,
    /// running, timestamped with some clock reading, and its identifier —
    /// never previously live — is returned. A ready setup is owed success
    /// unless the drawn identifier collided with a live one, so it can fail
    /// only while some live session holds a 36-character identifier — never,
    /// in particular, on an empty registry.
    pub fn create_session(
        &mut self,
        kind: SessionKind,
        working_dir: String,
        initial_context: &str,
        setup: SetupOutcome,
    ) -> (r: Result<String, EngineError>)
        requires
            old(self).wf(),
        ensures
            final(self).wf(),
            r is Err ==> *final(self) == *old(self),
            r is Err ==> (r matches Err(e) && e is Setup),
            (setup is Ready && r is Err) ==> exists|i: int|
                #![auto]
                0 <= i < old(self).entries().len() && old(self).entries()[i].id@.len() == 36,
            (setup is Ready && old(self).entries().len() == 0) ==> r is Ok,
            match setup {
                SetupOutcome::Failed(reason) => r matches Err(EngineError::Setup(m)) && m@
                    == reason@,
                SetupOutcome::Ready => r matches Ok(id) ==> {
                    &&& id@.len() == 36
                    &&& !old(self).contains_sid(id@)
                    &&& exists|ts: Seq<char>|
                        #![auto]
                        final(self).as_map() == old(self).as_map().insert(
                            id@,
                            (SessionModel {
                                kind,
                                status: AgentStatus::Running,
                                queue: initial_queue(kind, initial_context.spec_bytes()),
                                working_dir: working_dir@,
                                started_at: ts,
                                completed_at: None,
                            }),
                        )
                },
            },
    {
        let ghost pre = *self;
        let id = fresh_uuid_string();
        let ghost idv = id@;
        let ghost ready = setup is Ready;
        let started_at = now_rfc3339();
        let r = self.register_session(id, kind, working_dir, initial_context, started_at, setup);
        proof {
            if ready && r is Err {
                assert(pre.contains_sid(idv));
                assert(has_sid(pre.entries(), idv));
                let w = choose|i: int|
                    #![auto]
                    0 <= i < pre.entries().len() && pre.entries()[i].id@ == idv;
                assert(0 <= w < pre.entries().len() && pre.entries()[w].id@.len() == 36);
            }
        }
        r
    }

    /// Queues bytes to be written to the session's terminal. The bytes go to
    /// the end of the session's queue — and nowhere else: every other session
    /// is untouched. Fails exactly when the identifier names no live session.
    pub fn write(&mut self, session_id: &str, data: &[u8]) -> (r: Result<(), EngineError>)
        requires
            old(self).wf(),
        ensures
            final(self).wf(),
            r is Ok <==> old(self).contains_sid(session_id@),
            r is Ok ==> final(self).as_map() == old(self).as_map().insert(
                session_id@,
                (SessionModel {
                    queue: old(self).as_map()[session_id@].queue.push(
                        CommandModel::Write(data@),
                    ),
                    ..old(self).as_map()[session_id@]
                }),
            ),
            r is Err ==> *final(self) == *old(self) && (r matches Err(EngineError::NotFound(s)) && s@
                == session_id@),
    {
        self.enqueue(session_id, PtyCommand::Write(vstd::slice::slice_to_vec(data)))
    }

    /// Queues a terminal resize for the session. Same lookup contract as
    /// [`Self::write`]; the command keeps its place in the queue order.
    pub fn resize(&mut self, session_id: &str, cols: u16, rows: u16) -> (r: Result<
        (),
        EngineError,
    >)
        requires
            old(self).wf(),
        ensures
            final(self).wf(),
            r is Ok <==> old(self).contains_sid(session_id@),
            r is Ok ==> final(self).as_map() == old(self).as_map().insert(
                session_id@,
                (SessionModel {
                    queue: old(self).as_map()[session_id@].queue.push(
                        CommandModel::Resize(cols, rows),
                    ),
                    ..old(self).as_map()[session_id@]
                }),
            ),
            r is Err ==> *final(self) == *old(self) && (r matches Err(EngineError::NotFound(s)) && s@
                == session_id@),
    {
        self.enqueue(session_id, PtyCommand::Resize(cols, rows))
    }

    /// Appends one command to the session's queue.
    fn enqueue(&mut self, session_id: &str, cmd: PtyCommand) -> (r: Result<(), EngineError>)
        requires
            old(self).wf(),
        ensures
            final(self).wf(),
            r is Ok <==> old(self).contains_sid(session_id@),
            r is Ok ==> final(self).as_map() == old(self).as_map().insert(
                session_id@,
                (SessionModel {
                    queue: old(self).as_map()[session_id@].queue.push(cmd.model()),
                    ..old(self).as_map()[session_id@]
                }),
            ),
            r is Err ==> *final(self) == *old(self) && (r matches Err(EngineError::NotFound(s)) && s@
                == session_id@),
    {
        match self.find_index(session_id) {
            None => Err(EngineError::NotFound(session_id.to_owned())),
            Some(i) => {
                let ghost pre = self.entries();
                let ghost c = cmd.model();
                proof {
                    lemma_sid_index_of(pre, i as int);
                }
                self.sessions[i].queue.push(cmd);
                proof {
                    let e = self.entries()[i as int];
                    assert(self.entries() == pre.update(i as int, e));
                    assert(queue_model(e.queue@) =~= queue_model(pre[i as int].queue@).push(c));
                    lemma_map_update(pre, i as int, e);
                    assert(e.model() == (SessionModel {
                        queue: map_of(pre)[session_id@].queue.push(c),
                        ..map_of(pre)[session_id@]
                    }));
                    assert forall|k: int| 0 <= k < self.entries().len() implies (
                    #[trigger] self.entries()[k]).wf() by {
                        if k != i as int {
                            assert(self.entries()[k] == pre[k]);
                        }
                    }
                }
                Ok(())
            },
        }
    }

    /// Removes the session from the registry. After this call the identifier
    /// is unreachable: nothing else changes, and a second close of the same
    /// identifier fails with `NotFound`, exactly as any other operation on it
    /// would. Fails exactly when the identifier names no live session.
    pub fn close(&mut self, session_id: &str) -> (r: Result<(), EngineError>)
        requires
            old(self).wf(),
        ensures
            final(self).wf(),
            r is Ok <==> old(self).contains_sid(session_id@),
            r is Ok ==> final(self).as_map() == old(self).as_map().remove(session_id@),
            r is Err ==> *final(self) == *old(self) && (r matches Err(EngineError::NotFound(s)) && s@
                == session_id@),
    {
        match self.find_index(session_id) {
            None => Err(EngineError::NotFound(session_id.to_owned())),
            Some(i) => {
                let ghost pre = self.entries();
                proof {
                    lemma_sid_index_of(pre, i as int);
                    lemma_map_remove(pre, i as int);
                }
                let _ = self.sessions.remove(i);
                proof {
                    pre.remove_ensures(i as int);
                    assert forall|k: int| 0 <= k < self.entries().len() implies (
                    #[trigger] self.entries()[k]).wf() by {
                        if k < i as int {
                            assert(self.entries()[k] == pre[k]);
                        } else {
                            assert(self.entries()[k] == pre[k + 1]);
                        }
                    }
                }
                Ok(())
            },
        }
    }

    /// The session's current lifecycle state, or `None` exactly when the
    /// identifier names no live session. A pure read: the registry is not
    /// changed.
    pub fn get_status(&self, session_id: &str) -> (r: Option<AgentStatus>)
        requires
            self.wf(),
        ensures
            match r {
                Some(st) => self.contains_sid(session_id@)
                    && st == self.as_map()[session_id@].status,
                None => !self.contains_sid(session_id@),
            },
    {
        match self.find_index(session_id) {
            None => None,
            Some(i) => {
                proof {
                    lemma_sid_index_of(self.entries(), i as int);
                }
                Some(self.sessions[i].status)
            },
        }
    }

    /// The full record of a live agent session, as a caller may see it;
    /// `None` for an unknown identifier or for a plain shell session. A pure
    /// read: the registry is not changed.
    pub fn get_session(&self, session_id: &str) -> (r: Option<AgentSession>)
        requires
            self.wf(),
        ensures
            match r {
                Some(s) => {
                    &&& self.contains_sid(session_id@)
                    &&& s.id@ == session_id@
                    &&& self.as_map()[session_id@].kind matches SessionKind::Agent(m) && s.mode
                        == m
                    &&& s.worktree_path@ == self.as_map()[session_id@].working_dir
                    &&& s.status == self.as_map()[session_id@].status
                    &&& s.started_at@ == self.as_map()[session_id@].started_at
                    &&& match s.completed_at {
                        Some(t) => self.as_map()[session_id@].completed_at == Some(t@),
                        None => self.as_map()[session_id@].completed_at is None,
                    }
                },
                None => !self.contains_sid(session_id@)
                    || !(self.as_map()[session_id@].kind is Agent),
            },
    {
        let i = match self.find_index(session_id) {
            None => {
                return None;
            },
            Some(i) => i,
        };
        proof {
            lemma_sid_index_of(self.entries(), i as int);
        }
        let entry = &self.sessions[i];
        match entry.kind {
            SessionKind::Agent(mode) => Some(
                AgentSession {
                    id: entry.id.clone(),
                    worktree_path: entry.working_dir.clone(),
                    mode,
                    status: entry.status,
                    started_at: entry.started_at.clone(),
                    completed_at: match &entry.completed_at {
                        Some(t) => Some(t.clone()),
                        None => None,
                    },
                },
            ),
            SessionKind::Shell => None,
        }
    }

    /// Hands the session's queued commands to the command pump, oldest first,
    /// leaving the queue empty. Fails exactly when the identifier names no
    /// live session.
    pub fn take_commands(&mut self, session_id: &str) -> (r: Result<Vec<PtyCommand>, EngineError>)
        requires
            old(self).wf(),
        ensures
            final(self).wf(),
            r is Ok <==> old(self).contains_sid(session_id@),
            r matches Ok(cmds) ==> {
                &&& queue_model(cmds@) == old(self).as_map()[session_id@].queue
                &&& final(self).as_map() == old(self).as_map().insert(
                    session_id@,
                    (SessionModel { queue: Seq::empty(), ..old(self).as_map()[session_id@] }),
                )
            },
            r is Err ==> *final(self) == *old(self) && (r matches Err(EngineError::NotFound(s)) && s@
                == session_id@),
    {
        match self.find_index(session_id) {
            None => Err(EngineError::NotFound(session_id.to_owned())),
            Some(i) => {
                let ghost pre = self.entries();
                proof {
                    lemma_sid_index_of(pre, i as int);
                }
                let mut taken: Vec<PtyCommand> = Vec::new();
                core::mem::swap(&mut taken, &mut self.sessions[i].queue);
                proof {
                    let e = self.entries()[i as int];
                    assert(self.entries() == pre.update(i as int, e));
                    lemma_map_update(pre, i as int, e);
                    assert(queue_model(e.queue@) =~= Seq::<CommandModel>::empty());
                    assert(e.model() == (SessionModel {
                        queue: Seq::<CommandModel>::empty(),
                        ..map_of(pre)[session_id@]
                    }));
                    assert forall|k: int| 0 <= k < self.entries().len() implies (
                    #[trigger] self.entries()[k]).wf() by {
                        if k != i as int {
                            assert(self.entries()[k] == pre[k]);
                        }
                    }
                }
                Ok(taken)
            },
        }
    }

    /// Applies what the output pump observed, stamped with the time `at` of
    /// the observation. For a live, non-terminal
    /// session: plain data is forwarded unchanged and the session stays as it
    /// was; end of stream completes the session — never an error — and a
    /// failed read or a rejected emission puts it in error; either terminal
    /// transition records the completion timestamp and stops the pump, and is
    /// reported to the sink for agent sessions only. An event for an unknown
    /// (for instance, already closed) or already terminal session is
    /// swallowed: nothing is emitted and the registry is unchanged.
    pub fn on_output_event(&mut self, session_id: &str, event: OutputEvent, at: String) -> (r:
        OutputDirective)
        requires
            old(self).wf(),
        ensures
            final(self).wf(),
            !old(self).contains_sid(session_id@) ==> *final(self) == *old(self) && r == (OutputDirective {
                emit_output: None,
                emit_status: None,
                stop: true,
            }),
            old(self).contains_sid(session_id@)
                && old(self).as_map()[session_id@].status.is_terminal() ==> *final(self) == *old(self)
                && r == (OutputDirective { emit_output: None, emit_status: None, stop: true }),
            old(self).contains_sid(session_id@)
                && !old(self).as_map()[session_id@].status.is_terminal() ==> match event {
                OutputEvent::Data(d) => *final(self) == *old(self) && r == (OutputDirective {
                    emit_output: Some(d),
                    emit_status: None,
                    stop: false,
                }),
                _ => {
                    let st = event.status_after()->Some_0;
                    &&& final(self).as_map() == old(self).as_map().insert(
                        session_id@,
                        (SessionModel {
                            status: st,
                            completed_at: Some(at@),
                            ..old(self).as_map()[session_id@]
                        }),
                    )
                    &&& r == (OutputDirective {
                        emit_output: None,
                        emit_status: if old(self).as_map()[session_id@].kind.reports_status() {
                            Some(st)
                        } else {
                            None
                        },
                        stop: true,
                    })
                },
            },
    {
        let i = match self.find_index(session_id) {
            None => {
                return OutputDirective { emit_output: None, emit_status: None, stop: true };
            },
            Some(i) => i,
        };
        proof {
            lemma_sid_index_of(self.entries(), i as int);
        }
        if self.sessions[i].status.terminal() {
            return OutputDirective { emit_output: None, emit_status: None, stop: true };
        }
        let new_status = match &event {
            OutputEvent::Data(_) => None,
            OutputEvent::Eof => Some(AgentStatus::Completed),
            OutputEvent::ReadFailed => Some(AgentStatus::Error),
            OutputEvent::EmitRejected => Some(AgentStatus::Error),
        };
        match new_status {
            None => {
                let data = match event {
                    OutputEvent::Data(d) => d,
                    _ => Vec::new(),
                };
                OutputDirective { emit_output: Some(data), emit_status: None, stop: false }
            },
            Some(st) => {
                let ghost pre = self.entries();
                let reports = match self.sessions[i].kind {
                    SessionKind::Agent(_) => true,
                    SessionKind::Shell => false,
                };
                let entry = &mut self.sessions[i];
                entry.status = st;
                entry.completed_at = Some(at);
                proof {
                    let e = self.entries()[i as int];
                    assert(self.entries() == pre.update(i as int, e));
                    lemma_map_update(pre, i as int, e);
                    assert(e.model() == (SessionModel {
                        status: st,
                        completed_at: Some(at@),
                        ..map_of(pre)[session_id@]
                    }));
                    assert forall|k: int| 0 <= k < self.entries().len() implies (
                    #[trigger] self.entries()[k]).wf() by {
                        if k != i as int {
                            assert(self.entries()[k] == pre[k]);
                        }
                    }
                }
                OutputDirective {
                    emit_output: None,
                    emit_status: if reports {
                        Some(st)
                    } else {
                        None
                    },
                    stop: true,
                }
            },
        }
    }
}

impl Default for SessionEngine {
    /// An empty registry, as [`SessionEngine::new`] builds it.
    fn default() -> (r: SessionEngine)
        ensures
            r.wf(),
            r.as_map() == Map::<Seq<char>, SessionModel>::empty(),
    {
        SessionEngine::new()
    }
}

/// Two live sessions never share an identifier: whatever position two
/// distinct entries hold in a well-formed registry, their identifiers differ.
pub proof fn lemma_distinct_session_ids(e: SessionEngine, i: int, j: int)
    requires
        e.wf(),
        0 <= i < e.entries().len(),
        0 <= j < e.entries().len(),
        i != j,
    ensures
        e.entries()[i].id@ != e.entries()[j].id@,
{
    if i < j {
        assert(e.entries()[i].id@ != e.entries()[j].id@);
    } else {
        assert(e.entries()[j].id@ != e.entries()[i].id@);
    }
}

/// Sessions are independent: an operation that rewrites one session's entry
/// — a queued write or resize, a drained queue, a status transition — leaves
/// every other session exactly as it was, present or absent as before.
pub proof fn lemma_session_independence(
    pre: SessionEngine,
    post: SessionEngine,
    sid: Seq<char>,
    entry: SessionModel,
    other: Seq<char>,
)
    requires
        post.as_map() == pre.as_map().insert(sid, entry),
        other != sid,
    ensures
        post.contains_sid(other) == pre.contains_sid(other),
        pre.contains_sid(other) ==> post.as_map()[other] == pre.as_map()[other],
{
}

/// A closed session is gone: once a close has removed an identifier from the
/// registry, that identifier is no longer contained, so a subsequent status
/// query returns `None` and a subsequent write fails with `NotFound`, by the
/// contracts of [`SessionEngine::get_status`] and [`SessionEngine::write`].
pub proof fn lemma_closed_session_not_found(
    pre: SessionEngine,
    post: SessionEngine,
    sid: Seq<char>,
)
    requires
        post.as_map() == pre.as_map().remove(sid),
    ensures
        !post.contains_sid(sid),
{
}

} // verus!
