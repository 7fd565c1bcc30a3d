//! The per-connection session: the state machine that mediates every access
//! a connection makes to the two registries.
//!
//! A session is born `Unauthenticated`, may reach `Authenticated` on a valid
//! `Auth` message, and ends `Closed`; it never goes back. Only an
//! authenticated session touches the active registry, and only its own entry.

use crate::active::{fresh_node, ActiveRegistry};
use crate::models::{ProxyNodeV, RegNodeV};
use crate::store::RegistrationStore;
use vstd::prelude::*;

verus! {

/// The lifecycle of one connection.
#[derive(Clone, Copy, Debug, PartialEq, Eq)]
pub enum SessionState {
    Unauthenticated,
    Authenticated,
    Closed,
}

/// A message a node sends on its connection. Anything that does not parse as
/// one of the two known forms arrives as `Malformed`.
pub enum WsMessage {
    Auth { id: u128, password: String },
    SetAddress { ip: String, port: u16 },
    Malformed,
}

/// The mathematical reading of a [`WsMessage`].
pub enum MsgV {
    Auth { id: u128, password: Seq<char> },
    SetAddress { ip: Seq<char>, port: u16 },
    Malformed,
}

impl View for WsMessage {
    type V = MsgV;

    open spec fn view(&self) -> MsgV {
        match self {
            WsMessage::Auth { id, password } => MsgV::Auth { id: *id, password: password@ },
            WsMessage::SetAddress { ip, port } => MsgV::SetAddress { ip: ip@, port: *port },
            WsMessage::Malformed => MsgV::Malformed,
        }
    }
}

/// The status notice a session sends back to its peer.
#[derive(Clone, Copy, Debug, PartialEq, Eq)]
pub enum Notice {
    Authenticated,
    AuthenticationFailed,
    AlreadyAuthenticated,
    AddressUpdated,
    NotAuthenticated,
    InvalidMessageFormat,
    AuthenticationRequired,
    EntryMissing,
}

impl Notice {
    /// The wording the peer sees.
    pub open spec fn spec_text(&self) -> Seq<char> {
        match self {
            Notice::Authenticated => "Authenticated"@,
            Notice::AuthenticationFailed => "Authentication failed"@,
            Notice::AlreadyAuthenticated => "Already authenticated"@,
            Notice::AddressUpdated => "Address updated"@,
            Notice::NotAuthenticated => "Not authenticated"@,
            Notice::InvalidMessageFormat => "Invalid message format"@,
            Notice::AuthenticationRequired => "Authentication required"@,
            Notice::EntryMissing => "Address update failed"@,
        }
    }

    /// The notice, exactly as it goes out on the wire.
    pub fn text(&self) -> (r: String)
        ensures
            r@ == self.spec_text(),
    {
        match self {
            Notice::Authenticated => "Authenticated".to_owned(),
            Notice::AuthenticationFailed => "Authentication failed".to_owned(),
            Notice::AlreadyAuthenticated => "Already authenticated".to_owned(),
            Notice::AddressUpdated => "Address updated".to_owned(),
            Notice::NotAuthenticated => "Not authenticated".to_owned(),
            Notice::InvalidMessageFormat => "Invalid message format".to_owned(),
            Notice::AuthenticationRequired => "Authentication required".to_owned(),
            Notice::EntryMissing => "Address update failed".to_owned(),
        }
    }
}

/// One connection's private state.
pub struct Session {
    state: SessionState,
    id: u128,
    mac_id: String,
}

/// The mathematical reading of a [`Session`].
pub struct SessionV {
    pub state: SessionState,
    pub id: u128,
    pub mac_id: Seq<char>,
}

impl View for Session {
    type V = SessionV;

    closed spec fn view(&self) -> SessionV {
        SessionV { state: self.state, id: self.id, mac_id: self.mac_id@ }
    }
}

/// What one message leaves behind: the session, the active registry, and the
/// notice the peer gets.
pub struct StepResult {
    pub session: SessionV,
    pub active: Map<u128, ProxyNodeV>,
    pub notice: Notice,
}

/// A session together with the active registry, as the spec-level machine
/// carries them between steps.
pub struct MachineState {
    pub session: SessionV,
    pub active: Map<u128, ProxyNodeV>,
}

/// What an `Auth{id, password}` message does. A session that already
/// authenticated is left alone; a valid credential adopts `id`, copies the
/// device identifier and inserts the fresh entry; anything else closes the
/// session and touches no registry.
pub open spec fn auth_step(
    s: SessionV,
    reg: Map<u128, RegNodeV>,
    act: Map<u128, ProxyNodeV>,
    id: u128,
    password: Seq<char>,
) -> StepResult
    recommends
        !(s.state is Closed),
{
    if s.state is Authenticated {
        StepResult { session: s, active: act, notice: Notice::AlreadyAuthenticated }
    } else if reg.contains_key(id) && reg[id].password == password {
        StepResult {
            session: SessionV {
                state: SessionState::Authenticated,
                id,
                mac_id: reg[id].mac_id,
            },
            active: act.insert(id, fresh_node(id, reg[id].mac_id)),
            notice: Notice::Authenticated,
        }
    } else {
        StepResult {
            session: SessionV { state: SessionState::Closed, ..s },
            active: act,
            notice: Notice::AuthenticationFailed,
        }
    }
}

/// What a `SetAddress{ip, port}` message does. Only an authenticated session
/// may rewrite its own entry's address; everything else is refused without a
/// mutation.
pub open spec fn set_address_step(
    s: SessionV,
    act: Map<u128, ProxyNodeV>,
    ip: Seq<char>,
    port: u16,
) -> StepResult
    recommends
        !(s.state is Closed),
{
    if !(s.state is Authenticated) {
        StepResult { session: s, active: act, notice: Notice::NotAuthenticated }
    } else if act.contains_key(s.id) {
        StepResult {
            session: s,
            active: act.insert(s.id, ProxyNodeV { ip, port, ..act[s.id] }),
            notice: Notice::AddressUpdated,
        }
    } else {
        StepResult { session: s, active: act, notice: Notice::EntryMissing }
    }
}

/// What one inbound message does to a live session and the active registry,
/// and the notice the peer gets. A malformed message changes nothing.
pub open spec fn session_step(
    s: SessionV,
    reg: Map<u128, RegNodeV>,
    act: Map<u128, ProxyNodeV>,
    msg: MsgV,
) -> StepResult
    recommends
        !(s.state is Closed),
{
    match msg {
        MsgV::Auth { id, password } => auth_step(s, reg, act, id, password),
        MsgV::SetAddress { ip, port } => set_address_step(s, act, ip, port),
        MsgV::Malformed => StepResult {
            session: s,
            active: act,
            notice: Notice::InvalidMessageFormat,
        },
    }
}

/// What closing the connection does, by whatever path: the session ends
/// `Closed`, and exactly its own entry — present only when it reached
/// `Authenticated` — leaves the registry.
pub open spec fn close_step(s: SessionV, act: Map<u128, ProxyNodeV>) -> MachineState {
    if s.state is Authenticated {
        MachineState {
            session: SessionV { state: SessionState::Closed, ..s },
            active: act.remove(s.id),
        }
    } else {
        MachineState { session: SessionV { state: SessionState::Closed, ..s }, active: act }
    }
}

/// The outcome of opening a connection.
#[derive(Clone, Copy, Debug, PartialEq, Eq)]
pub enum OpenOutcome {
    AwaitingAuth,
    Activated,
    Rejected,
}

/// What opening the connection does. A session that the transport already
/// authenticated registers itself at once; an unauthenticated one either
/// waits for an `Auth` message or, where the deployment demands
/// authentication before open, is turned away without ever appearing in the
/// registry.
pub open spec fn open_step(
    s: SessionV,
    act: Map<u128, ProxyNodeV>,
    preauth_required: bool,
) -> (OpenOutcome, MachineState) {
    if s.state is Authenticated {
        (
            OpenOutcome::Activated,
            MachineState {
                session: s,
                active: act.insert(s.id, fresh_node(s.id, s.mac_id)),
            },
        )
    } else if preauth_required {
        (
            OpenOutcome::Rejected,
            MachineState {
                session: SessionV { state: SessionState::Closed, ..s },
                active: act,
            },
        )
    } else {
        (OpenOutcome::AwaitingAuth, MachineState { session: s, active: act })
    }
}

impl Session {
    /// A fresh session for a connection the transport did not authenticate.
    pub fn new(session_id: u128) -> (s: Session)
        ensures
            s@ == (SessionV {
                state: SessionState::Unauthenticated,
                id: session_id,
                mac_id: Seq::<char>::empty(),
            }),
    {
        Session { state: SessionState::Unauthenticated, id: session_id, mac_id: String::new() }
    }

    /// A session for a connection the transport authenticated out-of-band,
    /// already carrying its identity.
    pub fn new_authenticated(id: u128, mac_id: String) -> (s: Session)
        ensures
            s@ == (SessionV { state: SessionState::Authenticated, id, mac_id: mac_id@ }),
    {
        Session { state: SessionState::Authenticated, id, mac_id }
    }

    /// The state the session is in.
    pub fn state(&self) -> (r: SessionState)
        ensures
            r == self@.state,
    {
        self.state
    }

    /// Whether the session has authenticated.
    pub fn is_authenticated(&self) -> (r: bool)
        ensures
            r == (self@.state is Authenticated),
    {
        matches!(self.state, SessionState::Authenticated)
    }

    /// Whether the session has ended.
    pub fn is_closed(&self) -> (r: bool)
        ensures
            r == (self@.state is Closed),
    {
        matches!(self.state, SessionState::Closed)
    }

    /// The identifier the session holds; meaningful once authenticated.
    pub fn id(&self) -> (r: u128)
        ensures
            r == self@.id,
    {
        self.id
    }

    /// Run the connection-open transition against the registry.
    pub fn on_open(&mut self, active: &mut ActiveRegistry, preauth_required: bool) -> (r:
        OpenOutcome)
        requires
            !(old(self)@.state is Closed),
            old(active).wf(),
        ensures
            final(active).wf(),
            ({
                let (outcome, next) = open_step(old(self)@, old(active)@, preauth_required);
                &&& r == outcome
                &&& final(self)@ == next.session
                &&& final(active)@ == next.active
            }),
    {
        match self.state {
            SessionState::Authenticated => {
                active.activate(self.id, self.mac_id.clone());
                OpenOutcome::Activated
            },
            _ => {
                if preauth_required {
                    self.state = SessionState::Closed;
                    OpenOutcome::Rejected
                } else {
                    OpenOutcome::AwaitingAuth
                }
            },
        }
    }

    /// Handle one inbound message on a live session.
    pub fn handle_message(
        &mut self,
        reg: &RegistrationStore,
        active: &mut ActiveRegistry,
        msg: WsMessage,
    ) -> (r: Notice)
        requires
            !(old(self)@.state is Closed),
            reg.wf(),
            old(active).wf(),
        ensures
            final(active).wf(),
            ({
                let step = session_step(old(self)@, reg@, old(active)@, msg@);
                &&& r == step.notice
                &&& final(self)@ == step.session
                &&& final(active)@ == step.active
            }),
    {
        match msg {
            WsMessage::Auth { id, password } => self.handle_auth(reg, active, id, password),
            WsMessage::SetAddress { ip, port } => self.handle_set_address(active, ip, port),
            WsMessage::Malformed => Notice::InvalidMessageFormat,
        }
    }

    /// The `Auth` arm of the state machine: check the credential against the
    /// registration store and, on success, adopt the identity and insert the
    /// fresh entry in the same step.
    fn handle_auth(
        &mut self,
        reg: &RegistrationStore,
        active: &mut ActiveRegistry,
        id: u128,
        password: String,
    ) -> (r: Notice)
        requires
            !(old(self)@.state is Closed),
            reg.wf(),
            old(active).wf(),
        ensures
            final(active).wf(),
            ({
                let step = auth_step(old(self)@, reg@, old(active)@, id, password@);
                &&& r == step.notice
                &&& final(self)@ == step.session
                &&& final(active)@ == step.active
            }),
    {
        match self.state {
            SessionState::Authenticated => Notice::AlreadyAuthenticated,
            _ => {
                match reg.lookup(id) {
                    Some(node) => {
                        if node.password == password {
                            let mac = node.mac_id.clone();
                            self.id = id;
                            self.mac_id = mac.clone();
                            self.state = SessionState::Authenticated;
                            active.activate(id, mac);
                            Notice::Authenticated
                        } else {
                            self.state = SessionState::Closed;
                            Notice::AuthenticationFailed
                        }
                    },
                    None => {
                        self.state = SessionState::Closed;
                        Notice::AuthenticationFailed
                    },
                }
            },
        }
    }

    /// The `SetAddress` arm of the state machine: an authenticated session
    /// rewrites its own entry's address; anyone else is refused.
    fn handle_set_address(&mut self, active: &mut ActiveRegistry, ip: String, port: u16) -> (r:
        Notice)
        requires
            !(old(self)@.state is Closed),
            old(active).wf(),
        ensures
            final(active).wf(),
            ({
                let step = set_address_step(old(self)@, old(active)@, ip@, port);
                &&& r == step.notice
                &&& final(self)@ == step.session
                &&& final(active)@ == step.active
            }),
    {
        match self.state {
            SessionState::Authenticated => {
                if active.set_address(self.id, ip, port) {
                    Notice::AddressUpdated
                } else {
                    Notice::EntryMissing
                }
            },
            _ => Notice::NotAuthenticated,
        }
    }

    /// Run the connection-close cleanup. Safe to call however often the
    /// transport signals it: after the first call the session is `Closed` and
    /// further calls change nothing.
    pub fn on_close(&mut self, active: &mut ActiveRegistry)
        requires
            old(active).wf(),
        ensures
            final(active).wf(),
            ({
                let next = close_step(old(self)@, old(active)@);
                &&& final(self)@ == next.session
                &&& final(active)@ == next.active
            }),
    {
        match self.state {
            SessionState::Authenticated => {
                active.remove(self.id);
            },
            _ => {},
        }
        self.state = SessionState::Closed;
    }
}

/// What a whole inbound stream does: the messages are handled one after the
/// other, and nothing more is handled once the session is closed.
pub open spec fn session_run(
    s: SessionV,
    reg: Map<u128, RegNodeV>,
    act: Map<u128, ProxyNodeV>,
    msgs: Seq<MsgV>,
) -> MachineState
    decreases msgs.len(),
{
    if msgs.len() == 0 || s.state is Closed {
        MachineState { session: s, active: act }
    } else {
        let step = session_step(s, reg, act, msgs[0]);
        session_run(step.session, reg, step.active, msgs.drop_first())
    }
}

/// Whether `msg` is an authentication attempt that the registration store
/// contents `reg` accept.
pub open spec fn auth_succeeds(reg: Map<u128, RegNodeV>, msg: MsgV) -> bool {
    match msg {
        MsgV::Auth { id, password } => reg.contains_key(id) && reg[id].password == password,
        _ => false,
    }
}

/// Before any successful authentication a session causes no entry to appear:
/// a run of messages none of which is an accepted `Auth` — `SetAddress`,
/// malformed input, refused `Auth` — leaves the active registry exactly as it
/// was, and the session never reaches `Authenticated`.
pub proof fn lemma_no_entry_before_auth(
    s: SessionV,
    reg: Map<u128, RegNodeV>,
    act: Map<u128, ProxyNodeV>,
    msgs: Seq<MsgV>,
)
    requires
        s.state is Unauthenticated,
        forall|i: int| 0 <= i < msgs.len() ==> !auth_succeeds(reg, #[trigger] msgs[i]),
    ensures
        session_run(s, reg, act, msgs).active == act,
        !(session_run(s, reg, act, msgs).session.state is Authenticated),
    decreases msgs.len(),
{
    if msgs.len() > 0 {
        let step = session_step(s, reg, act, msgs[0]);
        assert(!auth_succeeds(reg, msgs[0]));
        assert(step.active == act);
        assert(session_run(s, reg, act, msgs) == session_run(
            step.session,
            reg,
            step.active,
            msgs.drop_first(),
        ));
        if step.session.state is Closed {
            assert(session_run(step.session, reg, step.active, msgs.drop_first())
                == (MachineState { session: step.session, active: step.active }));
        } else {
            assert(step.session.state is Unauthenticated);
            assert(forall|i: int|
                0 <= i < msgs.drop_first().len() ==> !auth_succeeds(
                    reg,
                    #[trigger] msgs.drop_first()[i],
                )) by {
                assert(forall|i: int|
                    0 <= i < msgs.drop_first().len() ==> #[trigger] msgs.drop_first()[i]
                        == msgs[i + 1]);
            }
            lemma_no_entry_before_auth(step.session, reg, step.active, msgs.drop_first());
        }
    }
}

/// Closing a session that authenticated as `id` removes exactly its own
/// entry: afterwards `id` has no entry, every other identifier's entry is
/// untouched, and a repeated close changes nothing further.
pub proof fn lemma_close_removes_exactly_own(s: SessionV, act: Map<u128, ProxyNodeV>)
    requires
        s.state is Authenticated,
    ensures
        ({
            let after = close_step(s, act);
            &&& !after.active.contains_key(s.id)
            &&& forall|k: u128|
                k != s.id ==> after.active.contains_key(k) == act.contains_key(k)
            &&& forall|k: u128|
                k != s.id && act.contains_key(k) ==> after.active[k] == act[k]
            &&& after.session.state is Closed
            &&& close_step(after.session, after.active) == (MachineState {
                session: after.session,
                active: after.active,
            })
        }),
{
}

/// A session that authenticates as `id` and then disconnects — by whatever
/// path — leaves the registry with no entry for `id` and every other entry
/// exactly as it was.
pub proof fn lemma_auth_then_close(
    s: SessionV,
    reg: Map<u128, RegNodeV>,
    act: Map<u128, ProxyNodeV>,
    id: u128,
    password: Seq<char>,
)
    requires
        s.state is Unauthenticated,
        reg.contains_key(id),
        reg[id].password == password,
    ensures
        ({
            let step = auth_step(s, reg, act, id, password);
            let after = close_step(step.session, step.active);
            &&& step.notice is Authenticated
            &&& !after.active.contains_key(id)
            &&& forall|k: u128|
                k != id ==> after.active.contains_key(k) == act.contains_key(k)
            &&& forall|k: u128|
                k != id && act.contains_key(k) ==> after.active[k] == act[k]
        }),
{
}

/// Two sessions authenticating with two different registered identifiers, in
/// whatever order the registry serializes them, both succeed and both end up
/// with their entry present.
pub proof fn lemma_concurrent_auth_distinct(
    s1: SessionV,
    s2: SessionV,
    reg: Map<u128, RegNodeV>,
    act: Map<u128, ProxyNodeV>,
    id1: u128,
    p1: Seq<char>,
    id2: u128,
    p2: Seq<char>,
)
    requires
        s1.state is Unauthenticated,
        s2.state is Unauthenticated,
        reg.contains_key(id1),
        reg[id1].password == p1,
        reg.contains_key(id2),
        reg[id2].password == p2,
        id1 != id2,
    ensures
        ({
            let r1 = auth_step(s1, reg, act, id1, p1);
            let r2 = auth_step(s2, reg, r1.active, id2, p2);
            &&& r1.notice is Authenticated
            &&& r2.notice is Authenticated
            &&& r2.active.contains_key(id1) && r2.active[id1] == fresh_node(
                id1,
                reg[id1].mac_id,
            )
            &&& r2.active.contains_key(id2) && r2.active[id2] == fresh_node(
                id2,
                reg[id2].mac_id,
            )
        }),
{
}

/// Two sessions authenticating with the same registered identifier both
/// succeed, and the registry afterwards holds exactly one entry for that
/// identifier — the overwrite leaves the map as a single insert.
pub proof fn lemma_concurrent_auth_same_id(
    s1: SessionV,
    s2: SessionV,
    reg: Map<u128, RegNodeV>,
    act: Map<u128, ProxyNodeV>,
    id: u128,
    password: Seq<char>,
)
    requires
        s1.state is Unauthenticated,
        s2.state is Unauthenticated,
        reg.contains_key(id),
        reg[id].password == password,
    ensures
        ({
            let r1 = auth_step(s1, reg, act, id, password);
            let r2 = auth_step(s2, reg, r1.active, id, password);
            &&& r1.notice is Authenticated
            &&& r2.notice is Authenticated
            &&& r2.active == act.insert(id, fresh_node(id, reg[id].mac_id))
        }),
{
    let r1 = auth_step(s1, reg, act, id, password);
    let r2 = auth_step(s2, reg, r1.active, id, password);
    assert(r2.active =~= act.insert(id, fresh_node(id, reg[id].mac_id)));
}

} // verus!
