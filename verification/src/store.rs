//! The registration store: long-term credentials of the nodes allowed to
//! connect, and the request/response endpoint that fills it.
//!
//! Records are kept in insertion order; identifiers are unique; a record,
//! once inserted, is never changed or removed.

use crate::keyed::{
    distinct_keys, lemma_map_of_contains, lemma_map_of_index, lemma_map_of_push, map_of, Keyed,
};
use crate::models::{redacted, RegNodeV, RegisteredNode, RegisteredNodeInfo};
use vstd::prelude::*;

verus! {

/// The outcome of one registration attempt.
#[derive(Clone, Copy, Debug, PartialEq, Eq)]
pub enum RegisterOutcome {
    Registered,
    AlreadyRegistered,
}

/// The outcome `register` owes on a store with contents `m`: success exactly
/// when `id` is still free.
pub open spec fn register_outcome(m: Map<u128, RegNodeV>, id: u128) -> RegisterOutcome {
    if m.contains_key(id) {
        RegisterOutcome::AlreadyRegistered
    } else {
        RegisterOutcome::Registered
    }
}

/// The contents after one registration attempt: unchanged when `id` is taken,
/// extended by the new record when it is free.
pub open spec fn register_next(
    m: Map<u128, RegNodeV>,
    id: u128,
    password: Seq<char>,
    mac_id: Seq<char>,
) -> Map<u128, RegNodeV> {
    if m.contains_key(id) {
        m
    } else {
        m.insert(id, RegNodeV { id, password, mac_id })
    }
}

/// The long-term store of registered nodes.
pub struct RegistrationStore {
    nodes: Vec<RegisteredNode>,
}

impl View for RegistrationStore {
    type V = Map<u128, RegNodeV>;

    /// The store read as a map from identifier to record.
    open spec fn view(&self) -> Map<u128, RegNodeV> {
        map_of(self.snapshot())
    }
}

impl RegistrationStore {
    /// The records in insertion order.
    pub closed spec fn snapshot(&self) -> Seq<RegNodeV> {
        self.nodes@.map_values(|n: RegisteredNode| n@)
    }

    /// Identifiers are unique within the store.
    pub open spec fn wf(&self) -> bool {
        distinct_keys(self.snapshot())
    }

    /// An empty store.
    pub fn new() -> (s: Self)
        ensures
            s.wf(),
            s@ == Map::<u128, RegNodeV>::empty(),
            s.snapshot() == Seq::<RegNodeV>::empty(),
    {
        let s = RegistrationStore { nodes: Vec::new() };
        proof {
            assert(s.snapshot() =~= Seq::<RegNodeV>::empty());
        }
        s
    }

    /// The position of the record for `id`, when there is one.
    fn find_index(&self, id: u128) -> (r: Option<usize>)
        ensures
            match r {
                Some(i) => i < self.snapshot().len() && self.snapshot()[i as int].id == id,
                None => forall|j: int|
                    0 <= j < self.snapshot().len() ==> #[trigger] self.snapshot()[j].id != id,
            },
    {
        let mut i: usize = 0;
        while i < self.nodes.len()
            invariant
                i <= self.nodes.len(),
                self.snapshot().len() == self.nodes.len(),
                forall|j: int| 0 <= j < i ==> #[trigger] self.snapshot()[j].id != id,
            decreases self.nodes.len() - i,
        {
            if self.nodes[i].id == id {
                return Some(i);
            }
            i = i + 1;
        }
        None
    }

    /// Whether `id` already has a record.
    pub fn contains(&self, id: u128) -> (r: bool)
        ensures
            r == self@.contains_key(id),
    {
        proof {
            lemma_map_of_contains(self.snapshot(), id);
        }
        match self.find_index(id) {
            Some(i) => {
                proof {
                    assert(self.snapshot()[i as int].key() == id);
                }
                true
            },
            None => false,
        }
    }

    /// Insert a record for `id`, unless `id` already has one; an existing
    /// record is never touched.
    pub fn register(&mut self, id: u128, password: String, mac_id: String) -> (r: RegisterOutcome)
        requires
            old(self).wf(),
        ensures
            final(self).wf(),
            r == register_outcome(old(self)@, id),
            final(self)@ == register_next(old(self)@, id, password@, mac_id@),
            old(self)@.contains_key(id) ==> final(self).snapshot() == old(self).snapshot(),
            !old(self)@.contains_key(id) ==> final(self).snapshot() == old(self).snapshot().push(
                RegNodeV { id, password: password@, mac_id: mac_id@ },
            ),
    {
        proof {
            lemma_map_of_contains(self.snapshot(), id);
        }
        match self.find_index(id) {
            Some(i) => {
                proof {
                    assert(self.snapshot()[i as int].key() == id);
                }
                RegisterOutcome::AlreadyRegistered
            },
            None => {
                let ghost pre = self.snapshot();
                let node = RegisteredNode { id, password, mac_id };
                let ghost nv = node@;
                self.nodes.push(node);
                proof {
                    assert(self.snapshot() =~= pre.push(nv));
                    assert(forall|j: int| 0 <= j < pre.len() ==> #[trigger] pre[j].key() != id);
                    lemma_map_of_push(pre, nv);
                }
                RegisterOutcome::Registered
            },
        }
    }

    /// A pure read of the record for `id`.
    pub fn lookup(&self, id: u128) -> (r: Option<&RegisteredNode>)
        requires
            self.wf(),
        ensures
            match r {
                Some(n) => self@.contains_key(id) && n@ == self@[id],
                None => !self@.contains_key(id),
            },
    {
        proof {
            lemma_map_of_contains(self.snapshot(), id);
        }
        match self.find_index(id) {
            Some(i) => {
                proof {
                    assert(self.snapshot()[i as int].key() == id);
                    lemma_map_of_index(self.snapshot(), i as int);
                }
                Some(&self.nodes[i])
            },
            None => None,
        }
    }

    /// A snapshot of every record, in insertion order, redacted for the
    /// caller: the credential is compared during authentication only and
    /// never revealed, so the listing carries identifier and device
    /// identifier alone.
    pub fn list(&self) -> (r: Vec<RegisteredNodeInfo>)
        ensures
            r@.map_values(|n: RegisteredNodeInfo| n@) == self.snapshot().map_values(
                |n: RegNodeV| redacted(n),
            ),
    {
        let mut r: Vec<RegisteredNodeInfo> = Vec::new();
        let mut i: usize = 0;
        while i < self.nodes.len()
            invariant
                i <= self.nodes.len(),
                self.snapshot().len() == self.nodes.len(),
                r@.len() == i,
                forall|j: int|
                    0 <= j < i ==> (#[trigger] r@[j])@ == redacted(self.snapshot()[j]),
            decreases self.nodes.len() - i,
        {
            let n = &self.nodes[i];
            r.push(RegisteredNodeInfo { id: n.id, mac_id: n.mac_id.clone() });
            i = i + 1;
        }
        proof {
            assert(r@.map_values(|n: RegisteredNodeInfo| n@) =~= self.snapshot().map_values(
                |n: RegNodeV| redacted(n),
            ));
        }
        r
    }
}

/// A registration request as the endpoint receives it: the node's chosen
/// identifier, its credential and device identifier, and the deployment
/// secret that guards the endpoint.
pub struct RegisterRequest {
    pub id: u128,
    pub password: String,
    pub mac_id: String,
    pub api_key: String,
}

/// The endpoint's answer to a registration request.
#[derive(Clone, Copy, Debug, PartialEq, Eq)]
pub enum RegisterResponse {
    Registered,
    IdAlreadyRegistered,
    InvalidApiKey,
}

impl RegisterResponse {
    /// The body the endpoint answers with.
    pub open spec fn spec_text(&self) -> Seq<char> {
        match self {
            RegisterResponse::Registered => "Registered successfully"@,
            RegisterResponse::IdAlreadyRegistered => "ID already registered"@,
            RegisterResponse::InvalidApiKey => "Invalid API key"@,
        }
    }

    /// The response body, exactly as the endpoint sends it.
    pub fn text(&self) -> (r: String)
        ensures
            r@ == self.spec_text(),
    {
        match self {
            RegisterResponse::Registered => "Registered successfully".to_owned(),
            RegisterResponse::IdAlreadyRegistered => "ID already registered".to_owned(),
            RegisterResponse::InvalidApiKey => "Invalid API key".to_owned(),
        }
    }
}

/// The endpoint's answer on a store with contents `m`: the request is turned
/// away when the secret does not match, refused when the identifier is taken,
/// and confirmed otherwise.
pub open spec fn endpoint_response(m: Map<u128, RegNodeV>, id: u128, key_ok: bool) -> RegisterResponse {
    if !key_ok {
        RegisterResponse::InvalidApiKey
    } else if m.contains_key(id) {
        RegisterResponse::IdAlreadyRegistered
    } else {
        RegisterResponse::Registered
    }
}

/// The store contents after the endpoint has handled a request.
pub open spec fn endpoint_next(
    m: Map<u128, RegNodeV>,
    id: u128,
    password: Seq<char>,
    mac_id: Seq<char>,
    key_ok: bool,
) -> Map<u128, RegNodeV> {
    if !key_ok {
        m
    } else {
        register_next(m, id, password, mac_id)
    }
}

/// The registration endpoint: validate the deployment secret, then hand the
/// request to the store. A rejected request leaves the store exactly as it
/// was.
pub fn register_endpoint(
    store: &mut RegistrationStore,
    req: RegisterRequest,
    expected_api_key: &String,
) -> (r: RegisterResponse)
    requires
        old(store).wf(),
    ensures
        final(store).wf(),
        r == endpoint_response(old(store)@, req.id, req.api_key@ == expected_api_key@),
        final(store)@ == endpoint_next(
            old(store)@,
            req.id,
            req.password@,
            req.mac_id@,
            req.api_key@ == expected_api_key@,
        ),
        !(r is Registered) ==> final(store).snapshot() == old(store).snapshot(),
        r is Registered ==> final(store).snapshot() == old(store).snapshot().push(
            RegNodeV { id: req.id, password: req.password@, mac_id: req.mac_id@ },
        ),
{
    if !(req.api_key == *expected_api_key) {
        return RegisterResponse::InvalidApiKey;
    }
    match store.register(req.id, req.password, req.mac_id) {
        RegisterOutcome::Registered => RegisterResponse::Registered,
        RegisterOutcome::AlreadyRegistered => RegisterResponse::IdAlreadyRegistered,
    }
}

/// One registration request, reduced to what the store keeps of it.
pub type RegRequestV = (u128, Seq<char>, Seq<char>);

/// The store contents after a whole sequence of registration attempts,
/// handled one after the other.
pub open spec fn register_many(m: Map<u128, RegNodeV>, reqs: Seq<RegRequestV>) -> Map<u128, RegNodeV>
    decreases reqs.len(),
{
    if reqs.len() == 0 {
        m
    } else {
        register_many(register_next(m, reqs[0].0, reqs[0].1, reqs[0].2), reqs.drop_first())
    }
}

/// No two successful registrations share an identifier: a registration
/// succeeds exactly when the identifier is still free, and a repeated attempt
/// for the same identifier is refused and changes nothing.
pub proof fn lemma_no_duplicate_registration(
    m: Map<u128, RegNodeV>,
    id: u128,
    p1: Seq<char>,
    d1: Seq<char>,
    p2: Seq<char>,
    d2: Seq<char>,
)
    requires
        !m.contains_key(id),
    ensures
        ({
            let m1 = register_next(m, id, p1, d1);
            &&& register_outcome(m, id) is Registered
            &&& m1[id] == RegNodeV { id, password: p1, mac_id: d1 }
            &&& register_outcome(m1, id) is AlreadyRegistered
            &&& register_next(m1, id, p2, d2) == m1
        }),
{
}

/// Once an identifier has a record, any sequence of later registration
/// attempts — for it or for any other identifier — leaves that record exactly
/// as the first successful write put it.
pub proof fn lemma_registered_record_is_final(
    m: Map<u128, RegNodeV>,
    reqs: Seq<RegRequestV>,
    id: u128,
)
    requires
        m.contains_key(id),
    ensures
        register_many(m, reqs).contains_key(id),
        register_many(m, reqs)[id] == m[id],
    decreases reqs.len(),
{
    if reqs.len() > 0 {
        let m1 = register_next(m, reqs[0].0, reqs[0].1, reqs[0].2);
        assert(m1.contains_key(id) && m1[id] == m[id]);
        lemma_registered_record_is_final(m1, reqs.drop_first(), id);
    }
}

} // verus!
