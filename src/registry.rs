//! The agent registry and the dispatch of envelopes against it.
use vstd::prelude::*;
use std::collections::HashMap;
use vstd::std_specs::iter::IteratorSpec;
use crate::envelope::{Envelope, RegistrationRequest, RegistrationView};

verus! {

broadcast use vstd::std_specs::hash::group_hash_axioms;

/// What the controller keeps of a registered agent.
#[derive(Debug)]
pub struct AgentRecord {
    pub hostname: Vec<u8>,
    pub version: Vec<u8>,
}

pub struct AgentView {
    pub hostname: Seq<u8>,
    pub version: Seq<u8>,
}

impl View for AgentRecord {
    type V = AgentView;

    open spec fn view(&self) -> AgentView {
        AgentView { hostname: self.hostname@, version: self.version@ }
    }
}

/// The record that a registration request leaves in the registry.
pub open spec fn record_of(r: RegistrationView) -> AgentView {
    AgentView { hostname: r.hostname, version: r.version }
}

/// Why an envelope was refused.
#[derive(Debug, Clone, Copy, PartialEq, Eq, Structural)]
pub enum DispatchError {
    /// A registration whose agent identifier is absent or malformed.
    InvalidArgument,
}

/// The 128-bit identifier that `text` spells, by uuid's parser.
pub uninterp spec fn uuid_value(text: Seq<u8>) -> Option<u128>;

/// Relies on uuid::Uuid::try_parse_ascii, which accepts only inputs of 32,
/// 36, 38 or 45 bytes, and on Uuid::as_u128 to read the parsed value.
#[verifier::external_body]
fn parse_agent_id(text: &[u8]) -> (r: Option<u128>)
    ensures
        r == uuid_value(text@),
        !(text@.len() == 32 || text@.len() == 36 || text@.len() == 38 || text@.len() == 45)
            ==> r is None,
{
    uuid::Uuid::try_parse_ascii(text).ok().map(|u| u.as_u128())
}

/// The agents known to the controller, keyed by identifier.
pub struct Registry {
    agents: HashMap<u128, AgentRecord>,
}

impl View for Registry {
    type V = Map<u128, AgentView>;

    closed spec fn view(&self) -> Map<u128, AgentView> {
        self.agents@.map_values(|a: AgentRecord| a@)
    }
}

/// What a registration does to the registry, given the identifier that its
/// text parsed to: `None` where it is refused.
pub open spec fn registration_effect(
    reg: Map<u128, AgentView>,
    id: Option<u128>,
    r: RegistrationView,
) -> Option<Map<u128, AgentView>> {
    match id {
        Some(k) => Some(reg.insert(k, record_of(r))),
        None => None,
    }
}

impl Registry {
    /// An empty registry.
    pub fn new() -> (r: Registry)
        ensures
            r@ == Map::<u128, AgentView>::empty(),
    {
        let r = Registry { agents: HashMap::new() };
        assert(r@ =~= Map::<u128, AgentView>::empty());
        r
    }

    /// How many agents are registered.
    pub fn len(&self) -> (n: usize)
        ensures
            n == self@.len(),
    {
        assert(self@.dom() =~= self.agents@.dom());
        self.agents.len()
    }

    /// The record of agent `id`, if it is registered.
    pub fn get(&self, id: u128) -> (r: Option<&AgentRecord>)
        ensures
            match r {
                Some(a) => self@.contains_key(id) && self@[id] == a@,
                None => !self@.contains_key(id),
            },
    {
        self.agents.get(&id)
    }

    /// The identifiers of all registered agents, each once, in no
    /// particular order.
    pub fn agent_ids(&self) -> (ids: Vec<u128>)
        ensures
            ids@.to_set() == self@.dom(),
            ids@.no_duplicates(),
            ids@.len() == self@.len(),
    {
        let mut ids: Vec<u128> = Vec::new();
        let keys = self.agents.keys();
        let ghost all = keys.remaining();
        assert(all.unref().to_set() == self.agents@.dom());
        for k in iter: keys
            invariant
                ids@.len() == iter.index(),
                forall|j: int| 0 <= j < ids@.len() ==> ids@[j] == *iter.seq()[j],
        {
            ids.push(*k);
        }
        assert(ids@ =~= all.unref());
        assert(self@.dom() =~= self.agents@.dom());
        ids
    }

    /// Records agent `id`, replacing any earlier record of it.
    pub fn insert(&mut self, id: u128, record: AgentRecord)
        ensures
            final(self)@ == old(self)@.insert(id, record@),
    {
        let ghost rec = record@;
        self.agents.insert(id, record);
        assert(self@ =~= old(self)@.insert(id, rec));
    }

    /// Applies a registration whose identifier has already been parsed:
    /// refused, with the registry unchanged, where there is none.
    pub fn apply_registration(&mut self, id: Option<u128>, req: RegistrationRequest) -> (r: Result<
        (),
        DispatchError,
    >)
        ensures
            match registration_effect(old(self)@, id, req@) {
                Some(m) => r is Ok && final(self)@ == m,
                None => r == Err::<(), DispatchError>(DispatchError::InvalidArgument)
                    && final(self)@ == old(self)@,
            },
    {
        match id {
            Some(k) => {
                let record = AgentRecord { hostname: req.hostname, version: req.version };
                self.insert(k, record);
                Ok(())
            },
            None => Err(DispatchError::InvalidArgument),
        }
    }

    /// Handles one envelope. A registration records the agent under the
    /// identifier that its text spells (last write wins) and is refused
    /// with `InvalidArgument` where the text is no identifier, an empty
    /// one in particular; other envelopes leave the registry as it is. No
    /// envelope of this protocol asks for a reply.
    pub fn dispatch(&mut self, e: Envelope) -> (r: Result<Option<Envelope>, DispatchError>)
        ensures
            match e@ {
                crate::envelope::EnvelopeView::Registration(req) => {
                    &&& req.agent_id.len() == 0 ==> uuid_value(req.agent_id) is None
                    &&& match registration_effect(old(self)@, uuid_value(req.agent_id), req) {
                        Some(m) => r == Ok::<Option<Envelope>, DispatchError>(None)
                            && final(self)@ == m,
                        None => r == Err::<Option<Envelope>, DispatchError>(
                            DispatchError::InvalidArgument,
                        ) && final(self)@ == old(self)@,
                    }
                },
                _ => r == Ok::<Option<Envelope>, DispatchError>(None) && final(self)@
                    == old(self)@,
            },
    {
        match e {
            Envelope::Registration(req) => {
                let id = parse_agent_id(req.agent_id.as_slice());
                match self.apply_registration(id, req) {
                    Ok(()) => Ok(None),
                    Err(err) => Err(err),
                }
            },
            Envelope::Message(_) => Ok(None),
            Envelope::Unrecognized => Ok(None),
        }
    }
}

/// A second registration of the same identifier leaves one record, the
/// second one's, whatever the first held.
pub proof fn lemma_last_registration_wins(
    reg: Map<u128, AgentView>,
    id: u128,
    first: RegistrationView,
    second: RegistrationView,
)
    ensures
        ({
            let after = registration_effect(
                registration_effect(reg, Some(id), first).unwrap(),
                Some(id),
                second,
            ).unwrap();
            &&& after == registration_effect(reg, Some(id), second).unwrap()
            &&& after.contains_key(id)
            &&& after[id] == record_of(second)
            &&& after.dom() == reg.dom().insert(id)
        }),
{
    let after = reg.insert(id, record_of(first)).insert(id, record_of(second));
    assert(after =~= reg.insert(id, record_of(second)));
}

/// The registry after the accepted registrations `regs`, applied in order
/// from `reg`.
pub open spec fn register_all(reg: Map<u128, AgentView>, regs: Seq<(u128, AgentView)>) -> Map<
    u128,
    AgentView,
>
    decreases regs.len(),
{
    if regs.len() == 0 {
        reg
    } else {
        register_all(reg, regs.drop_last()).insert(regs.last().0, regs.last().1)
    }
}

/// Registrations of `n` distinct identifiers, in any order, leave exactly
/// `n` records: none is lost.
pub proof fn lemma_distinct_registrations_all_kept(regs: Seq<(u128, AgentView)>)
    requires
        regs.map_values(|p: (u128, AgentView)| p.0).no_duplicates(),
    ensures
        register_all(Map::empty(), regs).dom().finite(),
        register_all(Map::empty(), regs).len() == regs.len(),
        forall|i: int|
            0 <= i < regs.len() ==> #[trigger] register_all(Map::empty(), regs).contains_key(
                regs[i].0,
            ),
    decreases regs.len(),
{
    if regs.len() > 0 {
        let front = regs.drop_last();
        let ids = regs.map_values(|p: (u128, AgentView)| p.0);
        let front_ids = front.map_values(|p: (u128, AgentView)| p.0);
        assert(front_ids =~= ids.drop_last());
        assert forall|i: int, j: int|
            0 <= i < front_ids.len() && 0 <= j < front_ids.len() && i != j implies #[trigger] front_ids[i]
            != #[trigger] front_ids[j] by {
            assert(ids[i] != ids[j]);
        }
        lemma_distinct_registrations_all_kept(front);
        let m = register_all(Map::empty(), front);
        let k = regs.last().0;
        assert(!m.contains_key(k)) by {
            if m.contains_key(k) {
                assert(forall|i: int| 0 <= i < front.len() ==> #[trigger] front[i].0 != k) by {
                    assert forall|i: int| 0 <= i < front.len() implies #[trigger] front[i].0
                        != k by {
                        assert(ids[i] != ids[regs.len() - 1]);
                    }
                }
                lemma_register_all_keys(Map::empty(), front, k);
            }
        }
        assert(m.insert(k, regs.last().1).dom() =~= m.dom().insert(k));
        assert forall|i: int| 0 <= i < regs.len() implies #[trigger] register_all(
            Map::empty(),
            regs,
        ).contains_key(regs[i].0) by {
            if i < regs.len() - 1 {
                assert(front[i] == regs[i]);
                assert(m.contains_key(front[i].0));
            }
        }
    }
}

proof fn lemma_register_all_keys(reg: Map<u128, AgentView>, regs: Seq<(u128, AgentView)>, k: u128)
    requires
        !reg.contains_key(k),
        forall|i: int| 0 <= i < regs.len() ==> #[trigger] regs[i].0 != k,
    ensures
        !register_all(reg, regs).contains_key(k),
    decreases regs.len(),
{
    if regs.len() > 0 {
        let front = regs.drop_last();
        assert forall|i: int| 0 <= i < front.len() implies #[trigger] front[i].0 != k by {
            assert(front[i] == regs[i]);
        }
        lemma_register_all_keys(reg, front, k);
        assert(regs.last() == regs[regs.len() - 1]);
    }
}

} // verus!
