//! The state store: a flat, content-addressed key/value model.
//!
//! Each address holds one encoded container of a single entity kind. The
//! accessors hide the container convention: a `get` scans the container
//! at the derived address for the exact identifier, a `set` rewrites the
//! container with the entry replaced and the list kept sorted. A container
//! of the wrong kind at an address models an undecodable byte string and
//! surfaces as an internal error; absence is no error.

use vstd::prelude::*;

use crate::addressing::{
    make_agent_address, make_property_address, make_proposal_address, make_record_address,
    make_record_type_address, spec_agent_address, spec_property_address, spec_proposal_address,
    spec_record_address, spec_record_type_address,
};
use crate::containers::{
    find_entity, find_idx, found, put_entity, put_with, views_of, SpecKeyed,
};
use crate::entities::{
    clone_proposals, Agent, AgentV, Property, PropertyPage, PropertyPageV, PropertyV, Proposal,
    ProposalV, Record, RecordType, RecordTypeV, RecordV,
};
use crate::errors::ApplyError;
use crate::strings_order::str_eq;

verus! {

/// The decoded container stored at one address. Every address holds
/// entries of a single entity kind.
#[derive(Debug)]
pub enum Container {
    Agents(Vec<Agent>),
    Records(Vec<Record>),
    RecordTypes(Vec<RecordType>),
    Properties(Vec<Property>),
    PropertyPages(Vec<PropertyPage>),
    Proposals(Vec<Proposal>),
}

pub ghost enum ContainerV {
    Agents(Seq<AgentV>),
    Records(Seq<RecordV>),
    RecordTypes(Seq<RecordTypeV>),
    Properties(Seq<PropertyV>),
    PropertyPages(Seq<PropertyPageV>),
    Proposals(Seq<ProposalV>),
}

impl View for Container {
    type V = ContainerV;

    open spec fn view(&self) -> ContainerV {
        match self {
            Container::Agents(v) => ContainerV::Agents(views_of(v@)),
            Container::Records(v) => ContainerV::Records(views_of(v@)),
            Container::RecordTypes(v) => ContainerV::RecordTypes(views_of(v@)),
            Container::Properties(v) => ContainerV::Properties(views_of(v@)),
            Container::PropertyPages(v) => ContainerV::PropertyPages(views_of(v@)),
            Container::Proposals(v) => ContainerV::Proposals(views_of(v@)),
        }
    }
}

/// One address of the store together with its container.
#[derive(Debug)]
pub struct StateEntry {
    pub address: String,
    pub container: Container,
}

pub ghost struct StateEntryV {
    pub address: Seq<char>,
    pub container: ContainerV,
}

impl View for StateEntry {
    type V = StateEntryV;

    open spec fn view(&self) -> StateEntryV {
        StateEntryV { address: self.address@, container: self.container@ }
    }
}

impl SpecKeyed for StateEntryV {
    open spec fn vkey(self) -> Seq<char> {
        self.address
    }
}

/// What a read of one entity finds: the entity, nothing, or a container
/// of the wrong kind (state corruption).
pub ghost enum Lookup<T> {
    Found(T),
    Missing,
    Corrupt,
}

/// The kind of error a handler reports: a business-rule violation or an
/// internal (state-corruption) failure.
pub ghost enum ErrKind {
    Invalid,
    Internal,
}

/// The outcome of a handler at the spec level: the state it leaves
/// behind, and the error it reports, if any. Errors leave partial writes
/// in place; the host discards them by rolling the transaction back.
pub ghost struct Step {
    pub state: Seq<StateEntryV>,
    pub err: Option<ErrKind>,
}

/// A successful outcome.
pub open spec fn step_ok(s: Seq<StateEntryV>) -> Step {
    Step { state: s, err: None }
}

/// A business-rule rejection.
pub open spec fn step_invalid(s: Seq<StateEntryV>) -> Step {
    Step { state: s, err: Some(ErrKind::Invalid) }
}

/// An internal failure.
pub open spec fn step_internal(s: Seq<StateEntryV>) -> Step {
    Step { state: s, err: Some(ErrKind::Internal) }
}

/// The executable error carries the kind the spec predicts.
pub open spec fn err_matches(e: ApplyError, k: ErrKind) -> bool {
    match k {
        ErrKind::Invalid => e is InvalidTransaction,
        ErrKind::Internal => e is InternalError,
    }
}

/// A handler's executable outcome agrees with its spec-level step: same
/// final state, and an error exactly when the step has one, of its kind.
pub open spec fn step_matches(step: Step, s2: Seq<StateEntryV>, r: Result<(), ApplyError>) -> bool {
    &&& s2 == step.state
    &&& match r {
        Ok(_) => step.err is None,
        Err(e) => step.err matches Some(k) && err_matches(e, k),
    }
}

/// The container at an address, if the address holds one.
pub open spec fn state_get(s: Seq<StateEntryV>, a: Seq<char>) -> Option<ContainerV> {
    match find_idx(s, a) {
        Some(i) => Some(s[i].container),
        None => None,
    }
}

/// The store with the container at an address replaced, or appended when
/// the address held none.
pub open spec fn state_set(s: Seq<StateEntryV>, a: Seq<char>, c: ContainerV) -> Seq<StateEntryV> {
    match find_idx(s, a) {
        Some(i) => s.update(i, StateEntryV { address: a, container: c }),
        None => s.push(StateEntryV { address: a, container: c }),
    }
}

/// The state store of one transaction: the decoded containers the
/// transaction reads and writes, keyed by address.
#[derive(Debug)]
pub struct SupplyChainState {
    pub entries: Vec<StateEntry>,
}

impl View for SupplyChainState {
    type V = Seq<StateEntryV>;

    open spec fn view(&self) -> Seq<StateEntryV> {
        views_of(self.entries@)
    }
}

/// The read of an agent by public key, at the spec level.
pub open spec fn spec_get_agent(s: Seq<StateEntryV>, agent_id: Seq<char>) -> Lookup<AgentV> {
    match state_get(s, spec_agent_address(agent_id)) {
        None => Lookup::Missing,
        Some(ContainerV::Agents(list)) => match found(list, agent_id) {
            Some(a) => Lookup::Found(a),
            None => Lookup::Missing,
        },
        Some(_) => Lookup::Corrupt,
    }
}

/// The write of an agent, at the spec level; `None` models a container of
/// the wrong kind at the target address. The entry with the caller's key
/// leaves and the agent takes its sorted position.
pub open spec fn spec_set_agent(
    s: Seq<StateEntryV>,
    agent_id: Seq<char>,
    a: AgentV,
) -> Option<Seq<StateEntryV>> {
    let addr = spec_agent_address(agent_id);
    match state_get(s, addr) {
        None => Some(state_set(s, addr, ContainerV::Agents(put_with(Seq::empty(), agent_id, a)))),
        Some(ContainerV::Agents(list)) => Some(
            state_set(s, addr, ContainerV::Agents(put_with(list, agent_id, a))),
        ),
        Some(_) => None,
    }
}

/// The read of a record by identifier, at the spec level.
pub open spec fn spec_get_record(s: Seq<StateEntryV>, record_id: Seq<char>) -> Lookup<RecordV> {
    match state_get(s, spec_record_address(record_id)) {
        None => Lookup::Missing,
        Some(ContainerV::Records(list)) => match found(list, record_id) {
            Some(r) => Lookup::Found(r),
            None => Lookup::Missing,
        },
        Some(_) => Lookup::Corrupt,
    }
}

/// The write of a record, at the spec level: the entry with the caller's
/// identifier leaves and the record takes its sorted position.
pub open spec fn spec_set_record(
    s: Seq<StateEntryV>,
    record_id: Seq<char>,
    r: RecordV,
) -> Option<Seq<StateEntryV>> {
    let addr = spec_record_address(record_id);
    match state_get(s, addr) {
        None => Some(
            state_set(s, addr, ContainerV::Records(put_with(Seq::empty(), record_id, r))),
        ),
        Some(ContainerV::Records(list)) => Some(
            state_set(s, addr, ContainerV::Records(put_with(list, record_id, r))),
        ),
        Some(_) => None,
    }
}

/// The read of a record type by name, at the spec level.
pub open spec fn spec_get_record_type(s: Seq<StateEntryV>, name: Seq<char>) -> Lookup<
    RecordTypeV,
> {
    match state_get(s, spec_record_type_address(name)) {
        None => Lookup::Missing,
        Some(ContainerV::RecordTypes(list)) => match found(list, name) {
            Some(t) => Lookup::Found(t),
            None => Lookup::Missing,
        },
        Some(_) => Lookup::Corrupt,
    }
}

/// The write of a record type, at the spec level: the entry with the
/// caller's name leaves and the record type takes its sorted position.
pub open spec fn spec_set_record_type(
    s: Seq<StateEntryV>,
    name: Seq<char>,
    t: RecordTypeV,
) -> Option<Seq<StateEntryV>> {
    let addr = spec_record_type_address(name);
    match state_get(s, addr) {
        None => Some(state_set(s, addr, ContainerV::RecordTypes(put_with(Seq::empty(), name, t)))),
        Some(ContainerV::RecordTypes(list)) => Some(
            state_set(s, addr, ContainerV::RecordTypes(put_with(list, name, t))),
        ),
        Some(_) => None,
    }
}

/// The read of a property's metadata (page zero), at the spec level.
pub open spec fn spec_get_property(
    s: Seq<StateEntryV>,
    record_id: Seq<char>,
    name: Seq<char>,
) -> Lookup<PropertyV> {
    match state_get(s, spec_property_address(record_id, name, 0)) {
        None => Lookup::Missing,
        Some(ContainerV::Properties(list)) => match found(list, name) {
            Some(p) => Lookup::Found(p),
            None => Lookup::Missing,
        },
        Some(_) => Lookup::Corrupt,
    }
}

/// The write of a property's metadata, at the spec level.
pub open spec fn spec_set_property(
    s: Seq<StateEntryV>,
    record_id: Seq<char>,
    name: Seq<char>,
    p: PropertyV,
) -> Option<Seq<StateEntryV>> {
    let addr = spec_property_address(record_id, name, 0);
    match state_get(s, addr) {
        None => Some(state_set(s, addr, ContainerV::Properties(put_with(Seq::empty(), name, p)))),
        Some(ContainerV::Properties(list)) => Some(
            state_set(s, addr, ContainerV::Properties(put_with(list, name, p))),
        ),
        Some(_) => None,
    }
}

/// The read of one page of a property's history, at the spec level.
pub open spec fn spec_get_property_page(
    s: Seq<StateEntryV>,
    record_id: Seq<char>,
    name: Seq<char>,
    page: u32,
) -> Lookup<PropertyPageV> {
    match state_get(s, spec_property_address(record_id, name, page)) {
        None => Lookup::Missing,
        Some(ContainerV::PropertyPages(list)) => match found(list, name) {
            Some(p) => Lookup::Found(p),
            None => Lookup::Missing,
        },
        Some(_) => Lookup::Corrupt,
    }
}

/// The write of one page of a property's history, at the spec level.
pub open spec fn spec_set_property_page(
    s: Seq<StateEntryV>,
    record_id: Seq<char>,
    name: Seq<char>,
    page: u32,
    p: PropertyPageV,
) -> Option<Seq<StateEntryV>> {
    let addr = spec_property_address(record_id, name, page);
    match state_get(s, addr) {
        None => Some(
            state_set(s, addr, ContainerV::PropertyPages(put_with(Seq::empty(), name, p))),
        ),
        Some(ContainerV::PropertyPages(list)) => Some(
            state_set(s, addr, ContainerV::PropertyPages(put_with(list, name, p))),
        ),
        Some(_) => None,
    }
}

/// The read of a whole proposal container, at the spec level.
pub open spec fn spec_get_proposals(
    s: Seq<StateEntryV>,
    record_id: Seq<char>,
    agent_id: Seq<char>,
) -> Lookup<Seq<ProposalV>> {
    match state_get(s, spec_proposal_address(record_id, agent_id)) {
        None => Lookup::Missing,
        Some(ContainerV::Proposals(list)) => Lookup::Found(list),
        Some(_) => Lookup::Corrupt,
    }
}

/// The verbatim write of a whole proposal container, at the spec level.
/// Writers sort the list themselves before writing.
pub open spec fn spec_set_proposals(
    s: Seq<StateEntryV>,
    record_id: Seq<char>,
    agent_id: Seq<char>,
    list: Seq<ProposalV>,
) -> Seq<StateEntryV> {
    state_set(s, spec_proposal_address(record_id, agent_id), ContainerV::Proposals(list))
}

impl SupplyChainState {
    /// A store with nothing read or written yet.
    pub fn new() -> (r: SupplyChainState)
        ensures
            r@ =~= Seq::<StateEntryV>::empty(),
    {
        SupplyChainState { entries: Vec::new() }
    }

    /// The index of the entry at an address, if the address holds one.
    fn find_addr(&self, address: &str) -> (r: Option<usize>)
        ensures
            match r {
                Some(j) => j < self.entries@.len() && find_idx(self@, address@) == Some(j as int),
                None => find_idx(self@, address@) is None,
            },
    {
        let ghost vs = self@;
        let mut i: usize = 0;
        while i < self.entries.len()
            invariant
                i <= self.entries@.len(),
                vs == self@,
                forall|j: int| 0 <= j < i ==> (#[trigger] vs[j].vkey()) != address@,
            decreases self.entries@.len() - i,
        {
            if str_eq(self.entries[i].address.as_str(), address) {
                proof {
                    crate::containers::lemma_find_idx(vs, address@);
                    assert(vs[i as int].vkey() == address@);
                    assert(find_idx(vs, address@) == Some(i as int));
                }
                return Some(i);
            }
            i += 1;
        }
        proof {
            crate::containers::lemma_find_idx(vs, address@);
        }
        None
    }

    /// The container at an address, if the address holds one.
    fn get_state(&self, address: &str) -> (r: Option<&Container>)
        ensures
            match r {
                Some(c) => state_get(self@, address@) == Some(c@),
                None => state_get(self@, address@) is None,
            },
    {
        match self.find_addr(address) {
            Some(j) => Some(&self.entries[j].container),
            None => None,
        }
    }

    /// Reads the record with the given identifier.
    pub fn get_record(&self, record_id: &str) -> (r: Result<Option<Record>, ApplyError>)
        ensures
            match r {
                Ok(Some(x)) => spec_get_record(self@, record_id@) == Lookup::Found(x@),
                Ok(None) => spec_get_record(self@, record_id@) is Missing,
                Err(e) => spec_get_record(self@, record_id@) is Corrupt && e is InternalError,
            },
    {
        let address = make_record_address(record_id);
        match self.get_state(address.as_str()) {
            None => Ok(None),
            Some(c) => match c {
                Container::Records(list) => match find_entity(list, record_id) {
                    Some(x) => Ok(Some(x)),
                    None => Ok(None),
                },
                _ => Err(
                    ApplyError::InternalError(String::from_str(
                        "Cannot deserialize record container",
                    )),
                ),
            },
        }
    }

    /// Writes a record under the given identifier.
    pub fn set_record(&mut self, record_id: &str, record: Record) -> (r: Result<(), ApplyError>)
        ensures
            match spec_set_record(old(self)@, record_id@, record@) {
                Some(s2) => r is Ok && final(self)@ == s2,
                None => r is Err && (r matches Err(e) && e is InternalError) && final(self)@
                    == old(self)@,
            },
    {
        let address = make_record_address(record_id);
        match self.find_addr(address.as_str()) {
            Some(j) => {
                proof {
                    crate::containers::lemma_find_idx(old(self)@, address@);
                    assert(old(self)@[j as int].address == address@);
                }
                let entry = &mut self.entries[j];
                match &mut entry.container {
                    Container::Records(list) => {
                        put_entity(list, record_id, record);
                        proof {
                            assert(final(self)@ =~= spec_set_record(
                                old(self)@,
                                record_id@,
                                record@,
                            ).unwrap());
                        }
                        Ok(())
                    },
                    _ => Err(
                        ApplyError::InternalError(String::from_str(
                            "Cannot deserialize record container",
                        )),
                    ),
                }
            },
            None => {
                let mut list: Vec<Record> = Vec::new();
                proof {
                    assert(views_of(list@) =~= Seq::<RecordV>::empty());
                }
                put_entity(&mut list, record_id, record);
                self.entries.push(StateEntry { address, container: Container::Records(list) });
                proof {
                    assert(final(self)@ =~= spec_set_record(
                        old(self)@,
                        record_id@,
                        record@,
                    ).unwrap());
                }
                Ok(())
            },
        }
    }

    /// Reads the record type with the given name.
    pub fn get_record_type(&self, name: &str) -> (r: Result<Option<RecordType>, ApplyError>)
        ensures
            match r {
                Ok(Some(x)) => spec_get_record_type(self@, name@) == Lookup::Found(x@),
                Ok(None) => spec_get_record_type(self@, name@) is Missing,
                Err(e) => spec_get_record_type(self@, name@) is Corrupt && e is InternalError,
            },
    {
        let address = make_record_type_address(name);
        match self.get_state(address.as_str()) {
            None => Ok(None),
            Some(c) => match c {
                Container::RecordTypes(list) => match find_entity(list, name) {
                    Some(x) => Ok(Some(x)),
                    None => Ok(None),
                },
                _ => Err(
                    ApplyError::InternalError(String::from_str(
                        "Cannot deserialize record type container",
                    )),
                ),
            },
        }
    }

    /// Writes the record type under the given name.
    pub fn set_record_type(&mut self, name: &str, record_type: RecordType) -> (r: Result<(), ApplyError>)
        ensures
            match spec_set_record_type(old(self)@, name@, record_type@) {
                Some(s2) => r is Ok && final(self)@ == s2,
                None => r is Err && (r matches Err(e) && e is InternalError) && final(self)@
                    == old(self)@,
            },
    {
        let address = make_record_type_address(name);
        match self.find_addr(address.as_str()) {
            Some(j) => {
                proof {
                    crate::containers::lemma_find_idx(old(self)@, address@);
                    assert(old(self)@[j as int].address == address@);
                }
                let entry = &mut self.entries[j];
                match &mut entry.container {
                    Container::RecordTypes(list) => {
                        put_entity(list, name, record_type);
                        proof {
                            assert(final(self)@ =~= spec_set_record_type(
                                old(self)@, name@, record_type@,
                            ).unwrap());
                        }
                        Ok(())
                    },
                    _ => Err(
                        ApplyError::InternalError(String::from_str(
                            "Cannot deserialize record container",
                        )),
                    ),
                }
            },
            None => {
                let mut list: Vec<RecordType> = Vec::new();
                proof {
                    assert(views_of(list@) =~= Seq::<RecordTypeV>::empty());
                }
                put_entity(&mut list, name, record_type);
                self.entries.push(StateEntry { address, container: Container::RecordTypes(list) });
                proof {
                    assert(final(self)@ =~= spec_set_record_type(
                        old(self)@, name@, record_type@,
                    ).unwrap());
                }
                Ok(())
            },
        }
    }

    /// Reads the agent with the given public key.
    pub fn get_agent(&self, agent_id: &str) -> (r: Result<Option<Agent>, ApplyError>)
        ensures
            match r {
                Ok(Some(x)) => spec_get_agent(self@, agent_id@) == Lookup::Found(x@),
                Ok(None) => spec_get_agent(self@, agent_id@) is Missing,
                Err(e) => spec_get_agent(self@, agent_id@) is Corrupt && e is InternalError,
            },
    {
        let address = make_agent_address(agent_id);
        match self.get_state(address.as_str()) {
            None => Ok(None),
            Some(c) => match c {
                Container::Agents(list) => match find_entity(list, agent_id) {
                    Some(x) => Ok(Some(x)),
                    None => Ok(None),
                },
                _ => Err(
                    ApplyError::InternalError(String::from_str(
                        "Cannot deserialize agent container",
                    )),
                ),
            },
        }
    }

    /// Writes the agent under the given public key.
    pub fn set_agent(&mut self, agent_id: &str, agent: Agent) -> (r: Result<(), ApplyError>)
        ensures
            match spec_set_agent(old(self)@, agent_id@, agent@) {
                Some(s2) => r is Ok && final(self)@ == s2,
                None => r is Err && (r matches Err(e) && e is InternalError) && final(self)@
                    == old(self)@,
            },
    {
        let address = make_agent_address(agent_id);
        match self.find_addr(address.as_str()) {
            Some(j) => {
                proof {
                    crate::containers::lemma_find_idx(old(self)@, address@);
                    assert(old(self)@[j as int].address == address@);
                }
                let entry = &mut self.entries[j];
                match &mut entry.container {
                    Container::Agents(list) => {
                        put_entity(list, agent_id, agent);
                        proof {
                            assert(final(self)@ =~= spec_set_agent(
                                old(self)@, agent_id@, agent@,
                            ).unwrap());
                        }
                        Ok(())
                    },
                    _ => Err(
                        ApplyError::InternalError(String::from_str(
                            "Cannot deserialize agent container",
                        )),
                    ),
                }
            },
            None => {
                let mut list: Vec<Agent> = Vec::new();
                proof {
                    assert(views_of(list@) =~= Seq::<AgentV>::empty());
                }
                put_entity(&mut list, agent_id, agent);
                self.entries.push(StateEntry { address, container: Container::Agents(list) });
                proof {
                    assert(final(self)@ =~= spec_set_agent(
                        old(self)@, agent_id@, agent@,
                    ).unwrap());
                }
                Ok(())
            },
        }
    }

    /// Reads the metadata of the property with the given name.
    pub fn get_property(&self, record_id: &str, property_name: &str) -> (r: Result<Option<Property>, ApplyError>)
        ensures
            match r {
                Ok(Some(x)) => spec_get_property(self@, record_id@, property_name@) == Lookup::Found(x@),
                Ok(None) => spec_get_property(self@, record_id@, property_name@) is Missing,
                Err(e) => spec_get_property(self@, record_id@, property_name@) is Corrupt && e is InternalError,
            },
    {
        let address = make_property_address(record_id, property_name, 0);
        match self.get_state(address.as_str()) {
            None => Ok(None),
            Some(c) => match c {
                Container::Properties(list) => match find_entity(list, property_name) {
                    Some(x) => Ok(Some(x)),
                    None => Ok(None),
                },
                _ => Err(
                    ApplyError::InternalError(String::from_str(
                        "Cannot deserialize property container",
                    )),
                ),
            },
        }
    }

    /// Writes the metadata of the property with the given name.
    pub fn set_property(&mut self, record_id: &str, property_name: &str, property: Property) -> (r: Result<(), ApplyError>)
        ensures
            match spec_set_property(old(self)@, record_id@, property_name@, property@) {
                Some(s2) => r is Ok && final(self)@ == s2,
                None => r is Err && (r matches Err(e) && e is InternalError) && final(self)@
                    == old(self)@,
            },
    {
        let address = make_property_address(record_id, property_name, 0);
        match self.find_addr(address.as_str()) {
            Some(j) => {
                proof {
                    crate::containers::lemma_find_idx(old(self)@, address@);
                    assert(old(self)@[j as int].address == address@);
                }
                let entry = &mut self.entries[j];
                match &mut entry.container {
                    Container::Properties(list) => {
                        put_entity(list, property_name, property);
                        proof {
                            assert(final(self)@ =~= spec_set_property(
                                old(self)@, record_id@, property_name@, property@,
                            ).unwrap());
                        }
                        Ok(())
                    },
                    _ => Err(
                        ApplyError::InternalError(String::from_str(
                            "Cannot deserialize property container",
                        )),
                    ),
                }
            },
            None => {
                let mut list: Vec<Property> = Vec::new();
                proof {
                    assert(views_of(list@) =~= Seq::<PropertyV>::empty());
                }
                put_entity(&mut list, property_name, property);
                self.entries.push(StateEntry { address, container: Container::Properties(list) });
                proof {
                    assert(final(self)@ =~= spec_set_property(
                        old(self)@, record_id@, property_name@, property@,
                    ).unwrap());
                }
                Ok(())
            },
        }
    }

    /// Reads the given page of the property's history.
    pub fn get_property_page(&self, record_id: &str, property_name: &str, page: u32) -> (r: Result<Option<PropertyPage>, ApplyError>)
        ensures
            match r {
                Ok(Some(x)) => spec_get_property_page(self@, record_id@, property_name@, page) == Lookup::Found(x@),
                Ok(None) => spec_get_property_page(self@, record_id@, property_name@, page) is Missing,
                Err(e) => spec_get_property_page(self@, record_id@, property_name@, page) is Corrupt && e is InternalError,
            },
    {
        let address = make_property_address(record_id, property_name, page);
        match self.get_state(address.as_str()) {
            None => Ok(None),
            Some(c) => match c {
                Container::PropertyPages(list) => match find_entity(list, property_name) {
                    Some(x) => Ok(Some(x)),
                    None => Ok(None),
                },
                _ => Err(
                    ApplyError::InternalError(String::from_str(
                        "Cannot deserialize property page container",
                    )),
                ),
            },
        }
    }

    /// Writes the given page of the property's history.
    pub fn set_property_page(&mut self, record_id: &str, property_name: &str, page_num: u32, property_page: PropertyPage) -> (r: Result<(), ApplyError>)
        ensures
            match spec_set_property_page(old(self)@, record_id@, property_name@, page_num, property_page@) {
                Some(s2) => r is Ok && final(self)@ == s2,
                None => r is Err && (r matches Err(e) && e is InternalError) && final(self)@
                    == old(self)@,
            },
    {
        let address = make_property_address(record_id, property_name, page_num);
        match self.find_addr(address.as_str()) {
            Some(j) => {
                proof {
                    crate::containers::lemma_find_idx(old(self)@, address@);
                    assert(old(self)@[j as int].address == address@);
                }
                let entry = &mut self.entries[j];
                match &mut entry.container {
                    Container::PropertyPages(list) => {
                        put_entity(list, property_name, property_page);
                        proof {
                            assert(final(self)@ =~= spec_set_property_page(
                                old(self)@, record_id@, property_name@, page_num, property_page@,
                            ).unwrap());
                        }
                        Ok(())
                    },
                    _ => Err(
                        ApplyError::InternalError(String::from_str(
                            "Cannot deserialize property page container",
                        )),
                    ),
                }
            },
            None => {
                let mut list: Vec<PropertyPage> = Vec::new();
                proof {
                    assert(views_of(list@) =~= Seq::<PropertyPageV>::empty());
                }
                put_entity(&mut list, property_name, property_page);
                self.entries.push(StateEntry { address, container: Container::PropertyPages(list) });
                proof {
                    assert(final(self)@ =~= spec_set_property_page(
                        old(self)@, record_id@, property_name@, page_num, property_page@,
                    ).unwrap());
                }
                Ok(())
            },
        }
    }

    /// Reads the whole proposal container for a record and receiving
    /// agent. Handlers iterate its open proposals and rewrite by index.
    pub fn get_proposal_container(&self, record_id: &str, agent_id: &str) -> (r: Result<
        Option<Vec<Proposal>>,
        ApplyError,
    >)
        ensures
            match r {
                Ok(Some(x)) => spec_get_proposals(self@, record_id@, agent_id@) == Lookup::Found(
                    views_of(x@),
                ),
                Ok(None) => spec_get_proposals(self@, record_id@, agent_id@) is Missing,
                Err(e) => spec_get_proposals(self@, record_id@, agent_id@) is Corrupt
                    && e is InternalError,
            },
    {
        let address = make_proposal_address(record_id, agent_id);
        match self.get_state(address.as_str()) {
            None => Ok(None),
            Some(c) => match c {
                Container::Proposals(list) => {
                    let copy = clone_proposals(list);
                    proof {
                        assert(views_of(copy@) =~= views_of(list@));
                    }
                    Ok(Some(copy))
                },
                _ => Err(
                    ApplyError::InternalError(String::from_str(
                        "Cannot deserialize proposal container",
                    )),
                ),
            },
        }
    }

    /// Writes a whole proposal container verbatim; callers sort the list
    /// by (record id, receiving agent, timestamp) before writing.
    pub fn set_proposal_container(
        &mut self,
        record_id: &str,
        agent_id: &str,
        proposals: Vec<Proposal>,
    ) -> (r: Result<(), ApplyError>)
        ensures
            r is Ok,
            final(self)@ == spec_set_proposals(
                old(self)@,
                record_id@,
                agent_id@,
                views_of(proposals@),
            ),
    {
        let address = make_proposal_address(record_id, agent_id);
        match self.find_addr(address.as_str()) {
            Some(j) => {
                proof {
                    crate::containers::lemma_find_idx(old(self)@, address@);
                }
                self.entries.set(
                    j,
                    StateEntry { address, container: Container::Proposals(proposals) },
                );
                proof {
                    assert(final(self)@ =~= spec_set_proposals(
                        old(self)@,
                        record_id@,
                        agent_id@,
                        views_of(proposals@),
                    ));
                }
                Ok(())
            },
            None => {
                self.entries.push(
                    StateEntry { address, container: Container::Proposals(proposals) },
                );
                proof {
                    assert(final(self)@ =~= spec_set_proposals(
                        old(self)@,
                        record_id@,
                        agent_id@,
                        views_of(proposals@),
                    ));
                }
                Ok(())
            },
        }
    }
}

} // verus!
