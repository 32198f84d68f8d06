//! The transaction handler: family identity, payload dispatch, and the
//! simpler action handlers.
//!
//! `apply` validates the payload and routes it to the handler for its
//! action. Each handler's contract equates the executable outcome with a
//! spec-level step function of the prior state, so that any two runs over
//! the same transaction sequence reach the same state (the determinism
//! contract).

use vstd::prelude::*;

use crate::addressing::get_supply_chain_prefix;
use crate::entities::{Agent, AgentV, Record, RecordType, RecordTypeV, RecordV};
use crate::errors::ApplyError;
use crate::payload::{
    Action, CreateAgentAction, CreateAgentActionV, CreateRecordTypeAction,
    CreateRecordTypeActionV, FinalizeRecordAction, FinalizeRecordActionV, SCPayload,
    SupplyChainPayload,
};
use crate::state::{
    spec_get_agent, spec_get_record, spec_get_record_type, spec_set_agent, spec_set_record,
    spec_set_record_type, step_internal, step_invalid, step_matches, step_ok, Lookup, Step,
    SupplyChainState,
};
use crate::strings_order::str_eq;

verus! {

/// A transaction as delivered by the host: the payload and the verified
/// public key of its signer.
#[derive(Debug)]
pub struct TpProcessRequest {
    pub payload: SCPayload,
    pub signer_public_key: String,
}

/// Registering an agent: the signer must not already be one.
pub open spec fn spec_create_agent(
    s: Seq<crate::state::StateEntryV>,
    a: CreateAgentActionV,
    signer: Seq<char>,
    timestamp: u64,
) -> Step {
    match spec_get_agent(s, signer) {
        Lookup::Corrupt => step_internal(s),
        Lookup::Found(_) => step_invalid(s),
        Lookup::Missing => match spec_set_agent(
            s,
            signer,
            AgentV { public_key: signer, name: a.name, timestamp },
        ) {
            Some(s2) => step_ok(s2),
            None => step_internal(s),
        },
    }
}

/// Registering a record type: the signer must be an agent and the name
/// must be new. The ordered property schemata are stored verbatim.
pub open spec fn spec_create_record_type(
    s: Seq<crate::state::StateEntryV>,
    a: CreateRecordTypeActionV,
    signer: Seq<char>,
) -> Step {
    match spec_get_agent(s, signer) {
        Lookup::Corrupt => step_internal(s),
        Lookup::Missing => step_invalid(s),
        Lookup::Found(_) => match spec_get_record_type(s, a.name) {
            Lookup::Corrupt => step_internal(s),
            Lookup::Found(_) => step_invalid(s),
            Lookup::Missing => match spec_set_record_type(
                s,
                a.name,
                RecordTypeV { name: a.name, properties: a.properties },
            ) {
                Some(s2) => step_ok(s2),
                None => step_internal(s),
            },
        },
    }
}

/// Finalizing a record: the record must exist, the signer must be both
/// its current owner and its current custodian, and it must not already
/// be final. A final record rejects all further mutation.
pub open spec fn spec_finalize_record(
    s: Seq<crate::state::StateEntryV>,
    a: FinalizeRecordActionV,
    signer: Seq<char>,
) -> Step {
    match spec_get_record(s, a.record_id) {
        Lookup::Corrupt => step_internal(s),
        Lookup::Missing => step_invalid(s),
        Lookup::Found(r) => {
            if r.owners.len() == 0 {
                step_invalid(s)
            } else if r.custodians.len() == 0 {
                step_invalid(s)
            } else if r.owners.last().agent_id != signer || r.custodians.last().agent_id
                != signer {
                step_invalid(s)
            } else if r.field_final {
                step_invalid(s)
            } else {
                match spec_set_record(s, a.record_id, RecordV { field_final: true, ..r }) {
                    Some(s2) => step_ok(s2),
                    None => step_internal(s),
                }
            }
        },
    }
}

/// The transaction handler bound to the `supply_chain` family.
#[derive(Debug)]
pub struct SupplyChainTransactionHandler {
    pub family_name: String,
    pub family_versions: Vec<String>,
    pub namespaces: Vec<String>,
}

impl SupplyChainTransactionHandler {
    /// A handler for family `supply_chain`, version `1.1`, scoped to the
    /// family's namespace prefix.
    pub fn new() -> (r: SupplyChainTransactionHandler)
        ensures
            r.family_name@ == "supply_chain"@,
            r.family_versions@.len() == 1 && r.family_versions@[0]@ == "1.1"@,
            r.namespaces@.len() == 1 && r.namespaces@[0]@
                == crate::addressing::spec_namespace_prefix(),
    {
        let mut versions: Vec<String> = Vec::new();
        versions.push(String::from_str("1.1"));
        let mut namespaces: Vec<String> = Vec::new();
        namespaces.push(get_supply_chain_prefix());
        SupplyChainTransactionHandler {
            family_name: String::from_str("supply_chain"),
            family_versions: versions,
            namespaces,
        }
    }

    /// The family name this handler serves.
    pub fn family_name(&self) -> (r: String)
        ensures
            r@ == self.family_name@,
    {
        self.family_name.clone()
    }

    /// The family versions this handler serves.
    pub fn family_versions(&self) -> (r: Vec<String>)
        ensures
            r@.len() == self.family_versions@.len(),
            forall|i: int|
                0 <= i < r@.len() ==> (#[trigger] r@[i]@) == self.family_versions@[i]@,
    {
        crate::entities::clone_strings(&self.family_versions)
    }

    /// The address namespaces this handler serves.
    pub fn namespaces(&self) -> (r: Vec<String>)
        ensures
            r@.len() == self.namespaces@.len(),
            forall|i: int| 0 <= i < r@.len() ==> (#[trigger] r@[i]@) == self.namespaces@[i]@,
    {
        crate::entities::clone_strings(&self.namespaces)
    }

    /// Registers the signer as an agent.
    pub fn create_agent(
        &self,
        payload: CreateAgentAction,
        state: &mut SupplyChainState,
        signer: &str,
        timestamp: u64,
    ) -> (r: Result<(), ApplyError>)
        ensures
            step_matches(
                spec_create_agent(old(state)@, payload@, signer@, timestamp),
                final(state)@,
                r,
            ),
    {
        match state.get_agent(signer) {
            Ok(Some(_)) => {
                return Err(
                    ApplyError::InvalidTransaction(
                        String::from_str("Agent already exists: ").concat(payload.name.as_str()),
                    ),
                );
            },
            Ok(None) => (),
            Err(err) => {
                return Err(err);
            },
        }
        let new_agent = Agent {
            public_key: String::from_str(signer),
            name: payload.name,
            timestamp,
        };
        state.set_agent(signer, new_agent)?;
        Ok(())
    }

    /// Registers a record type under a new name.
    pub fn create_record_type(
        &self,
        payload: CreateRecordTypeAction,
        state: &mut SupplyChainState,
        signer: &str,
    ) -> (r: Result<(), ApplyError>)
        ensures
            step_matches(
                spec_create_record_type(old(state)@, payload@, signer@),
                final(state)@,
                r,
            ),
    {
        match state.get_agent(signer) {
            Ok(Some(_)) => (),
            Ok(None) => {
                return Err(
                    ApplyError::InvalidTransaction(
                        String::from_str("Agent is not register: ").concat(signer),
                    ),
                );
            },
            Err(err) => {
                return Err(err);
            },
        }
        match state.get_record_type(payload.name.as_str()) {
            Ok(Some(_)) => {
                return Err(
                    ApplyError::InvalidTransaction(
                        String::from_str("Record type already exists: ").concat(signer),
                    ),
                );
            },
            Ok(None) => (),
            Err(err) => {
                return Err(err);
            },
        }
        let record_type = RecordType { name: payload.name.clone(), properties: payload.properties };
        proof {
            assert(record_type@ == RecordTypeV {
                name: payload@.name,
                properties: payload@.properties,
            });
        }
        state.set_record_type(payload.name.as_str(), record_type)?;
        Ok(())
    }

    /// Marks a record final; only its current owner-and-custodian may.
    pub fn finalize_record(
        &self,
        payload: FinalizeRecordAction,
        state: &mut SupplyChainState,
        signer: &str,
    ) -> (r: Result<(), ApplyError>)
        ensures
            step_matches(spec_finalize_record(old(state)@, payload@, signer@), final(state)@, r),
    {
        let record_id = payload.record_id.as_str();
        let final_record = match state.get_record(record_id) {
            Ok(Some(final_record)) => final_record,
            Ok(None) => {
                return Err(
                    ApplyError::InvalidTransaction(
                        String::from_str("Record does not exist: ").concat(record_id),
                    ),
                );
            },
            Err(err) => {
                return Err(err);
            },
        };
        if final_record.owners.len() == 0 {
            return Err(ApplyError::InvalidTransaction(String::from_str("Owner was not found")));
        }
        let owner = &final_record.owners[final_record.owners.len() - 1];
        if final_record.custodians.len() == 0 {
            return Err(
                ApplyError::InvalidTransaction(String::from_str("Custodian was not found")),
            );
        }
        let custodian = &final_record.custodians[final_record.custodians.len() - 1];
        if !str_eq(owner.agent_id.as_str(), signer) || !str_eq(custodian.agent_id.as_str(), signer)
            {
            return Err(
                ApplyError::InvalidTransaction(
                    String::from_str("Must be owner and custodian to finalize record"),
                ),
            );
        }
        if final_record.field_final {
            return Err(
                ApplyError::InvalidTransaction(
                    String::from_str("Record is already final: ").concat(record_id),
                ),
            );
        }
        let mut record_clone = final_record;
        record_clone.field_final = true;
        proof {
            let ghost rv = spec_get_record(old(state)@, payload@.record_id)->Found_0;
            assert(record_clone@ == RecordV { field_final: true, ..rv });
        }
        state.set_record(record_id, record_clone)?;
        Ok(())
    }
}


/// Applying one transaction: validate the payload, then run the handler
/// of its action against the state, as a function of the prior state,
/// the payload, and the signer alone.
pub open spec fn spec_apply(
    s: Seq<crate::state::StateEntryV>,
    p: crate::payload::SCPayloadV,
    signer: Seq<char>,
) -> Step {
    match crate::payload::spec_decode_payload(p) {
        None => step_invalid(s),
        Some((action, ts)) => match action {
            crate::payload::ActionV::CreateAgent(a) => spec_create_agent(s, a, signer, ts),
            crate::payload::ActionV::CreateRecord(a) => crate::records::spec_create_record(
                s,
                a,
                signer,
                ts,
            ),
            crate::payload::ActionV::FinalizeRecord(a) => spec_finalize_record(s, a, signer),
            crate::payload::ActionV::CreateRecordType(a) => spec_create_record_type(s, a, signer),
            crate::payload::ActionV::UpdateProperties(a) => crate::records::spec_update_properties(
                s,
                a,
                signer,
                ts,
            ),
            crate::payload::ActionV::CreateProposal(a) => crate::proposals::spec_create_proposal(
                s,
                a,
                signer,
                ts,
            ),
            crate::payload::ActionV::AnswerProposal(a) => crate::proposals::spec_answer_proposal(
                s,
                a,
                signer,
                ts,
            ),
            crate::payload::ActionV::RevokeReporter(a) => crate::proposals::spec_revoke_reporter(
                s,
                a,
                signer,
            ),
        },
    }
}

impl SupplyChainTransactionHandler {
    /// Validates the request's payload and applies its action to the
    /// state. Any error leaves the transaction rejected; the host rolls
    /// back whatever was written.
    pub fn apply(&self, request: &TpProcessRequest, state: &mut SupplyChainState) -> (r: Result<
        (),
        ApplyError,
    >)
        ensures
            step_matches(
                spec_apply(old(state)@, request.payload@, request.signer_public_key@),
                final(state)@,
                r,
            ),
    {
        let payload = SupplyChainPayload::new(&request.payload);
        let payload = match payload {
            Err(e) => {
                return Err(e);
            },
            Ok(payload) => payload,
        };
        let payload = match payload {
            Some(x) => x,
            None => {
                return Err(
                    ApplyError::InvalidTransaction(
                        String::from_str("Request must contain a payload"),
                    ),
                );
            },
        };
        let signer = request.signer_public_key.as_str();
        let timestamp = payload.get_timestamp();
        match payload.get_action() {
            crate::payload::Action::CreateAgent(agent_payload) => self.create_agent(
                agent_payload,
                state,
                signer,
                timestamp,
            )?,
            crate::payload::Action::CreateRecord(record_payload) => self.create_record(
                record_payload,
                state,
                signer,
                timestamp,
            )?,
            crate::payload::Action::FinalizeRecord(finalize_payload) => self.finalize_record(
                finalize_payload,
                state,
                signer,
            )?,
            crate::payload::Action::CreateRecordType(record_type_payload) => self
                .create_record_type(record_type_payload, state, signer)?,
            crate::payload::Action::UpdateProperties(update_properties_payload) => self
                .update_properties(update_properties_payload, state, signer, timestamp)?,
            crate::payload::Action::CreateProposal(proposal_payload) => self.create_proposal(
                proposal_payload,
                state,
                signer,
                timestamp,
            )?,
            crate::payload::Action::AnswerProposal(answer_proposal_payload) => self
                .answer_proposal(answer_proposal_payload, state, signer, timestamp)?,
            crate::payload::Action::RevokeReporter(revoke_reporter_payload) => self
                .revoke_reporter(revoke_reporter_payload, state, signer)?,
        }
        Ok(())
    }
}

} // verus!
