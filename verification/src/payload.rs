//! Transaction payloads: the tagged action union and its validation.
//!
//! A payload carries an action tag, a timestamp, and one action body.
//! Validation rejects a zero timestamp and the minimal structural faults
//! (empty required identifiers, a record type without properties); all
//! deeper checks belong to the handlers.

use vstd::prelude::*;

use crate::entities::{
    clone_strings, clone_values, schema_view, value_view, PropertySchema, PropertySchemaV,
    PropertyValue, PropertyValueV, Role,
};
use crate::errors::ApplyError;

verus! {

/// The receiving agent's (or issuer's) answer to a proposal.
#[derive(Clone, Copy, PartialEq, Eq, Structural, Debug)]
pub enum Response {
    Accept,
    Reject,
    Cancel,
}

#[derive(Debug)]
pub struct CreateAgentAction {
    pub name: String,
}

pub ghost struct CreateAgentActionV {
    pub name: Seq<char>,
}

impl View for CreateAgentAction {
    type V = CreateAgentActionV;

    open spec fn view(&self) -> CreateAgentActionV {
        CreateAgentActionV { name: self.name@ }
    }
}

impl Clone for CreateAgentAction {
    fn clone(&self) -> (res: Self)
        ensures
            res@ == self@,
    {
        CreateAgentAction { name: self.name.clone() }
    }
}

#[derive(Debug)]
pub struct CreateRecordAction {
    pub record_id: String,
    pub record_type: String,
    pub properties: Vec<PropertyValue>,
}

pub ghost struct CreateRecordActionV {
    pub record_id: Seq<char>,
    pub record_type: Seq<char>,
    pub properties: Seq<PropertyValueV>,
}

impl View for CreateRecordAction {
    type V = CreateRecordActionV;

    open spec fn view(&self) -> CreateRecordActionV {
        CreateRecordActionV {
            record_id: self.record_id@,
            record_type: self.record_type@,
            properties: Seq::new(self.properties@.len(), |i: int| self.properties@[i]@),
        }
    }
}

impl Clone for CreateRecordAction {
    fn clone(&self) -> (res: Self)
        ensures
            res@ == self@,
    {
        let res = CreateRecordAction {
            record_id: self.record_id.clone(),
            record_type: self.record_type.clone(),
            properties: clone_values(&self.properties),
        };
        proof {
            assert forall|i: int| 0 <= i < self.properties@.len() implies value_view(
                res.properties@[i],
            ) == value_view(self.properties@[i]) by {
                assert(res.properties@[i]@ == self.properties@[i]@);
            }
            assert(res@.properties =~= self@.properties);
        }
        res
    }
}

#[derive(Debug)]
pub struct FinalizeRecordAction {
    pub record_id: String,
}

pub ghost struct FinalizeRecordActionV {
    pub record_id: Seq<char>,
}

impl View for FinalizeRecordAction {
    type V = FinalizeRecordActionV;

    open spec fn view(&self) -> FinalizeRecordActionV {
        FinalizeRecordActionV { record_id: self.record_id@ }
    }
}

impl Clone for FinalizeRecordAction {
    fn clone(&self) -> (res: Self)
        ensures
            res@ == self@,
    {
        FinalizeRecordAction { record_id: self.record_id.clone() }
    }
}

#[derive(Debug)]
pub struct CreateRecordTypeAction {
    pub name: String,
    pub properties: Vec<PropertySchema>,
}

pub ghost struct CreateRecordTypeActionV {
    pub name: Seq<char>,
    pub properties: Seq<PropertySchemaV>,
}

impl View for CreateRecordTypeAction {
    type V = CreateRecordTypeActionV;

    open spec fn view(&self) -> CreateRecordTypeActionV {
        CreateRecordTypeActionV {
            name: self.name@,
            properties: Seq::new(self.properties@.len(), |i: int| self.properties@[i]@),
        }
    }
}

impl Clone for CreateRecordTypeAction {
    fn clone(&self) -> (res: Self)
        ensures
            res@ == self@,
    {
        let res = CreateRecordTypeAction {
            name: self.name.clone(),
            properties: crate::entities::clone_schemata(&self.properties),
        };
        proof {
            assert forall|i: int| 0 <= i < self.properties@.len() implies schema_view(
                res.properties@[i],
            ) == schema_view(self.properties@[i]) by {
                assert(res.properties@[i]@ == self.properties@[i]@);
            }
            assert(res@.properties =~= self@.properties);
        }
        res
    }
}

#[derive(Debug)]
pub struct UpdatePropertiesAction {
    pub record_id: String,
    pub properties: Vec<PropertyValue>,
}

pub ghost struct UpdatePropertiesActionV {
    pub record_id: Seq<char>,
    pub properties: Seq<PropertyValueV>,
}

impl View for UpdatePropertiesAction {
    type V = UpdatePropertiesActionV;

    open spec fn view(&self) -> UpdatePropertiesActionV {
        UpdatePropertiesActionV {
            record_id: self.record_id@,
            properties: Seq::new(self.properties@.len(), |i: int| self.properties@[i]@),
        }
    }
}

impl Clone for UpdatePropertiesAction {
    fn clone(&self) -> (res: Self)
        ensures
            res@ == self@,
    {
        let res = UpdatePropertiesAction {
            record_id: self.record_id.clone(),
            properties: clone_values(&self.properties),
        };
        proof {
            assert forall|i: int| 0 <= i < self.properties@.len() implies value_view(
                res.properties@[i],
            ) == value_view(self.properties@[i]) by {
                assert(res.properties@[i]@ == self.properties@[i]@);
            }
            assert(res@.properties =~= self@.properties);
        }
        res
    }
}

#[derive(Debug)]
pub struct CreateProposalAction {
    pub record_id: String,
    pub receiving_agent: String,
    pub role: Role,
    pub properties: Vec<String>,
}

pub ghost struct CreateProposalActionV {
    pub record_id: Seq<char>,
    pub receiving_agent: Seq<char>,
    pub role: Role,
    pub properties: Seq<Seq<char>>,
}

impl View for CreateProposalAction {
    type V = CreateProposalActionV;

    open spec fn view(&self) -> CreateProposalActionV {
        CreateProposalActionV {
            record_id: self.record_id@,
            receiving_agent: self.receiving_agent@,
            role: self.role,
            properties: Seq::new(self.properties@.len(), |i: int| self.properties@[i]@),
        }
    }
}

impl Clone for CreateProposalAction {
    fn clone(&self) -> (res: Self)
        ensures
            res@ == self@,
    {
        let res = CreateProposalAction {
            record_id: self.record_id.clone(),
            receiving_agent: self.receiving_agent.clone(),
            role: self.role,
            properties: clone_strings(&self.properties),
        };
        proof {
            assert(res@.properties =~= self@.properties);
        }
        res
    }
}

#[derive(Debug)]
pub struct AnswerProposalAction {
    pub record_id: String,
    pub receiving_agent: String,
    pub role: Role,
    pub response: Response,
}

pub ghost struct AnswerProposalActionV {
    pub record_id: Seq<char>,
    pub receiving_agent: Seq<char>,
    pub role: Role,
    pub response: Response,
}

impl View for AnswerProposalAction {
    type V = AnswerProposalActionV;

    open spec fn view(&self) -> AnswerProposalActionV {
        AnswerProposalActionV {
            record_id: self.record_id@,
            receiving_agent: self.receiving_agent@,
            role: self.role,
            response: self.response,
        }
    }
}

impl Clone for AnswerProposalAction {
    fn clone(&self) -> (res: Self)
        ensures
            res@ == self@,
    {
        AnswerProposalAction {
            record_id: self.record_id.clone(),
            receiving_agent: self.receiving_agent.clone(),
            role: self.role,
            response: self.response,
        }
    }
}

#[derive(Debug)]
pub struct RevokeReporterAction {
    pub record_id: String,
    pub reporter_id: String,
    pub properties: Vec<String>,
}

pub ghost struct RevokeReporterActionV {
    pub record_id: Seq<char>,
    pub reporter_id: Seq<char>,
    pub properties: Seq<Seq<char>>,
}

impl View for RevokeReporterAction {
    type V = RevokeReporterActionV;

    open spec fn view(&self) -> RevokeReporterActionV {
        RevokeReporterActionV {
            record_id: self.record_id@,
            reporter_id: self.reporter_id@,
            properties: Seq::new(self.properties@.len(), |i: int| self.properties@[i]@),
        }
    }
}

impl Clone for RevokeReporterAction {
    fn clone(&self) -> (res: Self)
        ensures
            res@ == self@,
    {
        let res = RevokeReporterAction {
            record_id: self.record_id.clone(),
            reporter_id: self.reporter_id.clone(),
            properties: clone_strings(&self.properties),
        };
        proof {
            assert(res@.properties =~= self@.properties);
        }
        res
    }
}

/// The action tag of a payload.
#[derive(Clone, Copy, PartialEq, Eq, Structural, Debug)]
pub enum SCPayloadAction {
    CreateAgent,
    CreateRecord,
    FinalizeRecord,
    CreateRecordType,
    UpdateProperties,
    CreateProposal,
    AnswerProposal,
    RevokeReporter,
}

/// A payload as delivered: an action tag, a timestamp, and one body per
/// action (the tag selects which body is meaningful; the others carry
/// defaults).
#[derive(Debug)]
pub struct SCPayload {
    pub action: SCPayloadAction,
    pub timestamp: u64,
    pub create_agent: CreateAgentAction,
    pub create_record: CreateRecordAction,
    pub finalize_record: FinalizeRecordAction,
    pub create_record_type: CreateRecordTypeAction,
    pub update_properties: UpdatePropertiesAction,
    pub create_proposal: CreateProposalAction,
    pub answer_proposal: AnswerProposalAction,
    pub revoke_reporter: RevokeReporterAction,
}

pub ghost struct SCPayloadV {
    pub action: SCPayloadAction,
    pub timestamp: u64,
    pub create_agent: CreateAgentActionV,
    pub create_record: CreateRecordActionV,
    pub finalize_record: FinalizeRecordActionV,
    pub create_record_type: CreateRecordTypeActionV,
    pub update_properties: UpdatePropertiesActionV,
    pub create_proposal: CreateProposalActionV,
    pub answer_proposal: AnswerProposalActionV,
    pub revoke_reporter: RevokeReporterActionV,
}

impl View for SCPayload {
    type V = SCPayloadV;

    open spec fn view(&self) -> SCPayloadV {
        SCPayloadV {
            action: self.action,
            timestamp: self.timestamp,
            create_agent: self.create_agent@,
            create_record: self.create_record@,
            finalize_record: self.finalize_record@,
            create_record_type: self.create_record_type@,
            update_properties: self.update_properties@,
            create_proposal: self.create_proposal@,
            answer_proposal: self.answer_proposal@,
            revoke_reporter: self.revoke_reporter@,
        }
    }
}

/// The validated action of a payload.
#[derive(Debug)]
pub enum Action {
    CreateAgent(CreateAgentAction),
    CreateRecord(CreateRecordAction),
    FinalizeRecord(FinalizeRecordAction),
    CreateRecordType(CreateRecordTypeAction),
    UpdateProperties(UpdatePropertiesAction),
    CreateProposal(CreateProposalAction),
    AnswerProposal(AnswerProposalAction),
    RevokeReporter(RevokeReporterAction),
}

pub ghost enum ActionV {
    CreateAgent(CreateAgentActionV),
    CreateRecord(CreateRecordActionV),
    FinalizeRecord(FinalizeRecordActionV),
    CreateRecordType(CreateRecordTypeActionV),
    UpdateProperties(UpdatePropertiesActionV),
    CreateProposal(CreateProposalActionV),
    AnswerProposal(AnswerProposalActionV),
    RevokeReporter(RevokeReporterActionV),
}

impl View for Action {
    type V = ActionV;

    open spec fn view(&self) -> ActionV {
        match self {
            Action::CreateAgent(a) => ActionV::CreateAgent(a@),
            Action::CreateRecord(a) => ActionV::CreateRecord(a@),
            Action::FinalizeRecord(a) => ActionV::FinalizeRecord(a@),
            Action::CreateRecordType(a) => ActionV::CreateRecordType(a@),
            Action::UpdateProperties(a) => ActionV::UpdateProperties(a@),
            Action::CreateProposal(a) => ActionV::CreateProposal(a@),
            Action::AnswerProposal(a) => ActionV::AnswerProposal(a@),
            Action::RevokeReporter(a) => ActionV::RevokeReporter(a@),
        }
    }
}

impl Clone for Action {
    fn clone(&self) -> (res: Self)
        ensures
            res@ == self@,
    {
        match self {
            Action::CreateAgent(a) => Action::CreateAgent(a.clone()),
            Action::CreateRecord(a) => Action::CreateRecord(a.clone()),
            Action::FinalizeRecord(a) => Action::FinalizeRecord(a.clone()),
            Action::CreateRecordType(a) => Action::CreateRecordType(a.clone()),
            Action::UpdateProperties(a) => Action::UpdateProperties(a.clone()),
            Action::CreateProposal(a) => Action::CreateProposal(a.clone()),
            Action::AnswerProposal(a) => Action::AnswerProposal(a.clone()),
            Action::RevokeReporter(a) => Action::RevokeReporter(a.clone()),
        }
    }
}

/// The validated action and timestamp of a payload, or nothing when
/// validation rejects it: a zero timestamp, an empty agent name, an empty
/// record identifier, an empty record type name, a record type without
/// properties, or a record type property with an empty name.
pub open spec fn spec_decode_payload(p: SCPayloadV) -> Option<(ActionV, u64)> {
    let action = match p.action {
        SCPayloadAction::CreateAgent => if p.create_agent.name.len() == 0 {
            None
        } else {
            Some(ActionV::CreateAgent(p.create_agent))
        },
        SCPayloadAction::CreateRecord => if p.create_record.record_id.len() == 0 {
            None
        } else {
            Some(ActionV::CreateRecord(p.create_record))
        },
        SCPayloadAction::FinalizeRecord => Some(ActionV::FinalizeRecord(p.finalize_record)),
        SCPayloadAction::CreateRecordType => if p.create_record_type.name.len() == 0
            || p.create_record_type.properties.len() == 0 || (exists|i: int|
            0 <= i < p.create_record_type.properties.len()
                && p.create_record_type.properties[i].name.len() == 0) {
            None
        } else {
            Some(ActionV::CreateRecordType(p.create_record_type))
        },
        SCPayloadAction::UpdateProperties => Some(ActionV::UpdateProperties(p.update_properties)),
        SCPayloadAction::CreateProposal => Some(ActionV::CreateProposal(p.create_proposal)),
        SCPayloadAction::AnswerProposal => Some(ActionV::AnswerProposal(p.answer_proposal)),
        SCPayloadAction::RevokeReporter => Some(ActionV::RevokeReporter(p.revoke_reporter)),
    };
    match action {
        None => None,
        Some(a) => if p.timestamp == 0 {
            None
        } else {
            Some((a, p.timestamp))
        },
    }
}

/// A validated payload: the action and its timestamp.
#[derive(Debug)]
pub struct SupplyChainPayload {
    pub action: Action,
    pub timestamp: u64,
}

impl SupplyChainPayload {
    /// Validates a delivered payload. Rejection is always an invalid
    /// transaction; a structurally valid payload is always accepted.
    #[verifier::loop_isolation(false)]
    pub fn new(payload: &SCPayload) -> (r: Result<Option<SupplyChainPayload>, ApplyError>)
        ensures
            match r {
                Ok(Some(pl)) => spec_decode_payload(payload@) == Some((pl.action@, pl.timestamp)),
                Ok(None) => false,
                Err(e) => spec_decode_payload(payload@) is None && e is InvalidTransaction,
            },
    {
        let action = match payload.action {
            SCPayloadAction::CreateAgent => {
                if payload.create_agent.name.as_str().is_empty() {
                    return Err(
                        ApplyError::InvalidTransaction(String::from_str(
                            "Agent name cannot be an empty string",
                        )),
                    );
                }
                Action::CreateAgent(payload.create_agent.clone())
            },
            SCPayloadAction::CreateRecord => {
                if payload.create_record.record_id.as_str().is_empty() {
                    return Err(
                        ApplyError::InvalidTransaction(String::from_str(
                            "Record id cannot be empty string",
                        )),
                    );
                }
                Action::CreateRecord(payload.create_record.clone())
            },
            SCPayloadAction::FinalizeRecord => Action::FinalizeRecord(
                payload.finalize_record.clone(),
            ),
            SCPayloadAction::CreateRecordType => {
                if payload.create_record_type.name.as_str().is_empty() {
                    return Err(
                        ApplyError::InvalidTransaction(String::from_str(
                            "Record Type name cannot be an empty string",
                        )),
                    );
                }
                let properties = &payload.create_record_type.properties;
                if properties.len() == 0 {
                    return Err(
                        ApplyError::InvalidTransaction(String::from_str(
                            "Record type must have at least one property",
                        )),
                    );
                }
                let mut i: usize = 0;
                while i < properties.len()
                    invariant
                        i <= properties@.len(),
                        forall|j: int|
                            0 <= j < i ==> (#[trigger] properties@[j]@.name).len() > 0,
                    decreases properties@.len() - i,
                {
                    if properties[i].name.as_str().is_empty() {
                        proof {
                            assert(payload@.create_record_type.properties[i as int].name.len()
                                == 0);
                        }
                        return Err(
                            ApplyError::InvalidTransaction(String::from_str(
                                "Property name cannot be an empty string",
                            )),
                        );
                    }
                    i += 1;
                }
                Action::CreateRecordType(payload.create_record_type.clone())
            },
            SCPayloadAction::UpdateProperties => Action::UpdateProperties(
                payload.update_properties.clone(),
            ),
            SCPayloadAction::CreateProposal => Action::CreateProposal(
                payload.create_proposal.clone(),
            ),
            SCPayloadAction::AnswerProposal => Action::AnswerProposal(
                payload.answer_proposal.clone(),
            ),
            SCPayloadAction::RevokeReporter => Action::RevokeReporter(
                payload.revoke_reporter.clone(),
            ),
        };
        let timestamp = payload.timestamp;
        if timestamp == 0 {
            return Err(
                ApplyError::InvalidTransaction(String::from_str("Timestamp is not set")),
            );
        }
        Ok(Some(SupplyChainPayload { action, timestamp }))
    }

    /// A copy of the validated action.
    pub fn get_action(&self) -> (r: Action)
        ensures
            r@ == self.action@,
    {
        self.action.clone()
    }

    /// The payload's timestamp.
    pub fn get_timestamp(&self) -> (r: u64)
        ensures
            r == self.timestamp,
    {
        self.timestamp
    }
}

} // verus!
