//! End-to-end scenarios driven through the transaction handler.

use supply_chain::entities::{DataType, PropertySchema, PropertyValue, ProposalStatus, Role};
use supply_chain::errors::ApplyError;
use supply_chain::handler::{SupplyChainTransactionHandler, TpProcessRequest};
use supply_chain::payload::{
    AnswerProposalAction, CreateAgentAction, CreateProposalAction, CreateRecordAction,
    CreateRecordTypeAction, FinalizeRecordAction, Response, RevokeReporterAction, SCPayload,
    SCPayloadAction, UpdatePropertiesAction,
};
use supply_chain::state::SupplyChainState;

fn blank_schema() -> PropertySchema {
    PropertySchema {
        name: String::new(),
        data_type: DataType::TypeUnset,
        required: false,
        delayed: false,
        number_exponent: 0,
        enum_options: Vec::new(),
        struct_properties: Vec::new(),
    }
}

fn blank_value() -> PropertyValue {
    PropertyValue {
        name: String::new(),
        data_type: DataType::TypeUnset,
        bytes_value: Vec::new(),
        boolean_value: false,
        number_value: 0,
        string_value: String::new(),
        enum_value: String::new(),
        struct_values: Vec::new(),
        location_value: supply_chain::entities::Location { latitude: 0, longitude: 0 },
    }
}

fn blank_payload(action: SCPayloadAction, timestamp: u64) -> SCPayload {
    SCPayload {
        action,
        timestamp,
        create_agent: CreateAgentAction { name: String::new() },
        create_record: CreateRecordAction {
            record_id: String::new(),
            record_type: String::new(),
            properties: Vec::new(),
        },
        finalize_record: FinalizeRecordAction { record_id: String::new() },
        create_record_type: CreateRecordTypeAction {
            name: String::new(),
            properties: vec![blank_schema()],
        },
        update_properties: UpdatePropertiesAction {
            record_id: String::new(),
            properties: Vec::new(),
        },
        create_proposal: CreateProposalAction {
            record_id: String::new(),
            receiving_agent: String::new(),
            role: Role::Owner,
            properties: Vec::new(),
        },
        answer_proposal: AnswerProposalAction {
            record_id: String::new(),
            receiving_agent: String::new(),
            role: Role::Owner,
            response: Response::Accept,
        },
        revoke_reporter: RevokeReporterAction {
            record_id: String::new(),
            reporter_id: String::new(),
            properties: Vec::new(),
        },
    }
}

fn apply(
    handler: &SupplyChainTransactionHandler,
    state: &mut SupplyChainState,
    signer: &str,
    payload: SCPayload,
) -> Result<(), ApplyError> {
    let request = TpProcessRequest { payload, signer_public_key: signer.to_string() };
    handler.apply(&request, state)
}

fn create_agent(
    handler: &SupplyChainTransactionHandler,
    state: &mut SupplyChainState,
    signer: &str,
    name: &str,
    ts: u64,
) -> Result<(), ApplyError> {
    let mut p = blank_payload(SCPayloadAction::CreateAgent, ts);
    p.create_agent.name = name.to_string();
    apply(handler, state, signer, p)
}

fn string_schema(name: &str, required: bool) -> PropertySchema {
    let mut s = blank_schema();
    s.name = name.to_string();
    s.data_type = DataType::Str;
    s.required = required;
    s
}

fn string_value(name: &str, value: &str) -> PropertyValue {
    let mut v = blank_value();
    v.name = name.to_string();
    v.data_type = DataType::Str;
    v.string_value = value.to_string();
    v
}

fn create_type(
    handler: &SupplyChainTransactionHandler,
    state: &mut SupplyChainState,
    signer: &str,
    name: &str,
    properties: Vec<PropertySchema>,
    ts: u64,
) -> Result<(), ApplyError> {
    let mut p = blank_payload(SCPayloadAction::CreateRecordType, ts);
    p.create_record_type.name = name.to_string();
    p.create_record_type.properties = properties;
    apply(handler, state, signer, p)
}

fn create_record(
    handler: &SupplyChainTransactionHandler,
    state: &mut SupplyChainState,
    signer: &str,
    record_id: &str,
    record_type: &str,
    properties: Vec<PropertyValue>,
    ts: u64,
) -> Result<(), ApplyError> {
    let mut p = blank_payload(SCPayloadAction::CreateRecord, ts);
    p.create_record.record_id = record_id.to_string();
    p.create_record.record_type = record_type.to_string();
    p.create_record.properties = properties;
    apply(handler, state, signer, p)
}

/// Registers an agent and a record type, then rejects a duplicate agent.
#[test]
fn register_and_create_type() {
    let handler = SupplyChainTransactionHandler::new();
    let mut state = SupplyChainState::new();
    create_agent(&handler, &mut state, "S1", "a", 1).unwrap();
    create_type(&handler, &mut state, "S1", "T", vec![string_schema("p", true)], 2).unwrap();

    let agent = state.get_agent("S1").unwrap().unwrap();
    assert_eq!(agent.name, "a");
    assert_eq!(agent.timestamp, 1);
    let rt = state.get_record_type("T").unwrap().unwrap();
    assert_eq!(rt.properties.len(), 1);
    assert_eq!(rt.properties[0].name, "p");

    let err = create_agent(&handler, &mut state, "S1", "a", 3).unwrap_err();
    match err {
        ApplyError::InvalidTransaction(m) => assert_eq!(m, "Agent already exists: a"),
        _ => panic!("expected an invalid transaction"),
    }
}

/// Creates a record whose required property carries an initial value.
#[test]
fn create_record_with_required_property() {
    let handler = SupplyChainTransactionHandler::new();
    let mut state = SupplyChainState::new();
    create_agent(&handler, &mut state, "S1", "a", 1).unwrap();
    create_type(&handler, &mut state, "S1", "T", vec![string_schema("p", true)], 2).unwrap();
    create_record(&handler, &mut state, "S1", "R", "T", vec![string_value("p", "v")], 3)
        .unwrap();

    let record = state.get_record("R").unwrap().unwrap();
    assert_eq!(record.owners.len(), 1);
    assert_eq!(record.owners[0].agent_id, "S1");
    assert_eq!(record.owners[0].timestamp, 3);
    assert_eq!(record.custodians.len(), 1);
    assert_eq!(record.custodians[0].agent_id, "S1");
    assert!(!record.field_final);

    let prop = state.get_property("R", "p").unwrap().unwrap();
    assert_eq!(prop.current_page, 1);
    assert!(!prop.wrapped);
    assert_eq!(prop.reporters.len(), 1);
    assert_eq!(prop.reporters[0].public_key, "S1");
    assert!(prop.reporters[0].authorized);
    assert_eq!(prop.reporters[0].index, 0);

    let page = state.get_property_page("R", "p", 1).unwrap().unwrap();
    assert_eq!(page.reported_values.len(), 1);
    assert_eq!(page.reported_values[0].reporter_index, 0);
    assert_eq!(page.reported_values[0].timestamp, 3);
    assert_eq!(page.reported_values[0].string_value, "v");
}

/// A record may be finalized only by its owner-and-custodian; once
/// final, updates are rejected.
#[test]
fn finalize_requires_dual_role() {
    let handler = SupplyChainTransactionHandler::new();
    let mut state = SupplyChainState::new();
    create_agent(&handler, &mut state, "S1", "a", 1).unwrap();
    create_type(&handler, &mut state, "S1", "T", vec![string_schema("p", true)], 2).unwrap();
    create_record(&handler, &mut state, "S1", "R", "T", vec![string_value("p", "v")], 3)
        .unwrap();

    let mut p = blank_payload(SCPayloadAction::FinalizeRecord, 4);
    p.finalize_record.record_id = "R".to_string();
    let err = apply(&handler, &mut state, "S2", p).unwrap_err();
    assert!(matches!(err, ApplyError::InvalidTransaction(_)));

    let mut p = blank_payload(SCPayloadAction::FinalizeRecord, 5);
    p.finalize_record.record_id = "R".to_string();
    apply(&handler, &mut state, "S1", p).unwrap();
    assert!(state.get_record("R").unwrap().unwrap().field_final);

    let mut p = blank_payload(SCPayloadAction::UpdateProperties, 6);
    p.update_properties.record_id = "R".to_string();
    p.update_properties.properties = vec![string_value("p", "w")];
    let err = apply(&handler, &mut state, "S1", p).unwrap_err();
    match err {
        ApplyError::InvalidTransaction(m) => assert_eq!(m, "Record is final: R"),
        _ => panic!("expected an invalid transaction"),
    }
}

/// Ownership transfers via an accepted proposal, rebalancing reporters.
#[test]
fn ownership_transfer_via_proposal() {
    let handler = SupplyChainTransactionHandler::new();
    let mut state = SupplyChainState::new();
    create_agent(&handler, &mut state, "S1", "a", 1).unwrap();
    create_type(&handler, &mut state, "S1", "T", vec![string_schema("p", true)], 2).unwrap();
    create_record(&handler, &mut state, "S1", "R", "T", vec![string_value("p", "v")], 3)
        .unwrap();
    create_agent(&handler, &mut state, "S2", "b", 4).unwrap();

    let mut p = blank_payload(SCPayloadAction::CreateProposal, 5);
    p.create_proposal.record_id = "R".to_string();
    p.create_proposal.receiving_agent = "S2".to_string();
    p.create_proposal.role = Role::Owner;
    apply(&handler, &mut state, "S1", p).unwrap();

    let mut p = blank_payload(SCPayloadAction::AnswerProposal, 6);
    p.answer_proposal.record_id = "R".to_string();
    p.answer_proposal.receiving_agent = "S2".to_string();
    p.answer_proposal.role = Role::Owner;
    p.answer_proposal.response = Response::Accept;
    apply(&handler, &mut state, "S2", p).unwrap();

    let record = state.get_record("R").unwrap().unwrap();
    assert_eq!(record.owners.len(), 2);
    assert_eq!(record.owners[0].agent_id, "S1");
    assert_eq!(record.owners[1].agent_id, "S2");
    assert_eq!(record.owners[1].timestamp, 6);
    assert_eq!(record.custodians.len(), 1);

    let prop = state.get_property("R", "p").unwrap().unwrap();
    assert_eq!(prop.reporters.len(), 2);
    assert_eq!(prop.reporters[0].public_key, "S1");
    assert!(!prop.reporters[0].authorized);
    assert_eq!(prop.reporters[0].index, 0);
    assert_eq!(prop.reporters[1].public_key, "S2");
    assert!(prop.reporters[1].authorized);
    assert_eq!(prop.reporters[1].index, 1);

    let proposals = state.get_proposal_container("R", "S2").unwrap().unwrap();
    assert_eq!(proposals.len(), 1);
    assert_eq!(proposals[0].status, ProposalStatus::Accepted);
}

/// A stale ownership proposal is marked canceled on accept, leaving the
/// reporters untouched.
#[test]
fn stale_proposal_self_cancels_on_accept() {
    let handler = SupplyChainTransactionHandler::new();
    let mut state = SupplyChainState::new();
    create_agent(&handler, &mut state, "S1", "a", 1).unwrap();
    create_type(&handler, &mut state, "S1", "T", vec![string_schema("p", true)], 2).unwrap();
    create_record(&handler, &mut state, "S1", "R", "T", vec![string_value("p", "v")], 3)
        .unwrap();
    create_agent(&handler, &mut state, "S2", "b", 4).unwrap();
    create_agent(&handler, &mut state, "S3", "c", 5).unwrap();

    for (receiver, ts) in [("S2", 6u64), ("S3", 7u64)] {
        let mut p = blank_payload(SCPayloadAction::CreateProposal, ts);
        p.create_proposal.record_id = "R".to_string();
        p.create_proposal.receiving_agent = receiver.to_string();
        p.create_proposal.role = Role::Owner;
        apply(&handler, &mut state, "S1", p).unwrap();
    }

    let mut p = blank_payload(SCPayloadAction::AnswerProposal, 8);
    p.answer_proposal.record_id = "R".to_string();
    p.answer_proposal.receiving_agent = "S2".to_string();
    p.answer_proposal.role = Role::Owner;
    p.answer_proposal.response = Response::Accept;
    apply(&handler, &mut state, "S2", p).unwrap();

    let reporters_before = state.get_property("R", "p").unwrap().unwrap().reporters;

    let mut p = blank_payload(SCPayloadAction::AnswerProposal, 9);
    p.answer_proposal.record_id = "R".to_string();
    p.answer_proposal.receiving_agent = "S3".to_string();
    p.answer_proposal.role = Role::Owner;
    p.answer_proposal.response = Response::Accept;
    apply(&handler, &mut state, "S3", p).unwrap();

    let proposals = state.get_proposal_container("R", "S3").unwrap().unwrap();
    assert_eq!(proposals.len(), 1);
    assert_eq!(proposals[0].status, ProposalStatus::Canceled);

    let record = state.get_record("R").unwrap().unwrap();
    assert_eq!(record.owners.len(), 2);
    assert_eq!(record.owners[1].agent_id, "S2");

    let reporters_after = state.get_property("R", "p").unwrap().unwrap().reporters;
    assert_eq!(reporters_before.len(), reporters_after.len());
    for (b, a) in reporters_before.iter().zip(reporters_after.iter()) {
        assert_eq!(b.public_key, a.public_key);
        assert_eq!(b.authorized, a.authorized);
        assert_eq!(b.index, a.index);
    }
}

/// After 256 updates page one is full and the ring advances to page two;
/// the 257th update lands there alone.
#[test]
fn paging_ring() {
    let handler = SupplyChainTransactionHandler::new();
    let mut state = SupplyChainState::new();
    create_agent(&handler, &mut state, "S1", "a", 1).unwrap();
    create_type(&handler, &mut state, "S1", "T", vec![string_schema("p", false)], 2).unwrap();
    create_record(&handler, &mut state, "S1", "R", "T", Vec::new(), 3).unwrap();

    for k in 0..256u64 {
        let mut p = blank_payload(SCPayloadAction::UpdateProperties, 10 + k);
        p.update_properties.record_id = "R".to_string();
        p.update_properties.properties = vec![string_value("p", "v")];
        apply(&handler, &mut state, "S1", p).unwrap();
    }

    let prop = state.get_property("R", "p").unwrap().unwrap();
    assert_eq!(prop.current_page, 2);
    assert!(!prop.wrapped);
    let page1 = state.get_property_page("R", "p", 1).unwrap().unwrap();
    assert_eq!(page1.reported_values.len(), 256);
    let page2 = state.get_property_page("R", "p", 2).unwrap().unwrap();
    assert_eq!(page2.reported_values.len(), 0);

    let mut p = blank_payload(SCPayloadAction::UpdateProperties, 1000);
    p.update_properties.record_id = "R".to_string();
    p.update_properties.properties = vec![string_value("p", "w")];
    apply(&handler, &mut state, "S1", p).unwrap();

    let prop = state.get_property("R", "p").unwrap().unwrap();
    assert_eq!(prop.current_page, 2);
    let page2 = state.get_property_page("R", "p", 2).unwrap().unwrap();
    assert_eq!(page2.reported_values.len(), 1);
    assert_eq!(page2.reported_values[0].string_value, "w");
}

/// A stale custodianship proposal is marked canceled on accept, leaving
/// the custodians untouched.
#[test]
fn stale_custodian_proposal_self_cancels_on_accept() {
    let handler = SupplyChainTransactionHandler::new();
    let mut state = SupplyChainState::new();
    create_agent(&handler, &mut state, "S1", "a", 1).unwrap();
    create_type(&handler, &mut state, "S1", "T", vec![string_schema("p", false)], 2).unwrap();
    create_record(&handler, &mut state, "S1", "R", "T", Vec::new(), 3).unwrap();
    create_agent(&handler, &mut state, "S2", "b", 4).unwrap();
    create_agent(&handler, &mut state, "S3", "c", 5).unwrap();

    for (receiver, ts) in [("S2", 6u64), ("S3", 7u64)] {
        let mut p = blank_payload(SCPayloadAction::CreateProposal, ts);
        p.create_proposal.record_id = "R".to_string();
        p.create_proposal.receiving_agent = receiver.to_string();
        p.create_proposal.role = Role::Custodian;
        apply(&handler, &mut state, "S1", p).unwrap();
    }

    // S2 takes custodianship; S1 is no longer the custodian.
    let mut p = blank_payload(SCPayloadAction::AnswerProposal, 8);
    p.answer_proposal.record_id = "R".to_string();
    p.answer_proposal.receiving_agent = "S2".to_string();
    p.answer_proposal.role = Role::Custodian;
    p.answer_proposal.response = Response::Accept;
    apply(&handler, &mut state, "S2", p).unwrap();
    assert_eq!(state.get_record("R").unwrap().unwrap().custodians.len(), 2);

    // The second proposal is now stale: accepting it cancels it and the
    // custodians stay as they are.
    let mut p = blank_payload(SCPayloadAction::AnswerProposal, 9);
    p.answer_proposal.record_id = "R".to_string();
    p.answer_proposal.receiving_agent = "S3".to_string();
    p.answer_proposal.role = Role::Custodian;
    p.answer_proposal.response = Response::Accept;
    apply(&handler, &mut state, "S3", p).unwrap();

    let proposals = state.get_proposal_container("R", "S3").unwrap().unwrap();
    assert_eq!(proposals.len(), 1);
    assert_eq!(proposals[0].status, ProposalStatus::Canceled);

    let record = state.get_record("R").unwrap().unwrap();
    assert_eq!(record.custodians.len(), 2);
    assert_eq!(record.custodians[1].agent_id, "S2");
}
