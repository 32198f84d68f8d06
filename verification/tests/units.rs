//! Unit tests: addressing, container round trips, ordering, typed
//! values, and the error taxonomy.

use supply_chain::addressing::{
    get_supply_chain_prefix, hash, make_agent_address, make_property_address,
    make_property_address_range, make_proposal_address, make_record_address,
    make_record_type_address, num_to_page_number,
};
use supply_chain::entities::{
    Agent, AssociatedAgent, DataType, Location, Property, PropertyPage, PropertySchema,
    PropertyValue, Proposal, ProposalStatus, Record, ReportedValue, Reporter, Role,
};
use supply_chain::errors::ApplyError;
use supply_chain::handler::{SupplyChainTransactionHandler, TpProcessRequest};
use supply_chain::payload::{
    AnswerProposalAction, CreateAgentAction, CreateProposalAction, CreateRecordAction,
    CreateRecordTypeAction, FinalizeRecordAction, Response, RevokeReporterAction, SCPayload,
    SCPayloadAction, SupplyChainPayload, UpdatePropertiesAction,
};
use supply_chain::state::{Container, StateEntry, SupplyChainState};

fn blank_schema() -> PropertySchema {
    PropertySchema {
        name: String::new(),
        data_type: DataType::TypeUnset,
        required: false,
        delayed: false,
        number_exponent: 0,
        enum_options: Vec::new(),
        struct_properties: Vec::new(),
    }
}

fn blank_value() -> PropertyValue {
    PropertyValue {
        name: String::new(),
        data_type: DataType::TypeUnset,
        bytes_value: Vec::new(),
        boolean_value: false,
        number_value: 0,
        string_value: String::new(),
        enum_value: String::new(),
        struct_values: Vec::new(),
        location_value: Location { latitude: 0, longitude: 0 },
    }
}

fn blank_payload(action: SCPayloadAction, timestamp: u64) -> SCPayload {
    SCPayload {
        action,
        timestamp,
        create_agent: CreateAgentAction { name: String::new() },
        create_record: CreateRecordAction {
            record_id: String::new(),
            record_type: String::new(),
            properties: Vec::new(),
        },
        finalize_record: FinalizeRecordAction { record_id: String::new() },
        create_record_type: CreateRecordTypeAction {
            name: String::new(),
            properties: vec![blank_schema()],
        },
        update_properties: UpdatePropertiesAction {
            record_id: String::new(),
            properties: Vec::new(),
        },
        create_proposal: CreateProposalAction {
            record_id: String::new(),
            receiving_agent: String::new(),
            role: Role::Owner,
            properties: Vec::new(),
        },
        answer_proposal: AnswerProposalAction {
            record_id: String::new(),
            receiving_agent: String::new(),
            role: Role::Owner,
            response: Response::Accept,
        },
        revoke_reporter: RevokeReporterAction {
            record_id: String::new(),
            reporter_id: String::new(),
            properties: Vec::new(),
        },
    }
}

fn apply(
    handler: &SupplyChainTransactionHandler,
    state: &mut SupplyChainState,
    signer: &str,
    payload: SCPayload,
) -> Result<(), ApplyError> {
    let request = TpProcessRequest { payload, signer_public_key: signer.to_string() };
    handler.apply(&request, state)
}

fn is_lower_hex(s: &str) -> bool {
    s.chars().all(|c| c.is_ascii_digit() || ('a'..='f').contains(&c))
}

#[test]
fn addresses_are_seventy_lower_hex_chars() {
    let prefix = get_supply_chain_prefix();
    assert_eq!(prefix.len(), 6);
    assert!(is_lower_hex(&prefix));
    for addr in [
        make_agent_address("S1"),
        make_record_address("R"),
        make_record_type_address("T"),
        make_property_address("R", "p", 0),
        make_proposal_address("R", "S2"),
    ] {
        assert_eq!(addr.len(), 70);
        assert!(is_lower_hex(&addr));
        assert!(addr.starts_with(&prefix));
    }
}

#[test]
fn address_kind_tags() {
    let prefix = get_supply_chain_prefix();
    assert_eq!(&make_agent_address("x")[..8], format!("{}ae", prefix).as_str());
    assert_eq!(&make_record_address("x")[..8], format!("{}ec", prefix).as_str());
    assert_eq!(&make_record_type_address("x")[..8], format!("{}ee", prefix).as_str());
    assert_eq!(&make_property_address_range("x")[..8], format!("{}ea", prefix).as_str());
    assert_eq!(&make_proposal_address("x", "y")[..8], format!("{}aa", prefix).as_str());
}

#[test]
fn property_address_embeds_page_number() {
    let a = make_property_address("R", "p", 0);
    assert!(a.ends_with("0000"));
    let b = make_property_address("R", "p", 1);
    assert!(b.ends_with("0001"));
    assert_eq!(&a[..66], &b[..66]);
    assert_eq!(make_property_address_range("R").as_str(), &a[..44]);
}

#[test]
fn page_numbers_render_as_hex() {
    assert_eq!(num_to_page_number(0), "0000");
    assert_eq!(num_to_page_number(1), "0001");
    assert_eq!(num_to_page_number(255), "00ff");
    assert_eq!(num_to_page_number(256), "0100");
    assert_eq!(num_to_page_number(0x12345), "12345");
    assert_eq!(num_to_page_number(u32::MAX), "ffffffff");
}

#[test]
fn hash_truncates_the_digest() {
    let full = hash("supply_chain", 128);
    assert_eq!(full.len(), 128);
    assert!(is_lower_hex(&full));
    assert_eq!(hash("supply_chain", 6), get_supply_chain_prefix());
    assert_eq!(hash("supply_chain", 200), "");
    assert_eq!(hash("", 4).len(), 4);
}

#[test]
fn record_round_trip() {
    let mut state = SupplyChainState::new();
    let record = Record {
        record_id: "R".to_string(),
        record_type: "T".to_string(),
        owners: vec![AssociatedAgent { agent_id: "S1".to_string(), timestamp: 3 }],
        custodians: vec![AssociatedAgent { agent_id: "S1".to_string(), timestamp: 3 }],
        field_final: false,
    };
    state.set_record("R", record).unwrap();
    let got = state.get_record("R").unwrap().unwrap();
    assert_eq!(got.record_id, "R");
    assert_eq!(got.record_type, "T");
    assert_eq!(got.owners.len(), 1);
    assert_eq!(got.owners[0].agent_id, "S1");
    assert!(state.get_record("other").unwrap().is_none());
}

#[test]
fn agent_round_trip() {
    let mut state = SupplyChainState::new();
    let agent = Agent { public_key: "S1".to_string(), name: "a".to_string(), timestamp: 1 };
    state.set_agent("S1", agent).unwrap();
    let got = state.get_agent("S1").unwrap().unwrap();
    assert_eq!(got.public_key, "S1");
    assert_eq!(got.name, "a");
    assert!(state.get_agent("S2").unwrap().is_none());
}

#[test]
fn wrong_container_kind_is_an_internal_error() {
    let mut state = SupplyChainState::new();
    state.entries.push(StateEntry {
        address: make_agent_address("S1"),
        container: Container::Records(Vec::new()),
    });
    let err = state.get_agent("S1").unwrap_err();
    match err {
        ApplyError::InternalError(m) => assert_eq!(m, "Cannot deserialize agent container"),
        _ => panic!("expected an internal error"),
    }
}

#[test]
fn proposal_container_sorted_by_timestamp() {
    let handler = SupplyChainTransactionHandler::new();
    let mut state = SupplyChainState::new();
    let mut p = blank_payload(SCPayloadAction::CreateAgent, 1);
    p.create_agent.name = "a".to_string();
    apply(&handler, &mut state, "S1", p).unwrap();
    let mut p = blank_payload(SCPayloadAction::CreateAgent, 2);
    p.create_agent.name = "b".to_string();
    apply(&handler, &mut state, "S2", p).unwrap();
    let mut p = blank_payload(SCPayloadAction::CreateRecordType, 3);
    p.create_record_type.name = "T".to_string();
    let mut s = blank_schema();
    s.name = "p".to_string();
    s.data_type = DataType::Str;
    p.create_record_type.properties = vec![s];
    apply(&handler, &mut state, "S1", p).unwrap();
    let mut p = blank_payload(SCPayloadAction::CreateRecord, 4);
    p.create_record.record_id = "R".to_string();
    p.create_record.record_type = "T".to_string();
    apply(&handler, &mut state, "S1", p).unwrap();

    // Two proposals for the same container, offered out of timestamp
    // order: an ownership offer at a later time, then a custodian offer
    // at an earlier time.
    let mut p = blank_payload(SCPayloadAction::CreateProposal, 10);
    p.create_proposal.record_id = "R".to_string();
    p.create_proposal.receiving_agent = "S2".to_string();
    p.create_proposal.role = Role::Owner;
    apply(&handler, &mut state, "S1", p).unwrap();
    let mut p = blank_payload(SCPayloadAction::CreateProposal, 5);
    p.create_proposal.record_id = "R".to_string();
    p.create_proposal.receiving_agent = "S2".to_string();
    p.create_proposal.role = Role::Custodian;
    apply(&handler, &mut state, "S1", p).unwrap();

    let proposals = state.get_proposal_container("R", "S2").unwrap().unwrap();
    assert_eq!(proposals.len(), 2);
    assert_eq!(proposals[0].timestamp, 5);
    assert_eq!(proposals[0].role, Role::Custodian);
    assert_eq!(proposals[1].timestamp, 10);
    assert_eq!(proposals[1].role, Role::Owner);
    assert_eq!(proposals[0].status, ProposalStatus::Open);
}

#[test]
fn enum_values_store_their_option_index() {
    let handler = SupplyChainTransactionHandler::new();
    let mut state = SupplyChainState::new();
    let mut p = blank_payload(SCPayloadAction::CreateAgent, 1);
    p.create_agent.name = "a".to_string();
    apply(&handler, &mut state, "S1", p).unwrap();

    let mut schema = blank_schema();
    schema.name = "color".to_string();
    schema.data_type = DataType::Enum;
    schema.enum_options = vec!["red".to_string(), "green".to_string(), "blue".to_string()];
    let mut p = blank_payload(SCPayloadAction::CreateRecordType, 2);
    p.create_record_type.name = "T".to_string();
    p.create_record_type.properties = vec![schema];
    apply(&handler, &mut state, "S1", p).unwrap();

    let mut p = blank_payload(SCPayloadAction::CreateRecord, 3);
    p.create_record.record_id = "R".to_string();
    p.create_record.record_type = "T".to_string();
    apply(&handler, &mut state, "S1", p).unwrap();

    let mut v = blank_value();
    v.name = "color".to_string();
    v.data_type = DataType::Enum;
    v.enum_value = "green".to_string();
    let mut p = blank_payload(SCPayloadAction::UpdateProperties, 4);
    p.update_properties.record_id = "R".to_string();
    p.update_properties.properties = vec![v];
    apply(&handler, &mut state, "S1", p).unwrap();

    let page = state.get_property_page("R", "color", 1).unwrap().unwrap();
    assert_eq!(page.reported_values.len(), 1);
    assert_eq!(page.reported_values[0].enum_value, 1);
    let prop = state.get_property("R", "color").unwrap().unwrap();
    assert_eq!(prop.enum_options[page.reported_values[0].enum_value as usize], "green");

    let mut v = blank_value();
    v.name = "color".to_string();
    v.data_type = DataType::Enum;
    v.enum_value = "purple".to_string();
    let mut p = blank_payload(SCPayloadAction::UpdateProperties, 5);
    p.update_properties.record_id = "R".to_string();
    p.update_properties.properties = vec![v];
    let err = apply(&handler, &mut state, "S1", p).unwrap_err();
    assert!(matches!(err, ApplyError::InvalidTransaction(_)));
}

#[test]
fn payload_validation_rejections() {
    let p = blank_payload(SCPayloadAction::CreateAgent, 1);
    let err = SupplyChainPayload::new(&p).unwrap_err();
    match err {
        ApplyError::InvalidTransaction(m) => {
            assert_eq!(m, "Agent name cannot be an empty string")
        },
        _ => panic!("expected an invalid transaction"),
    }

    let mut p = blank_payload(SCPayloadAction::CreateAgent, 0);
    p.create_agent.name = "a".to_string();
    let err = SupplyChainPayload::new(&p).unwrap_err();
    match err {
        ApplyError::InvalidTransaction(m) => assert_eq!(m, "Timestamp is not set"),
        _ => panic!("expected an invalid transaction"),
    }

    let p = blank_payload(SCPayloadAction::CreateRecord, 1);
    assert!(SupplyChainPayload::new(&p).is_err());

    let mut p = blank_payload(SCPayloadAction::CreateRecordType, 1);
    p.create_record_type.name = "T".to_string();
    p.create_record_type.properties = Vec::new();
    let err = SupplyChainPayload::new(&p).unwrap_err();
    match err {
        ApplyError::InvalidTransaction(m) => {
            assert_eq!(m, "Record type must have at least one property")
        },
        _ => panic!("expected an invalid transaction"),
    }

    let mut p = blank_payload(SCPayloadAction::CreateRecordType, 1);
    p.create_record_type.name = "T".to_string();
    p.create_record_type.properties = vec![blank_schema()];
    assert!(SupplyChainPayload::new(&p).is_err());
}

#[test]
fn delayed_property_rejected_at_creation() {
    let handler = SupplyChainTransactionHandler::new();
    let mut state = SupplyChainState::new();
    let mut p = blank_payload(SCPayloadAction::CreateAgent, 1);
    p.create_agent.name = "a".to_string();
    apply(&handler, &mut state, "S1", p).unwrap();

    let mut schema = blank_schema();
    schema.name = "p".to_string();
    schema.data_type = DataType::Str;
    schema.delayed = true;
    let mut p = blank_payload(SCPayloadAction::CreateRecordType, 2);
    p.create_record_type.name = "T".to_string();
    p.create_record_type.properties = vec![schema];
    apply(&handler, &mut state, "S1", p).unwrap();

    let mut v = blank_value();
    v.name = "p".to_string();
    v.data_type = DataType::Str;
    v.string_value = "v".to_string();
    let mut p = blank_payload(SCPayloadAction::CreateRecord, 3);
    p.create_record.record_id = "R".to_string();
    p.create_record.record_type = "T".to_string();
    p.create_record.properties = vec![v];
    let err = apply(&handler, &mut state, "S1", p).unwrap_err();
    assert!(matches!(err, ApplyError::InvalidTransaction(_)));
}

#[test]
fn revoke_reporter_requires_authorization() {
    let handler = SupplyChainTransactionHandler::new();
    let mut state = SupplyChainState::new();
    let mut p = blank_payload(SCPayloadAction::CreateAgent, 1);
    p.create_agent.name = "a".to_string();
    apply(&handler, &mut state, "S1", p).unwrap();

    let mut schema = blank_schema();
    schema.name = "p".to_string();
    schema.data_type = DataType::Str;
    let mut p = blank_payload(SCPayloadAction::CreateRecordType, 2);
    p.create_record_type.name = "T".to_string();
    p.create_record_type.properties = vec![schema];
    apply(&handler, &mut state, "S1", p).unwrap();

    let mut p = blank_payload(SCPayloadAction::CreateRecord, 3);
    p.create_record.record_id = "R".to_string();
    p.create_record.record_type = "T".to_string();
    apply(&handler, &mut state, "S1", p).unwrap();

    let mut p = blank_payload(SCPayloadAction::RevokeReporter, 4);
    p.revoke_reporter.record_id = "R".to_string();
    p.revoke_reporter.reporter_id = "S1".to_string();
    p.revoke_reporter.properties = vec!["p".to_string()];
    apply(&handler, &mut state, "S1", p).unwrap();

    let prop = state.get_property("R", "p").unwrap().unwrap();
    assert!(!prop.reporters[0].authorized);

    let mut p = blank_payload(SCPayloadAction::RevokeReporter, 5);
    p.revoke_reporter.record_id = "R".to_string();
    p.revoke_reporter.reporter_id = "S1".to_string();
    p.revoke_reporter.properties = vec!["p".to_string()];
    let err = apply(&handler, &mut state, "S1", p).unwrap_err();
    match err {
        ApplyError::InvalidTransaction(m) => {
            assert_eq!(m, "Reporter is already unauthorized.")
        },
        _ => panic!("expected an invalid transaction"),
    }
}

#[test]
fn family_identity() {
    let handler = SupplyChainTransactionHandler::new();
    assert_eq!(handler.family_name(), "supply_chain");
    assert_eq!(handler.family_versions(), vec!["1.1".to_string()]);
    assert_eq!(handler.namespaces(), vec![get_supply_chain_prefix()]);
}

#[test]
fn struct_values_validated_recursively() {
    let handler = SupplyChainTransactionHandler::new();
    let mut state = SupplyChainState::new();
    let mut p = blank_payload(SCPayloadAction::CreateAgent, 1);
    p.create_agent.name = "a".to_string();
    apply(&handler, &mut state, "S1", p).unwrap();

    let mut inner = blank_schema();
    inner.name = "x".to_string();
    inner.data_type = DataType::Number;
    let mut schema = blank_schema();
    schema.name = "s".to_string();
    schema.data_type = DataType::Struct;
    schema.struct_properties = vec![inner];
    let mut p = blank_payload(SCPayloadAction::CreateRecordType, 2);
    p.create_record_type.name = "T".to_string();
    p.create_record_type.properties = vec![schema];
    apply(&handler, &mut state, "S1", p).unwrap();

    let mut p = blank_payload(SCPayloadAction::CreateRecord, 3);
    p.create_record.record_id = "R".to_string();
    p.create_record.record_type = "T".to_string();
    apply(&handler, &mut state, "S1", p).unwrap();

    let mut inner_v = blank_value();
    inner_v.name = "x".to_string();
    inner_v.data_type = DataType::Number;
    inner_v.number_value = 7;
    let mut v = blank_value();
    v.name = "s".to_string();
    v.data_type = DataType::Struct;
    v.struct_values = vec![inner_v];
    let mut p = blank_payload(SCPayloadAction::UpdateProperties, 4);
    p.update_properties.record_id = "R".to_string();
    p.update_properties.properties = vec![v];
    apply(&handler, &mut state, "S1", p).unwrap();

    let page = state.get_property_page("R", "s", 1).unwrap().unwrap();
    assert_eq!(page.reported_values[0].struct_values.len(), 1);
    assert_eq!(page.reported_values[0].struct_values[0].number_value, 7);

    // A struct value missing the schema's member is rejected.
    let mut v = blank_value();
    v.name = "s".to_string();
    v.data_type = DataType::Struct;
    let mut p = blank_payload(SCPayloadAction::UpdateProperties, 5);
    p.update_properties.record_id = "R".to_string();
    p.update_properties.properties = vec![v];
    let err = apply(&handler, &mut state, "S1", p).unwrap_err();
    assert!(matches!(err, ApplyError::InvalidTransaction(_)));
}

#[test]
fn updates_sorted_by_timestamp_then_reporter() {
    let handler = SupplyChainTransactionHandler::new();
    let mut state = SupplyChainState::new();
    let mut p = blank_payload(SCPayloadAction::CreateAgent, 1);
    p.create_agent.name = "a".to_string();
    apply(&handler, &mut state, "S1", p).unwrap();

    let mut schema = blank_schema();
    schema.name = "p".to_string();
    schema.data_type = DataType::Number;
    let mut p = blank_payload(SCPayloadAction::CreateRecordType, 2);
    p.create_record_type.name = "T".to_string();
    p.create_record_type.properties = vec![schema];
    apply(&handler, &mut state, "S1", p).unwrap();

    let mut p = blank_payload(SCPayloadAction::CreateRecord, 3);
    p.create_record.record_id = "R".to_string();
    p.create_record.record_type = "T".to_string();
    apply(&handler, &mut state, "S1", p).unwrap();

    for (ts, n) in [(30u64, 1i64), (10, 2), (20, 3)] {
        let mut v = blank_value();
        v.name = "p".to_string();
        v.data_type = DataType::Number;
        v.number_value = n;
        let mut p = blank_payload(SCPayloadAction::UpdateProperties, ts);
        p.update_properties.record_id = "R".to_string();
        p.update_properties.properties = vec![v];
        apply(&handler, &mut state, "S1", p).unwrap();
    }

    let page = state.get_property_page("R", "p", 1).unwrap().unwrap();
    let ts: Vec<u64> = page.reported_values.iter().map(|rv| rv.timestamp).collect();
    assert_eq!(ts, vec![10, 20, 30]);
    let ns: Vec<i64> = page.reported_values.iter().map(|rv| rv.number_value).collect();
    assert_eq!(ns, vec![2, 3, 1]);
}

#[test]
fn record_type_round_trip() {
    let mut state = SupplyChainState::new();
    let mut schema = blank_schema();
    schema.name = "p".to_string();
    schema.data_type = DataType::Str;
    let rt = supply_chain::entities::RecordType {
        name: "T".to_string(),
        properties: vec![schema],
    };
    state.set_record_type("T", rt).unwrap();
    let got = state.get_record_type("T").unwrap().unwrap();
    assert_eq!(got.name, "T");
    assert_eq!(got.properties.len(), 1);
    assert_eq!(got.properties[0].name, "p");
    assert!(state.get_record_type("U").unwrap().is_none());
}

#[test]
fn property_and_page_round_trip() {
    let mut state = SupplyChainState::new();
    let prop = Property {
        name: "p".to_string(),
        record_id: "R".to_string(),
        data_type: DataType::Number,
        reporters: vec![Reporter { public_key: "S1".to_string(), authorized: true, index: 0 }],
        current_page: 1,
        wrapped: false,
        number_exponent: -2,
        enum_options: Vec::new(),
        struct_properties: Vec::new(),
    };
    state.set_property("R", "p", prop).unwrap();
    let got = state.get_property("R", "p").unwrap().unwrap();
    assert_eq!(got.data_type, DataType::Number);
    assert_eq!(got.number_exponent, -2);
    assert_eq!(got.reporters.len(), 1);

    let page = PropertyPage {
        name: "p".to_string(),
        record_id: "R".to_string(),
        reported_values: vec![ReportedValue {
            reporter_index: 0,
            timestamp: 9,
            bytes_value: Vec::new(),
            boolean_value: false,
            number_value: 41,
            string_value: String::new(),
            enum_value: 0,
            struct_values: Vec::new(),
            location_value: Location { latitude: 0, longitude: 0 },
        }],
    };
    state.set_property_page("R", "p", 1, page).unwrap();
    let got = state.get_property_page("R", "p", 1).unwrap().unwrap();
    assert_eq!(got.reported_values.len(), 1);
    assert_eq!(got.reported_values[0].number_value, 41);
    assert!(state.get_property_page("R", "p", 2).unwrap().is_none());
}

#[test]
fn proposal_container_round_trip() {
    let mut state = SupplyChainState::new();
    let list = vec![Proposal {
        record_id: "R".to_string(),
        timestamp: 5,
        issuing_agent: "S1".to_string(),
        receiving_agent: "S2".to_string(),
        role: Role::Owner,
        properties: Vec::new(),
        status: ProposalStatus::Open,
    }];
    state.set_proposal_container("R", "S2", list).unwrap();
    let got = state.get_proposal_container("R", "S2").unwrap().unwrap();
    assert_eq!(got.len(), 1);
    assert_eq!(got[0].issuing_agent, "S1");
    assert_eq!(got[0].status, ProposalStatus::Open);
    assert!(state.get_proposal_container("R", "S3").unwrap().is_none());
}

#[test]
fn agent_overwrite_replaces_the_entry() {
    let mut state = SupplyChainState::new();
    let first = Agent { public_key: "S1".to_string(), name: "a".to_string(), timestamp: 1 };
    state.set_agent("S1", first).unwrap();
    let second = Agent { public_key: "S1".to_string(), name: "b".to_string(), timestamp: 2 };
    state.set_agent("S1", second).unwrap();
    let got = state.get_agent("S1").unwrap().unwrap();
    assert_eq!(got.name, "b");
    assert_eq!(got.timestamp, 2);
    match &state.entries[0].container {
        Container::Agents(list) => assert_eq!(list.len(), 1),
        _ => panic!("expected an agent container"),
    }
}

#[test]
fn record_type_overwrite_replaces_the_entry() {
    let mut state = SupplyChainState::new();
    let mut s1 = blank_schema();
    s1.name = "p".to_string();
    state.set_record_type(
        "T",
        supply_chain::entities::RecordType { name: "T".to_string(), properties: vec![s1] },
    ).unwrap();
    let mut s2 = blank_schema();
    s2.name = "q".to_string();
    state.set_record_type(
        "T",
        supply_chain::entities::RecordType { name: "T".to_string(), properties: vec![s2] },
    ).unwrap();
    let got = state.get_record_type("T").unwrap().unwrap();
    assert_eq!(got.properties.len(), 1);
    assert_eq!(got.properties[0].name, "q");
    match &state.entries[0].container {
        Container::RecordTypes(list) => assert_eq!(list.len(), 1),
        _ => panic!("expected a record type container"),
    }
}
