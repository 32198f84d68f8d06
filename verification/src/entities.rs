//! The entity model of the supply-chain family.
//!
//! Entities are plain data keyed by string identifiers. Each executable
//! type has a ghost mirror (its view) over mathematical sequences, which
//! the contracts and the state model speak about.

use vstd::prelude::*;

verus! {

/// The type of a property's values. A property carries exactly one kind
/// of value, fixed by its schema.
#[derive(Clone, Copy, PartialEq, Eq, Structural, Debug)]
pub enum DataType {
    TypeUnset,
    Bytes,
    Boolean,
    Number,
    Str,
    Enum,
    Struct,
    Location,
}

/// The role a proposal offers to its receiving agent.
#[derive(Clone, Copy, PartialEq, Eq, Structural, Debug)]
pub enum Role {
    Owner,
    Custodian,
    Reporter,
}

/// A proposal is created open and transitions once, terminally.
#[derive(Clone, Copy, PartialEq, Eq, Structural, Debug)]
pub enum ProposalStatus {
    Open,
    Accepted,
    Rejected,
    Canceled,
}

/// A geographic position in millionths of a degree.
#[derive(Clone, Copy, PartialEq, Eq, Structural, Debug)]
pub struct Location {
    pub latitude: i64,
    pub longitude: i64,
}

/// A principal identified by its signing public key.
#[derive(Debug)]
pub struct Agent {
    pub public_key: String,
    pub name: String,
    pub timestamp: u64,
}

pub ghost struct AgentV {
    pub public_key: Seq<char>,
    pub name: Seq<char>,
    pub timestamp: u64,
}

impl View for Agent {
    type V = AgentV;

    open spec fn view(&self) -> AgentV {
        AgentV { public_key: self.public_key@, name: self.name@, timestamp: self.timestamp }
    }
}

impl Clone for Agent {
    fn clone(&self) -> (res: Self)
        ensures
            res@ == self@,
    {
        Agent {
            public_key: self.public_key.clone(),
            name: self.name.clone(),
            timestamp: self.timestamp,
        }
    }
}

/// One step of a record's ownership or custodianship history.
#[derive(Debug)]
pub struct AssociatedAgent {
    pub agent_id: String,
    pub timestamp: u64,
}

pub ghost struct AssociatedAgentV {
    pub agent_id: Seq<char>,
    pub timestamp: u64,
}

impl View for AssociatedAgent {
    type V = AssociatedAgentV;

    open spec fn view(&self) -> AssociatedAgentV {
        AssociatedAgentV { agent_id: self.agent_id@, timestamp: self.timestamp }
    }
}

impl Clone for AssociatedAgent {
    fn clone(&self) -> (res: Self)
        ensures
            res@ == self@,
    {
        AssociatedAgent { agent_id: self.agent_id.clone(), timestamp: self.timestamp }
    }
}

/// A tracked item with an append-only history of owners and custodians.
#[derive(Debug)]
pub struct Record {
    pub record_id: String,
    pub record_type: String,
    pub owners: Vec<AssociatedAgent>,
    pub custodians: Vec<AssociatedAgent>,
    pub field_final: bool,
}

pub ghost struct RecordV {
    pub record_id: Seq<char>,
    pub record_type: Seq<char>,
    pub owners: Seq<AssociatedAgentV>,
    pub custodians: Seq<AssociatedAgentV>,
    pub field_final: bool,
}

impl View for Record {
    type V = RecordV;

    open spec fn view(&self) -> RecordV {
        RecordV {
            record_id: self.record_id@,
            record_type: self.record_type@,
            owners: Seq::new(self.owners@.len(), |i: int| self.owners@[i]@),
            custodians: Seq::new(self.custodians@.len(), |i: int| self.custodians@[i]@),
            field_final: self.field_final,
        }
    }
}

impl Clone for Record {
    fn clone(&self) -> (res: Self)
        ensures
            res@ == self@,
    {
        let res = Record {
            record_id: self.record_id.clone(),
            record_type: self.record_type.clone(),
            owners: clone_associated_agents(&self.owners),
            custodians: clone_associated_agents(&self.custodians),
            field_final: self.field_final,
        };
        proof {
            assert(res@.owners =~= self@.owners);
            assert(res@.custodians =~= self@.custodians);
        }
        res
    }
}

/// Copies a history of associated agents entry by entry.
pub fn clone_associated_agents(v: &Vec<AssociatedAgent>) -> (r: Vec<AssociatedAgent>)
    ensures
        r@.len() == v@.len(),
        forall|i: int| 0 <= i < v@.len() ==> r@[i]@ == #[trigger] v@[i]@,
{
    let mut r: Vec<AssociatedAgent> = Vec::new();
    let mut i: usize = 0;
    while i < v.len()
        invariant
            i <= v@.len(),
            r@.len() == i,
            forall|j: int| 0 <= j < i ==> r@[j]@ == #[trigger] v@[j]@,
        decreases v@.len() - i,
    {
        r.push(v[i].clone());
        i += 1;
    }
    r
}

/// The schema of one property of a record type. A `Struct` schema nests
/// further schemata.
#[derive(Debug)]
pub struct PropertySchema {
    pub name: String,
    pub data_type: DataType,
    pub required: bool,
    pub delayed: bool,
    pub number_exponent: i32,
    pub enum_options: Vec<String>,
    pub struct_properties: Vec<PropertySchema>,
}

pub ghost struct PropertySchemaV {
    pub name: Seq<char>,
    pub data_type: DataType,
    pub required: bool,
    pub delayed: bool,
    pub number_exponent: i32,
    pub enum_options: Seq<Seq<char>>,
    pub struct_properties: Seq<PropertySchemaV>,
}

/// The view of a property schema, recursively through nested schemata.
pub open spec fn schema_view(s: PropertySchema) -> PropertySchemaV
    decreases s,
{
    PropertySchemaV {
        name: s.name@,
        data_type: s.data_type,
        required: s.required,
        delayed: s.delayed,
        number_exponent: s.number_exponent,
        enum_options: Seq::new(s.enum_options@.len(), |i: int| s.enum_options@[i]@),
        struct_properties: Seq::new(
            s.struct_properties@.len(),
            |i: int|
                if 0 <= i < s.struct_properties@.len() {
                    schema_view(s.struct_properties@[i])
                } else {
                    vstd::pervasive::arbitrary()
                },
        ),
    }
}

impl View for PropertySchema {
    type V = PropertySchemaV;

    open spec fn view(&self) -> PropertySchemaV {
        schema_view(*self)
    }
}

impl Clone for PropertySchema {
    fn clone(&self) -> (res: Self)
        ensures
            res@ == self@,
        decreases *self,
    {
        let res = PropertySchema {
            name: self.name.clone(),
            data_type: self.data_type,
            required: self.required,
            delayed: self.delayed,
            number_exponent: self.number_exponent,
            enum_options: clone_strings(&self.enum_options),
            struct_properties: clone_schemata(&self.struct_properties),
        };
        proof {
            assert(res@.enum_options =~= self@.enum_options);
            assert forall|i: int| 0 <= i < self.struct_properties@.len() implies schema_view(
                res.struct_properties@[i],
            ) == schema_view(self.struct_properties@[i]) by {
                assert(res.struct_properties@[i]@ == self.struct_properties@[i]@);
            }
            assert(res@.struct_properties =~= self@.struct_properties);
        }
        res
    }
}

/// Copies a list of strings entry by entry.
pub fn clone_strings(v: &Vec<String>) -> (r: Vec<String>)
    ensures
        r@.len() == v@.len(),
        forall|i: int| 0 <= i < v@.len() ==> r@[i]@ == #[trigger] v@[i]@,
{
    let mut r: Vec<String> = Vec::new();
    let mut i: usize = 0;
    while i < v.len()
        invariant
            i <= v@.len(),
            r@.len() == i,
            forall|j: int| 0 <= j < i ==> r@[j]@ == #[trigger] v@[j]@,
        decreases v@.len() - i,
    {
        r.push(v[i].clone());
        i += 1;
    }
    r
}

/// Copies a list of property schemata entry by entry.
pub fn clone_schemata(v: &Vec<PropertySchema>) -> (r: Vec<PropertySchema>)
    ensures
        r@.len() == v@.len(),
        forall|i: int| 0 <= i < v@.len() ==> r@[i]@ == #[trigger] v@[i]@,
    decreases *v,
{
    let mut r: Vec<PropertySchema> = Vec::new();
    let mut i: usize = 0;
    while i < v.len()
        invariant
            i <= v@.len(),
            r@.len() == i,
            forall|j: int| 0 <= j < i ==> r@[j]@ == #[trigger] v@[j]@,
        decreases v@.len() - i,
    {
        proof {
            assert(decreases_to!(*v => v@[i as int]));
        }
        r.push(v[i].clone());
        i += 1;
    }
    r
}

/// The schema of a record's kind: an ordered list of property schemata.
#[derive(Debug)]
pub struct RecordType {
    pub name: String,
    pub properties: Vec<PropertySchema>,
}

pub ghost struct RecordTypeV {
    pub name: Seq<char>,
    pub properties: Seq<PropertySchemaV>,
}

impl View for RecordType {
    type V = RecordTypeV;

    open spec fn view(&self) -> RecordTypeV {
        RecordTypeV {
            name: self.name@,
            properties: Seq::new(self.properties@.len(), |i: int| self.properties@[i]@),
        }
    }
}

impl Clone for RecordType {
    fn clone(&self) -> (res: Self)
        ensures
            res@ == self@,
    {
        let res = RecordType { name: self.name.clone(), properties: clone_schemata(&self.properties) };
        proof {
            assert(res@.properties =~= self@.properties);
        }
        res
    }
}

/// One value offered for a property, either at record creation or in a
/// later update. A `Struct` value nests further values.
#[derive(Debug)]
pub struct PropertyValue {
    pub name: String,
    pub data_type: DataType,
    pub bytes_value: Vec<u8>,
    pub boolean_value: bool,
    pub number_value: i64,
    pub string_value: String,
    pub enum_value: String,
    pub struct_values: Vec<PropertyValue>,
    pub location_value: Location,
}

pub ghost struct PropertyValueV {
    pub name: Seq<char>,
    pub data_type: DataType,
    pub bytes_value: Seq<u8>,
    pub boolean_value: bool,
    pub number_value: i64,
    pub string_value: Seq<char>,
    pub enum_value: Seq<char>,
    pub struct_values: Seq<PropertyValueV>,
    pub location_value: Location,
}

/// The view of a property value, recursively through nested values.
pub open spec fn value_view(v: PropertyValue) -> PropertyValueV
    decreases v,
{
    PropertyValueV {
        name: v.name@,
        data_type: v.data_type,
        bytes_value: v.bytes_value@,
        boolean_value: v.boolean_value,
        number_value: v.number_value,
        string_value: v.string_value@,
        enum_value: v.enum_value@,
        struct_values: Seq::new(
            v.struct_values@.len(),
            |i: int|
                if 0 <= i < v.struct_values@.len() {
                    value_view(v.struct_values@[i])
                } else {
                    vstd::pervasive::arbitrary()
                },
        ),
        location_value: v.location_value,
    }
}

impl View for PropertyValue {
    type V = PropertyValueV;

    open spec fn view(&self) -> PropertyValueV {
        value_view(*self)
    }
}

impl Clone for PropertyValue {
    fn clone(&self) -> (res: Self)
        ensures
            res@ == self@,
        decreases *self,
    {
        let res = PropertyValue {
            name: self.name.clone(),
            data_type: self.data_type,
            bytes_value: clone_bytes(&self.bytes_value),
            boolean_value: self.boolean_value,
            number_value: self.number_value,
            string_value: self.string_value.clone(),
            enum_value: self.enum_value.clone(),
            struct_values: clone_values(&self.struct_values),
            location_value: self.location_value,
        };
        proof {
            assert(res@.bytes_value =~= self@.bytes_value);
            assert forall|i: int| 0 <= i < self.struct_values@.len() implies value_view(
                res.struct_values@[i],
            ) == value_view(self.struct_values@[i]) by {
                assert(res.struct_values@[i]@ == self.struct_values@[i]@);
            }
            assert(res@.struct_values =~= self@.struct_values);
        }
        res
    }
}

/// Copies a byte list entry by entry.
pub fn clone_bytes(v: &Vec<u8>) -> (r: Vec<u8>)
    ensures
        r@ == v@,
{
    let mut r: Vec<u8> = Vec::new();
    let mut i: usize = 0;
    while i < v.len()
        invariant
            i <= v@.len(),
            r@ =~= v@.take(i as int),
        decreases v@.len() - i,
    {
        r.push(v[i]);
        proof {
            assert(r@ =~= v@.take(i + 1));
        }
        i += 1;
    }
    proof {
        assert(r@ =~= v@);
    }
    r
}

/// Copies a list of property values entry by entry.
pub fn clone_values(v: &Vec<PropertyValue>) -> (r: Vec<PropertyValue>)
    ensures
        r@.len() == v@.len(),
        forall|i: int| 0 <= i < v@.len() ==> r@[i]@ == #[trigger] v@[i]@,
    decreases *v,
{
    let mut r: Vec<PropertyValue> = Vec::new();
    let mut i: usize = 0;
    while i < v.len()
        invariant
            i <= v@.len(),
            r@.len() == i,
            forall|j: int| 0 <= j < i ==> r@[j]@ == #[trigger] v@[j]@,
        decreases v@.len() - i,
    {
        proof {
            assert(decreases_to!(*v => v@[i as int]));
        }
        r.push(v[i].clone());
        i += 1;
    }
    r
}

/// An agent authorized (or once authorized) to report a property's values.
#[derive(Debug)]
pub struct Reporter {
    pub public_key: String,
    pub authorized: bool,
    pub index: u32,
}

pub ghost struct ReporterV {
    pub public_key: Seq<char>,
    pub authorized: bool,
    pub index: u32,
}

impl View for Reporter {
    type V = ReporterV;

    open spec fn view(&self) -> ReporterV {
        ReporterV {
            public_key: self.public_key@,
            authorized: self.authorized,
            index: self.index,
        }
    }
}

impl Clone for Reporter {
    fn clone(&self) -> (res: Self)
        ensures
            res@ == self@,
    {
        Reporter {
            public_key: self.public_key.clone(),
            authorized: self.authorized,
            index: self.index,
        }
    }
}

/// Copies a list of reporters entry by entry.
pub fn clone_reporters(v: &Vec<Reporter>) -> (r: Vec<Reporter>)
    ensures
        r@.len() == v@.len(),
        forall|i: int| 0 <= i < v@.len() ==> r@[i]@ == #[trigger] v@[i]@,
{
    let mut r: Vec<Reporter> = Vec::new();
    let mut i: usize = 0;
    while i < v.len()
        invariant
            i <= v@.len(),
            r@.len() == i,
            forall|j: int| 0 <= j < i ==> r@[j]@ == #[trigger] v@[j]@,
        decreases v@.len() - i,
    {
        r.push(v[i].clone());
        i += 1;
    }
    r
}

/// A typed, append-history slot on a record. Its reported values live in
/// pages; the property itself tracks the current page of the ring.
#[derive(Debug)]
pub struct Property {
    pub name: String,
    pub record_id: String,
    pub data_type: DataType,
    pub reporters: Vec<Reporter>,
    pub current_page: u32,
    pub wrapped: bool,
    pub number_exponent: i32,
    pub enum_options: Vec<String>,
    pub struct_properties: Vec<PropertySchema>,
}

pub ghost struct PropertyV {
    pub name: Seq<char>,
    pub record_id: Seq<char>,
    pub data_type: DataType,
    pub reporters: Seq<ReporterV>,
    pub current_page: u32,
    pub wrapped: bool,
    pub number_exponent: i32,
    pub enum_options: Seq<Seq<char>>,
    pub struct_properties: Seq<PropertySchemaV>,
}

impl View for Property {
    type V = PropertyV;

    open spec fn view(&self) -> PropertyV {
        PropertyV {
            name: self.name@,
            record_id: self.record_id@,
            data_type: self.data_type,
            reporters: Seq::new(self.reporters@.len(), |i: int| self.reporters@[i]@),
            current_page: self.current_page,
            wrapped: self.wrapped,
            number_exponent: self.number_exponent,
            enum_options: Seq::new(self.enum_options@.len(), |i: int| self.enum_options@[i]@),
            struct_properties: Seq::new(
                self.struct_properties@.len(),
                |i: int| self.struct_properties@[i]@,
            ),
        }
    }
}

impl Clone for Property {
    fn clone(&self) -> (res: Self)
        ensures
            res@ == self@,
    {
        let res = Property {
            name: self.name.clone(),
            record_id: self.record_id.clone(),
            data_type: self.data_type,
            reporters: clone_reporters(&self.reporters),
            current_page: self.current_page,
            wrapped: self.wrapped,
            number_exponent: self.number_exponent,
            enum_options: clone_strings(&self.enum_options),
            struct_properties: clone_schemata(&self.struct_properties),
        };
        proof {
            assert(res@.reporters =~= self@.reporters);
            assert(res@.enum_options =~= self@.enum_options);
            assert(res@.struct_properties =~= self@.struct_properties);
        }
        res
    }
}

/// One value reported for a property: who reported it, when, and the
/// typed payload selected by the property's data type.
#[derive(Debug)]
pub struct ReportedValue {
    pub reporter_index: u32,
    pub timestamp: u64,
    pub bytes_value: Vec<u8>,
    pub boolean_value: bool,
    pub number_value: i64,
    pub string_value: String,
    pub enum_value: u32,
    pub struct_values: Vec<PropertyValue>,
    pub location_value: Location,
}

pub ghost struct ReportedValueV {
    pub reporter_index: u32,
    pub timestamp: u64,
    pub bytes_value: Seq<u8>,
    pub boolean_value: bool,
    pub number_value: i64,
    pub string_value: Seq<char>,
    pub enum_value: u32,
    pub struct_values: Seq<PropertyValueV>,
    pub location_value: Location,
}

impl View for ReportedValue {
    type V = ReportedValueV;

    open spec fn view(&self) -> ReportedValueV {
        ReportedValueV {
            reporter_index: self.reporter_index,
            timestamp: self.timestamp,
            bytes_value: self.bytes_value@,
            boolean_value: self.boolean_value,
            number_value: self.number_value,
            string_value: self.string_value@,
            enum_value: self.enum_value,
            struct_values: Seq::new(self.struct_values@.len(), |i: int| self.struct_values@[i]@),
            location_value: self.location_value,
        }
    }
}

impl Clone for ReportedValue {
    fn clone(&self) -> (res: Self)
        ensures
            res@ == self@,
    {
        let res = ReportedValue {
            reporter_index: self.reporter_index,
            timestamp: self.timestamp,
            bytes_value: clone_bytes(&self.bytes_value),
            boolean_value: self.boolean_value,
            number_value: self.number_value,
            string_value: self.string_value.clone(),
            enum_value: self.enum_value,
            struct_values: clone_values(&self.struct_values),
            location_value: self.location_value,
        };
        proof {
            assert(res@.bytes_value =~= self@.bytes_value);
            assert(res@.struct_values =~= self@.struct_values);
        }
        res
    }
}

/// Copies a list of reported values entry by entry.
pub fn clone_reported_values(v: &Vec<ReportedValue>) -> (r: Vec<ReportedValue>)
    ensures
        r@.len() == v@.len(),
        forall|i: int| 0 <= i < v@.len() ==> r@[i]@ == #[trigger] v@[i]@,
{
    let mut r: Vec<ReportedValue> = Vec::new();
    let mut i: usize = 0;
    while i < v.len()
        invariant
            i <= v@.len(),
            r@.len() == i,
            forall|j: int| 0 <= j < i ==> r@[j]@ == #[trigger] v@[j]@,
        decreases v@.len() - i,
    {
        r.push(v[i].clone());
        i += 1;
    }
    r
}

/// A bounded bucket of reported values for one property.
#[derive(Debug)]
pub struct PropertyPage {
    pub name: String,
    pub record_id: String,
    pub reported_values: Vec<ReportedValue>,
}

pub ghost struct PropertyPageV {
    pub name: Seq<char>,
    pub record_id: Seq<char>,
    pub reported_values: Seq<ReportedValueV>,
}

impl View for PropertyPage {
    type V = PropertyPageV;

    open spec fn view(&self) -> PropertyPageV {
        PropertyPageV {
            name: self.name@,
            record_id: self.record_id@,
            reported_values: Seq::new(
                self.reported_values@.len(),
                |i: int| self.reported_values@[i]@,
            ),
        }
    }
}

impl Clone for PropertyPage {
    fn clone(&self) -> (res: Self)
        ensures
            res@ == self@,
    {
        let res = PropertyPage {
            name: self.name.clone(),
            record_id: self.record_id.clone(),
            reported_values: clone_reported_values(&self.reported_values),
        };
        proof {
            assert(res@.reported_values =~= self@.reported_values);
        }
        res
    }
}

/// A pending role transfer awaiting its receiving agent's answer.
#[derive(Debug)]
pub struct Proposal {
    pub record_id: String,
    pub timestamp: u64,
    pub issuing_agent: String,
    pub receiving_agent: String,
    pub role: Role,
    pub properties: Vec<String>,
    pub status: ProposalStatus,
}

pub ghost struct ProposalV {
    pub record_id: Seq<char>,
    pub timestamp: u64,
    pub issuing_agent: Seq<char>,
    pub receiving_agent: Seq<char>,
    pub role: Role,
    pub properties: Seq<Seq<char>>,
    pub status: ProposalStatus,
}

impl View for Proposal {
    type V = ProposalV;

    open spec fn view(&self) -> ProposalV {
        ProposalV {
            record_id: self.record_id@,
            timestamp: self.timestamp,
            issuing_agent: self.issuing_agent@,
            receiving_agent: self.receiving_agent@,
            role: self.role,
            properties: Seq::new(self.properties@.len(), |i: int| self.properties@[i]@),
            status: self.status,
        }
    }
}

impl Clone for Proposal {
    fn clone(&self) -> (res: Self)
        ensures
            res@ == self@,
    {
        let res = Proposal {
            record_id: self.record_id.clone(),
            timestamp: self.timestamp,
            issuing_agent: self.issuing_agent.clone(),
            receiving_agent: self.receiving_agent.clone(),
            role: self.role,
            properties: clone_strings(&self.properties),
            status: self.status,
        };
        proof {
            assert(res@.properties =~= self@.properties);
        }
        res
    }
}

/// Copies a list of proposals entry by entry.
pub fn clone_proposals(v: &Vec<Proposal>) -> (r: Vec<Proposal>)
    ensures
        r@.len() == v@.len(),
        forall|i: int| 0 <= i < v@.len() ==> r@[i]@ == #[trigger] v@[i]@,
{
    let mut r: Vec<Proposal> = Vec::new();
    let mut i: usize = 0;
    while i < v.len()
        invariant
            i <= v@.len(),
            r@.len() == i,
            forall|j: int| 0 <= j < i ==> r@[j]@ == #[trigger] v@[j]@,
        decreases v@.len() - i,
    {
        r.push(v[i].clone());
        i += 1;
    }
    r
}

} // verus!
