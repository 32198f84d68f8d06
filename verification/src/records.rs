//! Reported values: construction, typing, and page ordering.
//!
//! A reported value copies the typed field selected by the property's
//! data type. An enumeration value is stored as its index among the
//! property's options; a struct value must match the schema shape
//! recursively. Reported values on a page are kept sorted by timestamp,
//! with the reporter index as the tie break.

use vstd::prelude::*;

use crate::containers::{
    check_last_occurrence, find_index, find_index_last, found, found_last, is_last_occurrence,
    views_of,
};
use crate::entities::{
    clone_bytes, clone_schemata, clone_strings, clone_values, schema_view, value_view,
    AssociatedAgent, AssociatedAgentV, DataType, Location, Property, PropertyPage, PropertyPageV,
    PropertySchema, PropertySchemaV, PropertyV, PropertyValue, PropertyValueV, Record, RecordV,
    ReportedValue, ReportedValueV, Reporter, ReporterV,
};
use crate::state::{
    spec_get_agent, spec_get_property, spec_get_property_page, spec_get_record,
    spec_get_record_type, spec_set_property, spec_set_property_page, spec_set_record, step_internal,
    step_invalid, step_matches, step_ok, Lookup, Step, SupplyChainState,
};
use crate::errors::ApplyError;
use crate::payload::{CreateRecordAction, UpdatePropertiesAction};
use crate::strings_order::str_eq;

verus! {

/// The index of `name` among the enumeration options, if it is one.
pub open spec fn opt_index_of(opts: Seq<Seq<char>>, name: Seq<char>) -> Option<int>
    decreases opts.len(),
{
    if opts.len() == 0 {
        None
    } else if opts[0] == name {
        Some(0int)
    } else {
        match opt_index_of(opts.drop_first(), name) {
            Some(i) => Some(i + 1),
            None => None,
        }
    }
}

/// `opt_index_of` returns the least matching index, or none.
pub proof fn lemma_opt_index_of(opts: Seq<Seq<char>>, name: Seq<char>)
    ensures
        match opt_index_of(opts, name) {
            Some(i) => 0 <= i < opts.len() && opts[i] == name && forall|j: int|
                0 <= j < i ==> (#[trigger] opts[j]) != name,
            None => forall|j: int| 0 <= j < opts.len() ==> (#[trigger] opts[j]) != name,
        },
    decreases opts.len(),
{
    if opts.len() > 0 && opts[0] != name {
        lemma_opt_index_of(opts.drop_first(), name);
        assert forall|j: int| 1 <= j < opts.len() implies opts[j] == opts.drop_first()[j - 1] by {
            assert(opts.drop_first()[j - 1] == opts[j]);
        }
    }
}

/// A struct value matches its schema: same length, every schema entry
/// found by name with the same data type, and nested structs matching
/// recursively.
pub open spec fn valid_struct(values: Seq<PropertyValueV>, schema: Seq<PropertySchemaV>) -> bool
    decreases schema, 1int, 0int,
{
    values.len() == schema.len() && valid_struct_from(values, schema, 0)
}

/// The schema entries from index `k` on all match.
pub open spec fn valid_struct_from(
    values: Seq<PropertyValueV>,
    schema: Seq<PropertySchemaV>,
    k: int,
) -> bool
    decreases schema, 0int, schema.len() - k,
{
    if k < 0 || k >= schema.len() {
        true
    } else {
        match found(values, schema[k].name) {
            None => false,
            Some(v) => v.data_type == schema[k].data_type && (schema[k].data_type
                == DataType::Struct ==> valid_struct(v.struct_values, schema[k].struct_properties))
                && valid_struct_from(values, schema, k + 1),
        }
    }
}

/// The reported value recorded for a property value, if the value is
/// typed correctly: the typed field selected by the value's data type is
/// copied, an enumeration value becomes its option index, a struct value
/// is checked against the schema. Nothing is recorded for an unset type,
/// an unknown enumeration name, or a mismatched struct.
pub open spec fn rv_base(reporter_index: u32, timestamp: u64) -> ReportedValueV {
    ReportedValueV {
        reporter_index,
        timestamp,
        bytes_value: Seq::empty(),
        boolean_value: false,
        number_value: 0,
        string_value: Seq::empty(),
        enum_value: 0,
        struct_values: Seq::empty(),
        location_value: Location { latitude: 0, longitude: 0 },
    }
}

pub open spec fn spec_make_reported_value(
    reporter_index: u32,
    timestamp: u64,
    v: PropertyValueV,
    prop: PropertyV,
) -> Option<ReportedValueV> {
    let base = rv_base(reporter_index, timestamp);
    match v.data_type {
        DataType::TypeUnset => None,
        DataType::Bytes => Some(ReportedValueV { bytes_value: v.bytes_value, ..base }),
        DataType::Boolean => Some(ReportedValueV { boolean_value: v.boolean_value, ..base }),
        DataType::Number => Some(ReportedValueV { number_value: v.number_value, ..base }),
        DataType::Str => Some(ReportedValueV { string_value: v.string_value, ..base }),
        DataType::Enum => match opt_index_of(prop.enum_options, v.enum_value) {
            Some(i) => Some(ReportedValueV { enum_value: i as u32, ..base }),
            None => None,
        },
        DataType::Struct => if valid_struct(v.struct_values, prop.struct_properties) {
            Some(ReportedValueV { struct_values: v.struct_values, ..base })
        } else {
            None
        },
        DataType::Location => Some(ReportedValueV { location_value: v.location_value, ..base }),
    }
}

/// Reported values are ordered by timestamp, then reporter index.
pub open spec fn rv_le(a: ReportedValueV, b: ReportedValueV) -> bool {
    a.timestamp < b.timestamp || (a.timestamp == b.timestamp && a.reporter_index
        <= b.reporter_index)
}

/// Where a new reported value lands: after every value that does not
/// exceed it, as a stable sort after an append would place it.
pub open spec fn rv_insert_pos(vals: Seq<ReportedValueV>, rv: ReportedValueV) -> int
    decreases vals.len(),
{
    if vals.len() == 0 {
        0
    } else if rv_le(vals[0], rv) {
        1 + rv_insert_pos(vals.drop_first(), rv)
    } else {
        0
    }
}

/// `rv_insert_pos` is the first index whose value exceeds the new one,
/// or the length.
pub proof fn lemma_rv_insert_pos(vals: Seq<ReportedValueV>, rv: ReportedValueV)
    ensures
        0 <= rv_insert_pos(vals, rv) <= vals.len(),
        forall|j: int| 0 <= j < rv_insert_pos(vals, rv) ==> rv_le(#[trigger] vals[j], rv),
        rv_insert_pos(vals, rv) < vals.len() ==> !rv_le(vals[rv_insert_pos(vals, rv)], rv),
    decreases vals.len(),
{
    if vals.len() > 0 && rv_le(vals[0], rv) {
        lemma_rv_insert_pos(vals.drop_first(), rv);
        assert forall|j: int| 1 <= j < vals.len() implies vals[j] == vals.drop_first()[j - 1] by {
            assert(vals.drop_first()[j - 1] == vals[j]);
        }
    }
}

/// A page's value list with the new value at its sorted position.
pub open spec fn insert_reported(vals: Seq<ReportedValueV>, rv: ReportedValueV) -> Seq<
    ReportedValueV,
> {
    vals.insert(rv_insert_pos(vals, rv), rv)
}

/// The first reporter entry for this key that is authorized, if any.
pub open spec fn reporter_idx(reporters: Seq<ReporterV>, signer: Seq<char>) -> Option<int>
    decreases reporters.len(),
{
    if reporters.len() == 0 {
        None
    } else if reporters[0].public_key == signer && reporters[0].authorized {
        Some(0int)
    } else {
        match reporter_idx(reporters.drop_first(), signer) {
            Some(i) => Some(i + 1),
            None => None,
        }
    }
}

/// `reporter_idx` returns the least index of an authorized entry for the
/// key, or none.
pub proof fn lemma_reporter_idx(reporters: Seq<ReporterV>, signer: Seq<char>)
    ensures
        match reporter_idx(reporters, signer) {
            Some(i) => 0 <= i < reporters.len() && reporters[i].public_key == signer
                && reporters[i].authorized && forall|j: int|
                0 <= j < i ==> !((#[trigger] reporters[j]).public_key == signer
                    && reporters[j].authorized),
            None => forall|j: int|
                0 <= j < reporters.len() ==> !((#[trigger] reporters[j]).public_key == signer
                    && reporters[j].authorized),
        },
    decreases reporters.len(),
{
    if reporters.len() > 0 && !(reporters[0].public_key == signer && reporters[0].authorized) {
        lemma_reporter_idx(reporters.drop_first(), signer);
        assert forall|j: int| 1 <= j < reporters.len() implies reporters[j]
            == reporters.drop_first()[j - 1] by {
            assert(reporters.drop_first()[j - 1] == reporters[j]);
        }
    }
}

/// Inserts a reported value at its sorted position in a page's list.
pub fn insert_reported_value(vals: &mut Vec<ReportedValue>, rv: ReportedValue)
    ensures
        views_of(final(vals)@) == insert_reported(views_of(old(vals)@), rv@),
{
    let ghost vs = views_of(old(vals)@);
    let mut p: usize = 0;
    loop
        invariant
            p <= vals@.len(),
            *vals == *old(vals),
            vs == views_of(old(vals)@),
            forall|j: int| 0 <= j < p ==> rv_le((#[trigger] vs[j]), rv@),
        ensures
            p <= vals@.len(),
            *vals == *old(vals),
            vs == views_of(old(vals)@),
            forall|j: int| 0 <= j < p ==> rv_le((#[trigger] vs[j]), rv@),
            p < vals@.len() ==> !rv_le(vs[p as int], rv@),
        decreases vals@.len() - p,
    {
        if p >= vals.len() {
            break ;
        }
        let e = &vals[p];
        let le: bool = e.timestamp < rv.timestamp || (e.timestamp == rv.timestamp
            && e.reporter_index <= rv.reporter_index);
        if !le {
            break ;
        }
        p += 1;
    }
    proof {
        lemma_rv_insert_pos(vs, rv@);
        assert(rv_insert_pos(vs, rv@) == p as int);
    }
    vals.insert(p, rv);
    proof {
        crate::containers::lemma_views_of_insert(old(vals)@, p as int, rv);
        assert(views_of(final(vals)@) =~= insert_reported(vs, rv@));
    }
}

/// Checks a struct value against its schema, recursively.
#[verifier::loop_isolation(false)]
pub fn validate_struct_values(
    struct_values: &Vec<PropertyValue>,
    schema_values: &Vec<PropertySchema>,
) -> (r: Result<(), ApplyError>)
    ensures
        r is Ok <==> valid_struct(views_of(struct_values@), views_of(schema_values@)),
        r matches Err(e) ==> e is InvalidTransaction,
    decreases *schema_values,
{
    let ghost vv = views_of(struct_values@);
    let ghost sv = views_of(schema_values@);
    if struct_values.len() != schema_values.len() {
        return Err(
            ApplyError::InvalidTransaction(
                String::from_str("Provided struct does not match schema length"),
            ),
        );
    }
    let mut k: usize = 0;
    while k < schema_values.len()
        invariant
            k <= schema_values@.len(),
            valid_struct_from(vv, sv, 0) == valid_struct_from(vv, sv, k as int),
        decreases schema_values@.len() - k,
    {
        let schema = &schema_values[k];
        let vi = match find_index(struct_values, schema.name.as_str()) {
            Some(vi) => vi,
            None => {
                proof {
                    assert(found(vv, sv[k as int].name) is None);
                    assert(!valid_struct_from(vv, sv, k as int));
                }
                return Err(
                    ApplyError::InvalidTransaction(
                        String::from_str("Provided struct missing required property from schema: ")
                            .concat(schema.name.as_str()),
                    ),
                );
            },
        };
        let value = &struct_values[vi];
        proof {
            assert(found(vv, sv[k as int].name) == Some(vv[vi as int]));
            assert(vv[vi as int] == value@);
            assert(value@.struct_values =~= views_of(value.struct_values@));
            assert(sv[k as int] == schema@);
            assert(schema@.struct_properties =~= views_of(schema.struct_properties@));
        }
        if !data_type_eq(value.data_type, schema.data_type) {
            proof {
                assert(!valid_struct_from(vv, sv, k as int));
            }
            return Err(
                ApplyError::InvalidTransaction(
                    String::from_str("Struct property has the wrong data type: ").concat(
                        schema.name.as_str(),
                    ),
                ),
            );
        }
        if data_type_eq(schema.data_type, DataType::Struct) {
            proof {
                assert(decreases_to!(*schema_values => schema_values@[k as int]));
            }
            match validate_struct_values(&value.struct_values, &schema.struct_properties) {
                Ok(_) => {
                    proof {
                        assert(valid_struct(
                            vv[vi as int].struct_values,
                            sv[k as int].struct_properties,
                        ));
                    }
                },
                Err(e) => {
                    proof {
                        assert(!valid_struct(
                            vv[vi as int].struct_values,
                            sv[k as int].struct_properties,
                        ));
                        assert(!valid_struct_from(vv, sv, k as int));
                    }
                    return Err(e);
                },
            }
        }
        k += 1;
    }
    proof {
        assert(valid_struct_from(vv, sv, schema_values@.len() as int));
        assert(valid_struct(vv, sv));
    }
    Ok(())
}

/// Compares two data types.
pub fn data_type_eq(a: DataType, b: DataType) -> (r: bool)
    ensures
        r == (a == b),
{
    a == b
}


/// Finds the index of a name among the enumeration options.
pub fn find_option_index(opts: &Vec<String>, name: &str) -> (r: Option<usize>)
    ensures
        match r {
            Some(j) => j < opts@.len() && opt_index_of(views_of(opts@), name@) == Some(j as int),
            None => opt_index_of(views_of(opts@), name@) is None,
        },
{
    let ghost vs = views_of(opts@);
    let mut i: usize = 0;
    while i < opts.len()
        invariant
            i <= opts@.len(),
            vs == views_of(opts@),
            forall|j: int| 0 <= j < i ==> (#[trigger] vs[j]) != name@,
        decreases opts@.len() - i,
    {
        if str_eq(opts[i].as_str(), name) {
            proof {
                lemma_opt_index_of(vs, name@);
                assert(vs[i as int] == name@);
                assert(opt_index_of(vs, name@) == Some(i as int));
            }
            return Some(i);
        }
        i += 1;
    }
    proof {
        lemma_opt_index_of(vs, name@);
    }
    None
}

impl crate::handler::SupplyChainTransactionHandler {
    /// Builds the reported value for one property value, per the
    /// property's typing rules.
    pub fn make_new_reported_value(
        &self,
        reporter_index: u32,
        timestamp: u64,
        value: &PropertyValue,
        property: &Property,
    ) -> (r: Result<ReportedValue, ApplyError>)
        ensures
            match r {
                Ok(rv) => spec_make_reported_value(reporter_index, timestamp, value@, property@)
                    == Some(rv@),
                Err(e) => spec_make_reported_value(reporter_index, timestamp, value@, property@)
                    is None && e is InvalidTransaction,
            },
    {
        let base = ReportedValue {
            reporter_index,
            timestamp,
            bytes_value: Vec::new(),
            boolean_value: false,
            number_value: 0,
            string_value: String::new(),
            enum_value: 0,
            struct_values: Vec::new(),
            location_value: Location { latitude: 0, longitude: 0 },
        };
        proof {
            assert(base@.bytes_value =~= Seq::<u8>::empty());
            assert(base@.struct_values =~= Seq::<PropertyValueV>::empty());
            assert(base@ == rv_base(reporter_index, timestamp));
        }
        match value.data_type {
            DataType::TypeUnset => Err(
                ApplyError::InvalidTransaction(String::from_str("DataType is not set")),
            ),
            DataType::Bytes => {
                let mut rv = base;
                rv.bytes_value = clone_bytes(&value.bytes_value);
                proof {
                    assert(rv@ == ReportedValueV {
                        bytes_value: value@.bytes_value,
                        ..rv_base(reporter_index, timestamp)
                    });
                }
                Ok(rv)
            },
            DataType::Boolean => {
                let mut rv = base;
                rv.boolean_value = value.boolean_value;
                Ok(rv)
            },
            DataType::Number => {
                let mut rv = base;
                rv.number_value = value.number_value;
                Ok(rv)
            },
            DataType::Str => {
                let mut rv = base;
                rv.string_value = value.string_value.clone();
                Ok(rv)
            },
            DataType::Enum => {
                proof {
                    assert(property@.enum_options =~= views_of(property.enum_options@));
                }
                match find_option_index(&property.enum_options, value.enum_value.as_str()) {
                    Some(idx) => {
                        let mut rv = base;
                        rv.enum_value = #[verifier::truncate] (idx as u32);
                        proof {
                            assert(rv@ == ReportedValueV {
                                enum_value: (idx as int) as u32,
                                ..rv_base(reporter_index, timestamp)
                            });
                        }
                        Ok(rv)
                    },
                    None => Err(
                        ApplyError::InvalidTransaction(
                            String::from_str("Provided enum name is not a valid option: ").concat(
                                value.enum_value.as_str(),
                            ),
                        ),
                    ),
                }
            },
            DataType::Struct => {
                proof {
                    assert(value@.struct_values =~= views_of(value.struct_values@));
                    assert(property@.struct_properties =~= views_of(
                        property.struct_properties@,
                    ));
                }
                match validate_struct_values(&value.struct_values, &property.struct_properties) {
                    Ok(_) => (),
                    Err(e) => {
                        return Err(e);
                    },
                }
                let mut rv = base;
                rv.struct_values = clone_values(&value.struct_values);
                proof {
                    assert forall|i: int| 0 <= i < value.struct_values@.len() implies value_view(
                        rv.struct_values@[i],
                    ) == value_view(value.struct_values@[i]) by {
                        assert(rv.struct_values@[i]@ == value.struct_values@[i]@);
                    }
                    assert(rv@.struct_values =~= value@.struct_values);
                    assert(rv@ == ReportedValueV {
                        struct_values: value@.struct_values,
                        ..rv_base(reporter_index, timestamp)
                    });
                }
                Ok(rv)
            },
            DataType::Location => {
                let mut rv = base;
                rv.location_value = value.location_value;
                Ok(rv)
            },
        }
    }
}


/// Some required property of the schema has no provided value.
pub open spec fn missing_required(
    props: Seq<PropertySchemaV>,
    provided: Seq<PropertyValueV>,
) -> bool {
    exists|i: int|
        0 <= i < props.len() && (#[trigger] props[i]).required && found(provided, props[i].name)
            is None
}

/// Some provided value (in its effective, last occurrence) names no
/// schema property, has the wrong data type, or sets a delayed property.
pub open spec fn invalid_provided(
    props: Seq<PropertySchemaV>,
    provided: Seq<PropertyValueV>,
) -> bool {
    exists|i: int|
        0 <= i < provided.len() && is_last_occurrence(provided, i) && match found_last(
            props,
            (#[trigger] provided[i]).name,
        ) {
            None => true,
            Some(sc) => provided[i].data_type != sc.data_type || sc.delayed,
        }
}

/// The property a record creation installs for one schema entry: the
/// signer is its only reporter, authorized, at index zero; the history
/// starts on page one, unwrapped.
pub open spec fn initial_property(
    sc: PropertySchemaV,
    record_id: Seq<char>,
    signer: Seq<char>,
) -> PropertyV {
    PropertyV {
        name: sc.name,
        record_id,
        data_type: sc.data_type,
        reporters: seq![ReporterV { public_key: signer, authorized: true, index: 0 }],
        current_page: 1,
        wrapped: false,
        number_exponent: sc.number_exponent,
        enum_options: sc.enum_options,
        struct_properties: sc.struct_properties,
    }
}

/// The per-property tail of record creation: for each effective schema
/// entry, install its property, then its first page, holding the reported
/// value of the provided value if one was given.
pub open spec fn create_record_fold(
    s: Seq<crate::state::StateEntryV>,
    props: Seq<PropertySchemaV>,
    i: int,
    a: crate::payload::CreateRecordActionV,
    signer: Seq<char>,
    timestamp: u64,
) -> Step
    decreases props.len() - i,
{
    if i < 0 || i >= props.len() {
        step_ok(s)
    } else if !is_last_occurrence(props, i) {
        create_record_fold(s, props, i + 1, a, signer, timestamp)
    } else {
        let sc = props[i];
        let new_property = initial_property(sc, a.record_id, signer);
        match spec_set_property(s, a.record_id, sc.name, new_property) {
            None => step_internal(s),
            Some(s1) => {
                let reported = match found_last(a.properties, sc.name) {
                    None => Some(Seq::<ReportedValueV>::empty()),
                    Some(pv) => match spec_make_reported_value(0, timestamp, pv, new_property) {
                        None => None,
                        Some(rv) => Some(seq![rv]),
                    },
                };
                match reported {
                    None => step_invalid(s1),
                    Some(vals) => {
                        let page = PropertyPageV {
                            name: sc.name,
                            record_id: a.record_id,
                            reported_values: vals,
                        };
                        match spec_set_property_page(s1, a.record_id, sc.name, 1, page) {
                            None => step_internal(s1),
                            Some(s2) => create_record_fold(s2, props, i + 1, a, signer, timestamp),
                        }
                    },
                }
            },
        }
    }
}

/// Creating a record: the signer must be an agent, the identifier new,
/// the record type known; required properties must be provided, provided
/// properties must fit the schema and not be delayed. The record starts
/// with the signer as sole owner and custodian, and each schema property
/// is installed with its first page.
pub open spec fn spec_create_record(
    s: Seq<crate::state::StateEntryV>,
    a: crate::payload::CreateRecordActionV,
    signer: Seq<char>,
    timestamp: u64,
) -> Step {
    match spec_get_agent(s, signer) {
        Lookup::Corrupt => step_internal(s),
        Lookup::Missing => step_invalid(s),
        Lookup::Found(_) => match spec_get_record(s, a.record_id) {
            Lookup::Corrupt => step_internal(s),
            Lookup::Found(_) => step_invalid(s),
            Lookup::Missing => match spec_get_record_type(s, a.record_type) {
                Lookup::Corrupt => step_internal(s),
                Lookup::Missing => step_invalid(s),
                Lookup::Found(rt) => {
                    if missing_required(rt.properties, a.properties) {
                        step_invalid(s)
                    } else if invalid_provided(rt.properties, a.properties) {
                        step_invalid(s)
                    } else {
                        let new_record = RecordV {
                            record_id: a.record_id,
                            record_type: a.record_type,
                            owners: seq![
                                AssociatedAgentV { agent_id: signer, timestamp },
                            ],
                            custodians: seq![
                                AssociatedAgentV { agent_id: signer, timestamp },
                            ],
                            field_final: false,
                        };
                        match spec_set_record(s, a.record_id, new_record) {
                            None => step_internal(s),
                            Some(s1) => create_record_fold(
                                s1,
                                rt.properties,
                                0,
                                a,
                                signer,
                                timestamp,
                            ),
                        }
                    }
                },
            },
        },
    }
}


impl crate::handler::SupplyChainTransactionHandler {
    /// Creates a record from a known record type, with the signer as its
    /// first owner and custodian, and installs each schema property with
    /// the first page of its history.
    #[verifier::loop_isolation(false)]
    pub fn create_record(
        &self,
        payload: CreateRecordAction,
        state: &mut SupplyChainState,
        signer: &str,
        timestamp: u64,
    ) -> (r: Result<(), ApplyError>)
        ensures
            step_matches(
                spec_create_record(old(state)@, payload@, signer@, timestamp),
                final(state)@,
                r,
            ),
    {
        let ghost av = payload@;
        proof {
            assert(av.properties =~= views_of(payload.properties@));
        }
        match state.get_agent(signer) {
            Ok(Some(_)) => (),
            Ok(None) => {
                return Err(
                    ApplyError::InvalidTransaction(
                        String::from_str("Agent is not register: ").concat(signer),
                    ),
                );
            },
            Err(err) => {
                return Err(err);
            },
        }
        let record_id = payload.record_id.as_str();
        match state.get_record(record_id) {
            Ok(Some(_)) => {
                return Err(
                    ApplyError::InvalidTransaction(
                        String::from_str("Record already exists: ").concat(record_id),
                    ),
                );
            },
            Ok(None) => (),
            Err(err) => {
                return Err(err);
            },
        }
        let record_type = match state.get_record_type(payload.record_type.as_str()) {
            Ok(Some(record_type)) => record_type,
            Ok(None) => {
                return Err(
                    ApplyError::InvalidTransaction(
                        String::from_str("Record Type does not exist ").concat(
                            payload.record_type.as_str(),
                        ),
                    ),
                );
            },
            Err(err) => {
                return Err(err);
            },
        };
        let ghost rtv = record_type@;
        proof {
            assert(rtv.properties =~= views_of(record_type.properties@));
        }
        let mut i: usize = 0;
        while i < record_type.properties.len()
            invariant
                i <= record_type.properties@.len(),
                forall|j: int|
                    0 <= j < i ==> !((#[trigger] rtv.properties[j]).required && found(
                        av.properties,
                        rtv.properties[j].name,
                    ) is None),
            decreases record_type.properties@.len() - i,
        {
            let sc = &record_type.properties[i];
            if sc.required {
                match find_index(&payload.properties, sc.name.as_str()) {
                    Some(_) => (),
                    None => {
                        proof {
                            assert(rtv.properties[i as int].required && found(
                                av.properties,
                                rtv.properties[i as int].name,
                            ) is None);
                            assert(missing_required(rtv.properties, av.properties));
                        }
                        return Err(
                            ApplyError::InvalidTransaction(
                                String::from_str("Required property ").concat(
                                    sc.name.as_str(),
                                ).concat(" not provided"),
                            ),
                        );
                    },
                }
            }
            i += 1;
        }
        proof {
            assert(!missing_required(rtv.properties, av.properties));
        }
        let mut i: usize = 0;
        while i < payload.properties.len()
            invariant
                i <= payload.properties@.len(),
                forall|j: int|
                    0 <= j < i ==> !(is_last_occurrence(av.properties, j) && match found_last(
                        rtv.properties,
                        (#[trigger] av.properties[j]).name,
                    ) {
                        None => true,
                        Some(sc) => av.properties[j].data_type != sc.data_type || sc.delayed,
                    }),
            decreases payload.properties@.len() - i,
        {
            if check_last_occurrence(&payload.properties, i) {
                let p = &payload.properties[i];
                match find_index_last(&record_type.properties, p.name.as_str()) {
                    None => {
                        proof {
                            assert(invalid_provided(rtv.properties, av.properties));
                        }
                        return Err(
                            ApplyError::InvalidTransaction(
                                String::from_str("Provided property ").concat(
                                    p.name.as_str(),
                                ).concat(" is not in schemata"),
                            ),
                        );
                    },
                    Some(si) => {
                        let sc = &record_type.properties[si];
                        if !data_type_eq(p.data_type, sc.data_type) {
                            proof {
                                assert(invalid_provided(rtv.properties, av.properties));
                            }
                            return Err(
                                ApplyError::InvalidTransaction(
                                    String::from_str("Value provided for ").concat(
                                        p.name.as_str(),
                                    ).concat(" is the wrong type"),
                                ),
                            );
                        }
                        if sc.delayed {
                            proof {
                                assert(invalid_provided(rtv.properties, av.properties));
                            }
                            return Err(
                                ApplyError::InvalidTransaction(
                                    String::from_str(
                                        "Property is 'delayed', and cannot be set at record creation: ",
                                    ).concat(p.name.as_str()),
                                ),
                            );
                        }
                    },
                }
            }
            i += 1;
        }
        proof {
            assert(!invalid_provided(rtv.properties, av.properties));
        }
        let owner = AssociatedAgent { agent_id: String::from_str(signer), timestamp };
        let mut owners: Vec<AssociatedAgent> = Vec::new();
        owners.push(owner.clone());
        let mut custodians: Vec<AssociatedAgent> = Vec::new();
        custodians.push(owner);
        let new_record = Record {
            record_id: payload.record_id.clone(),
            record_type: payload.record_type.clone(),
            owners,
            custodians,
            field_final: false,
        };
        proof {
            assert(new_record@.owners =~= seq![AssociatedAgentV { agent_id: signer@, timestamp }]);
            assert(new_record@.custodians =~= seq![
                AssociatedAgentV { agent_id: signer@, timestamp },
            ]);
        }
        state.set_record(record_id, new_record)?;
        let ghost s1 = state@;
        let mut i: usize = 0;
        while i < record_type.properties.len()
            invariant
                i <= record_type.properties@.len(),
                create_record_fold(s1, rtv.properties, 0, av, signer@, timestamp)
                    == create_record_fold(state@, rtv.properties, i as int, av, signer@, timestamp),
            decreases record_type.properties@.len() - i,
        {
            if !check_last_occurrence(&record_type.properties, i) {
                i += 1;
                continue ;
            }
            let sc = &record_type.properties[i];
            let ghost scv = rtv.properties[i as int];
            let mut reporters: Vec<Reporter> = Vec::new();
            reporters.push(
                Reporter { public_key: String::from_str(signer), authorized: true, index: 0 },
            );
            let new_property = Property {
                name: sc.name.clone(),
                record_id: payload.record_id.clone(),
                data_type: sc.data_type,
                reporters,
                current_page: 1,
                wrapped: false,
                number_exponent: sc.number_exponent,
                enum_options: clone_strings(&sc.enum_options),
                struct_properties: clone_schemata(&sc.struct_properties),
            };
            proof {
                assert(new_property@.reporters =~= seq![
                    ReporterV { public_key: signer@, authorized: true, index: 0u32 },
                ]);
                assert(new_property@.enum_options =~= scv.enum_options);
                assert forall|l: int|
                    0 <= l < sc.struct_properties@.len() implies schema_view(
                    new_property.struct_properties@[l],
                ) == schema_view(sc.struct_properties@[l]) by {
                    assert(new_property.struct_properties@[l]@ == sc.struct_properties@[l]@);
                }
                assert(new_property@.struct_properties =~= scv.struct_properties);
                assert(new_property@ == initial_property(scv, av.record_id, signer@));
            }
            state.set_property(record_id, sc.name.as_str(), new_property.clone())?;
            let mut reported_values: Vec<ReportedValue> = Vec::new();
            match find_index_last(&payload.properties, sc.name.as_str()) {
                Some(pi) => {
                    let provided = &payload.properties[pi];
                    let rv = match self.make_new_reported_value(
                        0,
                        timestamp,
                        provided,
                        &new_property,
                    ) {
                        Ok(rv) => rv,
                        Err(err) => {
                            return Err(err);
                        },
                    };
                    reported_values.push(rv);
                },
                None => (),
            }
            let new_page = PropertyPage {
                name: sc.name.clone(),
                record_id: payload.record_id.clone(),
                reported_values,
            };
            proof {
                match found_last(av.properties, scv.name) {
                    Some(pv) => {
                        assert(new_page@.reported_values =~= seq![
                            spec_make_reported_value(
                                0,
                                timestamp,
                                pv,
                                initial_property(scv, av.record_id, signer@),
                            )->Some_0,
                        ]);
                    },
                    None => {
                        assert(new_page@.reported_values =~= Seq::<ReportedValueV>::empty());
                    },
                }
            }
            state.set_property_page(record_id, sc.name.as_str(), 1, new_page)?;
            i += 1;
        }
        Ok(())
    }
}


/// A property page holds at most this many reported values; on reaching
/// the cap the property advances to the next page of the ring.
pub const PROPERTY_PAGE_MAX_LENGTH: usize = 256;

/// The index of the first authorized reporter entry for the signer.
pub fn find_reporter(reporters: &Vec<Reporter>, signer: &str) -> (r: Option<usize>)
    ensures
        match r {
            Some(j) => j < reporters@.len() && reporter_idx(views_of(reporters@), signer@)
                == Some(j as int),
            None => reporter_idx(views_of(reporters@), signer@) is None,
        },
{
    let ghost vs = views_of(reporters@);
    let mut i: usize = 0;
    while i < reporters.len()
        invariant
            i <= reporters@.len(),
            vs == views_of(reporters@),
            forall|j: int|
                0 <= j < i ==> !((#[trigger] vs[j]).public_key == signer@ && vs[j].authorized),
        decreases reporters@.len() - i,
    {
        if str_eq(reporters[i].public_key.as_str(), signer) && reporters[i].authorized {
            proof {
                lemma_reporter_idx(vs, signer@);
                assert(vs[i as int].public_key == signer@ && vs[i as int].authorized);
                assert(reporter_idx(vs, signer@) == Some(i as int));
            }
            return Some(i);
        }
        i += 1;
    }
    proof {
        lemma_reporter_idx(vs, signer@);
    }
    None
}

/// The ring advance after a page fills: the target page (the next one,
/// or page one on wrap) is cleared or created empty and written, then the
/// property's current page moves to it, setting `wrapped` the first time
/// the ring returns to page one.
pub open spec fn ring_advance(
    s: Seq<crate::state::StateEntryV>,
    record_id: Seq<char>,
    name: Seq<char>,
    target: PropertyPageV,
    prop: PropertyV,
    npn: u32,
) -> Step {
    match spec_set_property_page(s, record_id, name, npn, target) {
        None => step_internal(s),
        Some(s2) => {
            let prop2 = PropertyV {
                current_page: npn,
                wrapped: if npn == 1 && !prop.wrapped {
                    true
                } else {
                    prop.wrapped
                },
                ..prop
            };
            match spec_set_property(s2, record_id, name, prop2) {
                None => step_internal(s2),
                Some(s3) => step_ok(s3),
            }
        },
    }
}

/// The page the ring advances to when the current page fills: the next
/// page, or page one when the current page is the last of the ring.
pub open spec fn next_page_number(current: u32) -> u32 {
    if current <= 255 {
        (current + 1) as u32
    } else {
        1u32
    }
}

/// One property update: the signer must be an authorized reporter of the
/// property, the update's type must match, and the reported value lands
/// on the current page, kept sorted by timestamp and reporter index. A
/// page that reaches the cap advances the ring.
pub open spec fn update_fold(
    s: Seq<crate::state::StateEntryV>,
    updates: Seq<PropertyValueV>,
    i: int,
    record_id: Seq<char>,
    signer: Seq<char>,
    timestamp: u64,
) -> Step
    decreases updates.len() - i,
{
    if i < 0 || i >= updates.len() {
        step_ok(s)
    } else {
        let u = updates[i];
        match spec_get_property(s, record_id, u.name) {
            Lookup::Corrupt => step_internal(s),
            Lookup::Missing => step_invalid(s),
            Lookup::Found(prop) => match reporter_idx(prop.reporters, signer) {
                None => step_invalid(s),
                Some(ri) => {
                    if u.data_type != prop.data_type {
                        step_invalid(s)
                    } else {
                        match spec_get_property_page(s, record_id, u.name, prop.current_page) {
                            Lookup::Corrupt => step_internal(s),
                            Lookup::Missing => step_invalid(s),
                            Lookup::Found(page) => match spec_make_reported_value(
                                prop.reporters[ri].index,
                                timestamp,
                                u,
                                prop,
                            ) {
                                None => step_invalid(s),
                                Some(rv) => {
                                    let vals = insert_reported(page.reported_values, rv);
                                    let page1 = PropertyPageV { reported_values: vals, ..page };
                                    match spec_set_property_page(
                                        s,
                                        record_id,
                                        u.name,
                                        prop.current_page,
                                        page1,
                                    ) {
                                        None => step_internal(s),
                                        Some(s1) => {
                                            if vals.len() >= 256 {
                                                let npn = next_page_number(prop.current_page);
                                                let ring = match spec_get_property_page(
                                                    s1,
                                                    record_id,
                                                    u.name,
                                                    npn,
                                                ) {
                                                    Lookup::Corrupt => step_internal(s1),
                                                    Lookup::Found(p2) => ring_advance(
                                                        s1,
                                                        record_id,
                                                        u.name,
                                                        PropertyPageV {
                                                            reported_values: Seq::empty(),
                                                            ..p2
                                                        },
                                                        prop,
                                                        npn,
                                                    ),
                                                    Lookup::Missing => ring_advance(
                                                        s1,
                                                        record_id,
                                                        u.name,
                                                        PropertyPageV {
                                                            name: u.name,
                                                            record_id,
                                                            reported_values: Seq::empty(),
                                                        },
                                                        prop,
                                                        npn,
                                                    ),
                                                };
                                                if ring.err is Some {
                                                    ring
                                                } else {
                                                    update_fold(
                                                        ring.state,
                                                        updates,
                                                        i + 1,
                                                        record_id,
                                                        signer,
                                                        timestamp,
                                                    )
                                                }
                                            } else {
                                                update_fold(
                                                    s1,
                                                    updates,
                                                    i + 1,
                                                    record_id,
                                                    signer,
                                                    timestamp,
                                                )
                                            }
                                        },
                                    }
                                },
                            },
                        }
                    }
                },
            },
        }
    }
}

/// Updating properties: the record must exist and not be final; then
/// each update in order lands on its property's current page.
pub open spec fn spec_update_properties(
    s: Seq<crate::state::StateEntryV>,
    a: crate::payload::UpdatePropertiesActionV,
    signer: Seq<char>,
    timestamp: u64,
) -> Step {
    match spec_get_record(s, a.record_id) {
        Lookup::Corrupt => step_internal(s),
        Lookup::Missing => step_invalid(s),
        Lookup::Found(r) => {
            if r.field_final {
                step_invalid(s)
            } else {
                update_fold(s, a.properties, 0, a.record_id, signer, timestamp)
            }
        },
    }
}

impl crate::handler::SupplyChainTransactionHandler {
    /// Applies each property update of the payload to the record's
    /// properties, appending reported values and advancing page rings.
    #[verifier::loop_isolation(false)]
    pub fn update_properties(
        &self,
        payload: UpdatePropertiesAction,
        state: &mut SupplyChainState,
        signer: &str,
        timestamp: u64,
    ) -> (r: Result<(), ApplyError>)
        ensures
            step_matches(
                spec_update_properties(old(state)@, payload@, signer@, timestamp),
                final(state)@,
                r,
            ),
    {
        let ghost av = payload@;
        proof {
            assert(av.properties =~= views_of(payload.properties@));
        }
        let record_id = payload.record_id.as_str();
        let update_record = match state.get_record(record_id) {
            Ok(Some(update_record)) => update_record,
            Ok(None) => {
                return Err(
                    ApplyError::InvalidTransaction(
                        String::from_str("Record does not exist: ").concat(record_id),
                    ),
                );
            },
            Err(err) => {
                return Err(err);
            },
        };
        if update_record.field_final {
            return Err(
                ApplyError::InvalidTransaction(
                    String::from_str("Record is final: ").concat(record_id),
                ),
            );
        }
        let ghost s0 = state@;
        let mut i: usize = 0;
        while i < payload.properties.len()
            invariant
                i <= payload.properties@.len(),
                update_fold(s0, av.properties, 0, av.record_id, signer@, timestamp) == update_fold(
                    state@,
                    av.properties,
                    i as int,
                    av.record_id,
                    signer@,
                    timestamp,
                ),
            decreases payload.properties@.len() - i,
        {
            let update = &payload.properties[i];
            let name = update.name.as_str();
            let mut prop = match state.get_property(record_id, name) {
                Ok(Some(prop)) => prop,
                Ok(None) => {
                    return Err(
                        ApplyError::InvalidTransaction(
                            String::from_str("Record does not have provided poperty: ").concat(
                                name,
                            ),
                        ),
                    );
                },
                Err(err) => {
                    return Err(err);
                },
            };
            proof {
                assert(prop@.reporters =~= views_of(prop.reporters@));
            }
            let reporter_index: u32 = match find_reporter(&prop.reporters, signer) {
                Some(ri) => prop.reporters[ri].index,
                None => {
                    return Err(
                        ApplyError::InvalidTransaction(
                            String::from_str("Reporter is not authorized: ").concat(signer),
                        ),
                    );
                },
            };
            if !data_type_eq(update.data_type, prop.data_type) {
                return Err(
                    ApplyError::InvalidTransaction(String::from_str("Update has wrong type")),
                );
            }
            let page_number = prop.current_page;
            let mut page = match state.get_property_page(record_id, name, page_number) {
                Ok(Some(page)) => page,
                Ok(None) => {
                    return Err(
                        ApplyError::InvalidTransaction(
                            String::from_str("Property page does not exist"),
                        ),
                    );
                },
                Err(err) => {
                    return Err(err);
                },
            };
            let ghost pagev = spec_get_property_page(
                state@,
                av.record_id,
                av.properties[i as int].name,
                page_number,
            )->Found_0;
            let reported_value = match self.make_new_reported_value(
                reporter_index,
                timestamp,
                update,
                &prop,
            ) {
                Ok(reported_value) => reported_value,
                Err(err) => {
                    return Err(err);
                },
            };
            proof {
                assert(page@.reported_values =~= views_of(page.reported_values@));
            }
            insert_reported_value(&mut page.reported_values, reported_value);
            proof {
                assert(page@.reported_values =~= views_of(page.reported_values@));
                assert(page@ == PropertyPageV {
                    reported_values: insert_reported(
                        pagev.reported_values,
                        spec_make_reported_value(
                            reporter_index,
                            timestamp,
                            av.properties[i as int],
                            prop@,
                        )->Some_0,
                    ),
                    ..pagev
                });
            }
            state.set_property_page(record_id, name, page_number, page.clone())?;
            if page.reported_values.len() >= PROPERTY_PAGE_MAX_LENGTH {
                let new_page_number: u32 = if page_number <= 255 {
                    page_number + 1
                } else {
                    1
                };
                let new_page = match state.get_property_page(record_id, name, new_page_number) {
                    Ok(Some(mut new_page)) => {
                        new_page.reported_values = Vec::new();
                        proof {
                            assert(new_page@.reported_values =~= Seq::<ReportedValueV>::empty());
                        }
                        new_page
                    },
                    Ok(None) => {
                        let new_page = PropertyPage {
                            name: update.name.clone(),
                            record_id: payload.record_id.clone(),
                            reported_values: Vec::new(),
                        };
                        proof {
                            assert(new_page@.reported_values =~= Seq::<ReportedValueV>::empty());
                        }
                        new_page
                    },
                    Err(err) => {
                        return Err(err);
                    },
                };
                state.set_property_page(record_id, name, new_page_number, new_page)?;
                prop.current_page = new_page_number;
                if new_page_number == 1 && !prop.wrapped {
                    prop.wrapped = true;
                }
                state.set_property(record_id, name, prop)?;
            }
            i += 1;
        }
        Ok(())
    }
}

} // verus!
