//! Loss-aware conversion between protobuf `Struct` and JSON values.
//!
//! A protobuf `Struct` holds every number as a double. Integers of more than 53 bits therefore
//! travel as decimal text, and exact integers can be restored where the receiver asks for them.

use vstd::prelude::*;

use crate::binary64::double_of;
use crate::binary64::exact_integer;
use crate::binary64::lemma_exact_double;
use crate::binary64::lemma_exact_integer;
use crate::binary64::Binary64;
use crate::binary64::EXACT_LIMIT;
use crate::json::field_models;
use crate::json::json_models;
use crate::json::lemma_field_models_push;
use crate::json::lemma_json_models_push;
use crate::json::lemma_member_models_push;
use crate::json::lemma_proto_models_push;
use crate::json::member_models;
use crate::json::proto_models;
use crate::json::JsonMember;
use crate::json::JsonModel;
use crate::json::JsonNumber;
use crate::json::JsonValue;
use crate::json::ProtoField;
use crate::json::ProtoModel;
use crate::json::ProtoStruct;
use crate::json::ProtoValue;
use crate::text::decimal_text;
use crate::text::signed_decimal;
use crate::text::signed_decimal_reads_back;
use crate::text::signed_decimal_text;
use crate::text::signed_literal;

verus! {

/// The integer that a JSON number is written as, where it is written as one.
pub open spec fn integer_of(number: JsonNumber) -> Option<int> {
    match number {
        JsonNumber::Unsigned(n) => Some(n as int),
        JsonNumber::Negative(n) => Some(n as int),
        JsonNumber::Float(_) => None,
    }
}

/// The JSON number of an integer.
pub open spec fn number_of(n: int) -> JsonNumber {
    if n >= 0 {
        JsonNumber::Unsigned(n as u64)
    } else {
        JsonNumber::Negative(n as i64)
    }
}

/// An integer of at most 53 bits.
pub open spec fn fits_a_double(n: int) -> bool {
    -(EXACT_LIMIT as int) <= n <= EXACT_LIMIT
}

/// The protobuf form of a number: a double, or decimal text for an integer of more than 53 bits.
pub open spec fn proto_number(number: JsonNumber) -> ProtoModel {
    match number {
        JsonNumber::Float(b) => ProtoModel::Number(b),
        _ => {
            let n = integer_of(number)->Some_0;
            if fits_a_double(n) {
                ProtoModel::Number(double_of(n))
            } else {
                ProtoModel::Text(signed_decimal(n))
            }
        },
    }
}

/// The JSON form of a double: there is none for an infinity or a NaN.
pub open spec fn json_number(b: Binary64) -> JsonModel {
    if b.is_finite() {
        JsonModel::Number(JsonNumber::Float(b))
    } else {
        JsonModel::Null
    }
}

/// The JSON form of a double that restores an exact integer.
pub open spec fn restored_number(b: Binary64) -> JsonModel {
    match exact_integer(b) {
        Some(n) => JsonModel::Number(number_of(n)),
        None => json_number(b),
    }
}

/// The protobuf form of a JSON value.
pub open spec fn proto_of(value: JsonModel) -> ProtoModel
    decreases value,
{
    match value {
        JsonModel::Null => ProtoModel::Null,
        JsonModel::Bool(b) => ProtoModel::Bool(b),
        JsonModel::Number(n) => proto_number(n),
        JsonModel::Text(s) => ProtoModel::Text(s),
        JsonModel::Array(values) => ProtoModel::List(protos_of(values)),
        JsonModel::Object(members) => ProtoModel::Struct(fields_of(members)),
    }
}

pub open spec fn protos_of(values: Seq<JsonModel>) -> Seq<ProtoModel>
    decreases values,
{
    if values.len() == 0 {
        Seq::empty()
    } else {
        protos_of(values.drop_last()).push(proto_of(values.last()))
    }
}

pub open spec fn fields_of(members: Seq<(Seq<char>, JsonModel)>) -> Seq<(Seq<char>, ProtoModel)>
    decreases members,
{
    if members.len() == 0 {
        Seq::empty()
    } else {
        fields_of(members.drop_last()).push((members.last().0, proto_of(members.last().1)))
    }
}

/// There are as many fields as members.
pub proof fn lemma_fields_of_len(members: Seq<(Seq<char>, JsonModel)>)
    ensures
        fields_of(members).len() == members.len(),
    decreases members.len(),
{
    if members.len() > 0 {
        lemma_fields_of_len(members.drop_last());
    }
}

/// The JSON form of a protobuf value; `exact` restores exact integers.
pub open spec fn json_of(value: ProtoModel, exact: bool) -> JsonModel
    decreases value,
{
    match value {
        ProtoModel::Unset => JsonModel::Null,
        ProtoModel::Null => JsonModel::Null,
        ProtoModel::Bool(b) => JsonModel::Bool(b),
        ProtoModel::Number(b) => if exact {
            restored_number(b)
        } else {
            json_number(b)
        },
        ProtoModel::Text(s) => JsonModel::Text(s),
        ProtoModel::List(values) => JsonModel::Array(jsons_of(values, exact)),
        ProtoModel::Struct(fields) => JsonModel::Object(members_of(fields, exact)),
    }
}

pub open spec fn jsons_of(values: Seq<ProtoModel>, exact: bool) -> Seq<JsonModel>
    decreases values,
{
    if values.len() == 0 {
        Seq::empty()
    } else {
        jsons_of(values.drop_last(), exact).push(json_of(values.last(), exact))
    }
}

pub open spec fn members_of(fields: Seq<(Seq<char>, ProtoModel)>, exact: bool) -> Seq<
    (Seq<char>, JsonModel),
>
    decreases fields,
{
    if fields.len() == 0 {
        Seq::empty()
    } else {
        members_of(fields.drop_last(), exact).push(
            (fields.last().0, json_of(fields.last().1, exact)),
        )
    }
}

/// Converts a protobuf struct to a JSON object.
pub fn prost_struct_to_json(value: &ProtoStruct) -> (members: Vec<JsonMember>)
    ensures
        member_models(members@) == members_of(value@, false),
{
    struct_to_json(value, false)
}

/// Converts a protobuf struct to a JSON object and restores exact integers.
pub fn prost_handoff_struct_to_json(value: &ProtoStruct) -> (members: Vec<JsonMember>)
    ensures
        member_models(members@) == members_of(value@, true),
{
    struct_to_json(value, true)
}

/// Converts a double to a JSON value.
fn number_to_json(b: Binary64, exact: bool) -> (value: JsonValue)
    ensures
        value.model() == (if exact {
            restored_number(b)
        } else {
            json_number(b)
        }),
{
    if exact {
        if let Some(n) = b.exact_integer() {
            return JsonValue::Number(
                if n >= 0 {
                    JsonNumber::Unsigned(n as u64)
                } else {
                    JsonNumber::Negative(n)
                },
            );
        }
    }
    if b.is_finite_number() {
        JsonValue::Number(JsonNumber::Float(b))
    } else {
        JsonValue::Null
    }
}

fn value_to_json(value: &ProtoValue, exact: bool) -> (json: JsonValue)
    ensures
        json.model() == json_of(value.model(), exact),
    decreases value,
{
    match value {
        ProtoValue::Unset => JsonValue::Null,
        ProtoValue::Null => JsonValue::Null,
        ProtoValue::Bool(b) => JsonValue::Bool(*b),
        ProtoValue::Number(b) => number_to_json(*b, exact),
        ProtoValue::Text(s) => JsonValue::Text(s.clone()),
        ProtoValue::List(values) => {
            let mut converted: Vec<JsonValue> = Vec::new();
            let mut i: usize = 0;
            while i < values.len()
                invariant
                    i <= values@.len(),
                    *value == ProtoValue::List(*values),
                    json_models(converted@) == jsons_of(
                        proto_models(values@.take(i as int)),
                        exact,
                    ),
                decreases values@.len() - i,
            {
                let ghost before = values@.take(i as int);
                proof {
                    assert(values@.take(i + 1) == before.push(values@[i as int]));
                    lemma_proto_models_push(before, values@[i as int]);
                    let all = proto_models(before).push(values@[i as int].model());
                    assert(all.drop_last() == proto_models(before));
                    assert(decreases_to!(*value => value->List_0));
                    assert(decreases_to!(values@ => values@[i as int]));
                }
                let next = value_to_json(&values[i], exact);
                proof {
                    lemma_json_models_push(converted@, next);
                }
                converted.push(next);
                i += 1;
            }
            assert(values@.take(i as int) == values@);
            JsonValue::Array(converted)
        },
        ProtoValue::Struct(fields) => {
            let members = struct_to_json(fields, exact);
            JsonValue::Object(members)
        },
    }
}

fn struct_to_json(value: &ProtoStruct, exact: bool) -> (members: Vec<JsonMember>)
    ensures
        member_models(members@) == members_of(value@, exact),
    decreases value,
{
    let mut members: Vec<JsonMember> = Vec::new();
    let mut i: usize = 0;
    while i < value.fields.len()
        invariant
            i <= value.fields@.len(),
            member_models(members@) == members_of(
                field_models(value.fields@.take(i as int)),
                exact,
            ),
        decreases value.fields@.len() - i,
    {
        let ghost before = value.fields@.take(i as int);
        let ghost field = value.fields@[i as int];
        proof {
            assert(value.fields@.take(i + 1) == before.push(field));
            lemma_field_models_push(before, field);
            let all = field_models(before).push((field.name@, field.value.model()));
            assert(all.drop_last() == field_models(before));
            assert(decreases_to!(*value => value.fields));
            assert(decreases_to!(value.fields@ => value.fields@[i as int]));
            assert(decreases_to!(value.fields@[i as int] => value.fields@[i as int].value));
        }
        let next = JsonMember {
            name: value.fields[i].name.clone(),
            value: value_to_json(&value.fields[i].value, exact),
        };
        proof {
            lemma_member_models_push(members@, next);
        }
        members.push(next);
        i += 1;
    }
    assert(value.fields@.take(i as int) == value.fields@);
    members
}

/// Converts a JSON object to a protobuf struct; nothing else is one.
pub fn json_to_prost_struct(value: &JsonValue) -> (converted: Option<ProtoStruct>)
    ensures
        match value.model() {
            JsonModel::Object(members) => converted is Some && converted->Some_0@ == fields_of(
                members,
            ),
            _ => converted is None,
        },
{
    match value {
        JsonValue::Object(members) => Some(object_to_struct(members)),
        _ => None,
    }
}

/// Converts a JSON number to a protobuf value.
fn number_to_proto(number: JsonNumber) -> (value: ProtoValue)
    ensures
        value.model() == proto_number(number),
{
    match number {
        JsonNumber::Unsigned(n) => if n > EXACT_LIMIT {
            ProtoValue::Text(decimal_text(n))
        } else {
            ProtoValue::Number(Binary64::from_integer(n as i64))
        },
        JsonNumber::Negative(n) => if n > EXACT_LIMIT as i64 || n < -(EXACT_LIMIT as i64) {
            ProtoValue::Text(signed_decimal_text(n))
        } else {
            ProtoValue::Number(Binary64::from_integer(n))
        },
        JsonNumber::Float(b) => ProtoValue::Number(b),
    }
}

fn json_to_prost_value(value: &JsonValue) -> (converted: ProtoValue)
    ensures
        converted.model() == proto_of(value.model()),
    decreases value,
{
    match value {
        JsonValue::Null => ProtoValue::Null,
        JsonValue::Bool(b) => ProtoValue::Bool(*b),
        JsonValue::Number(n) => number_to_proto(*n),
        JsonValue::Text(s) => ProtoValue::Text(s.clone()),
        JsonValue::Array(values) => {
            let mut converted: Vec<ProtoValue> = Vec::new();
            let mut i: usize = 0;
            while i < values.len()
                invariant
                    i <= values@.len(),
                    *value == JsonValue::Array(*values),
                    proto_models(converted@) == protos_of(json_models(values@.take(i as int))),
                decreases values@.len() - i,
            {
                let ghost before = values@.take(i as int);
                proof {
                    assert(values@.take(i + 1) == before.push(values@[i as int]));
                    lemma_json_models_push(before, values@[i as int]);
                    let all = json_models(before).push(values@[i as int].model());
                    assert(all.drop_last() == json_models(before));
                    assert(decreases_to!(*value => value->Array_0));
                    assert(decreases_to!(values@ => values@[i as int]));
                }
                let next = json_to_prost_value(&values[i]);
                proof {
                    lemma_proto_models_push(converted@, next);
                }
                converted.push(next);
                i += 1;
            }
            assert(values@.take(i as int) == values@);
            ProtoValue::List(converted)
        },
        JsonValue::Object(members) => ProtoValue::Struct(object_to_struct(members)),
    }
}

fn object_to_struct(members: &Vec<JsonMember>) -> (converted: ProtoStruct)
    ensures
        converted@ == fields_of(member_models(members@)),
    decreases members,
{
    let mut fields: Vec<ProtoField> = Vec::new();
    let mut i: usize = 0;
    while i < members.len()
        invariant
            i <= members@.len(),
            field_models(fields@) == fields_of(member_models(members@.take(i as int))),
        decreases members@.len() - i,
    {
        let ghost before = members@.take(i as int);
        let ghost member = members@[i as int];
        proof {
            assert(members@.take(i + 1) == before.push(member));
            lemma_member_models_push(before, member);
            let all = member_models(before).push((member.name@, member.value.model()));
            assert(all.drop_last() == member_models(before));
            assert(decreases_to!(members@ => members@[i as int]));
            assert(decreases_to!(members@[i as int] => members@[i as int].value));
        }
        let next = ProtoField {
            name: members[i].name.clone(),
            value: json_to_prost_value(&members[i].value),
        };
        proof {
            lemma_field_models_push(fields@, next);
        }
        fields.push(next);
        i += 1;
    }
    assert(members@.take(i as int) == members@);
    ProtoStruct { fields }
}

/// What a JSON value becomes on its way through a protobuf struct and back, with exact integers
/// restored: an integer of more than 53 bits becomes its decimal text, and a double that is an
/// integer of at most 53 bits becomes that integer.
pub open spec fn handed_off(value: JsonModel) -> JsonModel
    decreases value,
{
    match value {
        JsonModel::Number(n) => match integer_of(n) {
            Some(i) => if fits_a_double(i) {
                JsonModel::Number(number_of(i))
            } else {
                JsonModel::Text(signed_decimal(i))
            },
            None => restored_number(n->Float_0),
        },
        JsonModel::Array(values) => JsonModel::Array(all_handed_off(values)),
        JsonModel::Object(members) => JsonModel::Object(members_handed_off(members)),
        _ => value,
    }
}

pub open spec fn all_handed_off(values: Seq<JsonModel>) -> Seq<JsonModel>
    decreases values,
{
    if values.len() == 0 {
        Seq::empty()
    } else {
        all_handed_off(values.drop_last()).push(handed_off(values.last()))
    }
}

pub open spec fn members_handed_off(members: Seq<(Seq<char>, JsonModel)>) -> Seq<
    (Seq<char>, JsonModel),
>
    decreases members,
{
    if members.len() == 0 {
        Seq::empty()
    } else {
        members_handed_off(members.drop_last()).push(
            (members.last().0, handed_off(members.last().1)),
        )
    }
}

proof fn lemma_value_handoff(value: JsonModel)
    ensures
        json_of(proto_of(value), true) == handed_off(value),
    decreases value,
{
    match value {
        JsonModel::Number(n) => {
            match integer_of(n) {
                Some(i) => if fits_a_double(i) {
                    lemma_exact_double(i);
                },
                None => {},
            }
        },
        JsonModel::Array(values) => {
            lemma_values_handoff(values);
        },
        JsonModel::Object(members) => {
            handoff_restores_members(members);
        },
        _ => {},
    }
}

proof fn lemma_values_handoff(values: Seq<JsonModel>)
    ensures
        jsons_of(protos_of(values), true) == all_handed_off(values),
    decreases values,
{
    if values.len() > 0 {
        lemma_values_handoff(values.drop_last());
        lemma_value_handoff(values.last());
        assert(protos_of(values).drop_last() == protos_of(values.drop_last()));
    }
}

/// A JSON object that is sent as a protobuf struct and read back with exact integers restored
/// keeps its members. Integers of at most 53 bits come back as they were, larger ones as their
/// decimal text.
pub proof fn handoff_restores_members(members: Seq<(Seq<char>, JsonModel)>)
    ensures
        members_of(fields_of(members), true) == members_handed_off(members),
    decreases members,
{
    if members.len() > 0 {
        handoff_restores_members(members.drop_last());
        lemma_value_handoff(members.last().1);
        assert(fields_of(members).drop_last() == fields_of(members.drop_last()));
    }
}

/// A value in which every number is an integer of at most 53 bits in its plain form, or a double
/// that is finite and no such integer.
pub open spec fn survives_handoff(value: JsonModel) -> bool
    decreases value,
{
    match value {
        JsonModel::Number(n) => match integer_of(n) {
            Some(i) => fits_a_double(i) && n == number_of(i),
            None => n->Float_0.is_finite() && exact_integer(n->Float_0) is None,
        },
        JsonModel::Array(values) => all_survive_handoff(values),
        JsonModel::Object(members) => members_survive_handoff(members),
        _ => true,
    }
}

pub open spec fn all_survive_handoff(values: Seq<JsonModel>) -> bool
    decreases values,
{
    values.len() > 0 ==> all_survive_handoff(values.drop_last()) && survives_handoff(
        values.last(),
    )
}

pub open spec fn members_survive_handoff(members: Seq<(Seq<char>, JsonModel)>) -> bool
    decreases members,
{
    members.len() > 0 ==> members_survive_handoff(members.drop_last()) && survives_handoff(
        members.last().1,
    )
}

proof fn lemma_value_survives(value: JsonModel)
    requires
        survives_handoff(value),
    ensures
        handed_off(value) == value,
    decreases value,
{
    match value {
        JsonModel::Array(values) => {
            lemma_values_survive(values);
        },
        JsonModel::Object(members) => {
            lemma_members_survive(members);
        },
        _ => {},
    }
}

proof fn lemma_values_survive(values: Seq<JsonModel>)
    requires
        all_survive_handoff(values),
    ensures
        all_handed_off(values) == values,
    decreases values,
{
    if values.len() > 0 {
        lemma_values_survive(values.drop_last());
        lemma_value_survives(values.last());
    }
}

proof fn lemma_members_survive(members: Seq<(Seq<char>, JsonModel)>)
    requires
        members_survive_handoff(members),
    ensures
        members_handed_off(members) == members,
    decreases members,
{
    if members.len() > 0 {
        lemma_members_survive(members.drop_last());
        lemma_value_survives(members.last().1);
    }
}

/// An object whose numbers all survive comes back from a handoff unchanged.
pub proof fn handoff_is_lossless(members: Seq<(Seq<char>, JsonModel)>)
    requires
        members_survive_handoff(members),
    ensures
        members_of(fields_of(members), true) == members,
{
    handoff_restores_members(members);
    lemma_members_survive(members);
}

/// What a JSON value becomes on its way through a protobuf struct and back where integers are not
/// restored: every number is the double that holds it, or its decimal text where no double of 53
/// bits does, or null where it is no number; nothing else changes.
pub open spec fn as_doubles(value: JsonModel) -> JsonModel
    decreases value,
{
    match value {
        JsonModel::Number(JsonNumber::Unsigned(n)) => if n <= EXACT_LIMIT {
            JsonModel::Number(JsonNumber::Float(double_of(n as int)))
        } else {
            JsonModel::Text(signed_decimal(n as int))
        },
        JsonModel::Number(JsonNumber::Negative(n)) => if -(EXACT_LIMIT as int) <= n
            <= EXACT_LIMIT {
            JsonModel::Number(JsonNumber::Float(double_of(n as int)))
        } else {
            JsonModel::Text(signed_decimal(n as int))
        },
        JsonModel::Number(JsonNumber::Float(b)) => if b.is_finite() {
            value
        } else {
            JsonModel::Null
        },
        JsonModel::Array(values) => JsonModel::Array(all_as_doubles(values)),
        JsonModel::Object(members) => JsonModel::Object(members_as_doubles(members)),
        _ => value,
    }
}

pub open spec fn all_as_doubles(values: Seq<JsonModel>) -> Seq<JsonModel>
    decreases values,
{
    if values.len() == 0 {
        Seq::empty()
    } else {
        all_as_doubles(values.drop_last()).push(as_doubles(values.last()))
    }
}

pub open spec fn members_as_doubles(members: Seq<(Seq<char>, JsonModel)>) -> Seq<
    (Seq<char>, JsonModel),
>
    decreases members,
{
    if members.len() == 0 {
        Seq::empty()
    } else {
        members_as_doubles(members.drop_last()).push(
            (members.last().0, as_doubles(members.last().1)),
        )
    }
}

/// A JSON value that is sent as a protobuf value and read back without restoring integers keeps
/// null, booleans, texts, arrays and objects as they are, and changes only numbers.
pub proof fn plain_reading_changes_only_numbers(value: JsonModel)
    ensures
        json_of(proto_of(value), false) == as_doubles(value),
        value is Null ==> json_of(proto_of(value), false) == value,
        value is Bool ==> json_of(proto_of(value), false) == value,
        value is Text ==> json_of(proto_of(value), false) == value,
        value is Array <==> json_of(proto_of(value), false) is Array,
        value is Object <==> json_of(proto_of(value), false) is Object,
    decreases value,
{
    match value {
        JsonModel::Number(n) => {
            match integer_of(n) {
                Some(i) => if fits_a_double(i) {
                    lemma_exact_double(i);
                },
                None => {},
            }
        },
        JsonModel::Array(values) => {
            lemma_values_as_doubles(values);
        },
        JsonModel::Object(members) => {
            plain_reading_keeps_members(members);
        },
        _ => {},
    }
}

proof fn lemma_values_as_doubles(values: Seq<JsonModel>)
    ensures
        jsons_of(protos_of(values), false) == all_as_doubles(values),
    decreases values,
{
    if values.len() > 0 {
        lemma_values_as_doubles(values.drop_last());
        plain_reading_changes_only_numbers(values.last());
        assert(protos_of(values).drop_last() == protos_of(values.drop_last()));
    }
}

/// A JSON object that is sent as a protobuf struct and read back without restoring integers keeps
/// its members and their names, and changes only their numbers.
pub proof fn plain_reading_keeps_members(members: Seq<(Seq<char>, JsonModel)>)
    ensures
        members_of(fields_of(members), false) == members_as_doubles(members),
    decreases members,
{
    if members.len() > 0 {
        plain_reading_keeps_members(members.drop_last());
        plain_reading_changes_only_numbers(members.last().1);
        assert(fields_of(members).drop_last() == fields_of(members.drop_last()));
    }
}

/// A value that holds no number but finite doubles.
pub open spec fn holds_only_doubles(value: JsonModel) -> bool
    decreases value,
{
    match value {
        JsonModel::Number(JsonNumber::Float(b)) => b.is_finite(),
        JsonModel::Number(_) => false,
        JsonModel::Array(values) => all_hold_only_doubles(values),
        JsonModel::Object(members) => members_hold_only_doubles(members),
        _ => true,
    }
}

pub open spec fn all_hold_only_doubles(values: Seq<JsonModel>) -> bool
    decreases values,
{
    values.len() > 0 ==> all_hold_only_doubles(values.drop_last()) && holds_only_doubles(
        values.last(),
    )
}

pub open spec fn members_hold_only_doubles(members: Seq<(Seq<char>, JsonModel)>) -> bool
    decreases members,
{
    members.len() > 0 ==> members_hold_only_doubles(members.drop_last()) && holds_only_doubles(
        members.last().1,
    )
}

proof fn lemma_value_stays(value: JsonModel)
    requires
        holds_only_doubles(value),
    ensures
        as_doubles(value) == value,
    decreases value,
{
    match value {
        JsonModel::Array(values) => {
            lemma_values_stay(values);
        },
        JsonModel::Object(members) => {
            lemma_members_stay(members);
        },
        _ => {},
    }
}

proof fn lemma_values_stay(values: Seq<JsonModel>)
    requires
        all_hold_only_doubles(values),
    ensures
        all_as_doubles(values) == values,
    decreases values,
{
    if values.len() > 0 {
        lemma_values_stay(values.drop_last());
        lemma_value_stays(values.last());
    }
}

proof fn lemma_members_stay(members: Seq<(Seq<char>, JsonModel)>)
    requires
        members_hold_only_doubles(members),
    ensures
        members_as_doubles(members) == members,
    decreases members,
{
    if members.len() > 0 {
        lemma_members_stay(members.drop_last());
        lemma_value_stays(members.last().1);
    }
}

/// An object without numbers, or with none but finite doubles, comes back unchanged where integers
/// are not restored.
pub proof fn plain_reading_is_lossless(members: Seq<(Seq<char>, JsonModel)>)
    requires
        members_hold_only_doubles(members),
    ensures
        members_of(fields_of(members), false) == members,
{
    plain_reading_keeps_members(members);
    lemma_members_stay(members);
}

/// A protobuf struct has one field for each member of the object, in the same order and under the
/// same name.
pub proof fn fields_follow_members(members: Seq<(Seq<char>, JsonModel)>, i: int)
    requires
        0 <= i < members.len(),
    ensures
        fields_of(members).len() == members.len(),
        fields_of(members)[i] == (members[i].0, proto_of(members[i].1)),
    decreases members.len(),
{
    lemma_fields_of_len(members);
    lemma_fields_of_len(members.drop_last());
    if i < members.len() - 1 {
        fields_follow_members(members.drop_last(), i);
    }
}

/// A JSON object has one member for each field of the struct, in the same order and under the same
/// name.
pub proof fn members_follow_fields(fields: Seq<(Seq<char>, ProtoModel)>, exact: bool, i: int)
    requires
        0 <= i < fields.len(),
    ensures
        members_of(fields, exact).len() == fields.len(),
        members_of(fields, exact)[i] == (fields[i].0, json_of(fields[i].1, exact)),
    decreases fields.len(),
{
    lemma_members_of_len(fields, exact);
    lemma_members_of_len(fields.drop_last(), exact);
    if i < fields.len() - 1 {
        members_follow_fields(fields.drop_last(), exact, i);
    }
}

proof fn lemma_members_of_len(fields: Seq<(Seq<char>, ProtoModel)>, exact: bool)
    ensures
        members_of(fields, exact).len() == fields.len(),
    decreases fields.len(),
{
    if fields.len() > 0 {
        lemma_members_of_len(fields.drop_last(), exact);
    }
}

/// A list keeps its elements and their order in both directions.
pub proof fn lists_keep_their_order(
    values: Seq<JsonModel>,
    protos: Seq<ProtoModel>,
    exact: bool,
    i: int,
)
    ensures
        proto_of(JsonModel::Array(values)) is List,
        proto_of(JsonModel::Array(values))->List_0.len() == values.len(),
        0 <= i < values.len() ==> proto_of(JsonModel::Array(values))->List_0[i] == proto_of(
            values[i],
        ),
        json_of(ProtoModel::List(protos), exact) is Array,
        json_of(ProtoModel::List(protos), exact)->Array_0.len() == protos.len(),
        0 <= i < protos.len() ==> json_of(ProtoModel::List(protos), exact)->Array_0[i] == json_of(
            protos[i],
            exact,
        ),
{
    lemma_protos_one_by_one(values);
    lemma_jsons_one_by_one(protos, exact);
}

proof fn lemma_protos_one_by_one(values: Seq<JsonModel>)
    ensures
        protos_of(values).len() == values.len(),
        forall|i: int|
            0 <= i < values.len() ==> #[trigger] protos_of(values)[i] == proto_of(values[i]),
    decreases values.len(),
{
    if values.len() > 0 {
        lemma_protos_one_by_one(values.drop_last());
    }
}

proof fn lemma_jsons_one_by_one(values: Seq<ProtoModel>, exact: bool)
    ensures
        jsons_of(values, exact).len() == values.len(),
        forall|i: int|
            0 <= i < values.len() ==> #[trigger] jsons_of(values, exact)[i] == json_of(
                values[i],
                exact,
            ),
    decreases values.len(),
{
    if values.len() > 0 {
        lemma_jsons_one_by_one(values.drop_last(), exact);
    }
}

/// What is no number has the same form in JSON and in protobuf, and an unset protobuf value reads
/// as null.
pub proof fn plain_values_are_kept(b: bool, text: Seq<char>, exact: bool)
    ensures
        proto_of(JsonModel::Null) == ProtoModel::Null,
        proto_of(JsonModel::Bool(b)) == ProtoModel::Bool(b),
        proto_of(JsonModel::Text(text)) == ProtoModel::Text(text),
        json_of(ProtoModel::Unset, exact) == JsonModel::Null,
        json_of(ProtoModel::Null, exact) == JsonModel::Null,
        json_of(ProtoModel::Bool(b), exact) == JsonModel::Bool(b),
        json_of(ProtoModel::Text(text), exact) == JsonModel::Text(text),
{
}

/// A double keeps its value in both directions: it is sent as it is, and read as itself where
/// integers are not restored. Where they are, a double that is an integer of at most 53 bits is
/// read as that integer, and every other finite one as itself. An infinity or a NaN is read as
/// null.
pub proof fn doubles_keep_their_value(b: Binary64, exact: bool)
    ensures
        proto_of(JsonModel::Number(JsonNumber::Float(b))) == ProtoModel::Number(b),
        b.bits / 0x10_0000_0000_0000 % 2048 == 2047 ==> json_of(ProtoModel::Number(b), exact)
            == JsonModel::Null,
        b.bits / 0x10_0000_0000_0000 % 2048 != 2047 ==> json_of(ProtoModel::Number(b), false)
            == JsonModel::Number(JsonNumber::Float(b)),
        forall|n: int|
            #![trigger b.denotes(n)]
            b.denotes(n) && -0x20_0000_0000_0000 <= n <= 0x20_0000_0000_0000 ==> {
                let read = json_of(ProtoModel::Number(b), true);
                &&& read is Number
                &&& n >= 0 ==> read->Number_0 == JsonNumber::Unsigned(n as u64)
                &&& n < 0 ==> read->Number_0 == JsonNumber::Negative(n as i64)
            },
        b.bits / 0x10_0000_0000_0000 % 2048 != 2047 && (forall|n: int|
            #[trigger]
            b.denotes(n) ==> !(-0x20_0000_0000_0000 <= n <= 0x20_0000_0000_0000)) ==> json_of(
            ProtoModel::Number(b),
            true,
        ) == JsonModel::Number(JsonNumber::Float(b)),
{
    assert forall|n: int|
        #![trigger b.denotes(n)]
        b.denotes(n) && -0x20_0000_0000_0000 <= n <= 0x20_0000_0000_0000 implies {
        let read = json_of(ProtoModel::Number(b), true);
        &&& read is Number
        &&& n >= 0 ==> read->Number_0 == JsonNumber::Unsigned(n as u64)
        &&& n < 0 ==> read->Number_0 == JsonNumber::Negative(n as i64)
    } by {
        lemma_exact_integer(b, n);
    }
}

/// An integer is sent as the double that denotes it if it has at most 53 bits, and is then read
/// back as the same integer where integers are restored. A larger one is sent as text that reads
/// as the same integer in base ten.
pub proof fn integers_keep_their_value(n: u64, m: i64)
    ensures
        n <= 0x20_0000_0000_0000 ==> {
            let sent = proto_of(JsonModel::Number(JsonNumber::Unsigned(n)));
            &&& sent is Number
            &&& sent->Number_0.denotes(n as int)
            &&& json_of(sent, true) == JsonModel::Number(JsonNumber::Unsigned(n))
        },
        n > 0x20_0000_0000_0000 ==> {
            let sent = proto_of(JsonModel::Number(JsonNumber::Unsigned(n)));
            &&& sent is Text
            &&& signed_literal(sent->Text_0) == Some(n as int)
        },
        -0x20_0000_0000_0000 <= m < 0 ==> {
            let sent = proto_of(JsonModel::Number(JsonNumber::Negative(m)));
            &&& sent is Number
            &&& sent->Number_0.denotes(m as int)
            &&& json_of(sent, true) == JsonModel::Number(JsonNumber::Negative(m))
        },
        m < -0x20_0000_0000_0000 ==> {
            let sent = proto_of(JsonModel::Number(JsonNumber::Negative(m)));
            &&& sent is Text
            &&& signed_literal(sent->Text_0) == Some(m as int)
        },
{
    if n <= EXACT_LIMIT {
        lemma_exact_double(n as int);
    }
    if -(EXACT_LIMIT as int) <= m < 0 {
        lemma_exact_double(m as int);
    }
    signed_decimal_reads_back(n as int);
    signed_decimal_reads_back(m as int);
}

} // verus!
