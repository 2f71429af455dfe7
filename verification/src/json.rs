//! JSON values and protobuf `Struct` values as plain data.
//!
//! Members of an object and fields of a struct are kept as a list of named values. Their order
//! carries no meaning.

use vstd::prelude::*;

use crate::binary64::Binary64;
use crate::text::same;

verus! {

/// A JSON number: an integer without or with a sign, or a double-precision number.
#[derive(Clone, Copy, Debug, PartialEq, Eq, Structural)]
pub enum JsonNumber {
    Unsigned(u64),
    Negative(i64),
    Float(Binary64),
}

/// A JSON value.
#[derive(Debug)]
pub enum JsonValue {
    Null,
    Bool(bool),
    Number(JsonNumber),
    Text(String),
    Array(Vec<JsonValue>),
    Object(Vec<JsonMember>),
}

/// A named member of a JSON object.
#[derive(Debug)]
pub struct JsonMember {
    pub name: String,
    pub value: JsonValue,
}

/// What a JSON value is, by its contents.
pub ghost enum JsonModel {
    Null,
    Bool(bool),
    Number(JsonNumber),
    Text(Seq<char>),
    Array(Seq<JsonModel>),
    Object(Seq<(Seq<char>, JsonModel)>),
}

impl JsonValue {
    pub open spec fn model(self) -> JsonModel
        decreases self,
    {
        match self {
            JsonValue::Null => JsonModel::Null,
            JsonValue::Bool(b) => JsonModel::Bool(b),
            JsonValue::Number(n) => JsonModel::Number(n),
            JsonValue::Text(s) => JsonModel::Text(s@),
            JsonValue::Array(values) => JsonModel::Array(json_models(values@)),
            JsonValue::Object(members) => JsonModel::Object(member_models(members@)),
        }
    }
}

pub open spec fn json_models(values: Seq<JsonValue>) -> Seq<JsonModel>
    decreases values,
{
    if values.len() == 0 {
        Seq::empty()
    } else {
        json_models(values.drop_last()).push(values.last().model())
    }
}

pub open spec fn member_models(members: Seq<JsonMember>) -> Seq<(Seq<char>, JsonModel)>
    decreases members,
{
    if members.len() == 0 {
        Seq::empty()
    } else {
        member_models(members.drop_last()).push(
            (members.last().name@, members.last().value.model()),
        )
    }
}

/// A protobuf `Value`.
#[derive(Debug)]
pub enum ProtoValue {
    Unset,
    Null,
    Bool(bool),
    Number(Binary64),
    Text(String),
    List(Vec<ProtoValue>),
    Struct(ProtoStruct),
}

/// A protobuf `Struct`.
#[derive(Debug)]
pub struct ProtoStruct {
    pub fields: Vec<ProtoField>,
}

/// A named field of a protobuf `Struct`.
#[derive(Debug)]
pub struct ProtoField {
    pub name: String,
    pub value: ProtoValue,
}

/// What a protobuf `Value` is, by its contents.
pub ghost enum ProtoModel {
    Unset,
    Null,
    Bool(bool),
    Number(Binary64),
    Text(Seq<char>),
    List(Seq<ProtoModel>),
    Struct(Seq<(Seq<char>, ProtoModel)>),
}

impl ProtoValue {
    pub open spec fn model(self) -> ProtoModel
        decreases self,
    {
        match self {
            ProtoValue::Unset => ProtoModel::Unset,
            ProtoValue::Null => ProtoModel::Null,
            ProtoValue::Bool(b) => ProtoModel::Bool(b),
            ProtoValue::Number(n) => ProtoModel::Number(n),
            ProtoValue::Text(s) => ProtoModel::Text(s@),
            ProtoValue::List(values) => ProtoModel::List(proto_models(values@)),
            ProtoValue::Struct(fields) => ProtoModel::Struct(field_models(fields.fields@)),
        }
    }
}

pub open spec fn proto_models(values: Seq<ProtoValue>) -> Seq<ProtoModel>
    decreases values,
{
    if values.len() == 0 {
        Seq::empty()
    } else {
        proto_models(values.drop_last()).push(values.last().model())
    }
}

pub open spec fn field_models(fields: Seq<ProtoField>) -> Seq<(Seq<char>, ProtoModel)>
    decreases fields,
{
    if fields.len() == 0 {
        Seq::empty()
    } else {
        field_models(fields.drop_last()).push((fields.last().name@, fields.last().value.model()))
    }
}

impl View for ProtoStruct {
    type V = Seq<(Seq<char>, ProtoModel)>;

    open spec fn view(&self) -> Seq<(Seq<char>, ProtoModel)> {
        field_models(self.fields@)
    }
}

/// The models of a list grow with the list.
pub proof fn lemma_json_models_push(values: Seq<JsonValue>, value: JsonValue)
    ensures
        json_models(values.push(value)) == json_models(values).push(value.model()),
{
    assert(values.push(value).drop_last() == values);
}

/// The models of a member list grow with the list.
pub proof fn lemma_member_models_push(members: Seq<JsonMember>, member: JsonMember)
    ensures
        member_models(members.push(member)) == member_models(members).push(
            (member.name@, member.value.model()),
        ),
{
    assert(members.push(member).drop_last() == members);
}

/// The models of a list grow with the list.
pub proof fn lemma_proto_models_push(values: Seq<ProtoValue>, value: ProtoValue)
    ensures
        proto_models(values.push(value)) == proto_models(values).push(value.model()),
{
    assert(values.push(value).drop_last() == values);
}

/// The models of a field list grow with the list.
pub proof fn lemma_field_models_push(fields: Seq<ProtoField>, field: ProtoField)
    ensures
        field_models(fields.push(field)) == field_models(fields).push(
            (field.name@, field.value.model()),
        ),
{
    assert(fields.push(field).drop_last() == fields);
}

/// There are as many models as fields.
pub proof fn lemma_field_models_len(fields: Seq<ProtoField>)
    ensures
        field_models(fields).len() == fields.len(),
    decreases fields.len(),
{
    if fields.len() > 0 {
        lemma_field_models_len(fields.drop_last());
    }
}

/// The position of the last entry with a name, or -1.
pub open spec fn member_position(members: Seq<(Seq<char>, JsonModel)>, name: Seq<char>) -> int
    decreases members.len(),
{
    if members.len() == 0 {
        -1
    } else if members.last().0 == name {
        members.len() - 1
    } else {
        member_position(members.drop_last(), name)
    }
}

/// The value of a name, which is that of its last entry.
pub open spec fn member_value(members: Seq<(Seq<char>, JsonModel)>, name: Seq<char>) -> Option<
    JsonModel,
> {
    if member_position(members, name) < 0 {
        None
    } else {
        Some(members[member_position(members, name)].1)
    }
}

/// Named values with one of them set: in its place where the name is known, behind the others
/// where it is new.
pub open spec fn with_member(
    members: Seq<(Seq<char>, JsonModel)>,
    name: Seq<char>,
    value: JsonModel,
) -> Seq<(Seq<char>, JsonModel)> {
    if member_position(members, name) < 0 {
        members.push((name, value))
    } else {
        members.update(member_position(members, name), (name, value))
    }
}

/// What the position of a name says.
pub proof fn lemma_member_position(members: Seq<(Seq<char>, JsonModel)>, name: Seq<char>)
    ensures
        -1 <= member_position(members, name) < members.len(),
        member_position(members, name) >= 0 ==> members[member_position(members, name)].0 == name,
        forall|i: int|
            member_position(members, name) < i < members.len() ==> (#[trigger] members[i]).0
                != name,
    decreases members.len(),
{
    if members.len() > 0 {
        lemma_member_position(members.drop_last(), name);
        if members.last().0 != name {
            assert forall|i: int|
                member_position(members, name) < i < members.len() implies (
            #[trigger] members[i]).0 != name by {
                if i < members.len() - 1 {
                    assert(members.drop_last()[i].0 != name);
                }
            }
        }
    }
}

proof fn lemma_member_position_is(
    members: Seq<(Seq<char>, JsonModel)>,
    name: Seq<char>,
    at: int,
)
    requires
        -1 <= at < members.len(),
        at >= 0 ==> members[at].0 == name,
        forall|i: int| at < i < members.len() ==> (#[trigger] members[i]).0 != name,
    ensures
        member_position(members, name) == at,
{
    lemma_member_position(members, name);
    let found = member_position(members, name);
    if found < at {
        assert(members[at].0 != name);
    }
}

/// A name that was set has the value that it was set to, and no other name has changed.
pub proof fn set_member_reads_back(
    members: Seq<(Seq<char>, JsonModel)>,
    name: Seq<char>,
    value: JsonModel,
    other: Seq<char>,
)
    ensures
        member_value(with_member(members, name, value), name) == Some(value),
        other != name ==> member_value(with_member(members, name, value), other) == member_value(
            members,
            other,
        ),
{
    let changed = with_member(members, name, value);
    lemma_member_position(members, name);
    lemma_member_position(members, other);
    let at = member_position(members, name);
    let place = if at < 0 {
        members.len() as int
    } else {
        at
    };
    assert forall|i: int| place < i < changed.len() implies (#[trigger] changed[i]).0 != name by {
        assert(members[i].0 != name);
    }
    lemma_member_position_is(changed, name, place);
    if other != name {
        let was = member_position(members, other);
        assert forall|i: int| was < i < changed.len() implies (#[trigger] changed[i]).0
            != other by {
            if i != place {
                assert(members[i].0 != other);
            }
        }
        lemma_member_position_is(changed, other, was);
    }
}

/// The models of a member list, one by one.
pub proof fn lemma_models_one_by_one(members: Seq<JsonMember>)
    ensures
        member_models(members).len() == members.len(),
        forall|i: int|
            0 <= i < members.len() ==> (#[trigger] member_models(members)[i]) == (
                members[i].name@,
                members[i].value.model(),
            ),
    decreases members.len(),
{
    if members.len() > 0 {
        lemma_models_one_by_one(members.drop_last());
    }
}

/// Finds the last entry with a name.
pub fn find_member(members: &Vec<JsonMember>, name: &str) -> (found: Option<usize>)
    ensures
        match found {
            Some(at) => at < members@.len() && member_position(member_models(members@), name@)
                == at,
            None => member_position(member_models(members@), name@) == -1,
        },
{
    let mut i: usize = members.len();
    proof {
        lemma_models_one_by_one(members@);
        assert(members@.take(i as int) == members@);
    }
    while i > 0
        invariant
            i <= members@.len(),
            member_position(member_models(members@.take(i as int)), name@) == member_position(
                member_models(members@),
                name@,
            ),
        decreases i,
    {
        proof {
            let shorter = members@.take(i - 1);
            assert(members@.take(i as int) == shorter.push(members@[i - 1]));
            lemma_member_models_push(shorter, members@[i - 1]);
            lemma_models_one_by_one(shorter);
            assert(member_models(members@.take(i as int)).drop_last() == member_models(shorter));
        }
        if same(members[i - 1].name.as_str(), name) {
            return Some(i - 1);
        }
        i -= 1;
    }
    None
}

/// Sets the value of a name.
pub fn set_member(members: &mut Vec<JsonMember>, name: String, value: JsonValue)
    ensures
        member_models(final(members)@) == with_member(
            member_models(old(members)@),
            name@,
            value.model(),
        ),
{
    let ghost before = members@;
    proof {
        lemma_models_one_by_one(before);
    }
    match find_member(members, name.as_str()) {
        Some(at) => {
            let member = JsonMember { name, value };
            members.set(at, member);
            proof {
                lemma_models_one_by_one(members@);
                assert(member_models(members@) == with_member(
                    member_models(before),
                    name@,
                    value.model(),
                ));
            }
        },
        None => {
            let member = JsonMember { name, value };
            proof {
                lemma_member_models_push(before, member);
            }
            members.push(member);
        },
    }
}

/// The contents of a JSON value are the values that it holds, whatever its kind.
pub proof fn json_contents_are_held(b: bool, number: JsonNumber, text: String, values: Vec<JsonValue>)
    ensures
        JsonValue::Null.model() == JsonModel::Null,
        JsonValue::Bool(b).model() == JsonModel::Bool(b),
        JsonValue::Number(number).model() == JsonModel::Number(number),
        JsonValue::Text(text).model() == JsonModel::Text(text@),
        JsonValue::Array(values).model() is Array,
        JsonValue::Array(values).model()->Array_0.len() == values@.len(),
        forall|i: int|
            0 <= i < values@.len() ==> #[trigger] JsonValue::Array(values).model()->Array_0[i]
                == values@[i].model(),
{
    lemma_json_models_one_by_one(values@);
}

proof fn lemma_json_models_one_by_one(values: Seq<JsonValue>)
    ensures
        json_models(values).len() == values.len(),
        forall|i: int|
            0 <= i < values.len() ==> #[trigger] json_models(values)[i] == values[i].model(),
    decreases values.len(),
{
    if values.len() > 0 {
        lemma_json_models_one_by_one(values.drop_last());
    }
}

/// The contents of a protobuf value are the values that it holds, whatever its kind.
pub proof fn proto_contents_are_held(
    b: bool,
    number: Binary64,
    text: String,
    values: Vec<ProtoValue>,
    fields: ProtoStruct,
)
    ensures
        ProtoValue::Unset.model() == ProtoModel::Unset,
        ProtoValue::Null.model() == ProtoModel::Null,
        ProtoValue::Bool(b).model() == ProtoModel::Bool(b),
        ProtoValue::Number(number).model() == ProtoModel::Number(number),
        ProtoValue::Text(text).model() == ProtoModel::Text(text@),
        ProtoValue::List(values).model() is List,
        ProtoValue::List(values).model()->List_0.len() == values@.len(),
        forall|i: int|
            0 <= i < values@.len() ==> #[trigger] ProtoValue::List(values).model()->List_0[i]
                == values@[i].model(),
        ProtoValue::Struct(fields).model() == ProtoModel::Struct(fields@),
        fields@.len() == fields.fields@.len(),
        forall|i: int|
            0 <= i < fields.fields@.len() ==> #[trigger] fields@[i] == (
                fields.fields@[i].name@,
                fields.fields@[i].value.model(),
            ),
{
    lemma_proto_models_one_by_one(values@);
    lemma_field_models_one_by_one(fields.fields@);
}

proof fn lemma_proto_models_one_by_one(values: Seq<ProtoValue>)
    ensures
        proto_models(values).len() == values.len(),
        forall|i: int|
            0 <= i < values.len() ==> #[trigger] proto_models(values)[i] == values[i].model(),
    decreases values.len(),
{
    if values.len() > 0 {
        lemma_proto_models_one_by_one(values.drop_last());
    }
}

proof fn lemma_field_models_one_by_one(fields: Seq<ProtoField>)
    ensures
        field_models(fields).len() == fields.len(),
        forall|i: int|
            0 <= i < fields.len() ==> #[trigger] field_models(fields)[i] == (
                fields[i].name@,
                fields[i].value.model(),
            ),
    decreases fields.len(),
{
    if fields.len() > 0 {
        lemma_field_models_one_by_one(fields.drop_last());
    }
}

/// Setting a name changes no other entry, adds at most one, and puts a new one behind the others.
pub proof fn set_member_keeps_the_others(
    members: Seq<(Seq<char>, JsonModel)>,
    name: Seq<char>,
    value: JsonModel,
    i: int,
)
    requires
        0 <= i < members.len(),
    ensures
        members[i].0 != name ==> with_member(members, name, value)[i] == members[i],
        with_member(members, name, value)[i].0 == members[i].0,
        (exists|j: int| 0 <= j < members.len() && (#[trigger] members[j]).0 == name)
            ==> with_member(members, name, value).len() == members.len(),
        (forall|j: int| 0 <= j < members.len() ==> (#[trigger] members[j]).0 != name)
            ==> with_member(members, name, value) == members.push((name, value)),
{
    lemma_member_position(members, name);
}

/// A name that stands once has the value that stands with it; one that stands nowhere has none.
pub proof fn single_member_is_found(
    members: Seq<(Seq<char>, JsonModel)>,
    name: Seq<char>,
    i: int,
)
    requires
        0 <= i < members.len(),
        members[i].0 == name,
        forall|j: int| i < j < members.len() ==> (#[trigger] members[j]).0 != name,
    ensures
        member_value(members, name) == Some(members[i].1),
{
    lemma_member_position_is(members, name, i);
}

/// A name that no entry has is found nowhere.
pub proof fn missing_member_is_not_found(members: Seq<(Seq<char>, JsonModel)>, name: Seq<char>)
    requires
        forall|j: int| 0 <= j < members.len() ==> (#[trigger] members[j]).0 != name,
    ensures
        member_value(members, name) is None,
{
    lemma_member_position(members, name);
}

} // verus!
