//! Images that an encoder has already seen: their metadata stands in for their contents.

use vstd::prelude::*;

use crate::chat::error::Error;
use crate::events::MediaContentPart;
use crate::json::lemma_member_models_push;
use crate::json::lemma_member_position;
use crate::json::lemma_models_one_by_one;
use crate::json::member_models;
use crate::json::member_position;
use crate::json::member_value;
use crate::json::JsonMember;
use crate::json::JsonNumber;
use crate::json::JsonValue;
use crate::names::order_is_total;
use crate::names::precedes;
use crate::names::stands_before;
use crate::openengine::convert::text_view;
use crate::text::decimal;
use crate::text::decimal_text;
use crate::text::join3;
use crate::text::join4;
use crate::text::listed;
use crate::text::same;

verus! {

/// A tensor of 64-bit integers: its dimensions, and its values in row order.
#[derive(Debug)]
pub struct IntTensor {
    pub shape: Vec<usize>,
    pub data: Vec<i64>,
}

/// A JSON number as a 64-bit integer, where it is one.
pub open spec fn int64_of(number: JsonNumber) -> Option<i64> {
    match number {
        JsonNumber::Unsigned(n) => if n <= i64::MAX {
            Some(n as i64)
        } else {
            None
        },
        JsonNumber::Negative(n) => Some(n),
        JsonNumber::Float(_) => None,
    }
}

/// The tensor that a JSON value spells, as its dimensions and its values, or why it spells none.
/// A number is a tensor without dimensions, and an array stacks tensors of one shape.
pub open spec fn tensor_of(value: JsonValue) -> Result<(Seq<usize>, Seq<i64>), Seq<char>>
    decreases value,
{
    match value {
        JsonValue::Number(number) => match int64_of(number) {
            Some(n) => Ok((Seq::empty(), seq![n])),
            None => Err("cached image metadata must contain int64 values"@),
        },
        JsonValue::Array(values) => if values@.len() == 0 {
            Err("cached image metadata must be a non-empty int64 tensor"@)
        } else {
            match stack_of(values@) {
                Ok((shape, data)) => Ok((seq![values.len()] + shape, data)),
                Err(error) => Err(error),
            }
        },
        _ => Err("cached image metadata must be a non-empty int64 tensor"@),
    }
}

/// The shape that the tensors of a non-empty list share, and their values one after the other.
pub open spec fn stack_of(values: Seq<JsonValue>) -> Result<(Seq<usize>, Seq<i64>), Seq<char>>
    decreases values,
{
    if values.len() == 0 {
        Ok((Seq::empty(), Seq::empty()))
    } else if values.len() == 1 {
        tensor_of(values.last())
    } else {
        match stack_of(values.drop_last()) {
            Err(error) => Err(error),
            Ok((shape, data)) => match tensor_of(values.last()) {
                Err(error) => Err(error),
                Ok((last, more)) => if last != shape {
                    Err("cached image metadata tensor must be rectangular"@)
                } else {
                    Ok((shape, data + more))
                },
            },
        }
    }
}

/// How many values a tensor of these dimensions has.
pub open spec fn volume(shape: Seq<usize>) -> nat
    decreases shape.len(),
{
    if shape.len() == 0 {
        1
    } else {
        shape[0] as nat * volume(shape.skip(1))
    }
}

/// A tensor has as many values as its dimensions say.
pub proof fn tensor_fills_its_shape(value: JsonValue)
    ensures
        tensor_of(value) matches Ok((shape, data)) ==> data.len() == volume(shape),
    decreases value,
{
    if let JsonValue::Array(values) = value {
        if values@.len() > 0 && stack_of(values@) is Ok {
            assert(decreases_to!(value => value->Array_0));
            lemma_stack_fills_its_shape(values@);
            let (shape, data) = stack_of(values@)->Ok_0;
            let whole = seq![values.len()] + shape;
            assert(whole.skip(1) == shape);
        }
    }
}

proof fn lemma_stack_fills_its_shape(values: Seq<JsonValue>)
    ensures
        values.len() > 0 ==> (stack_of(values) matches Ok((shape, data)) ==> data.len()
            == values.len() * volume(shape)),
    decreases values,
{
    if values.len() == 1 {
        assert(decreases_to!(values => values[0]));
        tensor_fills_its_shape(values.last());
    } else if values.len() > 1 {
        assert(decreases_to!(values => values[values.len() - 1]));
        lemma_stack_fills_its_shape(values.drop_last());
        tensor_fills_its_shape(values.last());
        if let Ok((shape, data)) = stack_of(values) {
            let n = values.len() as int;
            let v = volume(shape) as int;
            assert((n - 1) * v + v == n * v) by (nonlinear_arith);
        }
    }
}

/// The outcome is the tensor, or an error of preparing media with the message.
pub open spec fn is_tensor(
    outcome: Result<IntTensor, Error>,
    expected: Result<(Seq<usize>, Seq<i64>), Seq<char>>,
) -> bool {
    match outcome {
        Ok(tensor) => expected == Ok::<(Seq<usize>, Seq<i64>), Seq<char>>(
            (tensor.shape@, tensor.data@),
        ),
        Err(error) => error matches Error::Multimodal(message) && expected == Err::<
            (Seq<usize>, Seq<i64>),
            Seq<char>,
        >(message@),
    }
}

/// Whether two shapes are equal.
fn same_shape(a: &Vec<usize>, b: &Vec<usize>) -> (equal: bool)
    ensures
        equal == (a@ == b@),
{
    if a.len() != b.len() {
        return false;
    }
    let mut i: usize = 0;
    while i < a.len()
        invariant
            i <= a@.len(),
            a@.len() == b@.len(),
            forall|j: int| 0 <= j < i ==> a@[j] == b@[j],
        decreases a@.len() - i,
    {
        if a[i] != b[i] {
            return false;
        }
        i += 1;
    }
    assert(a@ == b@);
    true
}

/// Reads the tensor that a JSON value spells.
pub fn integer_tensor(value: &JsonValue) -> (outcome: Result<IntTensor, Error>)
    ensures
        is_tensor(outcome, tensor_of(*value)),
    decreases value,
{
    match value {
        JsonValue::Number(number) => {
            let n: i64 = match number {
                JsonNumber::Unsigned(n) => {
                    if *n > 0x7fff_ffff_ffff_ffff {
                        return Err(
                            Error::Multimodal(
                                "cached image metadata must contain int64 values".to_string(),
                            ),
                        );
                    }
                    *n as i64
                },
                JsonNumber::Negative(n) => *n,
                JsonNumber::Float(_) => {
                    return Err(
                        Error::Multimodal(
                            "cached image metadata must contain int64 values".to_string(),
                        ),
                    );
                },
            };
            let mut data: Vec<i64> = Vec::new();
            data.push(n);
            let shape: Vec<usize> = Vec::new();
            assert(shape@ == Seq::<usize>::empty());
            assert(data@ == seq![n]);
            Ok(IntTensor { shape, data })
        },
        JsonValue::Array(values) => {
            if values.len() == 0 {
                return Err(
                    Error::Multimodal(
                        "cached image metadata must be a non-empty int64 tensor".to_string(),
                    ),
                );
            }
            assert(decreases_to!(*value => value->Array_0));
            assert(decreases_to!(values@ => values@[0]));
            let first = match integer_tensor(&values[0]) {
                Ok(first) => first,
                Err(error) => {
                    proof {
                        lemma_stack_fault(values@, 1);
                        assert(values@.take(1).last() == values@[0]);
                    }
                    return Err(error);
                },
            };
            let child = first.shape;
            let mut data = first.data;
            let mut i: usize = 1;
            assert(values@.take(1).last() == values@[0]);
            while i < values.len()
                invariant
                    1 <= i <= values@.len(),
                    *value == JsonValue::Array(*values),
                    stack_of(values@.take(i as int)) == Ok::<(Seq<usize>, Seq<i64>), Seq<char>>(
                        (child@, data@),
                    ),
                decreases values@.len() - i,
            {
                assert(decreases_to!(*value => value->Array_0));
                assert(decreases_to!(values@ => values@[i as int]));
                assert(values@.take(i + 1).drop_last() == values@.take(i as int));
                let row = match integer_tensor(&values[i]) {
                    Ok(row) => row,
                    Err(error) => {
                        proof {
                            lemma_stack_fault(values@, i + 1);
                        }
                        return Err(error);
                    },
                };
                if !same_shape(&row.shape, &child) {
                    proof {
                        lemma_stack_fault(values@, i + 1);
                    }
                    return Err(
                        Error::Multimodal(
                            "cached image metadata tensor must be rectangular".to_string(),
                        ),
                    );
                }
                let mut more = row.data;
                data.append(&mut more);
                i += 1;
            }
            assert(values@.take(i as int) == values@);
            let mut shape: Vec<usize> = Vec::new();
            shape.push(values.len());
            let mut tail = child;
            shape.append(&mut tail);
            assert(shape@ == seq![values.len()] + child@);
            Ok(IntTensor { shape, data })
        },
        _ => Err(
            Error::Multimodal("cached image metadata must be a non-empty int64 tensor".to_string()),
        ),
    }
}

/// A list fails as a part of it from the front fails.
proof fn lemma_stack_fault(values: Seq<JsonValue>, n: int)
    requires
        1 <= n <= values.len(),
        stack_of(values.take(n)) is Err,
    ensures
        stack_of(values) == stack_of(values.take(n)),
    decreases values.len() - n,
{
    if n == values.len() {
        assert(values.take(n) == values);
    } else {
        assert(values.take(n + 1).drop_last() == values.take(n));
        lemma_stack_fault(values, n + 1);
    }
}

/// One image that an encoder has seen, as the side that ran the encoder describes it: the
/// identifier that a request names it by, how many tokens it takes, and the metadata, in the
/// order of the names.
#[derive(Debug)]
pub struct EncoderCacheItem {
    pub identifier: String,
    pub num_encoder_tokens: usize,
    pub metadata: Vec<JsonMember>,
}

/// The members stand in the order of their names, each name once.
pub open spec fn in_order(members: Seq<JsonMember>) -> bool {
    forall|i: int, j: int|
        0 <= i < j < members.len() ==> stands_before(
            (#[trigger] members[i]).name@,
            (#[trigger] members[j]).name@,
        )
}

proof fn lemma_place_keeps_order(members: Seq<JsonMember>, at: int, member: JsonMember)
    requires
        in_order(members),
        0 <= at <= members.len(),
        forall|i: int|
            0 <= i < at ==> stands_before((#[trigger] members[i]).name@, member.name@),
        forall|i: int|
            at <= i < members.len() ==> stands_before(member.name@, (#[trigger] members[i]).name@),
    ensures
        in_order(members.insert(at, member)),
{
    let longer = members.insert(at, member);
    assert forall|i: int, j: int| 0 <= i < j < longer.len() implies stands_before(
        (#[trigger] longer[i]).name@,
        (#[trigger] longer[j]).name@,
    ) by {
        let a = if i < at { i } else { i - 1 };
        let b = if j < at { j } else { j - 1 };
        if i != at {
            assert(longer[i] == members[a]);
        }
        if j != at {
            assert(longer[j] == members[b]);
        }
    }
}

/// In a list with each name once, a name has the value that stands beside it.
proof fn lemma_value_stands_beside(members: Seq<JsonMember>, name: Seq<char>)
    requires
        in_order(members),
    ensures
        forall|i: int|
            0 <= i < members.len() && (#[trigger] members[i]).name@ == name ==> member_value(
                member_models(members),
                name,
            ) == Some(members[i].value.model()),
        (forall|i: int| 0 <= i < members.len() ==> (#[trigger] members[i]).name@ != name)
            ==> member_value(member_models(members), name) is None,
{
    let models = member_models(members);
    lemma_models_one_by_one(members);
    lemma_member_position(models, name);
    let at = member_position(models, name);
    assert forall|i: int|
        0 <= i < members.len() && (#[trigger] members[i]).name@ == name implies member_value(
        models,
        name,
    ) == Some(members[i].value.model()) by {
        assert(models[i].0 == name);
        assert(at >= i);
        assert(models[at].0 == members[at].name@);
        if i < at {
            assert(stands_before(members[i].name@, members[at].name@));
            lemma_not_before_itself(name);
        }
    }
    if at >= 0 {
        assert(models[at].0 == members[at].name@);
    }
}

proof fn lemma_not_before_itself(name: Seq<char>)
    ensures
        !stands_before(name, name),
    decreases name.len(),
{
    if name.len() > 0 {
        lemma_not_before_itself(name.skip(1));
    }
}

/// Sets a member in a list in the order of the names.
fn place_member(members: &mut Vec<JsonMember>, member: JsonMember)
    requires
        in_order(old(members)@),
    ensures
        in_order(final(members)@),
        forall|name: Seq<char>| #[trigger]
            member_value(member_models(final(members)@), name) == (if name == member.name@ {
                Some(member.value.model())
            } else {
                member_value(member_models(old(members)@), name)
            }),
{
    let ghost before = members@;
    let ghost label = member.name@;
    let mut at: usize = 0;
    while at < members.len() && precedes(members[at].name.as_str(), member.name.as_str())
        invariant
            at <= members@.len(),
            members@ == before,
            forall|i: int|
                0 <= i < at ==> stands_before((#[trigger] members@[i]).name@, member.name@),
        decreases members@.len() - at,
    {
        at += 1;
    }
    if at < members.len() && !precedes(member.name.as_str(), members[at].name.as_str()) {
        proof {
            order_is_total(before[at as int].name@, member.name@);
        }
        members.set(at, member);
        proof {
            assert forall|i: int, j: int| 0 <= i < j < members@.len() implies stands_before(
                (#[trigger] members@[i]).name@,
                (#[trigger] members@[j]).name@,
            ) by {
                assert(members@[i].name@ == before[i].name@);
                assert(members@[j].name@ == before[j].name@);
            }
            assert forall|name: Seq<char>| #[trigger]
                member_value(member_models(members@), name) == (if name == label {
                    Some(member.value.model())
                } else {
                    member_value(member_models(before), name)
                }) by {
                lemma_value_stands_beside(members@, name);
                lemma_value_stands_beside(before, name);
                assert(members@[at as int].name@ == label);
                if name != label && exists|i: int|
                    0 <= i < before.len() && (#[trigger] before[i]).name@ == name {
                    let i = choose|i: int|
                        0 <= i < before.len() && (#[trigger] before[i]).name@ == name;
                    assert(members@[i] == before[i]);
                } else if name != label {
                    assert forall|i: int| 0 <= i < members@.len() implies (
                    #[trigger] members@[i]).name@ != name by {
                        assert(members@[i].name@ == before[i].name@);
                    }
                }
            }
        }
        return;
    }
    proof {
        assert forall|i: int| at <= i < members@.len() implies stands_before(
            member.name@,
            (#[trigger] members@[i]).name@,
        ) by {
            if i > at {
                lemma_order_chains(member.name@, before[at as int].name@, before[i].name@);
            }
        }
        lemma_place_keeps_order(before, at as int, member);
    }
    members.insert(at, member);
    proof {
        assert forall|name: Seq<char>| #[trigger]
            member_value(member_models(members@), name) == (if name == label {
                Some(member.value.model())
            } else {
                member_value(member_models(before), name)
            }) by {
            lemma_value_stands_beside(members@, name);
            lemma_value_stands_beside(before, name);
            assert(members@[at as int].name@ == label);
            if name != label && exists|i: int|
                0 <= i < before.len() && (#[trigger] before[i]).name@ == name {
                let i = choose|i: int|
                    0 <= i < before.len() && (#[trigger] before[i]).name@ == name;
                let j = if i < at { i } else { i + 1 };
                assert(members@[j] == before[i]);
            } else if name != label {
                assert forall|i: int| 0 <= i < members@.len() implies (
                #[trigger] members@[i]).name@ != name by {
                    if i != at {
                        let j = if i < at { i } else { i - 1 };
                        assert(members@[i] == before[j]);
                    }
                }
            }
        }
    }
}

proof fn lemma_order_chains(a: Seq<char>, b: Seq<char>, c: Seq<char>)
    requires
        stands_before(a, b),
        stands_before(b, c),
    ensures
        stands_before(a, c),
    decreases a.len(),
{
    if a.len() > 0 && b.len() > 0 && c.len() > 0 && a[0] == b[0] && b[0] == c[0] {
        lemma_order_chains(a.skip(1), b.skip(1), c.skip(1));
    }
}

impl EncoderCacheItem {
    /// The metadata stands in the order of the names, each name once.
    pub open spec fn well_formed(self) -> bool {
        in_order(self.metadata@)
    }

    /// An item with these metadata. Of several members with one name, the last counts.
    pub fn new(identifier: String, num_encoder_tokens: usize, metadata: Vec<JsonMember>) -> (item:
        EncoderCacheItem)
        ensures
            item.well_formed(),
            item.identifier == identifier,
            item.num_encoder_tokens == num_encoder_tokens,
            forall|name: Seq<char>| #[trigger]
                member_value(member_models(item.metadata@), name) == member_value(
                    member_models(metadata@),
                    name,
                ),
    {
        let mut rest = metadata;
        let ghost all = rest@;
        let mut ordered: Vec<JsonMember> = Vec::new();
        let mut taken: Ghost<int> = Ghost(0);
        assert(all.skip(0) == all);
        assert(member_models(all.take(0)) == member_models(ordered@)) by {
            assert(all.take(0) == ordered@);
        }
        while rest.len() > 0
            invariant
                0 <= taken@ <= all.len(),
                rest@ == all.skip(taken@),
                in_order(ordered@),
                forall|name: Seq<char>| #[trigger]
                    member_value(member_models(ordered@), name) == member_value(
                        member_models(all.take(taken@)),
                        name,
                    ),
            decreases rest@.len(),
        {
            let ghost before = ordered@;
            let next = rest.remove(0);
            proof {
                let shorter = all.take(taken@);
                assert(next == all[taken@]);
                assert(all.take(taken@ + 1) == shorter.push(next));
                lemma_member_models_push(shorter, next);
                lemma_models_one_by_one(shorter);
                assert(member_models(all.take(taken@ + 1)).drop_last() == member_models(shorter));
                assert forall|name: Seq<char>| #[trigger]
                    member_value(member_models(all.take(taken@ + 1)), name) == (if name
                        == next.name@ {
                        Some(next.value.model())
                    } else {
                        member_value(member_models(before), name)
                    }) by {
                    assert(member_value(member_models(before), name) == member_value(
                        member_models(shorter),
                        name,
                    ));
                    lemma_member_position(member_models(shorter), name);
                }
                assert(rest@ == all.skip(taken@ + 1));
                taken@ = taken@ + 1;
            }
            place_member(&mut ordered, next);
        }
        assert(all.take(taken@) == all);
        EncoderCacheItem { identifier, num_encoder_tokens, metadata: ordered }
    }
}

/// How a field lies in a batch.
#[derive(Clone, Copy, Debug, PartialEq, Eq, Structural)]
pub enum FieldLayout {
    /// One entry per item.
    Batched,
    /// The entries of the items one after the other.
    Flat,
}

/// A field that a model declares.
#[derive(Debug)]
pub struct DeclaredField {
    pub name: String,
    pub layout: FieldLayout,
}

/// What a model declares of the metadata of its images.
#[derive(Debug)]
pub struct ResolvedMultimodalSpec {
    pub fields: Vec<DeclaredField>,
    pub keep_on_cpu_keys: Vec<String>,
}

/// The layout of a field, where it is declared.
pub open spec fn declared_layout(fields: Seq<DeclaredField>, name: Seq<char>) -> Option<FieldLayout>
    decreases fields.len(),
{
    if fields.len() == 0 {
        None
    } else if fields.last().name@ == name {
        Some(fields.last().layout)
    } else {
        declared_layout(fields.drop_last(), name)
    }
}

/// The tensor of a member as the model declares it, or why it has none.
pub open spec fn member_tensor(declared: ResolvedMultimodalSpec, member: JsonMember) -> Result<
    (Seq<usize>, Seq<i64>),
    Seq<char>,
> {
    match declared_layout(declared.fields@, member.name@) {
        None => Err(
            "cached metadata field `"@ + member.name@ + "` is not declared by the model"@,
        ),
        Some(FieldLayout::Batched) => tensor_of(member.value),
        Some(_) => Err("cached image metadata field `"@ + member.name@ + "` is not batched"@),
    }
}

/// The first fault of the metadata, if there is one.
pub open spec fn metadata_fault(declared: ResolvedMultimodalSpec, members: Seq<JsonMember>) -> Option<
    Seq<char>,
>
    decreases members.len(),
{
    if members.len() == 0 {
        None
    } else {
        match (
            metadata_fault(declared, members.drop_last()),
            member_tensor(declared, members.last()),
        ) {
            (Some(fault), _) => Some(fault),
            (None, Err(fault)) => Some(fault),
            (None, Ok(_)) => None,
        }
    }
}

impl ResolvedMultimodalSpec {
    /// Finds the layout of a field.
    pub fn field_layout_for(&self, name: &str) -> (layout: Option<FieldLayout>)
        ensures
            layout == declared_layout(self.fields@, name@),
    {
        let mut i: usize = self.fields.len();
        assert(self.fields@.take(i as int) == self.fields@);
        while i > 0
            invariant
                i <= self.fields@.len(),
                declared_layout(self.fields@.take(i as int), name@) == declared_layout(
                    self.fields@,
                    name@,
                ),
            decreases i,
        {
            assert(self.fields@.take(i as int).drop_last() == self.fields@.take(i - 1));
            if same(self.fields[i - 1].name.as_str(), name) {
                return Some(self.fields[i - 1].layout);
            }
            i -= 1;
        }
        None
    }

    /// Reads the tensor of a member as the model declares it.
    pub fn declared_tensor(&self, member: &JsonMember) -> (outcome: Result<IntTensor, Error>)
        ensures
            is_tensor(outcome, member_tensor(*self, *member)),
    {
        match self.field_layout_for(member.name.as_str()) {
            None => Err(
                Error::Multimodal(
                    join3(
                        "cached metadata field `",
                        member.name.as_str(),
                        "` is not declared by the model",
                    ),
                ),
            ),
            Some(FieldLayout::Batched) => integer_tensor(&member.value),
            Some(FieldLayout::Flat) => Err(
                Error::Multimodal(
                    join3("cached image metadata field `", member.name.as_str(), "` is not batched"),
                ),
            ),
        }
    }
}

/// A tensor with the name that a model knows it by.
#[derive(Debug)]
pub struct NamedTensor {
    pub name: String,
    pub tensor: IntTensor,
}

/// What a model takes in place of an image that was preprocessed: no encoder input and no size,
/// how many tokens it takes, and its metadata as a batch of one.
#[derive(Debug)]
pub struct PreprocessedEncoderInputs {
    pub feature_token_counts: Vec<usize>,
    pub model_specific: Vec<NamedTensor>,
}

/// The tensor of a member, as a batch of one.
pub open spec fn is_batch_of_one(
    declared: ResolvedMultimodalSpec,
    member: JsonMember,
    entry: NamedTensor,
) -> bool {
    &&& entry.name == member.name
    &&& member_tensor(declared, member) matches Ok((shape, data))
    &&& entry.tensor.shape@ == seq![1usize] + shape
    &&& entry.tensor.data@ == data
}

/// Prepares an image from its metadata alone.
pub fn synthetic_preprocessed(declared: &ResolvedMultimodalSpec, item: &EncoderCacheItem) -> (outcome:
    Result<PreprocessedEncoderInputs, Error>)
    ensures
        match outcome {
            Ok(inputs) => {
                &&& metadata_fault(*declared, item.metadata@) is None
                &&& inputs.feature_token_counts@ == seq![item.num_encoder_tokens]
                &&& inputs.model_specific@.len() == item.metadata@.len()
                &&& forall|i: int|
                    0 <= i < item.metadata@.len() ==> is_batch_of_one(
                        *declared,
                        item.metadata@[i],
                        #[trigger] inputs.model_specific@[i],
                    )
            },
            Err(error) => error matches Error::Multimodal(message) && metadata_fault(
                *declared,
                item.metadata@,
            ) == Some(message@),
        },
{
    let mut model_specific: Vec<NamedTensor> = Vec::new();
    let mut i: usize = 0;
    while i < item.metadata.len()
        invariant
            i <= item.metadata@.len(),
            metadata_fault(*declared, item.metadata@.take(i as int)) is None,
            model_specific@.len() == i,
            forall|j: int|
                0 <= j < i ==> is_batch_of_one(
                    *declared,
                    item.metadata@[j],
                    #[trigger] model_specific@[j],
                ),
        decreases item.metadata@.len() - i,
    {
        assert(item.metadata@.take(i + 1).drop_last() == item.metadata@.take(i as int));
        let tensor = match declared.declared_tensor(&item.metadata[i]) {
            Ok(tensor) => tensor,
            Err(error) => {
                proof {
                    lemma_fault_stays(*declared, item.metadata@, i + 1);
                }
                return Err(error);
            },
        };
        let mut shape = tensor.shape;
        let ghost dimensions = shape@;
        shape.insert(0, 1);
        assert(shape@ == seq![1usize] + dimensions);
        model_specific.push(
            NamedTensor {
                name: item.metadata[i].name.clone(),
                tensor: IntTensor { shape, data: tensor.data },
            },
        );
        i += 1;
    }
    assert(item.metadata@.take(i as int) == item.metadata@);
    let mut feature_token_counts: Vec<usize> = Vec::new();
    feature_token_counts.push(item.num_encoder_tokens);
    assert(feature_token_counts@ == seq![item.num_encoder_tokens]);
    Ok(PreprocessedEncoderInputs { feature_token_counts, model_specific })
}

proof fn lemma_fault_stays(declared: ResolvedMultimodalSpec, members: Seq<JsonMember>, n: int)
    requires
        0 <= n <= members.len(),
        metadata_fault(declared, members.take(n)) is Some,
    ensures
        metadata_fault(declared, members) == metadata_fault(declared, members.take(n)),
    decreases members.len() - n,
{
    if n == members.len() {
        assert(members.take(n) == members);
    } else {
        assert(members.take(n + 1).drop_last() == members.take(n));
        lemma_fault_stays(declared, members, n + 1);
    }
}

/// One field that goes to the engine with an image.
#[derive(Debug)]
pub struct MmFieldElem {
    pub name: String,
    pub data: IntTensor,
    pub keep_on_cpu: bool,
}

/// The field is that of the member.
pub open spec fn is_field_of(
    declared: ResolvedMultimodalSpec,
    member: JsonMember,
    field: MmFieldElem,
) -> bool {
    &&& field.name == member.name
    &&& member_tensor(declared, member) == Ok::<(Seq<usize>, Seq<i64>), Seq<char>>(
        (field.data.shape@, field.data.data@),
    )
    &&& field.keep_on_cpu == exists|k: int|
        0 <= k < declared.keep_on_cpu_keys@.len() && (#[trigger] declared.keep_on_cpu_keys@[k])@
            == member.name@
}

/// The fields are those of the metadata, one by one.
pub open spec fn are_fields_of(
    declared: ResolvedMultimodalSpec,
    members: Seq<JsonMember>,
    fields: Seq<MmFieldElem>,
) -> bool {
    &&& fields.len() == members.len()
    &&& forall|i: int|
        0 <= i < members.len() ==> is_field_of(declared, members[i], #[trigger] fields[i])
}

/// Lists the fields that go to the engine with an image.
pub fn metadata_kwargs(declared: &ResolvedMultimodalSpec, item: &EncoderCacheItem) -> (outcome: Result<
    Vec<MmFieldElem>,
    Error,
>)
    ensures
        match outcome {
            Ok(fields) => metadata_fault(*declared, item.metadata@) is None && are_fields_of(
                *declared,
                item.metadata@,
                fields@,
            ),
            Err(error) => error matches Error::Multimodal(message) && metadata_fault(
                *declared,
                item.metadata@,
            ) == Some(message@),
        },
{
    let mut fields: Vec<MmFieldElem> = Vec::new();
    let mut i: usize = 0;
    while i < item.metadata.len()
        invariant
            i <= item.metadata@.len(),
            metadata_fault(*declared, item.metadata@.take(i as int)) is None,
            fields@.len() == i,
            forall|j: int|
                0 <= j < i ==> is_field_of(*declared, item.metadata@[j], #[trigger] fields@[j]),
        decreases item.metadata@.len() - i,
    {
        assert(item.metadata@.take(i + 1).drop_last() == item.metadata@.take(i as int));
        let data = match declared.declared_tensor(&item.metadata[i]) {
            Ok(data) => data,
            Err(error) => {
                proof {
                    lemma_fault_stays(*declared, item.metadata@, i + 1);
                }
                return Err(error);
            },
        };
        let keep_on_cpu = listed(&declared.keep_on_cpu_keys, item.metadata[i].name.as_str());
        fields.push(MmFieldElem { name: item.metadata[i].name.clone(), data, keep_on_cpu });
        i += 1;
    }
    assert(item.metadata@.take(i as int) == item.metadata@);
    Ok(fields)
}

/// What kind of media a part is.
#[derive(Clone, Copy, Debug, PartialEq, Eq, Structural)]
pub enum Modality {
    Image,
    Video,
    Audio,
}

/// The kind of a part and the identifier that the request gives it; nothing for text.
pub open spec fn identity_of(part: MediaContentPart) -> Option<(Modality, Option<Seq<char>>)> {
    match part {
        MediaContentPart::ImageUrl { uuid, .. } => Some((Modality::Image, text_view(uuid))),
        MediaContentPart::ImageData { uuid, .. } => Some((Modality::Image, text_view(uuid))),
        MediaContentPart::ImageEmbeds { uuid } => Some((Modality::Image, text_view(uuid))),
        MediaContentPart::VideoUrl { uuid, .. } => Some((Modality::Video, text_view(uuid))),
        MediaContentPart::VideoData { uuid, .. } => Some((Modality::Video, text_view(uuid))),
        MediaContentPart::AudioUrl { uuid, .. } => Some((Modality::Audio, text_view(uuid))),
        MediaContentPart::AudioData { uuid, .. } => Some((Modality::Audio, text_view(uuid))),
        MediaContentPart::Text { .. } => None,
    }
}

/// Tells the kind of a part and the identifier that the request gives it.
pub fn media_identity<'a>(part: &'a MediaContentPart) -> (identity: Option<
    (Modality, &'a Option<String>),
>)
    ensures
        match identity {
            Some((modality, identifier)) => identity_of(*part) == Some(
                (modality, text_view(*identifier)),
            ),
            None => identity_of(*part) is None,
        },
{
    match part {
        MediaContentPart::ImageUrl { uuid, .. } => Some((Modality::Image, uuid)),
        MediaContentPart::ImageData { uuid, .. } => Some((Modality::Image, uuid)),
        MediaContentPart::ImageEmbeds { uuid } => Some((Modality::Image, uuid)),
        MediaContentPart::VideoUrl { uuid, .. } => Some((Modality::Video, uuid)),
        MediaContentPart::VideoData { uuid, .. } => Some((Modality::Video, uuid)),
        MediaContentPart::AudioUrl { uuid, .. } => Some((Modality::Audio, uuid)),
        MediaContentPart::AudioData { uuid, .. } => Some((Modality::Audio, uuid)),
        MediaContentPart::Text { .. } => None,
    }
}

/// The images of a model: what it declares of their metadata, and what holds their place in a
/// prompt.
#[derive(Debug)]
pub struct ImageSupport {
    pub declared: ResolvedMultimodalSpec,
    pub placeholder: String,
}

/// The media that a model takes.
#[derive(Debug)]
pub struct MultimodalModelInfo {
    pub image: Option<ImageSupport>,
}

/// One image that is ready for the engine.
#[derive(Debug)]
pub struct PreparedItem {
    pub data: Vec<MmFieldElem>,
    pub hash: String,
    pub uuid: Option<String>,
}

/// The images of a request that are ready for the engine, each with what replaces its place in
/// the prompt.
#[derive(Debug)]
pub struct PreparedMedia<R> {
    pub modality: Modality,
    pub placeholder: String,
    pub replacements: Vec<R>,
    pub items: Vec<PreparedItem>,
}

/// The items describe images completely, and each identifier stands for one of them.
pub open spec fn is_usable(items: Seq<EncoderCacheItem>) -> bool {
    &&& items.len() > 0
    &&& forall|i: int|
        0 <= i < items.len() ==> (#[trigger] items[i]).identifier@.len() > 0
            && items[i].num_encoder_tokens > 0 && items[i].metadata@.len() > 0
    &&& forall|i: int, j: int|
        0 <= i < j < items.len() ==> (#[trigger] items[i]).identifier@ != (
        #[trigger] items[j]).identifier@
}

/// The item is the image that the part names.
pub open spec fn is_named_by(part: MediaContentPart, item: EncoderCacheItem) -> bool {
    identity_of(part) == Some((Modality::Image, Some(item.identifier@)))
}

/// Finds the item with an identifier among the first ones.
fn find_item(items: &Vec<EncoderCacheItem>, count: usize, identifier: &str) -> (found: Option<usize>)
    requires
        count <= items@.len(),
    ensures
        match found {
            Some(at) => at < count && items@[at as int].identifier@ == identifier@,
            None => forall|i: int|
                0 <= i < count ==> (#[trigger] items@[i]).identifier@ != identifier@,
        },
{
    let mut i: usize = 0;
    while i < count
        invariant
            i <= count <= items@.len(),
            forall|j: int| 0 <= j < i ==> (#[trigger] items@[j]).identifier@ != identifier@,
        decreases count - i,
    {
        if same(items[i].identifier.as_str(), identifier) {
            return Some(i);
        }
        i += 1;
    }
    None
}

/// Whether the items describe images completely, and each identifier stands for one of them.
pub fn usable(items: &Vec<EncoderCacheItem>) -> (found: bool)
    ensures
        found == is_usable(items@),
{
    if items.len() == 0 {
        return false;
    }
    let mut i: usize = 0;
    while i < items.len()
        invariant
            i <= items@.len(),
            forall|j: int|
                0 <= j < i ==> (#[trigger] items@[j]).identifier@.len() > 0
                    && items@[j].num_encoder_tokens > 0 && items@[j].metadata@.len() > 0,
            forall|j: int, k: int|
                0 <= j < k < i ==> (#[trigger] items@[j]).identifier@ != (
                #[trigger] items@[k]).identifier@,
        decreases items@.len() - i,
    {
        if items[i].identifier.as_str().is_empty() || items[i].num_encoder_tokens == 0
            || items[i].metadata.len() == 0 {
            return false;
        }
        if let Some(at) = find_item(items, i, items[i].identifier.as_str()) {
            assert(items@[at as int].identifier@ == items@[i as int].identifier@);
            return false;
        }
        i += 1;
    }
    true
}

/// The item is ready for the engine as the model declares it.
pub open spec fn is_prepared(
    info: MultimodalModelInfo,
    item: EncoderCacheItem,
    prepared: PreparedItem,
) -> bool {
    &&& info.image matches Some(support)
    &&& are_fields_of(support.declared, item.metadata@, prepared.data@)
    &&& prepared.hash == item.identifier
    &&& prepared.uuid is None
}

/// The item can be prepared from its metadata alone: the model takes images and declares every
/// field of it.
pub open spec fn is_describable(info: MultimodalModelInfo, item: EncoderCacheItem) -> bool {
    &&& info.image matches Some(support)
    &&& metadata_fault(support.declared, item.metadata@) is None
}

/// The part names an image among the items that can be prepared from its metadata alone.
pub open spec fn is_restorable(
    info: MultimodalModelInfo,
    part: MediaContentPart,
    items: Seq<EncoderCacheItem>,
) -> bool {
    exists|i: int|
        0 <= i < items.len() && is_named_by(part, #[trigger] items[i]) && is_describable(
            info,
            items[i],
        )
}

/// The image of a part stands at this place.
pub open spec fn is_image_of(
    info: MultimodalModelInfo,
    part: MediaContentPart,
    items: Seq<EncoderCacheItem>,
    place: usize,
) -> bool {
    &&& place < items.len()
    &&& is_named_by(part, items[place as int])
    &&& is_describable(info, items[place as int])
}

/// The image is ready, given what replaces its place in the prompt: there is one replacement.
pub open spec fn is_reconstructed<R>(
    info: MultimodalModelInfo,
    item: EncoderCacheItem,
    replacements: Result<Vec<R>, Error>,
) -> bool {
    &&& is_describable(info, item)
    &&& replacements matches Ok(found)
    &&& found@.len() == 1
}

impl MultimodalModelInfo {
    /// Whether an item can be prepared from its metadata alone.
    fn describes(&self, item: &EncoderCacheItem) -> (found: bool)
        ensures
            found == is_describable(*self, *item),
    {
        match &self.image {
            None => false,
            Some(support) => synthetic_preprocessed(&support.declared, item).is_ok(),
        }
    }

    /// Matches the media of a request with images that an encoder has seen: the place of the image
    /// of each part. There is no match unless the items can be relied on and every part names an
    /// image among the items that can be prepared from its metadata; all media are prepared from
    /// their contents then. A model that takes no images has none to match without any part.
    pub fn prepare_from_encoder_cache(
        &self,
        media_parts: &Vec<MediaContentPart>,
        cache_items: &Vec<EncoderCacheItem>,
    ) -> (outcome: Result<Option<Vec<usize>>, Error>)
        ensures
            match outcome {
                Ok(Some(images)) => {
                    &&& is_usable(cache_items@)
                    &&& self.image is Some
                    &&& images@.len() == media_parts@.len()
                    &&& forall|i: int|
                        0 <= i < images@.len() ==> is_image_of(
                            *self,
                            media_parts@[i],
                            cache_items@,
                            #[trigger] images@[i],
                        )
                },
                Ok(None) => !is_usable(cache_items@) || exists|i: int|
                    0 <= i < media_parts@.len() && !is_restorable(
                        *self,
                        #[trigger] media_parts@[i],
                        cache_items@,
                    ),
                Err(error) => {
                    &&& is_usable(cache_items@)
                    &&& media_parts@.len() == 0
                    &&& self.image is None
                    &&& error matches Error::UnsupportedModality { modality }
                    &&& modality@ == "image"@
                },
            },
    {
        if !usable(cache_items) {
            return Ok(None);
        }
        let mut images: Vec<usize> = Vec::new();
        let mut i: usize = 0;
        while i < media_parts.len()
            invariant
                is_usable(cache_items@),
                i <= media_parts@.len(),
                images@.len() == i,
                forall|j: int|
                    0 <= j < i ==> is_image_of(
                        *self,
                        media_parts@[j],
                        cache_items@,
                        #[trigger] images@[j],
                    ),
            decreases media_parts@.len() - i,
        {
            let identifier = match media_identity(&media_parts[i]) {
                Some((Modality::Image, Some(identifier))) => identifier,
                _ => {
                    assert(!is_restorable(*self, media_parts@[i as int], cache_items@));
                    return Ok(None);
                },
            };
            let at: usize = match find_item(cache_items, cache_items.len(), identifier.as_str()) {
                Some(at) => at,
                None => {
                    assert(!is_restorable(*self, media_parts@[i as int], cache_items@));
                    return Ok(None);
                },
            };
            if !self.describes(&cache_items[at]) {
                assert forall|k: int| 0 <= k < cache_items@.len() && is_named_by(
                    media_parts@[i as int],
                    #[trigger] cache_items@[k],
                ) implies k == at by {
                    assert(cache_items@[k].identifier@ == cache_items@[at as int].identifier@);
                }
                assert(!is_restorable(*self, media_parts@[i as int], cache_items@));
                return Ok(None);
            }
            images.push(at);
            i += 1;
        }
        if self.image.is_none() {
            assert(media_parts@.len() == 0) by {
                if media_parts@.len() > 0 {
                    assert(is_image_of(*self, media_parts@[0], cache_items@, images@[0]));
                }
            }
            return Err(Error::UnsupportedModality { modality: "image".to_string() });
        }
        Ok(Some(images))
    }

    /// Ends the preparation of matched images, given what replaces the place of each in the
    /// prompt. There are no prepared media unless every image is ready; all media are prepared
    /// from their contents then.
    pub fn finish_from_encoder_cache<R>(
        &self,
        cache_items: &Vec<EncoderCacheItem>,
        images: &Vec<usize>,
        replacements: Vec<Result<Vec<R>, Error>>,
    ) -> (prepared: Option<PreparedMedia<R>>)
        requires
            replacements@.len() == images@.len(),
            forall|i: int| 0 <= i < images@.len() ==> (#[trigger] images@[i]) < cache_items@.len(),
        ensures
            match prepared {
                Some(media) => {
                    &&& self.image matches Some(support)
                    &&& media.modality == Modality::Image
                    &&& media.placeholder == support.placeholder
                    &&& media.replacements@.len() == images@.len()
                    &&& media.items@.len() == images@.len()
                    &&& forall|i: int|
                        0 <= i < images@.len() ==> {
                            &&& is_reconstructed(
                                *self,
                                cache_items@[images@[i] as int],
                                #[trigger] replacements@[i],
                            )
                            &&& replacements@[i]->Ok_0@ == seq![media.replacements@[i]]
                            &&& is_prepared(
                                *self,
                                cache_items@[images@[i] as int],
                                media.items@[i],
                            )
                        }
                },
                None => self.image is None || exists|i: int|
                    0 <= i < images@.len() && !is_reconstructed(
                        *self,
                        cache_items@[images@[i] as int],
                        #[trigger] replacements@[i],
                    ),
            },
    {
        if self.image.is_none() {
            return None;
        }
        let ghost given = replacements@;
        let mut rest = replacements;
        let mut found: Vec<R> = Vec::new();
        let mut items: Vec<PreparedItem> = Vec::new();
        let mut i: usize = 0;
        while i < images.len()
            invariant
                self.image is Some,
                given == replacements@,
                given.len() == images@.len(),
                forall|j: int|
                    0 <= j < images@.len() ==> (#[trigger] images@[j]) < cache_items@.len(),
                i <= images@.len(),
                rest@ == given.skip(i as int),
                found@.len() == i,
                items@.len() == i,
                forall|j: int|
                    0 <= j < i ==> {
                        &&& is_reconstructed(
                            *self,
                            cache_items@[images@[j] as int],
                            #[trigger] given[j],
                        )
                        &&& given[j]->Ok_0@ == seq![found@[j]]
                        &&& is_prepared(*self, cache_items@[images@[j] as int], items@[j])
                    },
            decreases images@.len() - i,
        {
            let next = rest.remove(0);
            assert(next == given[i as int]);
            assert(rest@ == given.skip(i + 1));
            match self.finish_cached_image(&cache_items[images[i]], next) {
                Ok((replacement, item)) => {
                    found.push(replacement);
                    items.push(item);
                },
                Err(_) => {
                    assert(!is_reconstructed(
                        *self,
                        cache_items@[images@[i as int] as int],
                        given[i as int],
                    ));
                    return None;
                },
            }
            i += 1;
        }
        self.prepare_cached_images(found, items).ok()
    }

    /// Prepares an image that an encoder has seen, so that what replaces its place in the prompt
    /// can be found.
    pub fn preprocess_cached_image(&self, item: &EncoderCacheItem) -> (outcome: Result<
        PreprocessedEncoderInputs,
        Error,
    >)
        ensures
            match outcome {
                Ok(inputs) => self.image matches Some(support) && metadata_fault(
                    support.declared,
                    item.metadata@,
                ) is None && inputs.feature_token_counts@ == seq![item.num_encoder_tokens]
                    && inputs.model_specific@.len() == item.metadata@.len() && forall|i: int|
                    0 <= i < item.metadata@.len() ==> is_batch_of_one(
                        support.declared,
                        item.metadata@[i],
                        #[trigger] inputs.model_specific@[i],
                    ),
                Err(error) => match self.image {
                    None => error matches Error::UnsupportedModality { modality } && modality@
                        == "image"@,
                    Some(support) => error matches Error::Multimodal(message) && metadata_fault(
                        support.declared,
                        item.metadata@,
                    ) == Some(message@),
                },
            },
    {
        match &self.image {
            None => Err(Error::UnsupportedModality { modality: "image".to_string() }),
            Some(support) => synthetic_preprocessed(&support.declared, item),
        }
    }

    /// Ends the preparation of an image, given what replaces its place in the prompt. There has to
    /// be exactly one replacement.
    pub fn finish_cached_image<R>(
        &self,
        item: &EncoderCacheItem,
        replacements: Result<Vec<R>, Error>,
    ) -> (outcome: Result<(R, PreparedItem), Error>)
        requires
            self.image is Some,
        ensures
            match outcome {
                Ok((replacement, prepared)) => {
                    &&& replacements matches Ok(found)
                    &&& found@ == seq![replacement]
                    &&& is_describable(*self, *item)
                    &&& is_prepared(*self, *item, prepared)
                },
                Err(error) => match replacements {
                    Err(cause) => error == cause,
                    Ok(found) => if found@.len() != 1 {
                        error matches Error::Multimodal(message) && message@
                            == "expected exactly one prompt replacement for cached image item `"@
                            + item.identifier@ + "`, got "@ + decimal(found@.len())
                    } else {
                        error matches Error::Multimodal(message) && metadata_fault(
                            self.image->Some_0.declared,
                            item.metadata@,
                        ) == Some(message@)
                    },
                },
            },
    {
        let mut replacements = match replacements {
            Ok(replacements) => replacements,
            Err(error) => {
                return Err(error);
            },
        };
        if replacements.len() != 1 {
            return Err(
                Error::Multimodal(
                    join4(
                        "expected exactly one prompt replacement for cached image item `",
                        item.identifier.as_str(),
                        "`, got ",
                        decimal_text(replacements.len() as u64).as_str(),
                    ),
                ),
            );
        }
        let ghost found = replacements@;
        let replacement = replacements.remove(0);
        assert(found == seq![replacement]);
        match &self.image {
            None => Err(Error::UnsupportedModality { modality: "image".to_string() }),
            Some(support) => match metadata_kwargs(&support.declared, item) {
                Ok(data) => Ok(
                    (
                        replacement,
                        PreparedItem { data, hash: item.identifier.clone(), uuid: None },
                    ),
                ),
                Err(error) => Err(error),
            },
        }
    }

    /// Puts prepared images together.
    pub fn prepare_cached_images<R>(&self, replacements: Vec<R>, items: Vec<PreparedItem>) -> (media:
        Result<PreparedMedia<R>, Error>)
        ensures
            match (media, self.image) {
                (Ok(media), Some(support)) => {
                    &&& media.modality == Modality::Image
                    &&& media.placeholder == support.placeholder
                    &&& media.replacements == replacements
                    &&& media.items == items
                },
                (Err(error), None) => error matches Error::UnsupportedModality { modality }
                    && modality@ == "image"@,
                _ => false,
            },
    {
        match &self.image {
            None => Err(Error::UnsupportedModality { modality: "image".to_string() }),
            Some(support) => Ok(
                PreparedMedia {
                    modality: Modality::Image,
                    placeholder: support.placeholder.clone(),
                    replacements,
                    items,
                },
            ),
        }
    }
}

/// An integer that 64 bits hold is a tensor without dimensions that holds it; no other number is a
/// tensor, and nothing but numbers and arrays of tensors is.
pub proof fn numbers_are_single_values(number: JsonNumber, value: JsonValue)
    ensures
        number matches JsonNumber::Unsigned(n) ==> (n <= i64::MAX ==> tensor_of(
            JsonValue::Number(number),
        ) == Ok::<(Seq<usize>, Seq<i64>), Seq<char>>((Seq::empty(), seq![n as i64]))),
        number matches JsonNumber::Unsigned(n) ==> (n > i64::MAX ==> tensor_of(
            JsonValue::Number(number),
        ) is Err),
        number matches JsonNumber::Negative(n) ==> tensor_of(JsonValue::Number(number)) == Ok::<
            (Seq<usize>, Seq<i64>),
            Seq<char>,
        >((Seq::empty(), seq![n])),
        number is Float ==> tensor_of(JsonValue::Number(number)) is Err,
        value !is Number && value !is Array ==> tensor_of(value) is Err,
        value matches JsonValue::Array(values) ==> (values@.len() == 0 ==> tensor_of(value) is Err),
{
}

proof fn lemma_stack_row(values: Seq<JsonValue>, k: int)
    requires
        0 <= k < values.len(),
        stack_of(values) is Ok,
    ensures
        ({
            let (shape, data) = stack_of(values)->Ok_0;
            let size = volume(shape) as int;
            &&& tensor_of(values[k]) is Ok
            &&& tensor_of(values[k])->Ok_0.0 == shape
            &&& 0 <= k * size <= (k + 1) * size <= data.len()
            &&& tensor_of(values[k])->Ok_0.1 == data.subrange(k * size, (k + 1) * size)
        }),
    decreases values.len(),
{
    let (shape, data) = stack_of(values)->Ok_0;
    let size = volume(shape) as int;
    let n = values.len() as int;
    lemma_stack_fills_its_shape(values);
    assert(data.len() == n * size);
    assert(0 <= k * size) by (nonlinear_arith)
        requires
            0 <= k,
            0 <= size,
    ;
    assert((k + 1) * size == k * size + size) by (nonlinear_arith);
    assert((k + 1) * size <= n * size) by (nonlinear_arith)
        requires
            k + 1 <= n,
            0 <= size,
    ;
    if n == 1 {
        assert(0 * size == 0 && 1 * size == size) by (nonlinear_arith);
        assert(data.subrange(0, size) =~= data);
    } else {
        let shorter = values.drop_last();
        let (before, front) = stack_of(shorter)->Ok_0;
        let (_, more) = tensor_of(values.last())->Ok_0;
        lemma_stack_fills_its_shape(shorter);
        tensor_fills_its_shape(values.last());
        assert(data == front + more);
        assert(front.len() == (n - 1) * size);
        assert(more.len() == size);
        if k < n - 1 {
            lemma_stack_row(shorter, k);
            assert((k + 1) * size <= (n - 1) * size) by (nonlinear_arith)
                requires
                    k + 1 <= n - 1,
                    0 <= size,
            ;
            assert(data.subrange(k * size, (k + 1) * size) =~= front.subrange(
                k * size,
                (k + 1) * size,
            ));
        } else {
            assert(data.subrange(k * size, (k + 1) * size) =~= more);
        }
    }
}

/// The first dimension of an array is its length, its other dimensions are those of each of its
/// elements, and its values are those of its elements, one element behind the other.
pub proof fn rows_stand_behind_each_other(value: JsonValue, k: int)
    requires
        value is Array,
        0 <= k < value->Array_0@.len(),
        tensor_of(value) is Ok,
    ensures
        ({
            let (shape, data) = tensor_of(value)->Ok_0;
            let row = tensor_of(value->Array_0@[k]);
            let size = volume(shape.skip(1)) as int;
            &&& shape.len() > 0
            &&& shape[0] == value->Array_0@.len()
            &&& row is Ok
            &&& row->Ok_0.0 == shape.skip(1)
            &&& 0 <= k * size <= (k + 1) * size <= data.len()
            &&& row->Ok_0.1 == data.subrange(k * size, (k + 1) * size)
        }),
{
    let values = value->Array_0;
    let (shape, data) = stack_of(values@)->Ok_0;
    lemma_stack_row(values@, k);
    assert((seq![values.len()] + shape).skip(1) =~= shape);
}

/// An array whose elements are tensors of one shape is a tensor; one with an element that is none,
/// or of another shape, is not.
pub proof fn arrays_are_rectangular(value: JsonValue)
    requires
        value is Array,
        value->Array_0@.len() > 0,
    ensures
        tensor_of(value) is Ok <==> forall|k: int|
            #![trigger value->Array_0@[k]]
            0 <= k < value->Array_0@.len() ==> tensor_of(value->Array_0@[k]) is Ok && tensor_of(
                value->Array_0@[k],
            )->Ok_0.0 == tensor_of(value->Array_0@[0])->Ok_0.0,
{
    let values = value->Array_0@;
    let first = values[0];
    if tensor_of(value) is Ok {
        assert forall|k: int| #![trigger values[k]] 0 <= k < values.len() implies tensor_of(
            values[k],
        ) is Ok && tensor_of(values[k])->Ok_0.0 == tensor_of(values[0])->Ok_0.0 by {
            lemma_stack_row(values, k);
            lemma_stack_row(values, 0);
        }
    }
    if forall|k: int|
        #![trigger values[k]]
        0 <= k < values.len() ==> tensor_of(values[k]) is Ok && tensor_of(values[k])->Ok_0.0
            == tensor_of(values[0])->Ok_0.0 {
        lemma_equal_shapes_stack(values);
    }
}

proof fn lemma_equal_shapes_stack(values: Seq<JsonValue>)
    requires
        values.len() > 0,
        forall|k: int|
            #![trigger values[k]]
            0 <= k < values.len() ==> tensor_of(values[k]) is Ok && tensor_of(values[k])->Ok_0.0
                == tensor_of(values[0])->Ok_0.0,
    ensures
        stack_of(values) is Ok,
        stack_of(values)->Ok_0.0 == tensor_of(values[0])->Ok_0.0,
    decreases values.len(),
{
    let last = values[values.len() - 1];
    if values.len() > 1 {
        let shorter = values.drop_last();
        assert forall|k: int| #![trigger shorter[k]] 0 <= k < shorter.len() implies tensor_of(
            shorter[k],
        ) is Ok && tensor_of(shorter[k])->Ok_0.0 == tensor_of(shorter[0])->Ok_0.0 by {
            let (a, b) = (values[k], values[0]);
            assert(shorter[k] == a && shorter[0] == b);
        }
        lemma_equal_shapes_stack(shorter);
    }
}

/// A field has the layout that its last declaration gives it, and none without a declaration. Only
/// a batched field has a tensor, and it is that of its value.
pub proof fn fields_are_laid_out_as_declared(
    declared: ResolvedMultimodalSpec,
    member: JsonMember,
    i: int,
)
    ensures
        0 <= i < declared.fields@.len() && declared.fields@[i].name@ == member.name@ && (forall|
            k: int,
        |
            i < k < declared.fields@.len() ==> (#[trigger] declared.fields@[k]).name@
                != member.name@) ==> {
            &&& declared_layout(declared.fields@, member.name@) == Some(declared.fields@[i].layout)
            &&& declared.fields@[i].layout == FieldLayout::Batched ==> member_tensor(
                declared,
                member,
            ) == tensor_of(member.value)
            &&& declared.fields@[i].layout == FieldLayout::Flat ==> member_tensor(declared, member)
                is Err
        },
        (forall|k: int|
            0 <= k < declared.fields@.len() ==> (#[trigger] declared.fields@[k]).name@
                != member.name@) ==> {
            &&& declared_layout(declared.fields@, member.name@) is None
            &&& member_tensor(declared, member) is Err
        },
{
    lemma_layout(declared.fields@, member.name@, i);
}

proof fn lemma_layout(fields: Seq<DeclaredField>, name: Seq<char>, i: int)
    ensures
        0 <= i < fields.len() && fields[i].name@ == name && (forall|k: int|
            i < k < fields.len() ==> (#[trigger] fields[k]).name@ != name) ==> declared_layout(
            fields,
            name,
        ) == Some(fields[i].layout),
        (forall|k: int| 0 <= k < fields.len() ==> (#[trigger] fields[k]).name@ != name)
            ==> declared_layout(fields, name) is None,
    decreases fields.len(),
{
    if fields.len() > 0 {
        let shorter = fields.drop_last();
        let last = fields[fields.len() - 1];
        lemma_layout(shorter, name, i);
        if 0 <= i < fields.len() - 1 && fields[i].name@ == name && (forall|k: int|
            i < k < fields.len() ==> (#[trigger] fields[k]).name@ != name) {
            assert forall|k: int| i < k < shorter.len() implies (#[trigger] shorter[k]).name@
                != name by {
                assert(fields[k].name@ != name);
            }
            assert(last.name@ != name);
        }
        if forall|k: int| 0 <= k < fields.len() ==> (#[trigger] fields[k]).name@ != name {
            assert forall|k: int| 0 <= k < shorter.len() implies (#[trigger] shorter[k]).name@
                != name by {
                assert(fields[k].name@ != name);
            }
            assert(last.name@ != name);
        }
    }
}

/// Metadata are in order if and only if every member has a tensor as the model declares it; else
/// the fault of the first that has none is told.
pub proof fn first_bad_member_is_told(
    declared: ResolvedMultimodalSpec,
    members: Seq<JsonMember>,
    at: int,
)
    ensures
        metadata_fault(declared, members) is None <==> forall|i: int|
            0 <= i < members.len() ==> member_tensor(declared, #[trigger] members[i]) is Ok,
        0 <= at < members.len() && member_tensor(declared, members[at]) is Err && (forall|i: int|
            0 <= i < at ==> member_tensor(declared, #[trigger] members[i]) is Ok)
            ==> metadata_fault(declared, members) == Some(
            member_tensor(declared, members[at])->Err_0,
        ),
    decreases members.len(),
{
    if members.len() > 0 {
        let shorter = members.drop_last();
        let last = members[members.len() - 1];
        first_bad_member_is_told(declared, shorter, at);
        if metadata_fault(declared, members) is None {
            assert forall|i: int| 0 <= i < members.len() implies member_tensor(
                declared,
                #[trigger] members[i],
            ) is Ok by {
                if i < members.len() - 1 {
                    assert(shorter[i] == members[i]);
                }
            }
        }
        if forall|i: int|
            0 <= i < members.len() ==> member_tensor(declared, #[trigger] members[i]) is Ok {
            assert forall|i: int| 0 <= i < shorter.len() implies member_tensor(
                declared,
                #[trigger] shorter[i],
            ) is Ok by {
                assert(member_tensor(declared, members[i]) is Ok);
            }
            assert(member_tensor(declared, last) is Ok);
        }
        if 0 <= at < members.len() && member_tensor(declared, members[at]) is Err && (forall|i: int|
            0 <= i < at ==> member_tensor(declared, #[trigger] members[i]) is Ok) {
            assert forall|i: int| 0 <= i < at && i < shorter.len() implies member_tensor(
                declared,
                #[trigger] shorter[i],
            ) is Ok by {
                assert(member_tensor(declared, members[i]) is Ok);
            }
            if at < shorter.len() {
                assert(shorter[at] == members[at]);
            }
        }
    }
}

/// A batch of one image holds the values of the image, under the name of its field, with one more
/// dimension of size one in front.
pub proof fn batches_of_one_keep_the_values(
    declared: ResolvedMultimodalSpec,
    member: JsonMember,
    entry: NamedTensor,
    field: MmFieldElem,
)
    requires
        is_batch_of_one(declared, member, entry),
        is_field_of(declared, member, field),
    ensures
        entry.name@ == member.name@,
        field.name@ == member.name@,
        entry.tensor.data@ == field.data.data@,
        entry.tensor.shape@.len() == field.data.shape@.len() + 1,
        entry.tensor.shape@[0] == 1,
        entry.tensor.shape@.skip(1) == field.data.shape@,
        tensor_of(member.value) == Ok::<(Seq<usize>, Seq<i64>), Seq<char>>(
            (field.data.shape@, field.data.data@),
        ),
        field.keep_on_cpu <==> exists|k: int|
            0 <= k < declared.keep_on_cpu_keys@.len() && (#[trigger] declared.keep_on_cpu_keys@[k])@
                == member.name@,
{
    assert(entry.tensor.shape@.skip(1) =~= field.data.shape@);
}

/// A part is of the kind that it is given as, and has the identifier that the request gives it.
/// Text is no media.
pub proof fn parts_are_of_their_kind(part: MediaContentPart)
    ensures
        identity_of(part) is None <==> part is Text,
        part is ImageUrl || part is ImageData || part is ImageEmbeds <==> identity_of(part) is Some
            && identity_of(part)->Some_0.0 is Image,
        part is VideoUrl || part is VideoData <==> identity_of(part) is Some && identity_of(
            part,
        )->Some_0.0 is Video,
        part is AudioUrl || part is AudioData <==> identity_of(part) is Some && identity_of(
            part,
        )->Some_0.0 is Audio,
        part matches MediaContentPart::ImageUrl { url: _, detail: _, uuid: Some(id) }
            ==> identity_of(part)->Some_0.1 == Some(id@),
        part matches MediaContentPart::ImageEmbeds { uuid: Some(id) } ==> identity_of(
            part,
        )->Some_0.1 == Some(id@),
        part matches MediaContentPart::ImageUrl { url: _, detail: _, uuid: None } ==> identity_of(
            part,
        )->Some_0.1 is None,
{
}

/// Described images can be relied on if and only if there are some, each has an identifier, tokens
/// and metadata, and no two share an identifier.
pub proof fn described_images_are_told_apart(items: Seq<EncoderCacheItem>, i: int, j: int)
    requires
        is_usable(items),
        0 <= i < items.len(),
        0 <= j < items.len(),
    ensures
        items[i].identifier@.len() > 0,
        items[i].num_encoder_tokens > 0,
        items[i].metadata@.len() > 0,
        i != j ==> items[i].identifier@ != items[j].identifier@,
{
    if i < j {
        assert(items[i].identifier@ != items[j].identifier@);
    } else if j < i {
        assert(items[j].identifier@ != items[i].identifier@);
    }
}

/// One image with an identifier, tokens and metadata can be relied on; without one of the three it
/// cannot, and no images cannot either.
pub proof fn incomplete_images_are_not_relied_on(item: EncoderCacheItem)
    ensures
        is_usable(seq![item]) <==> item.identifier@.len() > 0 && item.num_encoder_tokens > 0
            && item.metadata@.len() > 0,
        !is_usable(Seq::empty()),
{
    assert(seq![item][0] == item);
}

/// A part names an image if and only if it is an image with that identifier; and the prepared image
/// goes to the engine under that identifier, with one field for each of its metadata.
pub proof fn images_keep_their_identifier(
    info: MultimodalModelInfo,
    part: MediaContentPart,
    item: EncoderCacheItem,
    prepared: PreparedItem,
)
    requires
        is_named_by(part, item),
        is_prepared(info, item, prepared),
    ensures
        part is ImageUrl || part is ImageData || part is ImageEmbeds,
        identity_of(part)->Some_0.1 == Some(item.identifier@),
        prepared.hash@ == item.identifier@,
        prepared.uuid is None,
        prepared.data@.len() == item.metadata@.len(),
        info.image is Some,
        forall|i: int|
            0 <= i < prepared.data@.len() ==> (#[trigger] prepared.data@[i]).name@
                == item.metadata@[i].name@,
{
    assert forall|i: int| 0 <= i < prepared.data@.len() implies (
    #[trigger] prepared.data@[i]).name@ == item.metadata@[i].name@ by {
        assert(is_field_of(info.image->Some_0.declared, item.metadata@[i], prepared.data@[i]));
    }
}

/// A part can be restored if and only if some described image has its identifier and can be
/// prepared; it is ready if and only if, beside, exactly one thing replaces it in the prompt.
pub proof fn images_are_restored_from_their_description<R>(
    info: MultimodalModelInfo,
    part: MediaContentPart,
    items: Seq<EncoderCacheItem>,
    place: usize,
    replacements: Result<Vec<R>, Error>,
)
    ensures
        is_image_of(info, part, items, place) ==> is_restorable(info, part, items),
        is_image_of(info, part, items, place) ==> place < items.len() && is_describable(
            info,
            items[place as int],
        ) && identity_of(part) == Some((Modality::Image, Some(items[place as int].identifier@))),
        part is Text || part is VideoUrl || part is VideoData || part is AudioUrl || part
            is AudioData ==> !is_restorable(info, part, items),
        info.image is None ==> !is_restorable(info, part, items),
        place < items.len() ==> (is_reconstructed(info, items[place as int], replacements)
            <==> is_describable(info, items[place as int]) && replacements is Ok
            && replacements->Ok_0@.len() == 1),
{
    if is_image_of(info, part, items, place) {
        let item = items[place as int];
        assert(is_named_by(part, items[place as int]));
    }
}

} // verus!
