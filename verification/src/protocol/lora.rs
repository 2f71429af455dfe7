//! The LoRA adapter descriptor of the engine protocol.

use vstd::prelude::*;

use crate::paths::same_bytes;
use crate::text::same;

verus! {

/// A value that is passed on in its encoded form.
#[derive(Clone, Debug)]
pub struct OpaqueValue {
    pub encoded: Vec<u8>,
}

/// A LoRA adapter as it is described to the engines.
#[derive(Clone, Debug)]
pub struct LoraRequest {
    pub lora_name: String,
    pub lora_int_id: i64,
    pub lora_path: String,
    pub base_model_name: Option<String>,
    pub tensorizer_config_dict: Option<OpaqueValue>,
    pub load_inplace: bool,
    pub is_3d_lora_weight: bool,
}

/// Two optional texts hold the same characters.
pub open spec fn same_text(a: Option<String>, b: Option<String>) -> bool {
    match (a, b) {
        (Some(a), Some(b)) => a@ == b@,
        (None, None) => true,
        _ => false,
    }
}

/// Two optional encoded values hold the same bytes.
pub open spec fn same_encoding(a: Option<OpaqueValue>, b: Option<OpaqueValue>) -> bool {
    match (a, b) {
        (Some(a), Some(b)) => a.encoded@ == b.encoded@,
        (None, None) => true,
        _ => false,
    }
}

/// Two descriptors agree in every field.
pub open spec fn same_adapter(a: LoraRequest, b: LoraRequest) -> bool {
    &&& a.lora_name@ == b.lora_name@
    &&& a.lora_int_id == b.lora_int_id
    &&& a.lora_path@ == b.lora_path@
    &&& same_text(a.base_model_name, b.base_model_name)
    &&& same_encoding(a.tensorizer_config_dict, b.tensorizer_config_dict)
    &&& a.load_inplace == b.load_inplace
    &&& a.is_3d_lora_weight == b.is_3d_lora_weight
}

fn texts_equal(a: &Option<String>, b: &Option<String>) -> (equal: bool)
    ensures
        equal == same_text(*a, *b),
{
    match (a, b) {
        (Some(a), Some(b)) => same(a.as_str(), b.as_str()),
        (None, None) => true,
        _ => false,
    }
}

fn encodings_equal(a: &Option<OpaqueValue>, b: &Option<OpaqueValue>) -> (equal: bool)
    ensures
        equal == same_encoding(*a, *b),
{
    match (a, b) {
        (Some(a), Some(b)) => same_bytes(&a.encoded, &b.encoded),
        (None, None) => true,
        _ => false,
    }
}

/// What a descriptor lacks: a name, a positive id, or a path, whichever comes first.
pub open spec fn descriptor_fault(request: LoraRequest) -> Option<Seq<char>> {
    if request.lora_name@.len() == 0 {
        Some("lora_name is required"@)
    } else if request.lora_int_id <= 0 {
        Some("lora_int_id must be positive"@)
    } else if request.lora_path@.len() == 0 {
        Some("lora_path is required"@)
    } else {
        None
    }
}

impl LoraRequest {
    /// Checks that the descriptor has a name, a positive id and a path.
    pub fn validate(&self) -> (outcome: Result<(), &'static str>)
        ensures
            match outcome {
                Ok(()) => descriptor_fault(*self) is None,
                Err(fault) => descriptor_fault(*self) == Some(fault@),
            },
    {
        if self.lora_name.as_str().is_empty() {
            return Err("lora_name is required");
        }
        if self.lora_int_id <= 0 {
            return Err("lora_int_id must be positive");
        }
        if self.lora_path.as_str().is_empty() {
            return Err("lora_path is required");
        }
        Ok(())
    }

    /// Whether two descriptors agree in every field.
    pub fn equals(&self, other: &LoraRequest) -> (equal: bool)
        ensures
            equal == same_adapter(*self, *other),
    {
        same(self.lora_name.as_str(), other.lora_name.as_str()) && self.lora_int_id
            == other.lora_int_id && same(self.lora_path.as_str(), other.lora_path.as_str())
            && texts_equal(&self.base_model_name, &other.base_model_name) && encodings_equal(
            &self.tensorizer_config_dict,
            &other.tensorizer_config_dict,
        ) && self.load_inplace == other.load_inplace && self.is_3d_lora_weight
            == other.is_3d_lora_weight
    }
}

/// Two descriptors are the same adapter if and only if they agree in everything that they say.
pub proof fn descriptors_differ_in_something(a: LoraRequest, b: LoraRequest)
    ensures
        same_adapter(a, a),
        same_adapter(a, b) <==> same_adapter(b, a),
        a.lora_name@ != b.lora_name@ ==> !same_adapter(a, b),
        a.lora_int_id != b.lora_int_id ==> !same_adapter(a, b),
        a.lora_path@ != b.lora_path@ ==> !same_adapter(a, b),
        a.base_model_name is Some && b.base_model_name is None ==> !same_adapter(a, b),
        a.base_model_name is Some && b.base_model_name is Some && a.base_model_name->Some_0@
            != b.base_model_name->Some_0@ ==> !same_adapter(a, b),
        a.tensorizer_config_dict is Some && b.tensorizer_config_dict is None ==> !same_adapter(
            a,
            b,
        ),
        a.tensorizer_config_dict is Some && b.tensorizer_config_dict is Some
            && a.tensorizer_config_dict->Some_0.encoded@
            != b.tensorizer_config_dict->Some_0.encoded@ ==> !same_adapter(a, b),
        a.load_inplace != b.load_inplace ==> !same_adapter(a, b),
        a.is_3d_lora_weight != b.is_3d_lora_weight ==> !same_adapter(a, b),
        a == b ==> same_adapter(a, b),
{
}

/// A descriptor is complete if and only if it has a name, a positive id and a path; and what it
/// lacks is told in this order.
pub proof fn descriptors_are_complete_or_told(request: LoraRequest)
    ensures
        descriptor_fault(request) is None <==> request.lora_name@.len() > 0 && request.lora_int_id
            > 0 && request.lora_path@.len() > 0,
        request.lora_name@.len() == 0 ==> descriptor_fault(request) == Some(
            "lora_name is required"@,
        ),
        request.lora_name@.len() > 0 && request.lora_int_id <= 0 ==> descriptor_fault(request)
            == Some("lora_int_id must be positive"@),
        request.lora_name@.len() > 0 && request.lora_int_id > 0 && request.lora_path@.len() == 0
            ==> descriptor_fault(request) == Some("lora_path is required"@),
{
}

} // verus!
