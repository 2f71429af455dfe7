use vllm_server::binary64::Binary64;
use vllm_server::json::JsonMember;
use vllm_server::json::JsonNumber;
use vllm_server::json::JsonValue;
use vllm_server::json::ProtoField;
use vllm_server::json::ProtoStruct;
use vllm_server::json::ProtoValue;
use vllm_server::struct_json::json_to_prost_struct;
use vllm_server::struct_json::prost_handoff_struct_to_json;
use vllm_server::struct_json::prost_struct_to_json;

fn from_serde(value: &serde_json::Value) -> JsonValue {
    match value {
        serde_json::Value::Null => JsonValue::Null,
        serde_json::Value::Bool(b) => JsonValue::Bool(*b),
        serde_json::Value::Number(n) => JsonValue::Number(if let Some(n) = n.as_u64() {
            JsonNumber::Unsigned(n)
        } else if let Some(n) = n.as_i64() {
            JsonNumber::Negative(n)
        } else {
            JsonNumber::Float(Binary64 { bits: n.as_f64().unwrap().to_bits() })
        }),
        serde_json::Value::String(s) => JsonValue::Text(s.clone()),
        serde_json::Value::Array(values) => {
            JsonValue::Array(values.iter().map(from_serde).collect())
        }
        serde_json::Value::Object(fields) => JsonValue::Object(
            fields
                .iter()
                .map(|(name, value)| JsonMember { name: name.clone(), value: from_serde(value) })
                .collect(),
        ),
    }
}

fn to_serde(value: &JsonValue) -> serde_json::Value {
    match value {
        JsonValue::Null => serde_json::Value::Null,
        JsonValue::Bool(b) => serde_json::Value::Bool(*b),
        JsonValue::Number(JsonNumber::Unsigned(n)) => serde_json::Value::from(*n),
        JsonValue::Number(JsonNumber::Negative(n)) => serde_json::Value::from(*n),
        JsonValue::Number(JsonNumber::Float(n)) => serde_json::Value::from(f64::from_bits(n.bits)),
        JsonValue::Text(s) => serde_json::Value::from(s.as_str()),
        JsonValue::Array(values) => serde_json::Value::Array(values.iter().map(to_serde).collect()),
        JsonValue::Object(members) => members_to_serde(members),
    }
}

fn members_to_serde(members: &[JsonMember]) -> serde_json::Value {
    serde_json::Value::Object(
        members.iter().map(|member| (member.name.clone(), to_serde(&member.value))).collect(),
    )
}

fn json(text: &str) -> serde_json::Value {
    serde_json::from_str(text).unwrap()
}

#[test]
fn large_json_integers_are_decimal_strings() {
    let input = json(r#"{"small": 42, "large": 9007199254740993}"#);
    let encoded = json_to_prost_struct(&from_serde(&input)).unwrap();
    let decoded = prost_struct_to_json(&encoded);
    assert_eq!(
        members_to_serde(&decoded),
        json(r#"{"small": 42.0, "large": "9007199254740993"}"#)
    );
}

#[test]
fn handoff_json_restores_exact_integral_numbers() {
    let input = json(
        r#"{
            "remote_block_ids": [[1, 2]],
            "remote_port": 14579,
            "remote_blocks_expiry_time": 12.5,
            "large": 9007199254740993
        }"#,
    );
    let encoded = json_to_prost_struct(&from_serde(&input)).unwrap();
    assert_eq!(
        members_to_serde(&prost_handoff_struct_to_json(&encoded)),
        json(
            r#"{
                "remote_block_ids": [[1, 2]],
                "remote_port": 14579,
                "remote_blocks_expiry_time": 12.5,
                "large": "9007199254740993"
            }"#
        )
    );
}

#[test]
fn handoff_restores_members_up_to_the_exact_limit() {
    let input = json(
        r#"{
            "limit": 9007199254740992,
            "negative": -9007199254740992,
            "below": -9007199254740993,
            "zero": 0,
            "text": "7",
            "flag": true,
            "nothing": null,
            "nested": {"deep": [{"x": 1}, []]}
        }"#,
    );
    let encoded = json_to_prost_struct(&from_serde(&input)).unwrap();
    let mut expected = input.clone();
    expected["below"] = serde_json::Value::from("-9007199254740993");
    assert_eq!(members_to_serde(&prost_handoff_struct_to_json(&encoded)), expected);
}

#[test]
fn only_an_object_is_a_struct() {
    assert!(json_to_prost_struct(&from_serde(&json("[1]"))).is_none());
    assert!(json_to_prost_struct(&JsonValue::Null).is_none());
}

#[test]
fn unset_and_non_finite_values_are_null() {
    let value = ProtoStruct {
        fields: vec![
            ProtoField { name: "unset".to_string(), value: ProtoValue::Unset },
            ProtoField {
                name: "nan".to_string(),
                value: ProtoValue::Number(Binary64 { bits: f64::NAN.to_bits() }),
            },
            ProtoField {
                name: "infinite".to_string(),
                value: ProtoValue::Number(Binary64 { bits: f64::INFINITY.to_bits() }),
            },
        ],
    };
    let expected = json(r#"{"unset": null, "nan": null, "infinite": null}"#);
    assert_eq!(members_to_serde(&prost_struct_to_json(&value)), expected);
    assert_eq!(members_to_serde(&prost_handoff_struct_to_json(&value)), expected);
}
