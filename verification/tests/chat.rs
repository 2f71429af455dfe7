use vllm_server::binary64::Binary64;
use vllm_server::chat::encoder_cache::integer_tensor;
use vllm_server::chat::encoder_cache::synthetic_preprocessed;
use vllm_server::chat::encoder_cache::DeclaredField;
use vllm_server::chat::encoder_cache::EncoderCacheItem;
use vllm_server::chat::encoder_cache::FieldLayout;
use vllm_server::chat::encoder_cache::ImageSupport;
use vllm_server::chat::encoder_cache::Modality;
use vllm_server::chat::encoder_cache::MultimodalModelInfo;
use vllm_server::chat::encoder_cache::ResolvedMultimodalSpec;
use vllm_server::chat::error::available_parser_hint;
use vllm_server::chat::error::Error;
use vllm_server::chat::error::HttpFailure;
use vllm_server::chat::error::MediaConnectorError;
use vllm_server::chat::error::MultiModalError;
use vllm_server::events::MediaContentPart;
use vllm_server::grpc::TextFailure;
use vllm_server::json::JsonMember;
use vllm_server::json::JsonNumber;
use vllm_server::json::JsonValue;
use vllm_server::lora::RegisteredLora;
use vllm_server::routes::lora::finish_unload_lora_adapter;
use vllm_server::routes::lora::load_lora_adapter;
use vllm_server::routes::lora::unload_lora_adapter;
use vllm_server::routes::lora::ApiError;
use vllm_server::routes::lora::LoadFailure;
use vllm_server::routes::lora::LoadLoraAdapterRequest;
use vllm_server::routes::lora::LoraPathAccessError;
use vllm_server::routes::lora::UnloadFailure;
use vllm_server::routes::lora::UnloadLoraAdapterRequest;

fn connector(error: MediaConnectorError) -> Error {
    Error::MediaConnector { error, text: "secret".to_string() }
}

fn tracker(error: MultiModalError) -> Error {
    Error::MediaTracker { error, text: "secret".to_string() }
}

fn text(text: &str) -> String {
    text.to_string()
}

fn http(status: Option<&str>, timeout: bool, connect: bool) -> Error {
    connector(MediaConnectorError::Http(HttpFailure {
        status: status.map(str::to_string),
        timeout,
        connect,
    }))
}

fn number(n: u64) -> JsonValue {
    JsonValue::Number(JsonNumber::Unsigned(n))
}

fn row(values: &[u64]) -> JsonValue {
    JsonValue::Array(values.iter().map(|n| number(*n)).collect())
}

fn member(name: &str, value: JsonValue) -> JsonMember {
    JsonMember { name: name.to_string(), value }
}

fn message(error: Error) -> String {
    error.message()
}

#[test]
fn media_errors_are_blamed() {
    for error in [
        connector(MediaConnectorError::UnsupportedScheme(text("ftp"))),
        connector(MediaConnectorError::InvalidUrl(text("u"))),
        connector(MediaConnectorError::DisallowedDomain(text("d"))),
        connector(MediaConnectorError::DisallowedLocalPath(text("p"))),
        connector(MediaConnectorError::Base64Decode(text("b"))),
        connector(MediaConnectorError::DataUrl(text("x"))),
        connector(MediaConnectorError::PayloadTooLarge { media: text("image"), limit: 10 }),
        connector(MediaConnectorError::Image(text("i"))),
        connector(MediaConnectorError::AudioDecode(text("a"))),
        tracker(MultiModalError::Media(MediaConnectorError::VideoDecode(text("v")))),
        tracker(MultiModalError::UnsupportedContent(text("c"))),
        tracker(MultiModalError::Validation(text("v"))),
        Error::PromptTooLong { max_model_len: 1, prompt_len: 2 },
        Error::UnsupportedMultimodalRenderer,
        Error::UnsupportedMultimodalContent("pdf"),
        Error::UnsupportedModality { modality: text("audio") },
        Error::Text {
            error: TextFailure { report: text("r"), invalid_request: true },
            text: text("t"),
        },
    ] {
        assert!(error.is_request_validation_error(), "{error:?}");
        assert!(!error.is_unavailable_error(), "{error:?}");
    }
    for error in [
        http(None, false, false),
        connector(MediaConnectorError::Io(text("NotFound"))),
        tracker(MultiModalError::Media(MediaConnectorError::Timeout(text("5s")))),
    ] {
        assert!(error.is_unavailable_error(), "{error:?}");
        assert!(!error.is_request_validation_error(), "{error:?}");
    }
    for error in [
        connector(MediaConnectorError::Blocking(text("j"))),
        tracker(MultiModalError::Join(text("j"))),
        Error::EmptyMessages,
        Error::Text {
            error: TextFailure { report: text("r"), invalid_request: false },
            text: text("t"),
        },
    ] {
        assert!(!error.is_unavailable_error(), "{error:?}");
        assert!(!error.is_request_validation_error(), "{error:?}");
    }
}

#[test]
fn diagnostics_hide_urls_and_contents() {
    let diagnostic = |error: Error| error.media_diagnostic("report");
    assert_eq!(
        diagnostic(connector(MediaConnectorError::InvalidUrl(text("http://user:pw@h")))),
        "invalid media URL"
    );
    assert_eq!(
        diagnostic(connector(MediaConnectorError::InvalidUrl(text("other")))),
        "invalid media URL"
    );
    assert_eq!(
        diagnostic(tracker(MultiModalError::Media(MediaConnectorError::DisallowedDomain(
            text("internal")
        )))),
        "media domain is not allowed"
    );
    assert_eq!(
        diagnostic(connector(MediaConnectorError::DisallowedLocalPath(text("/etc")))),
        "local media path is not allowed"
    );
    assert_eq!(
        diagnostic(connector(MediaConnectorError::DataUrl(text("data:")))),
        "data URI parsing failed"
    );
    assert_eq!(
        diagnostic(http(Some("404 Not Found"), true, true)),
        "HTTP media fetch failed with status 404 Not Found"
    );
    assert_eq!(diagnostic(http(None, true, true)), "HTTP media fetch timed out");
    assert_eq!(diagnostic(http(None, false, true)), "HTTP media connection failed");
    assert_eq!(diagnostic(http(None, false, false)), "HTTP media fetch failed");
    assert_eq!(
        diagnostic(connector(MediaConnectorError::PayloadTooLarge {
            media: text("image"),
            limit: 1024
        })),
        "image payload exceeds the configured limit of 1024 bytes"
    );
    assert_eq!(
        diagnostic(connector(MediaConnectorError::Timeout(text("5s")))),
        "media fetch timed out after 5s"
    );
    assert_eq!(
        diagnostic(tracker(MultiModalError::Validation(text("secret")))),
        "multimodal validation failed"
    );
    assert_eq!(
        diagnostic(tracker(MultiModalError::Join(text("cancelled")))),
        "multimodal task failed: cancelled"
    );
    assert_eq!(diagnostic(Error::EmptyMessages), "report");
}

#[test]
fn errors_say_what_they_are() {
    assert_eq!(message(Error::EmptyMessages), "chat request must contain at least one message");
    assert_eq!(
        message(Error::PromptTooLong { max_model_len: 10, prompt_len: 12 }),
        "this model's maximum context length is 10 tokens, \
         but the prompt contains 12 input tokens"
    );
    assert_eq!(
        message(Error::ParserUnavailableByName {
            kind: "tool",
            name: text("x"),
            available_names: vec![text("a"), text("b")],
        }),
        "tool parser `x` is not registered (choose from: a, b)"
    );
    assert_eq!(
        message(Error::ParserUnavailableByName {
            kind: "tool",
            name: text("x"),
            available_names: Vec::new(),
        }),
        "tool parser `x` is not registered"
    );
    assert_eq!(available_parser_hint(&vec![text("a")]), " (choose from: a)");
    assert_eq!(
        message(Error::multimodal(text("bad"))),
        "multimodal preprocessing error: bad"
    );
    assert_eq!(
        message(Error::UnsupportedModality { modality: text("audio") }),
        "`audio` input is not supported by this model"
    );
}

#[test]
fn nested_arrays_are_tensors() {
    let tensor =
        integer_tensor(&JsonValue::Array(vec![row(&[1, 2, 3]), row(&[4, 5, 6])])).unwrap();
    assert_eq!(tensor.shape, [2, 3]);
    assert_eq!(tensor.data, [1, 2, 3, 4, 5, 6]);
    let scalar = integer_tensor(&JsonValue::Number(JsonNumber::Negative(-4))).unwrap();
    assert!(scalar.shape.is_empty());
    assert_eq!(scalar.data, [-4]);
    let deep = integer_tensor(&JsonValue::Array(vec![JsonValue::Array(vec![row(&[7])])])).unwrap();
    assert_eq!(deep.shape, [1, 1, 1]);
    assert_eq!(deep.data.len(), deep.shape.iter().product::<usize>());
}

#[test]
fn values_that_are_no_tensor_are_refused() {
    let fault = |value: JsonValue| message(integer_tensor(&value).err().unwrap());
    let int64 = "multimodal preprocessing error: cached image metadata must contain int64 values";
    assert_eq!(fault(number(i64::MAX as u64 + 1)), int64);
    assert!(integer_tensor(&number(i64::MAX as u64)).is_ok());
    assert_eq!(
        fault(JsonValue::Number(JsonNumber::Float(Binary64 { bits: 1.0f64.to_bits() }))),
        int64
    );
    assert_eq!(
        fault(JsonValue::Array(vec![row(&[1]), row(&[1, 2])])),
        "multimodal preprocessing error: cached image metadata tensor must be rectangular"
    );
    let empty =
        "multimodal preprocessing error: cached image metadata must be a non-empty int64 tensor";
    assert_eq!(fault(JsonValue::Array(Vec::new())), empty);
    assert_eq!(fault(JsonValue::Null), empty);
    assert_eq!(fault(JsonValue::Array(vec![row(&[1]), JsonValue::Null])), empty);
}

fn declared() -> ResolvedMultimodalSpec {
    ResolvedMultimodalSpec {
        fields: vec![
            DeclaredField { name: text("grid"), layout: FieldLayout::Batched },
            DeclaredField { name: text("pixels"), layout: FieldLayout::Flat },
        ],
        keep_on_cpu_keys: vec![text("grid")],
    }
}

fn item(identifier: &str, metadata: Vec<JsonMember>) -> EncoderCacheItem {
    EncoderCacheItem::new(text(identifier), 5, metadata)
}

fn image(uuid: Option<&str>) -> MediaContentPart {
    MediaContentPart::ImageUrl { url: text("u"), detail: None, uuid: uuid.map(str::to_string) }
}

fn images_of_declared() -> MultimodalModelInfo {
    MultimodalModelInfo {
        image: Some(ImageSupport { declared: declared(), placeholder: text("<image>") }),
    }
}

#[test]
fn metadata_is_kept_by_name() {
    let item = item(
        "a",
        vec![member("b", number(1)), member("a", number(2)), member("b", number(3))],
    );
    let names: Vec<&str> = item.metadata.iter().map(|member| member.name.as_str()).collect();
    assert_eq!(names, ["a", "b"]);
    assert!(matches!(
        item.metadata[1].value,
        JsonValue::Number(JsonNumber::Unsigned(3))
    ));
}

#[test]
fn cached_images_stand_in_for_media() {
    let info = images_of_declared();
    let items = vec![
        item("a", vec![member("grid", row(&[1, 2]))]),
        item("b", vec![member("grid", row(&[3, 4]))]),
    ];
    let parts = vec![image(Some("b")), image(Some("a")), image(Some("b"))];
    let images = info.prepare_from_encoder_cache(&parts, &items).unwrap().unwrap();
    assert_eq!(images, [1, 0, 1]);
    let inputs = info.preprocess_cached_image(&items[1]).unwrap();
    assert_eq!(inputs.feature_token_counts, [5]);
    assert_eq!(inputs.model_specific[0].tensor.shape, [1, 2]);
    assert_eq!(inputs.model_specific[0].tensor.data, [3, 4]);
    let (replacement, prepared) = info.finish_cached_image(&items[1], Ok(vec!["r"])).unwrap();
    assert_eq!(replacement, "r");
    assert_eq!(prepared.hash, "b");
    assert!(prepared.data[0].keep_on_cpu);
    assert_eq!(prepared.data[0].data.shape, [2]);
    let media = info.prepare_cached_images(vec![replacement], vec![prepared]).unwrap();
    assert_eq!(media.modality, Modality::Image);
    assert_eq!(media.placeholder, "<image>");
    let error =
        info.finish_cached_image::<&str>(&items[1], Ok(Vec::new())).err().unwrap();
    assert_eq!(
        message(error),
        "multimodal preprocessing error: \
         expected exactly one prompt replacement for cached image item `b`, got 0"
    );
}

#[test]
fn media_without_a_match_are_fetched() {
    let info = images_of_declared();
    let good = || vec![item("a", vec![member("grid", number(1))])];
    assert!(info.prepare_from_encoder_cache(&vec![image(Some("a"))], &good()).unwrap().is_some());
    for parts in [
        vec![image(None)],
        vec![image(Some("x"))],
        vec![MediaContentPart::Text { text: text("t") }],
        vec![MediaContentPart::AudioUrl { url: text("u"), uuid: Some(text("a")) }],
        vec![MediaContentPart::VideoUrl { url: text("u"), uuid: Some(text("a")) }],
    ] {
        assert!(info.prepare_from_encoder_cache(&parts, &good()).unwrap().is_none());
    }
    let parts = vec![image(Some("a"))];
    for items in [
        Vec::new(),
        vec![item("", vec![member("grid", number(1))])],
        vec![EncoderCacheItem::new(text("a"), 0, vec![member("grid", number(1))])],
        vec![item("a", Vec::new())],
        vec![
            item("a", vec![member("grid", number(1))]),
            item("a", vec![member("grid", number(2))]),
        ],
    ] {
        assert!(info.prepare_from_encoder_cache(&parts, &items).unwrap().is_none());
    }
    assert_eq!(info.prepare_from_encoder_cache(&Vec::new(), &good()).unwrap(), Some(Vec::new()));
    let info = MultimodalModelInfo { image: None };
    assert_eq!(
        message(info.prepare_from_encoder_cache(&Vec::new(), &good()).err().unwrap()),
        "`image` input is not supported by this model"
    );
    assert!(info.prepare_from_encoder_cache(&parts, &good()).unwrap().is_none());
    assert_eq!(
        message(info.preprocess_cached_image(&good()[0]).err().unwrap()),
        "`image` input is not supported by this model"
    );
}

#[test]
fn media_that_cannot_be_restored_are_fetched() {
    let info = images_of_declared();
    let items = vec![
        item("a", vec![member("grid", row(&[1, 2]))]),
        item("b", vec![member("other", number(1))]),
        item("c", vec![member("pixels", number(1))]),
        item("d", vec![member("grid", JsonValue::Text(text("x")))]),
    ];
    assert_eq!(
        info.prepare_from_encoder_cache(&vec![image(Some("a")), image(Some("a"))], &items).unwrap(),
        Some(vec![0, 0])
    );
    for broken in ["b", "c", "d"] {
        let parts = vec![image(Some("a")), image(Some(broken))];
        assert!(info.prepare_from_encoder_cache(&parts, &items).unwrap().is_none());
    }
}

#[test]
fn prepared_images_come_all_or_not_at_all() {
    let info = images_of_declared();
    let items = vec![
        item("a", vec![member("grid", row(&[1, 2]))]),
        item("b", vec![member("grid", row(&[3, 4]))]),
    ];
    let images = vec![1, 0];
    let media = info
        .finish_from_encoder_cache(&items, &images, vec![Ok(vec!["r"]), Ok(vec!["s"])])
        .unwrap();
    assert_eq!(media.modality, Modality::Image);
    assert_eq!(media.placeholder, "<image>");
    assert_eq!(media.replacements, ["r", "s"]);
    assert_eq!((media.items[0].hash.as_str(), media.items[1].hash.as_str()), ("b", "a"));
    for broken in [Ok(Vec::new()), Ok(vec!["s", "t"]), Err(Error::multimodal(text("no")))] {
        let replacements = vec![Ok(vec!["r"]), broken];
        assert!(info.finish_from_encoder_cache(&items, &images, replacements).is_none());
    }
}

#[test]
fn undeclared_and_flat_fields_are_refused() {
    let fault = |name: &str| {
        let item = item("a", vec![member(name, number(1))]);
        message(synthetic_preprocessed(&declared(), &item).err().unwrap())
    };
    assert_eq!(
        fault("other"),
        "multimodal preprocessing error: \
         cached metadata field `other` is not declared by the model"
    );
    assert_eq!(
        fault("pixels"),
        "multimodal preprocessing error: cached image metadata field `pixels` is not batched"
    );
}

#[test]
fn load_route_answers() {
    let request = LoadLoraAdapterRequest {
        lora_name: text("a"),
        lora_path: text("/a"),
        load_inplace: false,
        is_3d_lora_weight: false,
    };
    assert_eq!(
        load_lora_adapter(&request, Ok(())).unwrap(),
        "Success: LoRA adapter 'a' added successfully."
    );
    let refuse = |failure| load_lora_adapter(&request, Err(failure)).unwrap_err();
    assert!(matches!(
        refuse(LoadFailure::InvalidRequest(text("bad"))),
        ApiError::InvalidRequest { message, param: None } if message == "bad"
    ));
    assert!(matches!(
        refuse(LoadFailure::PathAccess(LoraPathAccessError::InvalidRequest(text("bad")))),
        ApiError::InvalidRequest { message, param: Some("lora_path") } if message == "bad"
    ));
    assert!(matches!(
        refuse(LoadFailure::PathAccess(LoraPathAccessError::InvalidConfiguration(text("bad")))),
        ApiError::ServerError { message } if message == "bad"
    ));
    assert!(matches!(
        refuse(LoadFailure::AlreadyLoaded { lora_name: text("a") }),
        ApiError::InvalidRequest { message, param: Some("lora_name") }
            if message == "The lora adapter 'a' has already been loaded. \
                           If you want to load the adapter in place, set 'load_inplace' to true."
    ));
    assert!(matches!(
        refuse(LoadFailure::BaseModelName { lora_name: text("a") }),
        ApiError::InvalidRequest { message, param: Some("lora_name") }
            if message == "The lora adapter name 'a' conflicts with a served base model."
    ));
    assert!(matches!(
        refuse(LoadFailure::Engine(text("gone"))),
        ApiError::ServerError { message } if message == "failed to load LoRA adapter 'a': gone"
    ));
    assert!(matches!(
        refuse(LoadFailure::NotLoaded { lora_name: text("b") }),
        ApiError::ServerError { message }
            if message == "failed to load LoRA adapter 'b': engine rejected the adapter"
    ));
}

#[test]
fn unload_route_answers() {
    let request = UnloadLoraAdapterRequest { lora_name: text("a"), lora_int_id: Some(9) };
    assert!(unload_lora_adapter(&request).is_ok());
    let unnamed = UnloadLoraAdapterRequest { lora_name: String::new(), lora_int_id: None };
    assert!(matches!(
        unload_lora_adapter(&unnamed),
        Err(ApiError::InvalidRequest { message, param: Some("lora_name") })
            if message == "'lora_name' needs to be provided to unload a LoRA adapter."
    ));
    let removed = RegisteredLora::new(text("a"), 3, text("/a"), false, false);
    assert_eq!(
        finish_unload_lora_adapter(&request, Ok(removed)).unwrap(),
        "Success: LoRA adapter 'a' removed successfully."
    );
    let refuse = |failure| finish_unload_lora_adapter(&request, Err(failure)).unwrap_err();
    assert!(matches!(
        refuse(UnloadFailure::NotFound { lora_name: text("a") }),
        ApiError::ModelNotFound { model } if model == "a"
    ));
    assert!(matches!(
        refuse(UnloadFailure::IntIdMismatch { lora_name: text("a"), expected: 3, actual: 9 }),
        ApiError::InvalidRequest { message, param: Some("lora_int_id") }
            if message == "The requested lora_int_id 9 does not match loaded adapter 'a' with id 3."
    ));
    assert!(matches!(
        refuse(UnloadFailure::Engine(text("gone"))),
        ApiError::ServerError { message } if message == "failed to unload LoRA adapter 'a': gone"
    ));
    assert!(matches!(
        refuse(UnloadFailure::NotRemoved { lora_name: text("a"), lora_int_id: 3 }),
        ApiError::ServerError { message }
            if message == "failed to unload LoRA adapter 'a' with id 3"
    ));
}
