//! Errors of the chat frontend.

use vstd::prelude::*;

use crate::grpc::TextFailure;
use crate::text::decimal;
use crate::text::decimal_text;
use crate::text::join2;
use crate::text::join3;
use crate::text::join4;
use crate::text::join5;

verus! {

/// How fetching media over HTTP failed: the status of the answer, if there was one, or how the
/// connection failed.
#[derive(Debug)]
pub struct HttpFailure {
    pub status: Option<String>,
    pub timeout: bool,
    pub connect: bool,
}

/// Why media could not be had.
#[derive(Debug)]
pub enum MediaConnectorError {
    UnsupportedScheme(String),
    InvalidUrl(String),
    DisallowedDomain(String),
    DisallowedLocalPath(String),
    Http(HttpFailure),
    /// The kind of the I/O failure.
    Io(String),
    Base64Decode(String),
    DataUrl(String),
    PayloadTooLarge { media: String, limit: u64 },
    Blocking(String),
    Image(String),
    AudioDecode(String),
    VideoDecode(String),
    /// How long the fetch was allowed to take.
    Timeout(String),
}

/// Why the media of a request could not be collected.
#[derive(Debug)]
pub enum MultiModalError {
    Media(MediaConnectorError),
    UnsupportedContent(String),
    Join(String),
    Validation(String),
}

/// Why a chat request failed. `text` is what an error of another component says of itself.
#[derive(Debug)]
pub enum Error {
    EmptyMessages,
    ContinueFinalAssistantWithoutFinalAssistant,
    MissingChatTemplate,
    ChatTemplate(String),
    UnsupportedMultimodalRenderer,
    UnsupportedMultimodalContent(&'static str),
    UnsupportedModality { modality: String },
    Multimodal(String),
    MediaConnector { error: MediaConnectorError, text: String },
    MediaTracker { error: MultiModalError, text: String },
    ParserUnavailableForModel { kind: &'static str, model_id: String },
    ParserDisabled { kind: &'static str },
    ParserUnavailableByName { kind: &'static str, name: String, available_names: Vec<String> },
    ParserInitialization { kind: &'static str, name: String, error: String },
    HarmonyParserOverrideUnsupported { kind: &'static str, selection: String },
    HarmonyOutputParsing { error: String },
    PromptTooLong { max_model_len: u32, prompt_len: u32 },
    StreamClosedBeforeTerminalOutput { request_id: String },
    ToolCallStreamInvariant { message: String },
    StructuralTag { message: String },
    Text { error: TextFailure, text: String },
    Tokenizer { text: String },
}

pub type Result<T> = std::result::Result<T, Error>;

/// Who is at fault where media could not be had.
#[derive(Clone, Copy, Debug, PartialEq, Eq, Structural)]
pub enum MediaErrorKind {
    InvalidInput,
    Unavailable,
    Internal,
}

/// Who is at fault for an error of the media connector.
pub open spec fn connector_kind(error: MediaConnectorError) -> MediaErrorKind {
    match error {
        MediaConnectorError::Http(_) => MediaErrorKind::Unavailable,
        MediaConnectorError::Io(_) => MediaErrorKind::Unavailable,
        MediaConnectorError::Timeout(_) => MediaErrorKind::Unavailable,
        MediaConnectorError::Blocking(_) => MediaErrorKind::Internal,
        _ => MediaErrorKind::InvalidInput,
    }
}

/// Tells who is at fault for an error of the media connector.
pub fn media_connector_error_kind(error: &MediaConnectorError) -> (kind: MediaErrorKind)
    ensures
        kind == connector_kind(*error),
{
    match error {
        MediaConnectorError::UnsupportedScheme(_) => MediaErrorKind::InvalidInput,
        MediaConnectorError::InvalidUrl(_) => MediaErrorKind::InvalidInput,
        MediaConnectorError::DisallowedDomain(_) => MediaErrorKind::InvalidInput,
        MediaConnectorError::DisallowedLocalPath(_) => MediaErrorKind::InvalidInput,
        MediaConnectorError::Base64Decode(_) => MediaErrorKind::InvalidInput,
        MediaConnectorError::DataUrl(_) => MediaErrorKind::InvalidInput,
        MediaConnectorError::PayloadTooLarge { .. } => MediaErrorKind::InvalidInput,
        MediaConnectorError::Image(_) => MediaErrorKind::InvalidInput,
        MediaConnectorError::AudioDecode(_) => MediaErrorKind::InvalidInput,
        MediaConnectorError::VideoDecode(_) => MediaErrorKind::InvalidInput,
        MediaConnectorError::Http(_) => MediaErrorKind::Unavailable,
        MediaConnectorError::Io(_) => MediaErrorKind::Unavailable,
        MediaConnectorError::Timeout(_) => MediaErrorKind::Unavailable,
        MediaConnectorError::Blocking(_) => MediaErrorKind::Internal,
    }
}

/// What a log may say of an error of the media connector.
pub open spec fn connector_diagnostic(error: MediaConnectorError) -> Seq<char> {
    match error {
        MediaConnectorError::UnsupportedScheme(scheme) => "unsupported media scheme: "@ + scheme@,
        MediaConnectorError::InvalidUrl(_) => "invalid media URL"@,
        MediaConnectorError::DisallowedDomain(_) => "media domain is not allowed"@,
        MediaConnectorError::DisallowedLocalPath(_) => "local media path is not allowed"@,
        MediaConnectorError::Http(failure) => match failure.status {
            Some(status) => "HTTP media fetch failed with status "@ + status@,
            None => if failure.timeout {
                "HTTP media fetch timed out"@
            } else if failure.connect {
                "HTTP media connection failed"@
            } else {
                "HTTP media fetch failed"@
            },
        },
        MediaConnectorError::Io(kind) => "media I/O failed with kind "@ + kind@,
        MediaConnectorError::Base64Decode(error) => "base64 media decoding failed: "@ + error@,
        MediaConnectorError::DataUrl(_) => "data URI parsing failed"@,
        MediaConnectorError::PayloadTooLarge { media, limit } => media@
            + " payload exceeds the configured limit of "@ + decimal(limit as nat) + " bytes"@,
        MediaConnectorError::Blocking(error) => "media blocking task failed: "@ + error@,
        MediaConnectorError::Image(error) => "image decoding failed: "@ + error@,
        MediaConnectorError::AudioDecode(_) => "audio decoding failed"@,
        MediaConnectorError::VideoDecode(_) => "video decoding failed"@,
        MediaConnectorError::Timeout(duration) => "media fetch timed out after "@ + duration@,
    }
}

/// Describes an error of the media connector for a log.
pub fn media_connector_diagnostic(error: &MediaConnectorError) -> (diagnostic: String)
    ensures
        diagnostic@ == connector_diagnostic(*error),
{
    match error {
        MediaConnectorError::UnsupportedScheme(scheme) => join2(
            "unsupported media scheme: ",
            scheme.as_str(),
        ),
        MediaConnectorError::InvalidUrl(_) => "invalid media URL".to_string(),
        MediaConnectorError::DisallowedDomain(_) => "media domain is not allowed".to_string(),
        MediaConnectorError::DisallowedLocalPath(_) => {
            "local media path is not allowed".to_string()
        },
        MediaConnectorError::Http(failure) => match &failure.status {
            Some(status) => join2("HTTP media fetch failed with status ", status.as_str()),
            None => {
                if failure.timeout {
                    "HTTP media fetch timed out".to_string()
                } else if failure.connect {
                    "HTTP media connection failed".to_string()
                } else {
                    "HTTP media fetch failed".to_string()
                }
            },
        },
        MediaConnectorError::Io(kind) => join2("media I/O failed with kind ", kind.as_str()),
        MediaConnectorError::Base64Decode(error) => join2(
            "base64 media decoding failed: ",
            error.as_str(),
        ),
        MediaConnectorError::DataUrl(_) => "data URI parsing failed".to_string(),
        MediaConnectorError::PayloadTooLarge { media, limit } => join4(
            media.as_str(),
            " payload exceeds the configured limit of ",
            decimal_text(*limit).as_str(),
            " bytes",
        ),
        MediaConnectorError::Blocking(error) => join2(
            "media blocking task failed: ",
            error.as_str(),
        ),
        MediaConnectorError::Image(error) => join2("image decoding failed: ", error.as_str()),
        MediaConnectorError::AudioDecode(_) => "audio decoding failed".to_string(),
        MediaConnectorError::VideoDecode(_) => "video decoding failed".to_string(),
        MediaConnectorError::Timeout(duration) => join2(
            "media fetch timed out after ",
            duration.as_str(),
        ),
    }
}

/// Names with commas between them.
pub open spec fn listing(names: Seq<String>) -> Seq<char>
    decreases names.len(),
{
    if names.len() == 0 {
        ""@
    } else if names.len() == 1 {
        names[0]@
    } else {
        listing(names.drop_last()) + ", "@ + names.last()@
    }
}

/// What is said of the parsers to choose from.
pub open spec fn parser_hint(names: Seq<String>) -> Seq<char> {
    if names.len() == 0 {
        ""@
    } else {
        " (choose from: "@ + listing(names) + ")"@
    }
}

/// Lists the parsers to choose from, as the end of a message.
pub fn available_parser_hint(available_names: &Vec<String>) -> (hint: String)
    ensures
        hint@ == parser_hint(available_names@),
{
    if available_names.len() == 0 {
        return "".to_string();
    }
    let mut names = available_names[0].clone();
    let mut i: usize = 1;
    assert(available_names@.take(1)[0] == available_names@[0]);
    while i < available_names.len()
        invariant
            1 <= i <= available_names@.len(),
            names@ == listing(available_names@.take(i as int)),
        decreases available_names@.len() - i,
    {
        assert(available_names@.take(i + 1).drop_last() == available_names@.take(i as int));
        names = join3(names.as_str(), ", ", available_names[i].as_str());
        i += 1;
    }
    assert(available_names@.take(i as int) == available_names@);
    join3(" (choose from: ", names.as_str(), ")")
}

/// What an error says of itself.
pub open spec fn message_of(error: Error) -> Seq<char> {
    match error {
        Error::EmptyMessages => "chat request must contain at least one message"@,
        Error::ContinueFinalAssistantWithoutFinalAssistant =>
            "cannot continue the final message when the last message is not from the assistant"@,
        Error::MissingChatTemplate => "chat template is required but none was configured"@,
        Error::ChatTemplate(message) => "chat template error: "@ + message@,
        Error::UnsupportedMultimodalRenderer =>
            "multimodal input is not supported by this chat renderer"@,
        Error::UnsupportedMultimodalContent(content) => "unsupported multimodal content: "@
            + content@,
        Error::UnsupportedModality { modality } => "`"@ + modality@
            + "` input is not supported by this model"@,
        Error::Multimodal(message) => "multimodal preprocessing error: "@ + message@,
        Error::MediaConnector { text, .. } => text@,
        Error::MediaTracker { text, .. } => text@,
        Error::ParserUnavailableForModel { kind, model_id } => kind@
            + " parsing is not available for model `"@ + model_id@ + "`"@,
        Error::ParserDisabled { kind } => kind@ + " parsing is disabled by frontend configuration"@,
        Error::ParserUnavailableByName { kind, name, available_names } => kind@ + " parser `"@
            + name@ + "` is not registered"@ + parser_hint(available_names@),
        Error::ParserInitialization { kind, name, .. } => "failed to initialize "@ + kind@
            + " parser `"@ + name@ + "`"@,
        Error::HarmonyParserOverrideUnsupported { kind, selection } =>
            "gpt_oss uses native Harmony output parsing; generic "@ + kind@
            + " parser override `"@ + selection@ + "` is not supported"@,
        Error::HarmonyOutputParsing { .. } => "harmony output parsing failed"@,
        Error::PromptTooLong { max_model_len, prompt_len } =>
            "this model's maximum context length is "@ + decimal(max_model_len as nat)
            + " tokens, but the prompt contains "@ + decimal(prompt_len as nat) + " input tokens"@,
        Error::StreamClosedBeforeTerminalOutput { request_id } => "chat request stream `"@
            + request_id@ + "` closed before terminal output"@,
        Error::ToolCallStreamInvariant { message } => "tool call stream state is inconsistent: "@
            + message@,
        Error::StructuralTag { message } => "failed to build structural tag: "@ + message@,
        Error::Text { text, .. } => text@,
        Error::Tokenizer { text } => text@,
    }
}

/// Who is at fault for an error of the media, if it is one.
pub open spec fn kind_of(error: Error) -> Option<MediaErrorKind> {
    match error {
        Error::MediaConnector { error, .. } => Some(connector_kind(error)),
        Error::MediaTracker { error: MultiModalError::Media(error), .. } => Some(
            connector_kind(error),
        ),
        Error::MediaTracker { error: MultiModalError::UnsupportedContent(_), .. } => Some(
            MediaErrorKind::InvalidInput,
        ),
        Error::MediaTracker { error: MultiModalError::Validation(_), .. } => Some(
            MediaErrorKind::InvalidInput,
        ),
        Error::MediaTracker { error: MultiModalError::Join(_), .. } => Some(
            MediaErrorKind::Internal,
        ),
        _ => None,
    }
}

/// The request is at fault.
pub open spec fn blames_request(error: Error) -> bool {
    match error {
        Error::PromptTooLong { .. } => true,
        Error::Text { error, .. } => error.invalid_request,
        Error::UnsupportedMultimodalRenderer => true,
        Error::UnsupportedMultimodalContent(_) => true,
        Error::UnsupportedModality { .. } => true,
        _ => kind_of(error) == Some(MediaErrorKind::InvalidInput),
    }
}

/// What a log may say of an error. `report` is the full report of it, which stands for an error
/// that is not one of the media.
pub open spec fn diagnostic_of(error: Error, report: Seq<char>) -> Seq<char> {
    match error {
        Error::MediaConnector { error, .. } => connector_diagnostic(error),
        Error::MediaTracker { error: MultiModalError::Media(error), .. } => connector_diagnostic(
            error,
        ),
        Error::MediaTracker { error: MultiModalError::UnsupportedContent(kind), .. } =>
            "unsupported multimodal content: "@ + kind@,
        Error::MediaTracker { error: MultiModalError::Join(error), .. } =>
            "multimodal task failed: "@ + error@,
        Error::MediaTracker { error: MultiModalError::Validation(_), .. } =>
            "multimodal validation failed"@,
        _ => report,
    }
}

impl Error {
    /// An error of preparing media, with the report of the component that failed.
    pub fn multimodal(report: String) -> (error: Error)
        ensures
            error == Error::Multimodal(report),
    {
        Error::Multimodal(report)
    }

    /// What the error says of itself.
    pub fn message(&self) -> (message: String)
        ensures
            message@ == message_of(*self),
    {
        match self {
            Error::EmptyMessages => "chat request must contain at least one message".to_string(),
            Error::ContinueFinalAssistantWithoutFinalAssistant => {
                "cannot continue the final message when the last message is not from the assistant".to_string()
            },
            Error::MissingChatTemplate => {
                "chat template is required but none was configured".to_string()
            },
            Error::ChatTemplate(message) => join2("chat template error: ", message.as_str()),
            Error::UnsupportedMultimodalRenderer => {
                "multimodal input is not supported by this chat renderer".to_string()
            },
            Error::UnsupportedMultimodalContent(content) => join2(
                "unsupported multimodal content: ",
                content,
            ),
            Error::UnsupportedModality { modality } => join3(
                "`",
                modality.as_str(),
                "` input is not supported by this model",
            ),
            Error::Multimodal(message) => join2(
                "multimodal preprocessing error: ",
                message.as_str(),
            ),
            Error::MediaConnector { text, .. } => text.clone(),
            Error::MediaTracker { text, .. } => text.clone(),
            Error::ParserUnavailableForModel { kind, model_id } => join4(
                kind,
                " parsing is not available for model `",
                model_id.as_str(),
                "`",
            ),
            Error::ParserDisabled { kind } => join2(
                kind,
                " parsing is disabled by frontend configuration",
            ),
            Error::ParserUnavailableByName { kind, name, available_names } => join5(
                kind,
                " parser `",
                name.as_str(),
                "` is not registered",
                available_parser_hint(available_names).as_str(),
            ),
            Error::ParserInitialization { kind, name, .. } => join5(
                "failed to initialize ",
                kind,
                " parser `",
                name.as_str(),
                "`",
            ),
            Error::HarmonyParserOverrideUnsupported { kind, selection } => join5(
                "gpt_oss uses native Harmony output parsing; generic ",
                kind,
                " parser override `",
                selection.as_str(),
                "` is not supported",
            ),
            Error::HarmonyOutputParsing { .. } => "harmony output parsing failed".to_string(),
            Error::PromptTooLong { max_model_len, prompt_len } => join5(
                "this model's maximum context length is ",
                decimal_text(*max_model_len as u64).as_str(),
                " tokens, but the prompt contains ",
                decimal_text(*prompt_len as u64).as_str(),
                " input tokens",
            ),
            Error::StreamClosedBeforeTerminalOutput { request_id } => join3(
                "chat request stream `",
                request_id.as_str(),
                "` closed before terminal output",
            ),
            Error::ToolCallStreamInvariant { message } => join2(
                "tool call stream state is inconsistent: ",
                message.as_str(),
            ),
            Error::StructuralTag { message } => join2(
                "failed to build structural tag: ",
                message.as_str(),
            ),
            Error::Text { text, .. } => text.clone(),
            Error::Tokenizer { text } => text.clone(),
        }
    }

    /// Whether the request is at fault.
    pub fn is_request_validation_error(&self) -> (found: bool)
        ensures
            found == blames_request(*self),
    {
        match self {
            Error::PromptTooLong { .. } => true,
            Error::Text { error, .. } => error.invalid_request,
            Error::UnsupportedMultimodalRenderer => true,
            Error::UnsupportedMultimodalContent(_) => true,
            Error::UnsupportedModality { .. } => true,
            _ => match self.media_error_kind() {
                Some(MediaErrorKind::InvalidInput) => true,
                _ => false,
            },
        }
    }

    /// Whether media could not be had for the moment.
    pub fn is_unavailable_error(&self) -> (found: bool)
        ensures
            found == (kind_of(*self) == Some(MediaErrorKind::Unavailable)),
    {
        match self.media_error_kind() {
            Some(MediaErrorKind::Unavailable) => true,
            _ => false,
        }
    }

    /// Describes the error for a log, without the URLs and the contents of media. `report` is the
    /// full report of the error.
    pub fn media_diagnostic(&self, report: &str) -> (diagnostic: String)
        ensures
            diagnostic@ == diagnostic_of(*self, report@),
    {
        match self {
            Error::MediaConnector { error, .. } => media_connector_diagnostic(error),
            Error::MediaTracker { error, .. } => match error {
                MultiModalError::Media(error) => media_connector_diagnostic(error),
                MultiModalError::UnsupportedContent(kind) => join2(
                    "unsupported multimodal content: ",
                    kind.as_str(),
                ),
                MultiModalError::Join(error) => join2("multimodal task failed: ", error.as_str()),
                MultiModalError::Validation(_) => "multimodal validation failed".to_string(),
            },
            _ => report.to_string(),
        }
    }

    /// Tells who is at fault for an error of the media.
    pub fn media_error_kind(&self) -> (kind: Option<MediaErrorKind>)
        ensures
            kind == kind_of(*self),
    {
        match self {
            Error::MediaConnector { error, .. } => Some(media_connector_error_kind(error)),
            Error::MediaTracker { error, .. } => match error {
                MultiModalError::Media(error) => Some(media_connector_error_kind(error)),
                MultiModalError::UnsupportedContent(_) => Some(MediaErrorKind::InvalidInput),
                MultiModalError::Validation(_) => Some(MediaErrorKind::InvalidInput),
                MultiModalError::Join(_) => Some(MediaErrorKind::Internal),
            },
            _ => None,
        }
    }
}

/// The two errors differ at most in a URL, a path or the contents of media.
pub open spec fn same_but_for_media(a: MediaConnectorError, b: MediaConnectorError) -> bool {
    match (a, b) {
        (MediaConnectorError::InvalidUrl(_), MediaConnectorError::InvalidUrl(_)) => true,
        (MediaConnectorError::DisallowedDomain(_), MediaConnectorError::DisallowedDomain(_)) =>
            true,
        (
            MediaConnectorError::DisallowedLocalPath(_),
            MediaConnectorError::DisallowedLocalPath(_),
        ) => true,
        (MediaConnectorError::DataUrl(_), MediaConnectorError::DataUrl(_)) => true,
        (MediaConnectorError::AudioDecode(_), MediaConnectorError::AudioDecode(_)) => true,
        (MediaConnectorError::VideoDecode(_), MediaConnectorError::VideoDecode(_)) => true,
        _ => a == b,
    }
}

/// What a log says of a media error tells nothing of the URL, the path or the contents of the
/// media: it is the same for every other.
pub proof fn diagnostic_hides_media(
    a: MediaConnectorError,
    b: MediaConnectorError,
    a_text: String,
    b_text: String,
    a_report: Seq<char>,
    b_report: Seq<char>,
)
    requires
        same_but_for_media(a, b),
    ensures
        diagnostic_of(Error::MediaConnector { error: a, text: a_text }, a_report) == diagnostic_of(
            Error::MediaConnector { error: b, text: b_text },
            b_report,
        ),
        diagnostic_of(
            Error::MediaTracker { error: MultiModalError::Media(a), text: a_text },
            a_report,
        ) == diagnostic_of(
            Error::MediaTracker { error: MultiModalError::Media(b), text: b_text },
            b_report,
        ),
{
}

/// An error is never both the fault of the request and a passing failure to get media.
pub proof fn unavailable_media_blames_no_request(error: Error)
    requires
        kind_of(error) == Some(MediaErrorKind::Unavailable),
    ensures
        !blames_request(error),
{
}

/// A text ends with another.
pub open spec fn ends_with(whole: Seq<char>, end: Seq<char>) -> bool {
    &&& whole.len() >= end.len()
    &&& whole.skip(whole.len() - end.len()) == end
}

proof fn lemma_ends_with(front: Seq<char>, end: Seq<char>)
    ensures
        ends_with(front + end, end),
        front.is_prefix_of(front + end),
{
    assert((front + end).skip((front + end).len() - end.len()) =~= end);
    assert((front + end).take(front.len() as int) =~= front);
}

/// Media that could not be fetched are unavailable, a failure of the server's own work is internal,
/// and everything else that is wrong with media is wrong with the request.
pub proof fn media_errors_blame_by_their_cause(error: MediaConnectorError)
    ensures
        connector_kind(error) is Unavailable <==> error is Http || error is Io || error is Timeout,
        connector_kind(error) is Internal <==> error is Blocking,
        connector_kind(error) is InvalidInput <==> error is UnsupportedScheme || error is InvalidUrl
            || error is DisallowedDomain || error is DisallowedLocalPath || error is Base64Decode
            || error is DataUrl || error is PayloadTooLarge || error is Image || error
            is AudioDecode || error is VideoDecode,
{
}

/// Only errors of the connector and of the tracker are errors of media. Those that the tracker
/// passes on blame whom they blame, content that is not supported or not valid blames the request,
/// and a task that failed the server.
pub proof fn only_media_errors_have_a_media_kind(error: Error)
    ensures
        kind_of(error) is Some <==> error is MediaConnector || error is MediaTracker,
        error matches Error::MediaConnector { error: cause, text: _ } ==> kind_of(error) == Some(
            connector_kind(cause),
        ),
        error matches Error::MediaTracker { error: MultiModalError::Media(cause), text: _ }
            ==> kind_of(error) == Some(connector_kind(cause)),
        error matches Error::MediaTracker { error: MultiModalError::Join(_), text: _ } ==> kind_of(
            error,
        ) == Some(MediaErrorKind::Internal),
        error matches Error::MediaTracker { error: MultiModalError::Validation(_), text: _ }
            ==> kind_of(error) == Some(MediaErrorKind::InvalidInput),
        error matches Error::MediaTracker { error: MultiModalError::UnsupportedContent(_), text: _ }
            ==> kind_of(error) == Some(MediaErrorKind::InvalidInput),
{
}

/// A request is at fault for a prompt that is too long, for content or a modality that is not
/// supported, for media that are at fault themselves, and for what the text engine blames it for;
/// for nothing else.
pub proof fn requests_are_blamed_for_their_faults(error: Error)
    ensures
        error is PromptTooLong ==> blames_request(error),
        error is UnsupportedMultimodalRenderer ==> blames_request(error),
        error is UnsupportedMultimodalContent ==> blames_request(error),
        error is UnsupportedModality ==> blames_request(error),
        error matches Error::Text { error: failure, text: _ } ==> (blames_request(error)
            <==> failure.invalid_request),
        error is MediaConnector || error is MediaTracker ==> (blames_request(error) <==> kind_of(
            error,
        ) == Some(MediaErrorKind::InvalidInput)),
        blames_request(error) ==> error is PromptTooLong || error is UnsupportedMultimodalRenderer
            || error is UnsupportedMultimodalContent || error is UnsupportedModality || error
            is Text || error is MediaConnector || error is MediaTracker,
{
}

/// A log tells of a media error what does not give the media away: the scheme, the status, the kind
/// of a failure, the limit, the time. Of an error that is not one of media it gets the full report.
pub proof fn diagnostics_keep_what_is_safe(
    error: MediaConnectorError,
    other: Error,
    report: Seq<char>,
)
    ensures
        error matches MediaConnectorError::UnsupportedScheme(scheme) ==> ends_with(
            connector_diagnostic(error),
            scheme@,
        ),
        error matches MediaConnectorError::Http(failure) ==> (failure.status matches Some(status)
            ==> ends_with(connector_diagnostic(error), status@)),
        error matches MediaConnectorError::Io(kind) ==> ends_with(
            connector_diagnostic(error),
            kind@,
        ),
        error matches MediaConnectorError::Base64Decode(text) ==> ends_with(
            connector_diagnostic(error),
            text@,
        ),
        error matches MediaConnectorError::Blocking(text) ==> ends_with(
            connector_diagnostic(error),
            text@,
        ),
        error matches MediaConnectorError::Image(text) ==> ends_with(
            connector_diagnostic(error),
            text@,
        ),
        error matches MediaConnectorError::Timeout(duration) ==> ends_with(
            connector_diagnostic(error),
            duration@,
        ),
        error matches MediaConnectorError::PayloadTooLarge { media, limit } ==> ends_with(
            connector_diagnostic(error),
            decimal(limit as nat) + " bytes"@,
        ) && media@.is_prefix_of(connector_diagnostic(error)),
        other !is MediaConnector && other !is MediaTracker ==> diagnostic_of(other, report)
            == report,
{
    match error {
        MediaConnectorError::UnsupportedScheme(scheme) => {
            lemma_ends_with("unsupported media scheme: "@, scheme@);
        },
        MediaConnectorError::Http(failure) => {
            if let Some(status) = failure.status {
                lemma_ends_with("HTTP media fetch failed with status "@, status@);
            }
        },
        MediaConnectorError::Io(kind) => {
            lemma_ends_with("media I/O failed with kind "@, kind@);
        },
        MediaConnectorError::Base64Decode(text) => {
            lemma_ends_with("base64 media decoding failed: "@, text@);
        },
        MediaConnectorError::Blocking(text) => {
            lemma_ends_with("media blocking task failed: "@, text@);
        },
        MediaConnectorError::Image(text) => {
            lemma_ends_with("image decoding failed: "@, text@);
        },
        MediaConnectorError::Timeout(duration) => {
            lemma_ends_with("media fetch timed out after "@, duration@);
        },
        MediaConnectorError::PayloadTooLarge { media, limit } => {
            let front = media@ + " payload exceeds the configured limit of "@;
            let end = decimal(limit as nat) + " bytes"@;
            lemma_ends_with(front, end);
            assert(connector_diagnostic(error) =~= front + end);
            lemma_ends_with(media@, " payload exceeds the configured limit of "@ + end);
            assert(connector_diagnostic(error) =~= media@ + (
            " payload exceeds the configured limit of "@ + end));
        },
        _ => {},
    }
}

/// The message for a prompt that is too long tells the limit first and the length of the prompt
/// behind it.
pub proof fn long_prompts_are_told_with_the_limit(max_model_len: u32, prompt_len: u32)
    ensures
        ({
            let message = message_of(Error::PromptTooLong { max_model_len, prompt_len });
            &&& ("this model's maximum context length is "@ + decimal(max_model_len as nat)
                + " tokens"@).is_prefix_of(message)
            &&& ends_with(message, decimal(prompt_len as nat) + " input tokens"@)
        }),
{
    reveal_strlit(" tokens, but the prompt contains ");
    reveal_strlit(" tokens");
    let message = message_of(Error::PromptTooLong { max_model_len, prompt_len });
    let front = "this model's maximum context length is "@ + decimal(max_model_len as nat)
        + " tokens"@;
    let end = decimal(prompt_len as nat) + " input tokens"@;
    let middle = " tokens, but the prompt contains "@.skip(7);
    assert(" tokens, but the prompt contains "@ =~= " tokens"@ + middle);
    assert(message =~= front + (middle + end));
    lemma_ends_with(front, middle + end);
    assert(message =~= (front + middle) + end);
    lemma_ends_with(front + middle, end);
}

/// An error of another component says what that component says of it.
pub proof fn errors_keep_the_words_of_their_source(error: Error)
    ensures
        error matches Error::MediaConnector { error: _, text } ==> message_of(error) == text@,
        error matches Error::MediaTracker { error: _, text } ==> message_of(error) == text@,
        error matches Error::Text { error: _, text } ==> message_of(error) == text@,
        error matches Error::Tokenizer { text } ==> message_of(error) == text@,
        error matches Error::ChatTemplate(text) ==> ends_with(message_of(error), text@),
        error matches Error::Multimodal(text) ==> ends_with(message_of(error), text@),
        error matches Error::ToolCallStreamInvariant { message } ==> ends_with(
            message_of(error),
            message@,
        ),
        error matches Error::StructuralTag { message } ==> ends_with(message_of(error), message@),
{
    match error {
        Error::ChatTemplate(text) => {
            lemma_ends_with("chat template error: "@, text@);
        },
        Error::Multimodal(text) => {
            lemma_ends_with("multimodal preprocessing error: "@, text@);
        },
        Error::ToolCallStreamInvariant { message } => {
            lemma_ends_with("tool call stream state is inconsistent: "@, message@);
        },
        Error::StructuralTag { message } => {
            lemma_ends_with("failed to build structural tag: "@, message@);
        },
        _ => {},
    }
}

/// A list of names spells each name, in order, with a comma between each two; without names there
/// is no hint.
pub proof fn names_are_listed_in_order(front: Seq<String>, back: Seq<String>, name: String)
    requires
        front.len() > 0,
        back.len() > 0,
    ensures
        listing(front + back) == listing(front) + ", "@ + listing(back),
        listing(seq![name]) == name@,
        parser_hint(Seq::empty()).len() == 0,
        parser_hint(front).len() > listing(front).len(),
    decreases back.len(),
{
    reveal_strlit("");
    reveal_strlit(" (choose from: ");
    assert((front + back).drop_last() =~= front + back.drop_last());
    if back.len() == 1 {
        assert(front + back.drop_last() =~= front);
    } else {
        names_are_listed_in_order(front, back.drop_last(), name);
        assert(listing(front + back) =~= listing(front) + ", "@ + listing(back));
    }
}

/// What a log says of a media error tells which fault it was: a bad address, a host or a path that
/// is not allowed, a time limit or a connection.
pub proof fn diagnostics_tell_the_fault(url: String, failure: HttpFailure)
    requires
        failure.status is None,
    ensures
        crate::text::occurs_in(connector_diagnostic(MediaConnectorError::InvalidUrl(url)), "invalid"@),
        crate::text::occurs_in(connector_diagnostic(MediaConnectorError::DisallowedDomain(url)), "domain"@),
        crate::text::occurs_in(connector_diagnostic(MediaConnectorError::DisallowedLocalPath(url)), "path"@),
        failure.timeout ==> crate::text::occurs_in(
            connector_diagnostic(MediaConnectorError::Http(failure)),
            "timed out"@,
        ),
        !failure.timeout && failure.connect ==> crate::text::occurs_in(
            connector_diagnostic(MediaConnectorError::Http(failure)),
            "connection"@,
        ),
{
    reveal_strlit("invalid media URL");
    reveal_strlit("media domain is not allowed");
    reveal_strlit("local media path is not allowed");
    reveal_strlit("HTTP media fetch timed out");
    reveal_strlit("HTTP media connection failed");
    reveal_strlit("invalid");
    reveal_strlit("domain");
    reveal_strlit("path");
    reveal_strlit("timed out");
    reveal_strlit("connection");
    assert("invalid media URL"@.subrange(0, 7) =~= "invalid"@);
    assert(crate::text::occurs_at("invalid media URL"@, "invalid"@, 0));
    assert("media domain is not allowed"@.subrange(6, 12) =~= "domain"@);
    assert(crate::text::occurs_at("media domain is not allowed"@, "domain"@, 6));
    assert("local media path is not allowed"@.subrange(12, 16) =~= "path"@);
    assert(crate::text::occurs_at("local media path is not allowed"@, "path"@, 12));
    assert("HTTP media fetch timed out"@.subrange(17, 26) =~= "timed out"@);
    assert(crate::text::occurs_at("HTTP media fetch timed out"@, "timed out"@, 17));
    assert("HTTP media connection failed"@.subrange(11, 21) =~= "connection"@);
    assert(crate::text::occurs_at("HTTP media connection failed"@, "connection"@, 11));
}

} // verus!
