//! OpenAI-compatible chat completions: configuration, failures and retries.
pub mod exchange;
pub mod retry;
pub mod sse;
pub mod streaming;
pub mod wire;

use vstd::prelude::*;

use super::capabilities::{ModelCapabilities, ModelCapability};
use super::event::{ModelError, ModelErrorView};
use crate::json::{field, Json, JsonView};
use crate::message::data::{parse_url, parsed_url};
use crate::text::{
    blank, char_from, concat2, concat3, decimal, decimal_text, from_chars, integer,
    integer_text, is_blank, lemma_char_from, same_text, strip_end, strip_end_text, text_option, to_chars,
};
use crate::time::Duration;
use retry::{retries_left, retry_delay, span_option, RetryView};

pub use retry::RetryPolicy;

verus! {

/// A secret that is not shown.
pub struct SecretString {
    pub(crate) text: String,
}

impl View for SecretString {
    type V = Seq<char>;

    open(crate) spec fn view(&self) -> Seq<char> {
        self.text@
    }
}

impl SecretString {
    /// The secret itself.
    pub fn expose(&self) -> (text: &str)
        ensures
            text@ == self@,
    {
        self.text.as_str()
    }

    /// What is shown in place of the secret.
    pub fn to_string(&self) -> (text: String)
        ensures
            text@ == "[REDACTED]"@,
    {
        "[REDACTED]".to_owned()
    }
}

impl Clone for SecretString {
    fn clone(&self) -> (copied: SecretString)
        ensures
            copied@ == self@,
    {
        SecretString { text: self.text.clone() }
    }
}

/// Invalid OpenAI-compatible model configuration.
#[derive(Debug, PartialEq, Eq)]
pub enum OpenAIConfigError {
    /// No model name was configured.
    MissingModel,
    /// No non-empty API key was configured.
    MissingApiKey,
    /// An environment variable containing the key was unavailable.
    MissingEnvironmentVariable(String),
    /// The base URL was malformed, with the parser's message.
    InvalidBaseUrl(String),
    /// The base URL did not use HTTP or HTTPS.
    UnsupportedUrlScheme,
    /// The underlying HTTP client could not be created, with its message.
    HttpClient(String),
}

/// What a configuration error holds.
#[verifier::ext_equal]
pub enum ConfigErrorView {
    MissingModel,
    MissingApiKey,
    MissingEnvironmentVariable(Seq<char>),
    InvalidBaseUrl(Seq<char>),
    UnsupportedUrlScheme,
    HttpClient(Seq<char>),
}

impl View for OpenAIConfigError {
    type V = ConfigErrorView;

    open spec fn view(&self) -> ConfigErrorView {
        match self {
            OpenAIConfigError::MissingModel => ConfigErrorView::MissingModel,
            OpenAIConfigError::MissingApiKey => ConfigErrorView::MissingApiKey,
            OpenAIConfigError::MissingEnvironmentVariable(name) => ConfigErrorView::MissingEnvironmentVariable(
                name@,
            ),
            OpenAIConfigError::InvalidBaseUrl(message) => ConfigErrorView::InvalidBaseUrl(message@),
            OpenAIConfigError::UnsupportedUrlScheme => ConfigErrorView::UnsupportedUrlScheme,
            OpenAIConfigError::HttpClient(message) => ConfigErrorView::HttpClient(message@),
        }
    }
}

/// What a configuration error says.
pub open spec fn config_error_text(error: ConfigErrorView) -> Seq<char> {
    match error {
        ConfigErrorView::MissingModel => "model name cannot be empty"@,
        ConfigErrorView::MissingApiKey => "API key cannot be empty"@,
        ConfigErrorView::MissingEnvironmentVariable(name) => "environment variable `"@ + name
            + "` is not available"@,
        ConfigErrorView::InvalidBaseUrl(message) => "invalid API base URL: "@ + message,
        ConfigErrorView::UnsupportedUrlScheme => "API base URL must use HTTP or HTTPS"@,
        ConfigErrorView::HttpClient(message) => "failed to create HTTP client: "@ + message,
    }
}

impl OpenAIConfigError {
    /// What the error says.
    pub fn to_string(&self) -> (text: String)
        ensures
            text@ == config_error_text(self@),
    {
        match self {
            OpenAIConfigError::MissingModel => "model name cannot be empty".to_owned(),
            OpenAIConfigError::MissingApiKey => "API key cannot be empty".to_owned(),
            OpenAIConfigError::MissingEnvironmentVariable(name) => concat3(
                "environment variable `",
                name.as_str(),
                "` is not available",
            ),
            OpenAIConfigError::InvalidBaseUrl(message) => concat2(
                "invalid API base URL: ",
                message.as_str(),
            ),
            OpenAIConfigError::UnsupportedUrlScheme => "API base URL must use HTTP or HTTPS".to_owned(),
            OpenAIConfigError::HttpClient(message) => concat2(
                "failed to create HTTP client: ",
                message.as_str(),
            ),
        }
    }
}

/// The configuration of a client for OpenAI-compatible chat-completions APIs.
pub struct OpenAIChatModel {
    pub(crate) model: String,
    pub(crate) api_key: SecretString,
    pub(crate) endpoint: String,
    pub(crate) timeout: Duration,
    pub(crate) retry_policy: RetryPolicy,
}

/// What a client's configuration holds.
#[verifier::ext_equal]
pub struct ClientView {
    pub model: Seq<char>,
    pub api_key: Seq<char>,
    pub endpoint: Seq<char>,
    pub timeout: nat,
    pub retry_policy: RetryView,
}

impl View for OpenAIChatModel {
    type V = ClientView;

    open(crate) spec fn view(&self) -> ClientView {
        ClientView {
            model: self.model@,
            api_key: self.api_key@,
            endpoint: self.endpoint@,
            timeout: self.timeout@,
            retry_policy: self.retry_policy@,
        }
    }
}

/// Builder for [`OpenAIChatModel`].
pub struct OpenAIChatModelBuilder {
    pub(crate) model: Option<String>,
    pub(crate) api_key: Option<SecretString>,
    pub(crate) base_url: String,
    pub(crate) timeout: Duration,
    pub(crate) retry_policy: RetryPolicy,
}

/// What a builder holds.
#[verifier::ext_equal]
pub struct BuilderView {
    pub model: Option<Seq<char>>,
    pub api_key: Option<Seq<char>>,
    pub base_url: Seq<char>,
    pub timeout: nat,
    pub retry_policy: RetryView,
}

impl View for OpenAIChatModelBuilder {
    type V = BuilderView;

    open(crate) spec fn view(&self) -> BuilderView {
        BuilderView {
            model: text_option(self.model),
            api_key: crate::view::view_option(self.api_key),
            base_url: self.base_url@,
            timeout: self.timeout@,
            retry_policy: self.retry_policy@,
        }
    }
}

/// A builder with nothing set.
pub open spec fn default_builder() -> BuilderView {
    BuilderView {
        model: None,
        api_key: None,
        base_url: "https://api.openai.com/v1"@,
        timeout: 60_000_000_000,
        retry_policy: retry::default_delays(2),
    }
}

/// The text that is to be the endpoint for a base URL.
pub open spec fn endpoint_text(base_url: Seq<char>) -> Seq<char> {
    strip_end_text(base_url, '/') + "/chat/completions"@
}

/// The scheme of a URL: what stands before its first colon.
pub open spec fn scheme_of(url: Seq<char>) -> Seq<char> {
    match char_from(url, ':', 0) {
        Some(end) => url.subrange(0, end),
        None => url,
    }
}

/// The endpoint once its URL was read.
pub open spec fn endpoint_of(parsed: Result<Seq<char>, Seq<char>>) -> Result<
    Seq<char>,
    ConfigErrorView,
> {
    match parsed {
        Err(fault) => Err(ConfigErrorView::InvalidBaseUrl(fault)),
        Ok(url) => if scheme_of(url) == "http"@ || scheme_of(url) == "https"@ {
            Ok(url)
        } else {
            Err(ConfigErrorView::UnsupportedUrlScheme)
        },
    }
}

/// The client that a builder makes, or what is missing or wrong.
pub open spec fn built(builder: BuilderView) -> Result<ClientView, ConfigErrorView> {
    match builder.model {
        None => Err(ConfigErrorView::MissingModel),
        Some(model) => if blank(model) {
            Err(ConfigErrorView::MissingModel)
        } else {
            match builder.api_key {
                None => Err(ConfigErrorView::MissingApiKey),
                Some(api_key) => if blank(api_key) {
                    Err(ConfigErrorView::MissingApiKey)
                } else {
                    match endpoint_of(parsed_url(endpoint_text(builder.base_url))) {
                        Err(error) => Err(error),
                        Ok(endpoint) => Ok(
                            ClientView {
                                model,
                                api_key,
                                endpoint,
                                timeout: builder.timeout,
                                retry_policy: builder.retry_policy,
                            },
                        ),
                    }
                },
            }
        },
    }
}

/// A result of a configuration with views in place of its values.
pub open spec fn config_view<T: View>(result: Result<T, OpenAIConfigError>) -> Result<
    T::V,
    ConfigErrorView,
> {
    match result {
        Ok(value) => Ok(value@),
        Err(error) => Err(error@),
    }
}

/// The scheme of a URL.
fn url_scheme(url: &str) -> (scheme: String)
    ensures
        scheme@ == scheme_of(url@),
{
    let chars = to_chars(url);
    let mut end: usize = 0;
    while end < chars.len() && chars[end] != ':'
        invariant
            end <= chars@.len(),
            forall|j: int| 0 <= j < end ==> (#[trigger] chars@[j]) != ':',
        decreases chars@.len() - end,
    {
        end += 1;
    }
    proof {
        lemma_char_from(chars@, ':', 0);
        assert(chars@.subrange(0, chars@.len() as int) =~= chars@);
    }
    from_chars(&chars, 0, end)
}

/// Accepts an endpoint that is an HTTP or HTTPS URL.
pub fn check_endpoint(parsed: Result<String, String>) -> (result: Result<String, OpenAIConfigError>)
    ensures
        config_view(result) == endpoint_of(
            match parsed {
                Ok(url) => Ok(url@),
                Err(fault) => Err(fault@),
            },
        ),
{
    match parsed {
        Err(fault) => Err(OpenAIConfigError::InvalidBaseUrl(fault)),
        Ok(url) => {
            let scheme = url_scheme(url.as_str());
            if same_text(scheme.as_str(), "http") || same_text(scheme.as_str(), "https") {
                Ok(url)
            } else {
                Err(OpenAIConfigError::UnsupportedUrlScheme)
            }
        },
    }
}

/// A value that is there and not blank, or the given error.
pub fn require_nonempty(value: Option<String>, error: OpenAIConfigError) -> (result: Result<
    String,
    OpenAIConfigError,
>)
    ensures
        match (value, result) {
            (Some(text), Ok(kept)) => !blank(text@) && kept == text,
            (Some(text), Err(failure)) => blank(text@) && failure == error,
            (None, Ok(_)) => false,
            (None, Err(failure)) => failure == error,
        },
{
    match value {
        Some(text) => {
            if is_blank(text.as_str()) {
                Err(error)
            } else {
                Ok(text)
            }
        },
        None => Err(error),
    }
}

impl Default for OpenAIChatModelBuilder {
    fn default() -> (builder: OpenAIChatModelBuilder)
        ensures
            builder@ == default_builder(),
    {
        OpenAIChatModelBuilder {
            model: None,
            api_key: None,
            base_url: "https://api.openai.com/v1".to_owned(),
            timeout: Duration::from_secs(60),
            retry_policy: RetryPolicy::default(),
        }
    }
}

impl OpenAIChatModelBuilder {
    /// Sets the provider model identifier.
    pub fn model(self, model: &str) -> (builder: OpenAIChatModelBuilder)
        ensures
            builder@ == (BuilderView { model: Some(model@), ..self@ }),
    {
        let mut builder = self;
        builder.model = Some(model.to_owned());
        builder
    }

    /// Sets the API key in memory.
    pub fn api_key(self, api_key: &str) -> (builder: OpenAIChatModelBuilder)
        ensures
            builder@ == (BuilderView { api_key: Some(api_key@), ..self@ }),
    {
        let mut builder = self;
        builder.api_key = Some(SecretString { text: api_key.to_owned() });
        builder
    }

    /// Sets the API key to what an environment variable holds.
    pub fn api_key_from_env(self, variable: &str, value: Option<String>) -> (result: Result<
        OpenAIChatModelBuilder,
        OpenAIConfigError,
    >)
        ensures
            match (value, result) {
                (Some(key), Ok(builder)) => builder@ == (BuilderView {
                    api_key: Some(key@),
                    ..self@
                }),
                (None, Err(error)) => error@ == ConfigErrorView::MissingEnvironmentVariable(
                    variable@,
                ),
                _ => false,
            },
    {
        match value {
            None => Err(OpenAIConfigError::MissingEnvironmentVariable(variable.to_owned())),
            Some(key) => {
                let mut builder = self;
                builder.api_key = Some(SecretString { text: key });
                Ok(builder)
            },
        }
    }

    /// Sets the API base URL, for example `https://api.deepseek.com`.
    pub fn base_url(self, base_url: &str) -> (builder: OpenAIChatModelBuilder)
        ensures
            builder@ == (BuilderView { base_url: base_url@, ..self@ }),
    {
        let mut builder = self;
        builder.base_url = base_url.to_owned();
        builder
    }

    /// Sets the complete request timeout.
    pub fn timeout(self, timeout: Duration) -> (builder: OpenAIChatModelBuilder)
        ensures
            builder@ == (BuilderView { timeout: timeout@, ..self@ }),
    {
        let mut builder = self;
        builder.timeout = timeout;
        builder
    }

    /// Sets the retry and rate-limit policy.
    pub fn retry_policy(self, retry_policy: RetryPolicy) -> (builder: OpenAIChatModelBuilder)
        ensures
            builder@ == (BuilderView { retry_policy: retry_policy@, ..self@ }),
    {
        let mut builder = self;
        builder.retry_policy = retry_policy;
        builder
    }

    /// Makes the configuration of a client.
    pub fn build(self) -> (result: Result<OpenAIChatModel, OpenAIConfigError>)
        ensures
            config_view(result) == built(self@),
    {
        let model = match require_nonempty(self.model, OpenAIConfigError::MissingModel) {
            Err(error) => {
                return Err(error);
            },
            Ok(model) => model,
        };
        let api_key = match self.api_key {
            None => {
                return Err(OpenAIConfigError::MissingApiKey);
            },
            Some(api_key) => api_key,
        };
        if is_blank(api_key.expose()) {
            return Err(OpenAIConfigError::MissingApiKey);
        }
        let text = concat2(strip_end(self.base_url.as_str(), '/').as_str(), "/chat/completions");
        match check_endpoint(parse_url(text.as_str())) {
            Err(error) => Err(error),
            Ok(endpoint) => Ok(
                OpenAIChatModel {
                    model,
                    api_key,
                    endpoint,
                    timeout: self.timeout,
                    retry_policy: self.retry_policy,
                },
            ),
        }
    }
}

impl OpenAIChatModel {
    /// Starts building an OpenAI-compatible model.
    pub fn builder() -> (builder: OpenAIChatModelBuilder)
        ensures
            builder@ == default_builder(),
    {
        OpenAIChatModelBuilder::default()
    }

    /// Creates a model using the default base URL.
    pub fn new(model: &str, api_key: &str) -> (result: Result<OpenAIChatModel, OpenAIConfigError>)
        ensures
            config_view(result) == built(
                BuilderView { model: Some(model@), api_key: Some(api_key@), ..default_builder() },
            ),
    {
        OpenAIChatModel::builder().model(model).api_key(api_key).build()
    }

    /// Creates a model with the API key that `OPENAI_API_KEY` holds.
    pub fn from_env(model: &str, value: Option<String>) -> (result: Result<
        OpenAIChatModel,
        OpenAIConfigError,
    >)
        ensures
            config_view(result) == match value {
                Some(key) => built(
                    BuilderView { model: Some(model@), api_key: Some(key@), ..default_builder() },
                ),
                None => Err(ConfigErrorView::MissingEnvironmentVariable("OPENAI_API_KEY"@)),
            },
    {
        match OpenAIChatModel::builder().model(model).api_key_from_env("OPENAI_API_KEY", value) {
            Err(error) => Err(error),
            Ok(builder) => builder.build(),
        }
    }

    /// The configured model name.
    pub fn name(&self) -> (name: &str)
        ensures
            name@ == self@.model,
    {
        self.model.as_str()
    }

    /// The API key, hidden from display.
    pub fn api_key(&self) -> (api_key: &SecretString)
        ensures
            api_key@ == self@.api_key,
    {
        &self.api_key
    }

    /// The URL that requests are sent to.
    pub fn endpoint(&self) -> (endpoint: &str)
        ensures
            endpoint@ == self@.endpoint,
    {
        self.endpoint.as_str()
    }

    /// How long a request may take.
    pub fn timeout(&self) -> (timeout: Duration)
        ensures
            timeout@ == self@.timeout,
    {
        self.timeout
    }

    /// The retry and rate-limit policy.
    pub fn retry_policy(&self) -> (retry_policy: RetryPolicy)
        ensures
            retry_policy@ == self@.retry_policy,
    {
        self.retry_policy
    }

    /// What the model can do: request tools and give structured output.
    pub fn capabilities(&self) -> (capabilities: ModelCapabilities)
        ensures
            forall|capability: ModelCapability| #[trigger]
                (capabilities@)(capability) == (capability == ModelCapability::ToolCalls
                    || capability == ModelCapability::StructuredOutput),
    {
        ModelCapabilities::new().with(ModelCapability::ToolCalls, true).with(
            ModelCapability::StructuredOutput,
            true,
        )
    }
}

/// A failure to reach the provider.
pub open spec fn transport_failure(
    message: Seq<char>,
    timed_out: bool,
    connecting: bool,
) -> ModelErrorView {
    ModelErrorView {
        message: "OpenAI-compatible request failed: "@ + message,
        code: Some("transport_error"@),
        retryable: timed_out || connecting,
    }
}

/// A failure to reach the provider, worth a retry after a timeout or where no
/// connection was made.
pub fn transport_error(message: &str, timed_out: bool, connecting: bool) -> (error: ModelError)
    ensures
        error@ == transport_failure(message@, timed_out, connecting),
{
    ModelError::new(concat2("OpenAI-compatible request failed: ", message).as_str()).with_code(
        "transport_error",
    ).with_retryable(timed_out || connecting)
}

/// A failure to read the provider's response.
pub fn unreadable_response(message: &str) -> (error: ModelError)
    ensures
        error@ == wire::invalid_response_error("provider returned invalid JSON: "@ + message@),
{
    wire::invalid_response(concat2("provider returned invalid JSON: ", message).as_str())
}

/// The text of an HTTP status that the `http` crate gives: its number and its name.
pub uninterp spec fn status_line(status: u16) -> Seq<char>;

/// The `Display` of `StatusCode` of `reqwest`: the status with its name. The result
/// depends on the status alone.
#[verifier::external_body]
fn status_text(status: u16) -> (text: String)
    requires
        100 <= status <= 999,
    ensures
        text@ == status_line(status),
{
    reqwest::StatusCode::from_u16(status).map_or(String::new(), |status| status.to_string())
}

/// A string, or a number as text.
pub open spec fn code_text(value: JsonView) -> Option<Seq<char>> {
    match value {
        JsonView::Text(text) => Some(text),
        JsonView::Unsigned(number) => Some(decimal_text(number as nat)),
        JsonView::Negative(number) => Some(integer_text(number)),
        JsonView::Decimal(text) => Some(text),
        _ => None,
    }
}

fn code_string(value: &Json) -> (text: Option<String>)
    ensures
        text_option(text) == code_text(value@),
{
    match value {
        Json::Text(text) => Some(text.clone()),
        Json::Unsigned(number) => Some(decimal(*number)),
        Json::Negative(number) => Some(integer(*number)),
        Json::Decimal(text) => Some(text.clone()),
        _ => None,
    }
}

/// The field of an optional value.
pub open spec fn field_of(value: Option<JsonView>, key: Seq<char>) -> Option<JsonView> {
    match value {
        Some(json) => field(json, key),
        None => None,
    }
}

/// Whether a status is worth a retry: a timeout, a conflict, too many requests,
/// or a failure of the server.
pub open spec fn retryable_status(status: u16) -> bool {
    status == 408 || status == 409 || status == 429 || 500 <= status <= 599
}

/// What a provider says is wrong, with the text of its status.
pub open spec fn provider_failure(
    status: u16,
    line: Seq<char>,
    body: Option<JsonView>,
) -> ModelErrorView {
    let provider = field_of(body, "error"@);
    let coded = match field_of(provider, "code"@) {
        Some(code) => Some(code),
        None => field_of(provider, "type"@),
    };
    let code = match coded {
        Some(value) => code_text(value),
        None => None,
    };
    ModelErrorView {
        message: match field_of(provider, "message"@) {
            Some(JsonView::Text(text)) => text,
            _ => "provider returned HTTP "@ + line,
        },
        code: Some(
            match code {
                Some(text) => text,
                None => "http_"@ + decimal_text(status as nat),
            },
        ),
        retryable: retryable_status(status),
    }
}

fn get_field<'a>(value: Option<&'a Json>, key: &str) -> (found: Option<&'a Json>)
    ensures
        crate::view::view_option(found) == field_of(crate::view::view_option(value), key@),
{
    match value {
        Some(json) => json.get(key),
        None => None,
    }
}

/// What a provider says is wrong, with the text of its status.
pub fn describe_failure(status: u16, line: &str, body: Option<&Json>) -> (error: ModelError)
    ensures
        error@ == provider_failure(status, line@, crate::view::view_option(body)),
{
    let provider = get_field(body, "error");
    let text = match get_field(provider, "message") {
        Some(value) => value.as_str(),
        None => None,
    };
    let message = match text {
        Some(text) => text.to_owned(),
        None => concat2("provider returned HTTP ", line),
    };
    let coded = match get_field(provider, "code") {
        Some(code) => Some(code),
        None => get_field(provider, "type"),
    };
    let text = match coded {
        Some(value) => code_string(value),
        None => None,
    };
    let code = match text {
        Some(text) => text,
        None => concat2("http_", decimal(status as u64).as_str()),
    };
    let retryable = status == 408 || status == 409 || status == 429 || (status >= 500 && status
        <= 599);
    ModelError::new(message.as_str()).with_code(code.as_str()).with_retryable(retryable)
}

/// What a provider says is wrong with a request.
pub fn provider_error(status: u16, body: Option<&Json>) -> (error: ModelError)
    requires
        100 <= status <= 999,
    ensures
        error@ == provider_failure(status, status_line(status), crate::view::view_option(body)),
{
    describe_failure(status, status_text(status).as_str(), body)
}

/// How an attempt to send a request ended.
pub enum AttemptOutcome {
    /// The provider answered.
    Responded {
        /// The HTTP status.
        status: u16,
        /// What the provider asks for in `Retry-After`.
        retry_after: Option<Duration>,
        /// The JSON body of an answer that is no success.
        body: Option<Json>,
    },
    /// The provider was not reached or did not answer.
    Failed {
        /// What the transport says.
        message: String,
        /// Whether the request timed out.
        timed_out: bool,
        /// Whether no connection could be made.
        connecting: bool,
    },
}

/// What to do after an attempt.
pub enum RetryStep {
    /// The answer is a success.
    Accept,
    /// Give up with a failure.
    GiveUp(ModelError),
    /// Try again after a delay.
    Wait {
        /// How long to wait.
        delay: Duration,
        /// How many retries there have been with the next one.
        retries: u32,
    },
}

/// What went wrong in an attempt, if anything.
pub open spec fn attempt_failure(outcome: AttemptOutcome) -> Option<ModelErrorView> {
    match outcome {
        AttemptOutcome::Responded { status, body, .. } => if 200 <= status <= 299 {
            None
        } else {
            Some(provider_failure(status, status_line(status), crate::view::view_option(body)))
        },
        AttemptOutcome::Failed { message, timed_out, connecting } => Some(
            transport_failure(message@, timed_out, connecting),
        ),
    }
}

/// What the provider asked for in an attempt.
pub open spec fn attempt_retry_after(outcome: AttemptOutcome) -> Option<nat> {
    match outcome {
        AttemptOutcome::Responded { retry_after, .. } => span_option(retry_after),
        AttemptOutcome::Failed { .. } => None,
    }
}

/// Whether a step is right after an attempt.
pub open spec fn retry_outcome(
    policy: RetryView,
    retries: u32,
    outcome: AttemptOutcome,
    step: RetryStep,
) -> bool {
    match attempt_failure(outcome) {
        None => step is Accept,
        Some(error) => if retries_left(policy, retries, error) {
            step matches RetryStep::Wait { delay, retries: next } && delay@ == retry_delay(
                policy,
                retries,
                attempt_retry_after(outcome),
            ) && next == retries + 1
        } else {
            step matches RetryStep::GiveUp(failure) && failure@ == error
        },
    }
}

/// Decides what to do after an attempt.
pub fn after_attempt(policy: RetryPolicy, retries: u32, outcome: AttemptOutcome) -> (step: RetryStep)
    requires
        outcome matches AttemptOutcome::Responded { status, .. } ==> 100 <= status <= 999,
    ensures
        retry_outcome(policy@, retries, outcome, step),
{
    match outcome {
        AttemptOutcome::Responded { status, retry_after, body } => {
            if status >= 200 && status <= 299 {
                return RetryStep::Accept;
            }
            let error = provider_error(
                status,
                match &body {
                    Some(json) => Some(json),
                    None => None,
                },
            );
            if policy.can_retry(retries, &error) {
                RetryStep::Wait {
                    delay: policy.delay(retries, retry_after),
                    retries: retries + 1,
                }
            } else {
                RetryStep::GiveUp(error)
            }
        },
        AttemptOutcome::Failed { message, timed_out, connecting } => {
            let error = transport_error(message.as_str(), timed_out, connecting);
            if policy.can_retry(retries, &error) {
                RetryStep::Wait { delay: policy.delay(retries, None), retries: retries + 1 }
            } else {
                RetryStep::GiveUp(error)
            }
        },
    }
}

/// A request is retried at most as often as the policy says, and only for a
/// failure that is worth it.
pub proof fn requests_are_retried_within_the_policy(
    policy: RetryView,
    retries: u32,
    outcome: AttemptOutcome,
    step: RetryStep,
)
    requires
        retry_outcome(policy, retries, outcome, step),
    ensures
        step matches RetryStep::Wait { delay, retries: next } ==> next <= policy.max_retries
            && delay@ <= policy.max_delay && attempt_failure(outcome) is Some && attempt_failure(
            outcome,
        )->0.retryable,
{
}

/// A success is accepted, and nothing else is. A timeout, a conflict, too many
/// requests and a failure of the server are tried again as long as a retry is left;
/// every other answer is given up at once.
pub proof fn answers_are_judged_by_their_status(
    policy: RetryView,
    retries: u32,
    status: u16,
    retry_after: Option<Duration>,
    body: Option<Json>,
    step: RetryStep,
)
    requires
        retry_outcome(
            policy,
            retries,
            AttemptOutcome::Responded { status, retry_after, body },
            step,
        ),
    ensures
        step is Accept <==> 200 <= status <= 299,
        step is Wait <==> retries < policy.max_retries && (status == 408 || status == 409 || status
            == 429 || 500 <= status <= 599),
{
}

/// A request that reached nobody is tried again exactly where it timed out or no
/// connection was made, as long as a retry is left, and never accepted.
pub proof fn unanswered_requests_are_judged_by_their_cause(
    policy: RetryView,
    retries: u32,
    message: String,
    timed_out: bool,
    connecting: bool,
    step: RetryStep,
)
    requires
        retry_outcome(
            policy,
            retries,
            AttemptOutcome::Failed { message, timed_out, connecting },
            step,
        ),
    ensures
        step is Wait <==> retries < policy.max_retries && (timed_out || connecting),
        step is GiveUp <==> !(step is Wait),
{
}

/// Before another attempt the provider's wish is waited for, up to the policy's
/// longest delay, and the attempt is counted.
pub proof fn waits_follow_the_provider(
    policy: RetryView,
    retries: u32,
    status: u16,
    wish: Duration,
    body: Option<Json>,
    step: RetryStep,
)
    requires
        retry_outcome(
            policy,
            retries,
            AttemptOutcome::Responded { status, retry_after: Some(wish), body },
            step,
        ),
        step is Wait,
    ensures
        step matches RetryStep::Wait { delay, retries: next } && next == retries + 1 && (if wish@
            <= policy.max_delay {
            delay@ == wish@
        } else {
            delay@ == policy.max_delay
        }),
{
}

/// What a provider says is wrong is passed on: its message, its code before its type,
/// and without these the status.
pub proof fn provider_failures_are_passed_on(
    status: u16,
    line: Seq<char>,
    body: Map<Seq<char>, JsonView>,
    error: Map<Seq<char>, JsonView>,
)
    requires
        body.contains_key("error"@),
        body["error"@] == JsonView::Object(error),
    ensures
        ({
            let failure = provider_failure(status, line, Some(JsonView::Object(body)));
            &&& error.contains_key("message"@) ==> (error["message"@] matches JsonView::Text(text)
                ==> failure.message == text)
            &&& !error.contains_key("message"@) ==> failure.message == "provider returned HTTP "@
                + line
            &&& error.contains_key("code"@) ==> (error["code"@] matches JsonView::Text(text)
                ==> failure.code == Some(text))
            &&& !error.contains_key("code"@) && error.contains_key("type"@) ==> (
            error["type"@] matches JsonView::Text(text) ==> failure.code == Some(text))
            &&& !error.contains_key("code"@) && !error.contains_key("type"@) ==> failure.code
                == Some("http_"@ + decimal_text(status as nat))
        }),
{
}

/// A client is made of what the builder was given, and never without a model, a key
/// and an endpoint below the base URL that speaks HTTP.
pub proof fn clients_hold_what_was_configured(builder: BuilderView)
    ensures
        built(builder) matches Ok(client) ==> {
            &&& builder.model == Some(client.model) && !blank(client.model)
            &&& builder.api_key == Some(client.api_key) && !blank(client.api_key)
            &&& client.timeout == builder.timeout
            &&& client.retry_policy == builder.retry_policy
            &&& exists|base: Seq<char>, slashes: Seq<char>|
                builder.base_url == #[trigger] (base + slashes) && (forall|i: int|
                    0 <= i < slashes.len() ==> #[trigger] slashes[i] == '/') && (base.len() > 0
                    ==> base.last() != '/') && parsed_url(base + "/chat/completions"@) == Ok::<
                    Seq<char>,
                    Seq<char>,
                >(client.endpoint)
        },
{
    if built(builder) is Ok {
        lemma_strip_end(builder.base_url, '/');
        let base = strip_end_text(builder.base_url, '/');
        let slashes = builder.base_url.skip(base.len() as int);
        assert(builder.base_url =~= base + slashes);
    }
}

proof fn lemma_strip_end(text: Seq<char>, c: char)
    ensures
        strip_end_text(text, c).len() <= text.len(),
        text.take(strip_end_text(text, c).len() as int) == strip_end_text(text, c),
        forall|i: int|
            strip_end_text(text, c).len() <= i < text.len() ==> #[trigger] text[i] == c,
        strip_end_text(text, c).len() > 0 ==> strip_end_text(text, c).last() != c,
    decreases text.len(),
{
    if text.len() > 0 && text.last() == c {
        lemma_strip_end(text.drop_last(), c);
        let kept = strip_end_text(text, c).len() as int;
        assert(text.take(kept) =~= text.drop_last().take(kept));
        assert forall|i: int| kept <= i < text.len() implies #[trigger] text[i] == c by {
            if i < text.len() - 1 {
                assert(text.drop_last()[i] == c);
            }
        }
    } else {
        assert(text.take(text.len() as int) =~= text);
    }
}

/// Whether a URL is one of a scheme: it begins with the scheme and a colon.
pub open spec fn is_under(url: Seq<char>, scheme: Seq<char>) -> bool {
    url.len() > scheme.len() && url.take(scheme.len() as int) == scheme && url[scheme.len() as int]
        == ':'
}

/// A client is refused for what it lacks: a model first, then a key, then a URL that
/// can be read and is one of HTTP.
pub proof fn clients_are_refused_for_what_they_lack(builder: BuilderView, base: Seq<char>)
    requires
        base.len() > 0 ==> base.last() != '/',
        builder.base_url == base,
    ensures
        (builder.model matches Some(model) ==> blank(model)) ==> built(builder) == Err::<
            ClientView,
            ConfigErrorView,
        >(ConfigErrorView::MissingModel),
        builder.model is Some && !blank(builder.model->Some_0) && (
        builder.api_key matches Some(key) ==> blank(key)) ==> built(builder) == Err::<
            ClientView,
            ConfigErrorView,
        >(ConfigErrorView::MissingApiKey),
        builder.model is Some && !blank(builder.model->Some_0) && builder.api_key is Some && !blank(
            builder.api_key->Some_0,
        ) ==> {
            let read = parsed_url(base + "/chat/completions"@);
            &&& read is Err ==> built(builder) == Err::<ClientView, ConfigErrorView>(
                ConfigErrorView::InvalidBaseUrl(read->Err_0),
            )
            &&& read is Ok && (is_under(read->Ok_0, "http"@) || is_under(read->Ok_0, "https"@))
                ==> built(builder) is Ok
            &&& read is Ok && read->Ok_0.contains(':') && !is_under(read->Ok_0, "http"@)
                && !is_under(read->Ok_0, "https"@) ==> built(builder) == Err::<
                ClientView,
                ConfigErrorView,
            >(ConfigErrorView::UnsupportedUrlScheme)
        },
{
    lemma_strip_end(builder.base_url, '/');
    let kept = strip_end_text(builder.base_url, '/');
    assert(kept =~= base) by {
        if kept.len() < base.len() {
            assert(base[base.len() - 1] == '/');
        }
        assert(base.take(base.len() as int) =~= base);
    }
    let read = parsed_url(base + "/chat/completions"@);
    if read is Ok {
        reveal_strlit("http");
        reveal_strlit("https");
        assert("http"@ =~= seq!['h', 't', 't', 'p']);
        assert("https"@ =~= seq!['h', 't', 't', 'p', 's']);
        lemma_scheme(read->Ok_0, "http"@);
        lemma_scheme(read->Ok_0, "https"@);
    }
}

proof fn lemma_scheme(url: Seq<char>, scheme: Seq<char>)
    requires
        !scheme.contains(':'),
    ensures
        is_under(url, scheme) ==> scheme_of(url) == scheme,
        url.contains(':') && scheme_of(url) == scheme ==> is_under(url, scheme),
{
    crate::text::lemma_char_from(url, ':', 0);
    if is_under(url, scheme) {
        let end = char_from(url, ':', 0)->Some_0;
        if end < scheme.len() {
            assert(scheme[end] == url.take(scheme.len() as int)[end]);
            assert(scheme.contains(scheme[end]));
        }
        assert(url.subrange(0, end) =~= url.take(scheme.len() as int));
    }
    if url.contains(':') && scheme_of(url) == scheme {
        let end = char_from(url, ':', 0)->Some_0;
        assert(url.take(scheme.len() as int) =~= url.subrange(0, end));
    }
}

} // verus!
