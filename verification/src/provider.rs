//! Local model providers (Ollama and llama.cpp): which provider a name
//! selects, its endpoints and default model, the messages sent to it, and
//! how its streamed replies become events.

use vstd::prelude::*;

use crate::domain::{ChatResponse, Message, MessageRole, Model};
use crate::text::{
    chars_of, decimal_spec, is_char, lemma_views_of_push, lowercase_chars, push_char,
    string_from_chars, to_ascii_lowercase_spec, trim_bounds, trim_spec, views_of, str_eq,
    starts_with, starts_with_spec, trim, utf8_error_text, utf8_str,
};
use vstd::string::{StrSliceExecFns, StringExecFns};
use vstd::utf8::{decode_utf8, valid_utf8};

verus! {

/// The Ollama base URL used when none is configured.
pub open spec fn default_ollama_base_url() -> Seq<char> {
    "http://localhost:11434"@
}

/// The Ollama model used when none is configured.
pub open spec fn default_ollama_model() -> Seq<char> {
    "llama3.2"@
}

/// The llama.cpp base URL used when none is configured.
pub open spec fn default_llama_cpp_base_url() -> Seq<char> {
    "http://localhost:8080"@
}

/// The llama.cpp model used when none is configured.
pub open spec fn default_llama_cpp_model() -> Seq<char> {
    "local-model"@
}

/// The value of a setting: the project's own variable when it is set,
/// else the provider's variable when it is set, else the default.
pub open spec fn env_with_fallback_spec(
    project_value: Option<Seq<char>>,
    fallback_value: Option<Seq<char>>,
    default: Seq<char>,
) -> Seq<char> {
    match project_value {
        Some(v) => v,
        None => match fallback_value {
            Some(v) => v,
            None => default,
        },
    }
}

/// The value of an optional string.
pub open spec fn opt_view(o: Option<&str>) -> Option<Seq<char>> {
    match o {
        Some(s) => Some(s@),
        None => None,
    }
}

/// The value of a setting: the project's own variable when it is set,
/// else the provider's variable when it is set, else the default.
pub fn env_with_fallback(project_value: Option<&str>, fallback_value: Option<&str>, default: &str) -> (r:
    String)
    ensures
        r@ == env_with_fallback_spec(opt_view(project_value), opt_view(fallback_value), default@),
{
    match project_value {
        Some(v) => String::from_str(v),
        None => match fallback_value {
            Some(v) => String::from_str(v),
            None => String::from_str(default),
        },
    }
}

/// The configured base URLs and models of the two providers.
pub struct ProviderSettings {
    pub ollama_base_url: String,
    pub ollama_model: String,
    pub llama_cpp_base_url: String,
    pub llama_cpp_model: String,
}

impl ProviderSettings {
    /// The settings when nothing is configured.
    pub fn defaults() -> (s: ProviderSettings)
        ensures
            s.ollama_base_url@ == default_ollama_base_url(),
            s.ollama_model@ == default_ollama_model(),
            s.llama_cpp_base_url@ == default_llama_cpp_base_url(),
            s.llama_cpp_model@ == default_llama_cpp_model(),
    {
        ProviderSettings {
            ollama_base_url: String::from_str("http://localhost:11434"),
            ollama_model: String::from_str("llama3.2"),
            llama_cpp_base_url: String::from_str("http://localhost:8080"),
            llama_cpp_model: String::from_str("local-model"),
        }
    }
}

/// Whether a provider name selects llama.cpp (in any ASCII case).
pub open spec fn is_llama_cpp_name(name: Seq<char>) -> bool {
    let l = to_ascii_lowercase_spec(name);
    l == "llama.cpp"@ || l == "llamacpp"@ || l == "llama-cpp"@
}

/// Whether a provider name selects llama.cpp (in any ASCII case).
pub fn names_llama_cpp(name: &str) -> (b: bool)
    ensures
        b == is_llama_cpp_name(name@),
{
    let l = lowercase_chars(name);
    let a = chars_of("llama.cpp");
    let b = chars_of("llamacpp");
    let c = chars_of("llama-cpp");
    crate::text::chars_eq(l.as_slice(), a.as_slice()) || crate::text::chars_eq(
        l.as_slice(),
        b.as_slice(),
    ) || crate::text::chars_eq(l.as_slice(), c.as_slice())
}

/// `s` without its trailing `/` characters.
pub open spec fn trim_end_slashes(s: Seq<char>) -> Seq<char>
    decreases s.len(),
{
    if s.len() > 0 && s.last() == '/' {
        trim_end_slashes(s.drop_last())
    } else {
        s
    }
}

/// `str::trim_end_matches('/')`.
pub fn trim_end_matches_slash(s: &str) -> (r: String)
    ensures
        r@ == trim_end_slashes(s@),
{
    let cs = chars_of(s);
    let mut j = cs.len();
    assert(cs@.take(j as int) =~= cs@);
    while j > 0 && cs[j - 1] == '/'
        invariant
            j <= cs@.len(),
            cs@ == s@,
            trim_end_slashes(s@) == trim_end_slashes(cs@.take(j as int)),
        decreases j,
    {
        assert(cs@.take(j as int).drop_last() =~= cs@.take(j - 1));
        j = j - 1;
    }
    let r = string_from_chars(&cs[0..j]);
    assert(r@ =~= cs@.take(j as int));
    r
}

/// An Ollama server.
pub struct OllamaProvider {
    /// The server's base URL, without trailing slashes.
    pub base_url: String,
}

/// A llama.cpp server.
pub struct LlamaCppProvider {
    /// The server's base URL, without trailing slashes.
    pub base_url: String,
}

impl OllamaProvider {
    /// The configured Ollama server.
    pub fn from_settings(settings: &ProviderSettings) -> (p: OllamaProvider)
        ensures
            p.base_url@ == trim_end_slashes(settings.ollama_base_url@),
    {
        OllamaProvider { base_url: trim_end_matches_slash(settings.ollama_base_url.as_str()) }
    }

    /// The chat endpoint.
    pub fn chat_url(&self) -> (u: String)
        ensures
            u@ == self.base_url@ + "/api/chat"@,
    {
        self.base_url.clone().concat("/api/chat")
    }

    /// The model list endpoint.
    pub fn tags_url(&self) -> (u: String)
        ensures
            u@ == self.base_url@ + "/api/tags"@,
    {
        self.base_url.clone().concat("/api/tags")
    }
}

impl LlamaCppProvider {
    /// The configured llama.cpp server.
    pub fn from_settings(settings: &ProviderSettings) -> (p: LlamaCppProvider)
        ensures
            p.base_url@ == trim_end_slashes(settings.llama_cpp_base_url@),
    {
        LlamaCppProvider {
            base_url: trim_end_matches_slash(settings.llama_cpp_base_url.as_str()),
        }
    }

    /// The chat endpoint.
    pub fn chat_url(&self) -> (u: String)
        ensures
            u@ == self.base_url@ + "/v1/chat/completions"@,
    {
        self.base_url.clone().concat("/v1/chat/completions")
    }

    /// The model list endpoint.
    pub fn models_url(&self) -> (u: String)
        ensures
            u@ == self.base_url@ + "/v1/models"@,
    {
        self.base_url.clone().concat("/v1/models")
    }
}

/// One of the supported local providers.
pub enum LocalProvider {
    Ollama(OllamaProvider),
    LlamaCpp(LlamaCppProvider),
}

/// The display name of a provider: `llama.cpp` for names that select
/// llama.cpp, `Ollama` for every other name.
pub open spec fn provider_name_for(name: Seq<char>) -> Seq<char> {
    if is_llama_cpp_name(name) {
        "llama.cpp"@
    } else {
        "Ollama"@
    }
}

/// The default model of the provider that `name` selects.
pub open spec fn default_model_spec(name: Seq<char>, settings: ProviderSettings) -> Seq<char> {
    if is_llama_cpp_name(name) {
        settings.llama_cpp_model@
    } else {
        settings.ollama_model@
    }
}

/// Whether `p` is the provider that the name `name` selects under these
/// settings: llama.cpp for its names, Ollama for every other name, each at
/// its configured base URL without trailing slashes.
pub open spec fn selects_provider(name: Seq<char>, settings: ProviderSettings, p: LocalProvider) -> bool {
    if is_llama_cpp_name(name) {
        p matches LocalProvider::LlamaCpp(l) && l.base_url@ == trim_end_slashes(
            settings.llama_cpp_base_url@,
        )
    } else {
        p matches LocalProvider::Ollama(o) && o.base_url@ == trim_end_slashes(
            settings.ollama_base_url@,
        )
    }
}

impl LocalProvider {
    /// The provider that `name` selects: llama.cpp for `llama.cpp`,
    /// `llamacpp` or `llama-cpp` in any ASCII case, Ollama for any other name.
    pub fn from_name(name: &str, settings: &ProviderSettings) -> (p: LocalProvider)
        ensures
            is_llama_cpp_name(name@) ==> (p matches LocalProvider::LlamaCpp(l) && l.base_url@
                == trim_end_slashes(settings.llama_cpp_base_url@)),
            !is_llama_cpp_name(name@) ==> (p matches LocalProvider::Ollama(o) && o.base_url@
                == trim_end_slashes(settings.ollama_base_url@)),
    {
        if names_llama_cpp(name) {
            LocalProvider::LlamaCpp(LlamaCppProvider::from_settings(settings))
        } else {
            LocalProvider::Ollama(OllamaProvider::from_settings(settings))
        }
    }

    /// The provider's display name.
    pub fn name(&self) -> (n: &'static str)
        ensures
            self is Ollama ==> n@ == "Ollama"@,
            self is LlamaCpp ==> n@ == "llama.cpp"@,
    {
        match self {
            LocalProvider::Ollama(_) => "Ollama",
            LocalProvider::LlamaCpp(_) => "llama.cpp",
        }
    }

    /// The default model of the provider that `provider_name` selects.
    pub fn default_model_for(provider_name: &str, settings: &ProviderSettings) -> (m: Model)
        ensures
            m.name@ == default_model_spec(provider_name@, *settings),
    {
        if names_llama_cpp(provider_name) {
            Model::new(settings.llama_cpp_model.clone())
        } else {
            Model::new(settings.ollama_model.clone())
        }
    }

    /// The provider's chat endpoint.
    pub fn chat_url(&self) -> (u: String)
        ensures
            self matches LocalProvider::Ollama(o) ==> u@ == o.base_url@ + "/api/chat"@,
            self matches LocalProvider::LlamaCpp(l) ==> u@ == l.base_url@
                + "/v1/chat/completions"@,
    {
        match self {
            LocalProvider::Ollama(p) => p.chat_url(),
            LocalProvider::LlamaCpp(p) => p.chat_url(),
        }
    }
}

/// The advice given when a provider cannot be reached.
pub open spec fn offline_context_spec(provider: Seq<char>, action: Seq<char>, url: Seq<char>) -> Seq<
    char,
> {
    provider + " is unreachable while trying to "@ + action + " at "@ + url
        + "; make sure the provider is running and the base URL is correct"@
}

/// The advice given when a provider cannot be reached.
pub fn offline_context(provider: &str, action: &str, url: &str) -> (s: String)
    ensures
        s@ == offline_context_spec(provider@, action@, url@),
{
    String::from_str(provider).concat(" is unreachable while trying to ").concat(action).concat(
        " at ",
    ).concat(url).concat("; make sure the provider is running and the base URL is correct")
}

/// The reason phrase that `reqwest::StatusCode::canonical_reason` gives
/// for a status code, or `<unknown status code>` when it has none.
pub uninterp spec fn http_reason_text(code: u16) -> Seq<char>;

/// The `Display` text of `reqwest::StatusCode::from_u16(code)`.
/// Claimed of the crate: `from_u16` accepts every code from 100 to 999, and
/// the text is the code in decimal, a space, and the reason phrase named
/// `http_reason_text`.
#[verifier::external_body]
fn http_status_text(code: u16) -> (s: String)
    requires
        100 <= code <= 999,
    ensures
        s@ == decimal_spec(code as nat) + " "@ + http_reason_text(code),
{
    match reqwest::StatusCode::from_u16(code) {
        Ok(status) => status.to_string(),
        Err(_) => String::new(),
    }
}

/// The message for a provider reply with a failing HTTP status.
pub open spec fn http_failure_message_spec(
    provider: Seq<char>,
    action: Seq<char>,
    status: u16,
    body: Seq<char>,
) -> Seq<char> {
    let b = trim_spec(body);
    let detail = if b.len() == 0 {
        "empty response body"@
    } else {
        b
    };
    let head = provider + " "@ + action + " failed with HTTP "@ + decimal_spec(status as nat) + " "@
        + http_reason_text(status) + ": "@ + detail;
    if status == 404 {
        head + ". If this is a model error, choose an installed model with /model or pull/load the model in "@
            + provider + "."@
    } else {
        head
    }
}

/// The message for a provider reply with a failing HTTP status: the
/// status, the trimmed body (or `empty response body`), and for 404 advice
/// on choosing or loading a model.
pub fn http_failure_message(provider: &str, action: &str, status: u16, body: &str) -> (s: String)
    requires
        100 <= status <= 999,
    ensures
        s@ == http_failure_message_spec(provider@, action@, status, body@),
{
    let b = trim(body);
    let detail = if b.is_empty() {
        String::from_str("empty response body")
    } else {
        String::from_str(b)
    };
    let head = String::from_str(provider).concat(" ").concat(action).concat(
        " failed with HTTP ",
    ).concat(http_status_text(status).as_str()).concat(": ").concat(detail.as_str());
    if status == 404 {
        head.concat(
            ". If this is a model error, choose an installed model with /model or pull/load the model in ",
        ).concat(provider).concat(".")
    } else {
        head
    }
}

/// The model names kept from a discovered list: each non-empty name once,
/// in the order of its first occurrence.
pub open spec fn models_from_names_spec(names: Seq<Seq<char>>) -> Seq<Seq<char>>
    decreases names.len(),
{
    if names.len() == 0 {
        Seq::empty()
    } else {
        let prev = models_from_names_spec(names.drop_last());
        let n = names.last();
        if n.len() == 0 || prev.contains(n) {
            prev
        } else {
            prev.push(n)
        }
    }
}

/// The names of a list of models.
pub open spec fn model_names(models: Seq<Model>) -> Seq<Seq<char>> {
    models.map_values(|m: Model| m.name@)
}

/// The kept names are distinct and non-empty, every non-empty name of the
/// list is kept, and nothing else is.
pub proof fn lemma_models_from_names(names: Seq<Seq<char>>)
    ensures
        forall|x: Seq<char>|
            #[trigger] models_from_names_spec(names).contains(x) ==> names.contains(x),
        forall|i: int, j: int|
            0 <= i < j < models_from_names_spec(names).len() ==> models_from_names_spec(names)[i]
                != models_from_names_spec(names)[j],
        forall|i: int|
            0 <= i < models_from_names_spec(names).len() ==> (#[trigger] models_from_names_spec(
                names,
            )[i]).len() > 0,
        forall|i: int|
            0 <= i < names.len() && (#[trigger] names[i]).len() > 0 ==> models_from_names_spec(
                names,
            ).contains(names[i]),
    decreases names.len(),
{
    if names.len() > 0 {
        let init = names.drop_last();
        lemma_models_from_names(init);
        let prev = models_from_names_spec(init);
        let r = models_from_names_spec(names);
        assert forall|x: Seq<char>| #[trigger] r.contains(x) implies names.contains(x) by {
            let k = choose|k: int| 0 <= k < r.len() && r[k] == x;
            if k < prev.len() {
                assert(prev[k] == x);
                assert(prev.contains(x));
                assert(init.contains(x));
                let j = choose|j: int| 0 <= j < init.len() && init[j] == x;
                assert(names[j] == x);
            } else {
                assert(names[names.len() - 1] == x);
            }
        }
        assert forall|i: int| 0 <= i < names.len() && (#[trigger] names[i]).len() > 0 implies r.contains(
            names[i],
        ) by {
            if i < names.len() - 1 {
                assert(init[i] == names[i]);
                let k = choose|k: int| 0 <= k < prev.len() && prev[k] == names[i];
                assert(r[k] == names[i]);
            } else {
                if prev.contains(names[i]) {
                } else {
                    assert(r[prev.len() as int] == names[i]);
                }
            }
        }
    }
}

/// Whether some model in `models` is named `name`.
fn has_model(models: &Vec<Model>, name: &String) -> (b: bool)
    ensures
        b == model_names(models@).contains(name@),
{
    let n = models.len();
    let mut i: usize = 0;
    while i < n
        invariant
            n == models@.len(),
            i <= n,
            forall|k: int| 0 <= k < i ==> models@[k].name@ != name@,
        decreases n - i,
    {
        if models[i].name == *name {
            assert(model_names(models@)[i as int] == name@);
            return true;
        }
        i = i + 1;
    }
    assert forall|k: int| 0 <= k < model_names(models@).len() implies model_names(models@)[k]
        != name@ by {
        assert(model_names(models@)[k] == models@[k].name@);
    }
    false
}

/// The models of a discovered list of names: each non-empty name once, in
/// the order of its first occurrence.
pub fn models_from_names(names: Vec<String>) -> (models: Vec<Model>)
    ensures
        model_names(models@) == models_from_names_spec(views_of(names@)),
{
    let mut models: Vec<Model> = Vec::new();
    let n = names.len();
    let mut i: usize = 0;
    while i < n
        invariant
            n == names@.len(),
            i <= n,
            model_names(models@) == models_from_names_spec(views_of(names@).take(i as int)),
        decreases n - i,
    {
        let name = names[i].clone();
        proof {
            let t = views_of(names@).take(i + 1);
            assert(t.drop_last() =~= views_of(names@).take(i as int));
            assert(t.last() == name@);
        }
        if name.as_str().is_empty() || has_model(&models, &name) {
        } else {
            let ghost before = models@;
            models.push(Model::new(name));
            assert(model_names(models@) =~= model_names(before).push(names@[i as int]@));
        }
        i = i + 1;
    }
    assert(views_of(names@).take(n as int) =~= views_of(names@));
    models
}

/// A message in the form a provider's chat API takes.
pub struct OllamaMessage {
    pub role: String,
    pub content: String,
}

/// A message in the form llama.cpp's chat API takes.
pub struct LlamaCppMessage {
    pub role: String,
    pub content: String,
}

/// The chat API role of a message role; tool, diagnostic and reasoning
/// messages are not sent.
pub open spec fn wire_role_spec(role: MessageRole) -> Option<Seq<char>> {
    match role {
        MessageRole::System => Some("system"@),
        MessageRole::User => Some("user"@),
        MessageRole::Assistant => Some("assistant"@),
        _ => None,
    }
}

/// The chat API role of a message role.
fn wire_role(role: MessageRole) -> (r: Option<&'static str>)
    ensures
        match wire_role_spec(role) {
            Some(s) => r matches Some(x) && x@ == s,
            None => r is None,
        },
{
    match role {
        MessageRole::System => Some("system"),
        MessageRole::User => Some("user"),
        MessageRole::Assistant => Some("assistant"),
        _ => None,
    }
}

/// The Ollama form of a transcript message; `None` for messages that are
/// not sent.
pub fn ollama_message_from_message(message: Message) -> (r: Option<OllamaMessage>)
    ensures
        match wire_role_spec(message.role) {
            Some(role) => r matches Some(m) && m.role@ == role && m.content == message.content,
            None => r is None,
        },
{
    match wire_role(message.role) {
        Some(role) => Some(OllamaMessage { role: String::from_str(role), content: message.content }),
        None => None,
    }
}

/// The llama.cpp form of a transcript message; `None` for messages that are
/// not sent.
pub fn llama_cpp_message_from_message(message: Message) -> (r: Option<LlamaCppMessage>)
    ensures
        match wire_role_spec(message.role) {
            Some(role) => r matches Some(m) && m.role@ == role && m.content == message.content,
            None => r is None,
        },
{
    match wire_role(message.role) {
        Some(role) => Some(
            LlamaCppMessage { role: String::from_str(role), content: message.content },
        ),
        None => None,
    }
}

/// What a provider reports while it streams a reply.
pub enum StreamEvent {
    /// The reply's status arrived after this many milliseconds.
    InitialResponse { status: u16, initial_response_time_ms: u128 },
    /// A piece of reasoning text.
    ReasoningChunk(String),
    /// A piece of the reply.
    Chunk(String),
    /// The reply is complete after this many milliseconds.
    Complete { total_time_ms: u128 },
}

/// The text pieces of a stream event: `(true, text)` for reasoning,
/// `(false, text)` for the reply.
pub open spec fn chunk_view(e: StreamEvent) -> Option<(bool, Seq<char>)> {
    match e {
        StreamEvent::ReasoningChunk(s) => Some((true, s@)),
        StreamEvent::Chunk(s) => Some((false, s@)),
        _ => None,
    }
}

/// The text pieces of stream events.
pub open spec fn chunks_view(v: Seq<StreamEvent>) -> Seq<Option<(bool, Seq<char>)>> {
    v.map_values(|e: StreamEvent| chunk_view(e))
}

/// The message of one line of an Ollama stream.
pub struct OllamaResponseMessage {
    pub content: String,
    pub thinking: Option<String>,
}

/// The events of one piece of a reply: its non-empty reasoning, then its
/// non-empty text.
pub open spec fn piece_events_spec(reasoning: Option<Seq<char>>, content: Option<Seq<char>>) -> Seq<
    Option<(bool, Seq<char>)>,
> {
    let r = match reasoning {
        Some(t) => if t.len() > 0 {
            seq![Some((true, t))]
        } else {
            Seq::empty()
        },
        None => Seq::empty(),
    };
    let c = match content {
        Some(t) => if t.len() > 0 {
            seq![Some((false, t))]
        } else {
            Seq::empty()
        },
        None => Seq::empty(),
    };
    r + c
}

/// The value of an optional string.
pub open spec fn opt_string_view(o: Option<String>) -> Option<Seq<char>> {
    match o {
        Some(s) => Some(s@),
        None => None,
    }
}

/// Appends the events of one piece of a reply.
fn push_piece_events(events: &mut Vec<StreamEvent>, reasoning: Option<String>, content: Option<String>)
    ensures
        chunks_view(final(events)@) == chunks_view(old(events)@) + piece_events_spec(
            opt_string_view(reasoning),
            opt_string_view(content),
        ),
{
    let ghost start = chunks_view(events@);
    let ghost r = opt_string_view(reasoning);
    let ghost c = opt_string_view(content);
    match reasoning {
        Some(t) => if !t.as_str().is_empty() {
            let ghost tv = t@;
            events.push(StreamEvent::ReasoningChunk(t));
            assert(chunks_view(events@) =~= start + seq![Some((true, tv))]);
        },
        None => {},
    }
    let ghost mid = chunks_view(events@);
    match content {
        Some(t) => if !t.as_str().is_empty() {
            let ghost tv = t@;
            events.push(StreamEvent::Chunk(t));
            assert(chunks_view(events@) =~= mid + seq![Some((false, tv))]);
        },
        None => {},
    }
    assert(chunks_view(events@) =~= start + piece_events_spec(r, c));
}

/// The events of one line of an Ollama stream: the message's non-empty
/// thinking, then its non-empty content; nothing without a message.
pub fn ollama_stream_events(message: Option<OllamaResponseMessage>) -> (events: Vec<StreamEvent>)
    ensures
        chunks_view(events@) == match message {
            Some(m) => piece_events_spec(opt_string_view(m.thinking), Some(m.content@)),
            None => Seq::empty(),
        },
{
    let mut events: Vec<StreamEvent> = Vec::new();
    assert(chunks_view(events@) =~= Seq::empty());
    match message {
        Some(m) => {
            push_piece_events(&mut events, m.thinking, Some(m.content));
            assert(chunks_view(events@) =~= piece_events_spec(opt_string_view(m.thinking), Some(m.content@)));
        },
        None => {},
    }
    events
}

/// The delta of one choice of a llama.cpp stream line.
pub struct LlamaCppDelta {
    pub content: Option<String>,
    pub reasoning_content: Option<String>,
}

/// The events of the choices of a llama.cpp stream line, choice after
/// choice.
pub open spec fn llama_cpp_events_spec(choices: Seq<LlamaCppDelta>) -> Seq<Option<(bool, Seq<char>)>>
    decreases choices.len(),
{
    if choices.len() == 0 {
        Seq::empty()
    } else {
        llama_cpp_events_spec(choices.drop_last()) + piece_events_spec(
            opt_string_view(choices.last().reasoning_content),
            opt_string_view(choices.last().content),
        )
    }
}

/// The events of the choices of a llama.cpp stream line: for each choice,
/// its non-empty reasoning, then its non-empty content.
pub fn llama_cpp_stream_events(choices: Vec<LlamaCppDelta>) -> (events: Vec<StreamEvent>)
    ensures
        chunks_view(events@) == llama_cpp_events_spec(choices@),
{
    let mut events: Vec<StreamEvent> = Vec::new();
    let ghost all = choices@;
    assert(chunks_view(events@) =~= Seq::empty());
    assert(all.take(0) =~= Seq::<LlamaCppDelta>::empty());
    for c in it: choices.into_iter()
        invariant
            it.seq() == all,
            chunks_view(events@) == llama_cpp_events_spec(all.take(it.index() as int)),
    {
        let ghost i = it.index();
        assert(all.take(i + 1).drop_last() =~= all.take(i as int));
        assert(all.take(i + 1).last() == c);
        push_piece_events(&mut events, c.reasoning_content, c.content);
    }
    let ghost n = all.len();
    assert(all.take(n as int) =~= all);
    events
}


/// The JSON payload of a line of a llama.cpp stream: the trimmed text after
/// `data:`; `None` for other lines and for the `[DONE]` marker.
pub open spec fn llama_cpp_stream_payload_spec(line: Seq<char>) -> Option<Seq<char>> {
    if line.len() == 0 || !starts_with_spec(line, "data:"@) {
        None
    } else {
        let d = trim_spec(line.skip("data:"@.len() as int));
        if d == "[DONE]"@ {
            None
        } else {
            Some(d)
        }
    }
}

/// The JSON payload of a line of a llama.cpp stream.
pub fn llama_cpp_stream_payload(line: &str) -> (r: Option<&str>)
    ensures
        match llama_cpp_stream_payload_spec(line@) {
            Some(d) => r matches Some(x) && x@ == d,
            None => r is None,
        },
{
    if line.is_empty() {
        return None;
    }
    let cs = chars_of(line);
    let prefix = chars_of("data:");
    if !starts_with(cs.as_slice(), prefix.as_slice()) {
        return None;
    }
    let rest = line.substring_char(prefix.len(), cs.len());
    assert(rest@ =~= line@.skip("data:"@.len() as int));
    let data = trim(rest);
    if str_eq(data, "[DONE]") {
        None
    } else {
        Some(data)
    }
}

/// The buffer after one more character of a stream: a newline completes
/// the current line, which is kept trimmed.
pub open spec fn line_split_step(lines: Seq<Seq<char>>, current: Seq<char>, c: char) -> (
    Seq<Seq<char>>,
    Seq<char>,
) {
    if c == '\n' {
        (lines.push(trim_spec(current)), Seq::empty())
    } else {
        (lines, current.push(c))
    }
}

/// The trimmed complete lines of `text` and the text after its last
/// newline.
pub open spec fn line_split_spec(text: Seq<char>) -> (Seq<Seq<char>>, Seq<char>)
    decreases text.len(),
{
    if text.len() == 0 {
        (Seq::empty(), Seq::empty())
    } else {
        let before = line_split_spec(text.drop_last());
        line_split_step(before.0, before.1, text.last())
    }
}

/// The number of newlines in `text`.
pub open spec fn newline_count(text: Seq<char>) -> nat
    decreases text.len(),
{
    if text.len() == 0 {
        0
    } else {
        newline_count(text.drop_last()) + if text.last() == '\n' {
            1nat
        } else {
            0nat
        }
    }
}

/// Cutting stream text gives one line per newline, and what waits for more
/// input holds no newline: it is the text after the last newline.
pub proof fn lemma_line_split(text: Seq<char>)
    ensures
        line_split_spec(text).0.len() == newline_count(text),
        !line_split_spec(text).1.contains('\n'),
        line_split_spec(text).1.len() <= text.len(),
        line_split_spec(text).1 == text.skip(text.len() - line_split_spec(text).1.len()),
    decreases text.len(),
{
    if text.len() > 0 {
        let init = text.drop_last();
        lemma_line_split(init);
        let (_, cur) = line_split_spec(init);
        let c = text.last();
        if c == '\n' {
            assert(text.skip(text.len() as int) =~= Seq::<char>::empty());
        } else {
            assert forall|k: int| 0 <= k < cur.push(c).len() implies cur.push(c)[k] != '\n' by {
                if k < cur.len() {
                    assert(!cur.contains('\n'));
                    assert(cur.push(c)[k] == cur[k]);
                }
            }
            assert(cur.push(c) =~= text.skip(text.len() - (cur.len() + 1)));
        }
    } else {
        assert(text.skip(0) =~= text);
    }
}

/// Text without a newline only adds to what waits for more input.
proof fn lemma_line_split_no_newline(text: Seq<char>, a: Seq<char>)
    requires
        !a.contains('\n'),
    ensures
        line_split_spec(text + a) == (line_split_spec(text).0, line_split_spec(text).1 + a),
    decreases a.len(),
{
    if a.len() == 0 {
        assert(text + a =~= text);
        assert(line_split_spec(text).1 + a =~= line_split_spec(text).1);
    } else {
        let init = a.drop_last();
        assert(!init.contains('\n')) by {
            if init.contains('\n') {
                let k = choose|k: int| 0 <= k < init.len() && init[k] == '\n';
                assert(a[k] == '\n');
            }
        }
        lemma_line_split_no_newline(text, init);
        assert((text + a).drop_last() =~= text + init);
        assert((text + a).last() == a.last());
        assert(a.last() != '\n') by {
            assert(a[a.len() - 1] == a.last());
        }
        assert(line_split_spec(text).1 + init.push(a.last()) =~= (line_split_spec(text).1 + init).push(
            a.last(),
        ));
        assert(init.push(a.last()) =~= a);
    }
}

/// Each newline completes one line: exactly the text since the previous
/// newline (what was waiting, then the new text), with only the white
/// space at its two ends removed; nothing waits after it. Lines before it
/// stay as they were.
pub proof fn lemma_line_split_newline(text: Seq<char>, a: Seq<char>)
    requires
        !a.contains('\n'),
    ensures
        line_split_spec(text + a.push('\n')) == (
            line_split_spec(text).0.push(trim_spec(line_split_spec(text).1 + a)),
            Seq::<char>::empty(),
        ),
        line_split_spec(a.push('\n')) == (seq![trim_spec(a)], Seq::<char>::empty()),
{
    lemma_line_split_newline_after(text, a);
    let e = Seq::<char>::empty();
    lemma_line_split_newline_after(e, a);
    assert(e + a.push('\n') =~= a.push('\n'));
    assert(line_split_spec(e).1 + a =~= a);
    assert(line_split_spec(e).0.push(trim_spec(a)) =~= seq![trim_spec(a)]);
}

/// A newline after `text` and then `a` completes the line of the waiting
/// text and `a`.
proof fn lemma_line_split_newline_after(text: Seq<char>, a: Seq<char>)
    requires
        !a.contains('\n'),
    ensures
        line_split_spec(text + a.push('\n')) == (
            line_split_spec(text).0.push(trim_spec(line_split_spec(text).1 + a)),
            Seq::<char>::empty(),
        ),
{
    lemma_line_split_no_newline(text, a);
    assert((text + a.push('\n')).drop_last() =~= text + a);
    assert((text + a.push('\n')).last() == '\n');
}

/// Cuts buffered stream text into its trimmed complete lines and the text
/// after its last newline, which waits for more input.
pub fn split_complete_lines(buffered: &str) -> (r: (Vec<String>, String))
    ensures
        (views_of(r.0@), r.1@) == line_split_spec(buffered@),
{
    let cs = chars_of(buffered);
    let mut lines: Vec<String> = Vec::new();
    let mut current: Vec<char> = Vec::new();
    let n = cs.len();
    let mut i: usize = 0;
    assert(views_of(lines@) =~= Seq::<Seq<char>>::empty());
    assert(buffered@.take(0) =~= Seq::<char>::empty());
    while i < n
        invariant
            n == cs@.len(),
            cs@ == buffered@,
            i <= n,
            (views_of(lines@), current@) == line_split_spec(buffered@.take(i as int)),
        decreases n - i,
    {
        let c = cs[i];
        proof {
            assert(buffered@.take(i + 1).drop_last() =~= buffered@.take(i as int));
            assert(buffered@.take(i + 1).last() == c);
        }
        if c == '\n' {
            let (a, b) = trim_bounds(current.as_slice());
            let line = string_from_chars(&current.as_slice()[a..b]);
            assert(line@ =~= trim_spec(current@));
            proof {
                lemma_views_of_push(lines@, line);
            }
            lines.push(line);
            current = Vec::new();
        } else {
            current.push(c);
        }
        i = i + 1;
    }
    assert(buffered@.take(n as int) =~= buffered@);
    let rest = string_from_chars(current.as_slice());
    (lines, rest)
}


/// The reply text of a stream: its reply pieces (not its reasoning), in
/// order, joined.
pub open spec fn reply_text_spec(chunks: Seq<Option<(bool, Seq<char>)>>) -> Seq<char>
    decreases chunks.len(),
{
    if chunks.len() == 0 {
        Seq::empty()
    } else {
        reply_text_spec(chunks.drop_last()) + match chunks.last() {
            Some((false, t)) => t,
            _ => Seq::empty(),
        }
    }
}

/// The assistant's reply that a whole stream of events makes: the text of
/// its reply pieces, joined.
pub fn chat_response_from_events(events: &Vec<StreamEvent>) -> (r: ChatResponse)
    ensures
        r.message.role == MessageRole::Assistant,
        r.message.content@ == reply_text_spec(chunks_view(events@)),
{
    let mut content = String::new();
    let n = events.len();
    let mut i: usize = 0;
    assert(chunks_view(events@).take(0) =~= Seq::<Option<(bool, Seq<char>)>>::empty());
    while i < n
        invariant
            n == events@.len(),
            i <= n,
            content@ == reply_text_spec(chunks_view(events@).take(i as int)),
        decreases n - i,
    {
        let ghost cv = chunks_view(events@);
        proof {
            assert(cv.take(i + 1).drop_last() =~= cv.take(i as int));
            assert(cv.take(i + 1).last() == chunk_view(events@[i as int]));
        }
        match &events[i] {
            StreamEvent::Chunk(t) => {
                content = content.concat(t.as_str());
            },
            _ => {},
        }
        i = i + 1;
    }
    assert(chunks_view(events@).take(n as int) =~= chunks_view(events@));
    ChatResponse { message: Message { role: MessageRole::Assistant, content } }
}

/// Where a streamed chat reply is.
#[derive(Clone, Copy, Debug, PartialEq, Eq, Structural)]
pub enum StreamPhase {
    /// The request is sent; its response has not arrived.
    AwaitingResponse,
    /// The response has this failing status; its body is awaited.
    FailedStatus { status: u16 },
    /// The body of a successful response is being read.
    Streaming,
    /// Nothing more is read.
    Finished,
}

/// What the runner of a streamed chat reply observed.
pub enum StreamInput {
    /// The response arrived with this status after this many milliseconds.
    Response { status: u16, elapsed_ms: u128 },
    /// The text of the body of a failed response.
    ErrorBody(String),
    /// The next chunk of the body.
    Chunk(Vec<u8>),
    /// The body ended after this many milliseconds.
    End { elapsed_ms: u128 },
}

/// An observation, as values.
pub enum StreamInputView {
    Response { status: u16, elapsed_ms: u128 },
    ErrorBody(Seq<char>),
    Chunk(Seq<u8>),
    End { elapsed_ms: u128 },
}

impl View for StreamInput {
    type V = StreamInputView;

    open spec fn view(&self) -> StreamInputView {
        match self {
            StreamInput::Response { status, elapsed_ms } => StreamInputView::Response {
                status: *status,
                elapsed_ms: *elapsed_ms,
            },
            StreamInput::ErrorBody(b) => StreamInputView::ErrorBody(b@),
            StreamInput::Chunk(c) => StreamInputView::Chunk(c@),
            StreamInput::End { elapsed_ms } => StreamInputView::End { elapsed_ms: *elapsed_ms },
        }
    }
}

/// What the runner does next.
pub enum StreamNext {
    /// Read the body of the failed response as text.
    ReadErrorBody,
    /// Read the next chunk of the body.
    ReadChunk,
    /// Stop with this error.
    Fail(String),
    /// Stop: the reply is complete.
    Finished,
}

/// What the runner does next, as values.
pub enum StreamNextView {
    ReadErrorBody,
    ReadChunk,
    Fail(Seq<char>),
    Finished,
}

/// A stream event, as values.
pub enum StreamEventView {
    InitialResponse { status: u16, initial_response_time_ms: u128 },
    ReasoningChunk(Seq<char>),
    Chunk(Seq<char>),
    Complete { total_time_ms: u128 },
}

/// A stream event as values.
pub open spec fn stream_event_view(e: StreamEvent) -> StreamEventView {
    match e {
        StreamEvent::InitialResponse { status, initial_response_time_ms } =>
            StreamEventView::InitialResponse { status, initial_response_time_ms },
        StreamEvent::ReasoningChunk(s) => StreamEventView::ReasoningChunk(s@),
        StreamEvent::Chunk(s) => StreamEventView::Chunk(s@),
        StreamEvent::Complete { total_time_ms } => StreamEventView::Complete { total_time_ms },
    }
}

/// Stream events as values.
pub open spec fn stream_events_view(v: Seq<StreamEvent>) -> Seq<StreamEventView> {
    v.map_values(|e: StreamEvent| stream_event_view(e))
}

/// What one observation leads to: the events to report first, the lines of
/// the body to decode and report the events of, in order, the events to
/// report after them, and what to do next.
pub struct StreamStep {
    pub before: Vec<StreamEvent>,
    pub lines: Vec<String>,
    pub after: Vec<StreamEvent>,
    pub next: StreamNext,
}

/// A step, as values.
pub struct StreamStepView {
    pub before: Seq<StreamEventView>,
    pub lines: Seq<Seq<char>>,
    pub after: Seq<StreamEventView>,
    pub next: StreamNextView,
}

impl View for StreamStep {
    type V = StreamStepView;

    open spec fn view(&self) -> StreamStepView {
        StreamStepView {
            before: stream_events_view(self.before@),
            lines: views_of(self.lines@),
            after: stream_events_view(self.after@),
            next: match self.next {
                StreamNext::ReadErrorBody => StreamNextView::ReadErrorBody,
                StreamNext::ReadChunk => StreamNextView::ReadChunk,
                StreamNext::Fail(m) => StreamNextView::Fail(m@),
                StreamNext::Finished => StreamNextView::Finished,
            },
        }
    }
}

/// A streamed chat reply from a provider, as far as it has come: the
/// provider's name, the phase, and the text of the body after its last
/// newline.
pub struct ChatStream {
    provider: &'static str,
    phase: StreamPhase,
    buffered: String,
}

/// A streamed chat reply, as values.
pub struct ChatStreamView {
    pub provider: Seq<char>,
    pub phase: StreamPhase,
    pub buffered: Seq<char>,
}

impl View for ChatStream {
    type V = ChatStreamView;

    closed spec fn view(&self) -> ChatStreamView {
        ChatStreamView { provider: self.provider@, phase: self.phase, buffered: self.buffered@ }
    }
}

/// Whether a status is a success (`StatusCode::is_success`: 200 to 299).
pub open spec fn is_success_status(status: u16) -> bool {
    200 <= status <= 299
}

/// Whether a status is a success: 200 to 299.
pub fn is_success(status: u16) -> (b: bool)
    ensures
        b == is_success_status(status),
{
    200 <= status && status <= 299
}

/// The JSON payload of a line of an Ollama stream: the line, unless it is
/// empty.
pub fn ollama_stream_payload(line: &str) -> (r: Option<&str>)
    ensures
        line@.len() == 0 ==> r is None,
        line@.len() > 0 ==> r == Some(line),
{
    if line.is_empty() {
        None
    } else {
        Some(line)
    }
}

/// Whether the stream, in `phase`, is waiting for the observation `input`:
/// the response first, then the body of a failed response, or the chunks
/// and end of the body of a successful one.
pub open spec fn input_expected(phase: StreamPhase, input: StreamInputView) -> bool {
    match input {
        StreamInputView::Response { .. } => phase is AwaitingResponse,
        StreamInputView::ErrorBody(_) => phase is FailedStatus,
        StreamInputView::Chunk(_) => phase is Streaming,
        StreamInputView::End { .. } => phase is Streaming,
    }
}

/// A step with no output.
pub open spec fn quiet_step(next: StreamNextView) -> StreamStepView {
    StreamStepView { before: Seq::empty(), lines: Seq::empty(), after: Seq::empty(), next }
}

/// The stream after an observation it waits for, and what that leads to:
/// - the response is reported; a successful one is read chunk by chunk, the
///   body of a failed one is read to report the failure;
/// - the body of a failed response ends the stream with the HTTP failure
///   message of a chat request;
/// - a chunk that is not valid UTF-8 ends the stream with an error; other
///   chunks join the text kept so far, and its complete lines, trimmed, are
///   decoded, keeping the text after the last newline;
/// - the end of the body decodes the kept text, trimmed, as the last line and
///   then reports the reply complete.
pub open spec fn stream_step_spec(s: ChatStreamView, input: StreamInputView) -> (
    ChatStreamView,
    StreamStepView,
) {
    match input {
        StreamInputView::Response { status, elapsed_ms } => (
            ChatStreamView {
                phase: if is_success_status(status) {
                    StreamPhase::Streaming
                } else {
                    StreamPhase::FailedStatus { status }
                },
                ..s
            },
            StreamStepView {
                before: seq![
                    StreamEventView::InitialResponse {
                        status,
                        initial_response_time_ms: elapsed_ms,
                    },
                ],
                lines: Seq::empty(),
                after: Seq::empty(),
                next: if is_success_status(status) {
                    StreamNextView::ReadChunk
                } else {
                    StreamNextView::ReadErrorBody
                },
            },
        ),
        StreamInputView::ErrorBody(body) => match s.phase {
            StreamPhase::FailedStatus { status } => (
                ChatStreamView { phase: StreamPhase::Finished, ..s },
                quiet_step(
                    StreamNextView::Fail(
                        http_failure_message_spec(s.provider, "chat request"@, status, body),
                    ),
                ),
            ),
            _ => (s, quiet_step(StreamNextView::Finished)),
        },
        StreamInputView::Chunk(bytes) => if !valid_utf8(bytes) {
            (
                ChatStreamView { phase: StreamPhase::Finished, ..s },
                quiet_step(
                    StreamNextView::Fail(
                        s.provider + " stream response was not valid UTF-8: "@ + utf8_error_text(
                            bytes,
                        ),
                    ),
                ),
            )
        } else {
            let (lines, rest) = line_split_spec(s.buffered + decode_utf8(bytes));
            (
                ChatStreamView { buffered: rest, ..s },
                StreamStepView {
                    before: Seq::empty(),
                    lines,
                    after: Seq::empty(),
                    next: StreamNextView::ReadChunk,
                },
            )
        },
        StreamInputView::End { elapsed_ms } => (
            ChatStreamView { phase: StreamPhase::Finished, buffered: Seq::empty(), ..s },
            StreamStepView {
                before: Seq::empty(),
                lines: seq![trim_spec(s.buffered)],
                after: seq![StreamEventView::Complete { total_time_ms: elapsed_ms }],
                next: StreamNextView::Finished,
            },
        ),
    }
}

impl ChatStream {
    #[verifier::type_invariant]
    spec fn inv(self) -> bool {
        self.phase matches StreamPhase::FailedStatus { status } ==> 100 <= status <= 999
    }

    /// A chat request to the provider named `provider` has been sent.
    pub fn new(provider: &'static str) -> (s: ChatStream)
        ensures
            s@ == (ChatStreamView {
                provider: provider@,
                phase: StreamPhase::AwaitingResponse,
                buffered: Seq::empty(),
            }),
    {
        ChatStream { provider, phase: StreamPhase::AwaitingResponse, buffered: String::new() }
    }

    /// Whether the stream is waiting for the observation `input`.
    pub fn expects(&self, input: &StreamInput) -> (b: bool)
        ensures
            b == input_expected(self@.phase, input@),
    {
        match input {
            StreamInput::Response { .. } => self.phase == StreamPhase::AwaitingResponse,
            StreamInput::ErrorBody(_) => match self.phase {
                StreamPhase::FailedStatus { .. } => true,
                _ => false,
            },
            StreamInput::Chunk(_) => self.phase == StreamPhase::Streaming,
            StreamInput::End { .. } => self.phase == StreamPhase::Streaming,
        }
    }

    /// Takes an observation the stream waits for; a response's status is a
    /// valid HTTP status code (100 to 999).
    pub fn step(&mut self, input: StreamInput) -> (r: StreamStep)
        requires
            input_expected(old(self)@.phase, input@),
            input matches StreamInput::Response { status, .. } ==> 100 <= status <= 999,
        ensures
            (final(self)@, r@) == stream_step_spec(old(self)@, input@),
    {
        proof {
            use_type_invariant(&*self);
        }
        let ghost before = stream_events_view(Seq::<StreamEvent>::empty());
        assert(before =~= Seq::<StreamEventView>::empty());
        assert(views_of(Seq::<String>::empty()) =~= Seq::<Seq<char>>::empty());
        match input {
            StreamInput::Response { status, elapsed_ms } => {
                let success = is_success(status);
                *self = ChatStream {
                    provider: self.provider,
                    phase: if success {
                        StreamPhase::Streaming
                    } else {
                        StreamPhase::FailedStatus { status }
                    },
                    buffered: self.buffered.clone(),
                };
                let mut report: Vec<StreamEvent> = Vec::new();
                report.push(
                    StreamEvent::InitialResponse { status, initial_response_time_ms: elapsed_ms },
                );
                assert(stream_events_view(report@) =~= seq![
                    StreamEventView::InitialResponse {
                        status,
                        initial_response_time_ms: elapsed_ms,
                    },
                ]);
                StreamStep {
                    before: report,
                    lines: Vec::new(),
                    after: Vec::new(),
                    next: if success {
                        StreamNext::ReadChunk
                    } else {
                        StreamNext::ReadErrorBody
                    },
                }
            },
            StreamInput::ErrorBody(body) => {
                let status = match self.phase {
                    StreamPhase::FailedStatus { status } => status,
                    _ => 100,
                };
                let message = http_failure_message(self.provider, "chat request", status, body.as_str());
                *self = ChatStream {
                    provider: self.provider,
                    phase: StreamPhase::Finished,
                    buffered: self.buffered.clone(),
                };
                StreamStep {
                    before: Vec::new(),
                    lines: Vec::new(),
                    after: Vec::new(),
                    next: StreamNext::Fail(message),
                }
            },
            StreamInput::Chunk(bytes) => match utf8_str(bytes.as_slice()) {
                Err(error) => {
                    let message = String::from_str(self.provider).concat(
                        " stream response was not valid UTF-8: ",
                    ).concat(error.as_str());
                    *self = ChatStream {
                        provider: self.provider,
                        phase: StreamPhase::Finished,
                        buffered: self.buffered.clone(),
                    };
                    StreamStep {
                        before: Vec::new(),
                        lines: Vec::new(),
                        after: Vec::new(),
                        next: StreamNext::Fail(message),
                    }
                },
                Ok(text) => {
                    let joined = self.buffered.clone().concat(text);
                    let (lines, rest) = split_complete_lines(joined.as_str());
                    *self = ChatStream { provider: self.provider, phase: self.phase, buffered: rest };
                    StreamStep { before: Vec::new(), lines, after: Vec::new(), next: StreamNext::ReadChunk }
                },
            },
            StreamInput::End { elapsed_ms } => {
                let tail = String::from_str(trim(self.buffered.as_str()));
                let mut lines: Vec<String> = Vec::new();
                proof {
                    lemma_views_of_push(lines@, tail);
                }
                lines.push(tail);
                let mut after: Vec<StreamEvent> = Vec::new();
                after.push(StreamEvent::Complete { total_time_ms: elapsed_ms });
                assert(stream_events_view(after@) =~= seq![
                    StreamEventView::Complete { total_time_ms: elapsed_ms },
                ]);
                assert(views_of(lines@) =~= seq![trim_spec(old(self)@.buffered)]);
                *self = ChatStream {
                    provider: self.provider,
                    phase: StreamPhase::Finished,
                    buffered: String::new(),
                };
                StreamStep { before: Vec::new(), lines, after, next: StreamNext::Finished }
            },
        }
    }
}

} // verus!
