//! The decisions of the application's commands: checking an API key,
//! listing LM Studio models, answering a translation, saving settings and
//! testing a translation of the clipboard.

use vstd::prelude::*;
use crate::json::{Json, JsonView, json_parse, parse_json, views};
use crate::lm_studio::TranslationResult;
use crate::text::{
    append_str, chars_of, contains_seq, contains_str, is_blank, is_blank_str, string_of,
    strip_trailing, strip_trailing_chars, trim, trim_chars,
};
use crate::url_query::{api_version_of, extract_api_version_from_url};

verus! {

/// The HTTP method of a request.
#[derive(Clone, Copy, Debug, PartialEq, Eq, Structural)]
pub enum HttpMethod {
    Get,
    Post,
}

/// A request that checks whether a provider accepts a key or is reachable.
pub struct ValidationRequest {
    pub method: HttpMethod,
    pub url: String,
    pub headers: Vec<(String, String)>,
    /// The JSON text of the body, if any.
    pub body: Option<String>,
    /// What precedes the transport error in the message when the request fails.
    pub failure_prefix: String,
}

/// The texts of a validation request.
pub struct ValidationPlan {
    pub method: HttpMethod,
    pub url: Seq<char>,
    pub headers: Seq<(Seq<char>, Seq<char>)>,
    pub body: Option<Seq<char>>,
    pub failure_prefix: Seq<char>,
}

/// The text of an optional string.
pub open spec fn opt_text(o: Option<String>) -> Option<Seq<char>> {
    match o {
        Some(s) => Some(s@),
        None => None,
    }
}

impl ValidationRequest {
    /// The texts of the request.
    pub open spec fn plan(&self) -> ValidationPlan {
        ValidationPlan {
            method: self.method,
            url: self.url@,
            headers: self.headers@.map_values(|h: (String, String)| (h.0@, h.1@)),
            body: opt_text(self.body),
            failure_prefix: self.failure_prefix@,
        }
    }
}

/// The API version an Azure OpenAI check uses: the given one, else the one in
/// the endpoint's query, else 2025-01-01-preview.
pub open spec fn azure_api_version(api_version: Option<Seq<char>>, endpoint: Seq<char>) -> Seq<char> {
    match api_version {
        Some(v) => v,
        None => match api_version_of(endpoint) {
            Some(v) => v,
            None => "2025-01-01-preview"@,
        },
    }
}

/// The request that checks a provider, or the message of why none can be made.
pub open spec fn validation_plan(
    provider: Seq<char>,
    api_key: Seq<char>,
    endpoint: Option<Seq<char>>,
    api_version: Option<Seq<char>>,
    region: Option<Seq<char>>,
) -> Result<ValidationPlan, Seq<char>> {
    if provider == "openai"@ {
        Ok(ValidationPlan {
            method: HttpMethod::Get,
            url: "https://api.openai.com/v1/models"@,
            headers: seq![("Authorization"@, "Bearer "@ + api_key)],
            body: None,
            failure_prefix: "Request failed: "@,
        })
    } else if provider == "azure_openai"@ {
        match endpoint {
            Some(e) => {
                let path = if contains_seq(e, "services.ai.azure.com"@) {
                    "/models?api-version="@
                } else {
                    "/openai/models?api-version="@
                };
                Ok(ValidationPlan {
                    method: HttpMethod::Get,
                    url: strip_trailing(e, '/') + path + azure_api_version(api_version, e),
                    headers: seq![("api-key"@, api_key)],
                    body: None,
                    failure_prefix: "Request failed: "@,
                })
            },
            None => Err("Azure endpoint is required"@),
        }
    } else if provider == "ollama"@ {
        match endpoint {
            Some(e) => Ok(ValidationPlan {
                method: HttpMethod::Get,
                url: strip_trailing(e, '/') + "/api/tags"@,
                headers: Seq::empty(),
                body: None,
                failure_prefix: "Ollama server connection failed: "@,
            }),
            None => Err("Ollama URL is required"@),
        }
    } else if provider == "lm_studio"@ {
        match endpoint {
            Some(e) => Ok(ValidationPlan {
                method: HttpMethod::Get,
                url: strip_trailing(e, '/') + "/v1/models"@,
                headers: Seq::empty(),
                body: None,
                failure_prefix: "LM Studio server connection failed: "@,
            }),
            None => Err("LM Studio URL is required"@),
        }
    } else if provider == "azure_translator"@ {
        match endpoint {
            Some(e) => {
                let base = seq![
                    ("Ocp-Apim-Subscription-Key"@, api_key),
                    ("Content-Type"@, "application/json; charset=UTF-8"@),
                ];
                let headers = match region {
                    Some(r) => if r.len() > 0 {
                        base.push(("Ocp-Apim-Subscription-Region"@, r))
                    } else {
                        base
                    },
                    None => base,
                };
                Ok(ValidationPlan {
                    method: HttpMethod::Post,
                    url: strip_trailing(e, '/') + "/detect?api-version=3.0"@,
                    headers,
                    body: Some("[{\"Text\":\"Hello\"}]"@),
                    failure_prefix: "Azure Translator API request failed: "@,
                })
            },
            None => Err("Azure Translator endpoint is required"@),
        }
    } else {
        Err("Unsupported API provider"@)
    }
}

/// A string holding a string slice.
fn owned(s: &str) -> (r: String)
    ensures
        r@ == s@,
{
    string_of(&chars_of(s))
}

/// `a` followed by `b`.
fn joined(a: &str, b: &str) -> (r: String)
    ensures
        r@ == a@ + b@,
{
    let mut v = chars_of(a);
    append_str(&mut v, b);
    string_of(&v)
}

/// A header.
fn header(name: &str, value: &str) -> (h: (String, String))
    ensures
        h.0@ == name@,
        h.1@ == value@,
{
    (owned(name), owned(value))
}

/// `endpoint` without trailing slashes, followed by `suffix`.
fn endpoint_url(endpoint: &str, suffix: &str) -> (r: Vec<char>)
    ensures
        r@ == strip_trailing(endpoint@, '/') + suffix@,
{
    let e = chars_of(endpoint);
    let mut url = strip_trailing_chars(&e, '/');
    append_str(&mut url, suffix);
    url
}

/// The request that checks whether a provider accepts an API key or, for the
/// local servers, is reachable; or the message of why none can be made (a
/// missing endpoint, an unknown provider).
pub fn validation_request(
    api_provider: &str,
    api_key: &str,
    endpoint: Option<&str>,
    api_version: Option<&str>,
    region: Option<&str>,
) -> (r: Result<ValidationRequest, String>)
    ensures
        match (r, validation_plan(api_provider@, api_key@, opt_str(endpoint), opt_str(api_version), opt_str(region))) {
            (Ok(q), Ok(p)) => q.plan() == p,
            (Err(e), Err(m)) => e@ == m,
            _ => false,
        },
        r matches Ok(q) ==> (q.method == HttpMethod::Post <==> api_provider@ == "azure_translator"@),
{
    proof {
        law_only_translator_check_posts(api_provider@, api_key@, opt_str(endpoint), opt_str(api_version), opt_str(region));
    }
    let provider = chars_of(api_provider);
    if crate::text::spells(&provider, "openai") {
        let mut headers: Vec<(String, String)> = Vec::new();
        headers.push((owned("Authorization"), joined("Bearer ", api_key)));
        let q = ValidationRequest {
            method: HttpMethod::Get,
            url: owned("https://api.openai.com/v1/models"),
            headers,
            body: None,
            failure_prefix: owned("Request failed: "),
        };
        assert(q.plan().headers =~= seq![("Authorization"@, "Bearer "@ + api_key@)]);
        Ok(q)
    } else if crate::text::spells(&provider, "azure_openai") {
        match endpoint {
            Some(e) => {
                let version: String = match api_version {
                    Some(v) => owned(v),
                    None => match extract_api_version_from_url(e) {
                        Some(v) => v,
                        None => owned("2025-01-01-preview"),
                    },
                };
                let mut url = if contains_str(e, "services.ai.azure.com") {
                    endpoint_url(e, "/models?api-version=")
                } else {
                    endpoint_url(e, "/openai/models?api-version=")
                };
                append_str(&mut url, version.as_str());
                let mut headers: Vec<(String, String)> = Vec::new();
                headers.push(header("api-key", api_key));
                let q = ValidationRequest {
                    method: HttpMethod::Get,
                    url: string_of(&url),
                    headers,
                    body: None,
                    failure_prefix: owned("Request failed: "),
                };
                assert(q.plan().headers =~= seq![("api-key"@, api_key@)]);
                Ok(q)
            },
            None => Err(owned("Azure endpoint is required")),
        }
    } else if crate::text::spells(&provider, "ollama") {
        match endpoint {
            Some(e) => {
                let url = endpoint_url(e, "/api/tags");
                let q = ValidationRequest {
                    method: HttpMethod::Get,
                    url: string_of(&url),
                    headers: Vec::new(),
                    body: None,
                    failure_prefix: owned("Ollama server connection failed: "),
                };
                assert(q.plan().headers =~= Seq::<(Seq<char>, Seq<char>)>::empty());
                Ok(q)
            },
            None => Err(owned("Ollama URL is required")),
        }
    } else if crate::text::spells(&provider, "lm_studio") {
        match endpoint {
            Some(e) => {
                let url = endpoint_url(e, "/v1/models");
                let q = ValidationRequest {
                    method: HttpMethod::Get,
                    url: string_of(&url),
                    headers: Vec::new(),
                    body: None,
                    failure_prefix: owned("LM Studio server connection failed: "),
                };
                assert(q.plan().headers =~= Seq::<(Seq<char>, Seq<char>)>::empty());
                Ok(q)
            },
            None => Err(owned("LM Studio URL is required")),
        }
    } else if crate::text::spells(&provider, "azure_translator") {
        match endpoint {
            Some(e) => {
                let url = endpoint_url(e, "/detect?api-version=3.0");
                let mut headers: Vec<(String, String)> = Vec::new();
                headers.push(header("Ocp-Apim-Subscription-Key", api_key));
                headers.push(header("Content-Type", "application/json; charset=UTF-8"));
                let ghost base = headers@.map_values(|h: (String, String)| (h.0@, h.1@));
                assert(base =~= seq![
                    ("Ocp-Apim-Subscription-Key"@, api_key@),
                    ("Content-Type"@, "application/json; charset=UTF-8"@),
                ]);
                match region {
                    Some(rg) => if !rg.is_empty() {
                        headers.push(header("Ocp-Apim-Subscription-Region", rg));
                        assert(headers@.map_values(|h: (String, String)| (h.0@, h.1@)) =~= base.push(("Ocp-Apim-Subscription-Region"@, rg@)));
                    },
                    None => {},
                }
                let q = ValidationRequest {
                    method: HttpMethod::Post,
                    url: string_of(&url),
                    headers,
                    body: Some(owned("[{\"Text\":\"Hello\"}]")),
                    failure_prefix: owned("Azure Translator API request failed: "),
                };
                Ok(q)
            },
            None => Err(owned("Azure Translator endpoint is required")),
        }
    } else {
        Err(owned("Unsupported API provider"))
    }
}

/// The provider names are distinct texts.
proof fn lemma_provider_names_differ()
    ensures
        "openai"@ != "azure_openai"@,
        "openai"@ != "ollama"@,
        "openai"@ != "lm_studio"@,
        "openai"@ != "azure_translator"@,
        "azure_openai"@ != "ollama"@,
        "azure_openai"@ != "lm_studio"@,
        "azure_openai"@ != "azure_translator"@,
        "ollama"@ != "lm_studio"@,
        "ollama"@ != "azure_translator"@,
        "lm_studio"@ != "azure_translator"@,
{
    reveal_strlit("openai");
    reveal_strlit("azure_openai");
    reveal_strlit("ollama");
    reveal_strlit("lm_studio");
    reveal_strlit("azure_translator");
    assert("ollama"@[1] != "openai"@[1]);
    assert("lm_studio"@.len() != "openai"@.len());
    assert("azure_translator"@.len() != "openai"@.len());
    assert("ollama"@.len() != "azure_openai"@.len());
    assert("lm_studio"@.len() != "azure_openai"@.len());
    assert("azure_translator"@.len() != "azure_openai"@.len());
    assert("lm_studio"@.len() != "ollama"@.len());
    assert("azure_translator"@.len() != "ollama"@.len());
    assert("azure_translator"@.len() != "lm_studio"@.len());
}

/// Every check is a GET request but Azure Translator's, which is a POST (of a
/// sample text to its language detection).
pub proof fn law_only_translator_check_posts(
    provider: Seq<char>,
    api_key: Seq<char>,
    endpoint: Option<Seq<char>>,
    api_version: Option<Seq<char>>,
    region: Option<Seq<char>>,
)
    ensures
        validation_plan(provider, api_key, endpoint, api_version, region) matches Ok(p)
            ==> (p.method == HttpMethod::Post <==> provider == "azure_translator"@),
{
    lemma_provider_names_differ();
}

/// A trailing slash on an endpoint does not change the check that is made
/// against it (for the providers whose endpoint is used as a plain base address).
pub proof fn law_endpoint_trailing_slash(
    provider: Seq<char>,
    api_key: Seq<char>,
    endpoint: Seq<char>,
    api_version: Option<Seq<char>>,
    region: Option<Seq<char>>,
)
    requires
        provider == "ollama"@ || provider == "lm_studio"@ || provider == "azure_translator"@
            || provider == "openai"@,
    ensures
        validation_plan(provider, api_key, Some(endpoint.push('/')), api_version, region)
            == validation_plan(provider, api_key, Some(endpoint), api_version, region),
{
    lemma_provider_names_differ();
    assert(endpoint.push('/').drop_last() =~= endpoint);
    assert(strip_trailing(endpoint.push('/'), '/') == strip_trailing(endpoint, '/'));
}

/// The text of an optional string slice.
pub open spec fn opt_str(o: Option<&str>) -> Option<Seq<char>> {
    match o {
        Some(s) => Some(s@),
        None => None,
    }
}

/// The answer of a key check: whether the provider answered with a success
/// status, or the transport error after the request's failure prefix.
pub fn validation_outcome(request: &ValidationRequest, sent: Result<bool, String>) -> (r: Result<bool, String>)
    ensures
        match sent {
            Ok(success) => r == Ok::<bool, String>(success),
            Err(e) => r matches Err(m) && m@ == request.failure_prefix@ + e@,
        },
{
    match sent {
        Ok(success) => Ok(success),
        Err(e) => Err(joined(request.failure_prefix.as_str(), e.as_str())),
    }
}

/// The address of an LM Studio server given by the user: the trimmed text,
/// or http://127.0.0.1:1234 where it is blank.
pub open spec fn lm_studio_server(url: Seq<char>) -> Seq<char> {
    if is_blank(url) { "http://127.0.0.1:1234"@ } else { trim(url) }
}

/// The models endpoint of an LM Studio server: the server address without
/// trailing slashes, followed by `/v1/models`.
pub fn lm_studio_models_url(url: &str) -> (r: String)
    ensures
        r@ == strip_trailing(lm_studio_server(url@), '/') + "/v1/models"@,
        is_blank(url@) ==> r@ == "http://127.0.0.1:1234/v1/models"@,
        !is_blank(url@) ==> r@ == strip_trailing(trim(url@), '/') + "/v1/models"@,
{
    proof {
        if is_blank(url@) {
            law_default_models_endpoint(url@);
        }
    }
    let endpoint = if is_blank_str(url) {
        chars_of("http://127.0.0.1:1234")
    } else {
        trim_chars(&chars_of(url))
    };
    let mut v = strip_trailing_chars(&endpoint, '/');
    append_str(&mut v, "/v1/models");
    string_of(&v)
}

/// A blank server address given for the model list (the empty text among
/// them) lists the models of the default local server,
/// http://127.0.0.1:1234/v1/models.
pub proof fn law_default_models_endpoint(url: Seq<char>)
    requires
        is_blank(url),
    ensures
        strip_trailing(lm_studio_server(url), '/') + "/v1/models"@ == "http://127.0.0.1:1234/v1/models"@,
{
    reveal_strlit("http://127.0.0.1:1234");
    reveal_strlit("/v1/models");
    reveal_strlit("http://127.0.0.1:1234/v1/models");
    let base = "http://127.0.0.1:1234"@;
    assert(base.last() == '4');
    assert(strip_trailing(base, '/') == base);
    assert(base + "/v1/models"@ =~= "http://127.0.0.1:1234/v1/models"@);
}

/// The message for a models request that the server answered with a failure status.
pub fn models_status_error(status: &str) -> (r: String)
    ensures
        r@ == "LM Studio server returned status "@ + status@,
{
    joined("LM Studio server returned status ", status)
}

/// The message for a models request that could not be sent.
pub fn models_request_error(error: &str) -> (r: String)
    ensures
        r@ == "Failed to reach LM Studio server: "@ + error@,
{
    joined("Failed to reach LM Studio server: ", error)
}

/// The string `id`s of a list of model entries, in order, skipping entries
/// without one.
pub open spec fn ids_of(entries: Seq<JsonView>) -> Seq<Seq<char>>
    decreases entries.len(),
{
    if entries.len() == 0 {
        Seq::empty()
    } else {
        let prev = ids_of(entries.drop_last());
        match entries.last().str_member("id"@) {
            Some(id) => prev.push(id),
            None => prev,
        }
    }
}

/// The model ids of a models listing: the `id`s of the entries of its `data`
/// array; none where there is no such array.
pub open spec fn listed_models(body: JsonView) -> Seq<Seq<char>> {
    match body.get_spec("data"@) {
        Some(d) => match d.array_spec() {
            Some(entries) => ids_of(entries),
            None => Seq::empty(),
        },
        None => Seq::empty(),
    }
}

/// The texts of a list of strings.
pub open spec fn texts(v: Seq<String>) -> Seq<Seq<char>> {
    v.map_values(|s: String| s@)
}

/// The model ids of a models listing.
pub fn model_ids(body: &Json) -> (r: Vec<String>)
    ensures
        texts(r@) == listed_models(body@),
{
    let entries = match body.get("data") {
        Some(d) => match d.as_array() {
            Some(entries) => entries,
            None => return Vec::new(),
        },
        None => return Vec::new(),
    };
    let mut ids: Vec<String> = Vec::new();
    let mut i: usize = 0;
    while i < entries.len()
        invariant
            i <= entries.len(),
            texts(ids@) == ids_of(views(entries@).take(i as int)),
        decreases entries.len() - i,
    {
        assert(views(entries@).take(i + 1).drop_last() =~= views(entries@).take(i as int));
        assert(views(entries@).take(i + 1).last() == entries@[i as int]@);
        match entries[i].get_str("id") {
            Some(id) => {
                let ghost before = texts(ids@);
                ids.push(owned(id));
                assert(texts(ids@) =~= before.push(id@));
            },
            None => {},
        }
        i = i + 1;
    }
    assert(views(entries@).take(entries.len() as int) =~= views(entries@));
    ids
}

/// The model ids in the body of a successful models request; a body that is
/// not JSON gives the decoding error.
pub fn read_models_body(body: &str) -> (r: Result<Vec<String>, String>)
    ensures
        match json_parse(body@) {
            Some(doc) => r matches Ok(ids) && texts(ids@) == listed_models(doc),
            None => r matches Err(e) && e@ == "Failed to parse LM Studio models response: error decoding response body"@,
        },
{
    match parse_json(body) {
        Some(doc) => Ok(model_ids(&doc)),
        None => Err(owned("Failed to parse LM Studio models response: error decoding response body")),
    }
}

/// A translation as the translation service hands it back.
pub struct TranslationResponse {
    pub original_text: String,
    pub translated_text: String,
    pub detected_language: String,
    pub target_language: String,
}

/// Why the translation service did not translate.
pub enum TranslateError {
    /// The same text was just translated.
    DuplicateRequest,
    /// Any other failure, by its message.
    Failed(String),
}

/// An entry for the translation history.
pub struct HistoryRecord {
    pub original_text: String,
    pub translated_text: String,
    pub detected_language: String,
    pub target_language: String,
}

/// The answer of the translate command and the history entry it records.
pub struct TranslateReply {
    pub reply: Result<TranslationResult, String>,
    pub history: Option<HistoryRecord>,
}

/// The answer to a translation: a translation is recorded in the history and
/// answered without its original text; a duplicate request is answered with
/// "Duplicate request"; any other failure with its message.
pub fn translate_reply(outcome: Result<TranslationResponse, TranslateError>) -> (r: TranslateReply)
    ensures
        match outcome {
            Ok(t) => {
                &&& r.reply matches Ok(res) && res.detected_language@ == t.detected_language@
                    && res.translated_text@ == t.translated_text@
                    && res.target_language@ == t.target_language@
                &&& r.history matches Some(h) && h.original_text@ == t.original_text@
                    && h.translated_text@ == t.translated_text@
                    && h.detected_language@ == t.detected_language@
                    && h.target_language@ == t.target_language@
            },
            Err(TranslateError::DuplicateRequest) => {
                &&& r.reply matches Err(e) && e@ == "Duplicate request"@
                &&& r.history is None
            },
            Err(TranslateError::Failed(m)) => {
                &&& r.reply matches Err(e) && e@ == m@
                &&& r.history is None
            },
        },
{
    match outcome {
        Ok(t) => {
            let history = HistoryRecord {
                original_text: owned(t.original_text.as_str()),
                translated_text: owned(t.translated_text.as_str()),
                detected_language: owned(t.detected_language.as_str()),
                target_language: owned(t.target_language.as_str()),
            };
            TranslateReply {
                reply: Ok(TranslationResult {
                    detected_language: t.detected_language,
                    translated_text: t.translated_text,
                    target_language: t.target_language,
                }),
                history: Some(history),
            }
        },
        Err(TranslateError::DuplicateRequest) => TranslateReply {
            reply: Err(owned("Duplicate request")),
            history: None,
        },
        Err(TranslateError::Failed(m)) => TranslateReply { reply: Err(m), history: None },
    }
}

/// The outcome of saving new settings: where saving worked, whether the
/// global shortcut must be registered again (the hotkey changed); where it
/// failed, the message.
pub fn save_config_outcome(old_hotkey: &str, new_hotkey: &str, saved: Result<(), String>) -> (r: Result<bool, String>)
    ensures
        match saved {
            Ok(_) => r == Ok::<bool, String>(old_hotkey@ != new_hotkey@),
            Err(e) => r matches Err(m) && m@ == "Failed to save config: "@ + e@,
        },
{
    match saved {
        Ok(_) => {
            let a = chars_of(old_hotkey);
            let b = chars_of(new_hotkey);
            Ok(!crate::text::same_chars(&a, &b))
        },
        Err(e) => Err(joined("Failed to save config: ", e.as_str())),
    }
}

/// The text a clipboard translation test works on: a failed read and an
/// empty (or all white space) clipboard are refused.
pub fn clipboard_test_text(read: Result<String, String>) -> (r: Result<String, String>)
    ensures
        match read {
            Ok(t) => if is_blank(t@) {
                r matches Err(m) && m@ == "Clipboard is empty"@
            } else {
                r matches Ok(s) && s@ == t@
            },
            Err(e) => r matches Err(m) && m@ == "Failed to read clipboard: "@ + e@,
        },
{
    match read {
        Ok(t) => if is_blank_str(t.as_str()) { Err(owned("Clipboard is empty")) } else { Ok(t) },
        Err(e) => Err(joined("Failed to read clipboard: ", e.as_str())),
    }
}

/// The answer of a clipboard translation test: the translation, or the
/// failure after "Translation failed: ".
pub fn clipboard_test_reply(result: Result<TranslationResult, String>) -> (r: Result<TranslationResult, String>)
    ensures
        match result {
            Ok(t) => r matches Ok(u) && u.detected_language@ == t.detected_language@
                && u.translated_text@ == t.translated_text@ && u.target_language@ == t.target_language@,
            Err(e) => r matches Err(m) && m@ == "Translation failed: "@ + e@,
        },
{
    match result {
        Ok(t) => Ok(t),
        Err(e) => Err(joined("Translation failed: ", e.as_str())),
    }
}

} // verus!
