use translator::commands::{
    clipboard_test_reply, clipboard_test_text, lm_studio_models_url, model_ids, models_request_error,
    models_status_error, read_models_body, save_config_outcome, translate_reply, validation_outcome,
    validation_request, HttpMethod, TranslateError, TranslationResponse, ValidationRequest,
};
use translator::json::Json;
use translator::lm_studio::TranslationResult;
use translator::url_query::{api_version_in_pairs, extract_api_version_from_url};

fn headers(q: &ValidationRequest) -> Vec<(&str, &str)> {
    q.headers.iter().map(|(k, v)| (k.as_str(), v.as_str())).collect()
}

#[test]
fn openai_key_check() {
    let q = validation_request("openai", "sk-123", None, None, None).ok().unwrap();
    assert_eq!(q.method, HttpMethod::Get);
    assert_eq!(q.url, "https://api.openai.com/v1/models");
    assert_eq!(headers(&q), vec![("Authorization", "Bearer sk-123")]);
    assert!(q.body.is_none());
    assert_eq!(q.failure_prefix, "Request failed: ");
}

#[test]
fn azure_openai_key_check() {
    let q = validation_request("azure_openai", "k", Some("https://res.openai.azure.com/"), None, None).ok().unwrap();
    assert_eq!(q.url, "https://res.openai.azure.com/openai/models?api-version=2025-01-01-preview");
    assert_eq!(headers(&q), vec![("api-key", "k")]);
    let models = validation_request("azure_openai", "k", Some("https://x.services.ai.azure.com"), Some("2024-10-21"), None).ok().unwrap();
    assert_eq!(models.url, "https://x.services.ai.azure.com/models?api-version=2024-10-21");
    let from_query = validation_request(
        "azure_openai",
        "k",
        Some("https://res.openai.azure.com/openai/deployments/gpt?api-version=2024-02-15-preview"),
        None,
        None,
    )
    .ok()
    .unwrap();
    assert_eq!(
        from_query.url,
        "https://res.openai.azure.com/openai/deployments/gpt?api-version=2024-02-15-preview/openai/models?api-version=2024-02-15-preview"
    );
}

#[test]
fn local_server_checks() {
    let o = validation_request("ollama", "", Some("http://localhost:11434/"), None, None).ok().unwrap();
    assert_eq!(o.url, "http://localhost:11434/api/tags");
    assert!(o.headers.is_empty());
    assert_eq!(o.failure_prefix, "Ollama server connection failed: ");
    let l = validation_request("lm_studio", "", Some("http://127.0.0.1:1234"), None, None).ok().unwrap();
    assert_eq!(l.url, "http://127.0.0.1:1234/v1/models");
    assert_eq!(l.failure_prefix, "LM Studio server connection failed: ");
}

#[test]
fn azure_translator_check() {
    let q = validation_request("azure_translator", "key", Some("https://api.cognitive.microsofttranslator.com/"), None, Some("westeurope")).ok().unwrap();
    assert_eq!(q.method, HttpMethod::Post);
    assert_eq!(q.url, "https://api.cognitive.microsofttranslator.com/detect?api-version=3.0");
    assert_eq!(
        headers(&q),
        vec![
            ("Ocp-Apim-Subscription-Key", "key"),
            ("Content-Type", "application/json; charset=UTF-8"),
            ("Ocp-Apim-Subscription-Region", "westeurope"),
        ]
    );
    assert_eq!(q.body.as_deref(), Some("[{\"Text\":\"Hello\"}]"));
    let no_region = validation_request("azure_translator", "key", Some("https://t"), None, Some("")).ok().unwrap();
    assert_eq!(no_region.headers.len(), 2);
}

#[test]
fn trailing_slash_does_not_change_the_check() {
    let a = validation_request("lm_studio", "", Some("http://h:1"), None, None).ok().unwrap();
    let b = validation_request("lm_studio", "", Some("http://h:1/"), None, None).ok().unwrap();
    assert_eq!(a.url, b.url);
}

#[test]
fn key_check_errors() {
    let msg = |r: Result<ValidationRequest, String>| r.err().unwrap();
    assert_eq!(msg(validation_request("azure_openai", "k", None, None, None)), "Azure endpoint is required");
    assert_eq!(msg(validation_request("ollama", "k", None, None, None)), "Ollama URL is required");
    assert_eq!(msg(validation_request("lm_studio", "k", None, None, None)), "LM Studio URL is required");
    assert_eq!(msg(validation_request("azure_translator", "k", None, None, None)), "Azure Translator endpoint is required");
    assert_eq!(msg(validation_request("deepl", "k", None, None, None)), "Unsupported API provider");
}

#[test]
fn key_check_outcomes() {
    let q = validation_request("ollama", "", Some("http://h"), None, None).ok().unwrap();
    assert_eq!(validation_outcome(&q, Ok(true)), Ok(true));
    assert_eq!(validation_outcome(&q, Ok(false)), Ok(false));
    assert_eq!(
        validation_outcome(&q, Err("connection refused".to_string())),
        Err("Ollama server connection failed: connection refused".to_string())
    );
}

#[test]
fn api_version_from_url() {
    assert_eq!(
        extract_api_version_from_url("https://r.openai.azure.com/x?foo=1&api-version=2024-06-01&api-version=9"),
        Some("2024-06-01".to_string())
    );
    assert_eq!(extract_api_version_from_url("https://r.openai.azure.com/x?api%2Dversion=a%20b"), Some("a b".to_string()));
    assert_eq!(extract_api_version_from_url("https://r.openai.azure.com/x"), None);
    assert_eq!(extract_api_version_from_url("not a url ?api-version=1"), None);
    let pairs = vec![("a".to_string(), "1".to_string()), ("api-version".to_string(), "2".to_string())];
    assert_eq!(api_version_in_pairs(&pairs), Some("2".to_string()));
}

#[test]
fn models_url() {
    assert_eq!(lm_studio_models_url(""), "http://127.0.0.1:1234/v1/models");
    assert_eq!(lm_studio_models_url("   "), "http://127.0.0.1:1234/v1/models");
    assert_eq!(lm_studio_models_url(" http://box:1234/ "), "http://box:1234/v1/models");
}

#[test]
fn models_messages() {
    assert_eq!(models_status_error("500 Internal Server Error"), "LM Studio server returned status 500 Internal Server Error");
    assert_eq!(models_request_error("timeout"), "Failed to reach LM Studio server: timeout");
}

#[test]
fn models_listing() {
    let entry = |k: &str, v: Json| Json::Object(vec![(k.to_string(), v)]);
    let body = Json::Object(vec![
        (
            "data".to_string(),
            Json::Array(vec![
                entry("id", Json::Str("llama-3".to_string())),
                entry("name", Json::Str("x".to_string())),
                entry("id", Json::Number("7".to_string())),
                entry("id", Json::Str("qwen".to_string())),
            ]),
        ),
        ("object".to_string(), Json::Str("list".to_string())),
    ]);
    assert_eq!(model_ids(&body), vec!["llama-3".to_string(), "qwen".to_string()]);
    assert_eq!(
        read_models_body(r#"{"object":"list","data":[{"id":"llama-3"},{"name":"x"},{"id":7},{"id":"qwen"}]}"#),
        Ok(vec!["llama-3".to_string(), "qwen".to_string()])
    );
    assert!(model_ids(&Json::Null).is_empty());
    assert_eq!(read_models_body(r#"{"data":[{"id":"m1"}]}"#), Ok(vec!["m1".to_string()]));
    assert_eq!(read_models_body(r#"{"data":{}}"#), Ok(vec![]));
    assert_eq!(
        read_models_body("oops"),
        Err("Failed to parse LM Studio models response: error decoding response body".to_string())
    );
}

fn response() -> TranslationResponse {
    TranslationResponse {
        original_text: "hello".to_string(),
        translated_text: "hola".to_string(),
        detected_language: "English".to_string(),
        target_language: "Spanish".to_string(),
    }
}

#[test]
fn translate_answers_and_records() {
    let r = translate_reply(Ok(response()));
    let t = r.reply.ok().unwrap();
    assert_eq!((t.detected_language.as_str(), t.translated_text.as_str(), t.target_language.as_str()), ("English", "hola", "Spanish"));
    let h = r.history.unwrap();
    assert_eq!(h.original_text, "hello");
    assert_eq!(h.translated_text, "hola");
}

#[test]
fn translate_failures() {
    let dup = translate_reply(Err(TranslateError::DuplicateRequest));
    assert_eq!(dup.reply.err(), Some("Duplicate request".to_string()));
    assert!(dup.history.is_none());
    let failed = translate_reply(Err(TranslateError::Failed("quota".to_string())));
    assert_eq!(failed.reply.err(), Some("quota".to_string()));
    assert!(failed.history.is_none());
}

#[test]
fn saving_settings() {
    assert_eq!(save_config_outcome("Ctrl+Alt+C", "Ctrl+Alt+C", Ok(())), Ok(false));
    assert_eq!(save_config_outcome("Ctrl+Alt+C", "Ctrl+Shift+T", Ok(())), Ok(true));
    assert_eq!(
        save_config_outcome("a", "b", Err("disk full".to_string())),
        Err("Failed to save config: disk full".to_string())
    );
}

#[test]
fn clipboard_test_input() {
    assert_eq!(clipboard_test_text(Ok("text".to_string())), Ok("text".to_string()));
    assert_eq!(clipboard_test_text(Ok(" \n".to_string())), Err("Clipboard is empty".to_string()));
    assert_eq!(clipboard_test_text(Err("locked".to_string())), Err("Failed to read clipboard: locked".to_string()));
}

#[test]
fn clipboard_test_answer() {
    let t = TranslationResult {
        detected_language: "English".to_string(),
        translated_text: "hola".to_string(),
        target_language: "Spanish".to_string(),
    };
    assert_eq!(clipboard_test_reply(Ok(t)).ok().unwrap().translated_text, "hola");
    assert_eq!(clipboard_test_reply(Err("boom".to_string())).err(), Some("Translation failed: boom".to_string()));
}
