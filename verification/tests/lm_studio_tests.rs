use translator::json::Json;
use translator::lm_studio::{read_chat_reply, Config, LmStudioTranslationService, TranslationResult};

fn config(url: Option<&str>, model: &str, custom_prompt: &str) -> Config {
    Config {
        hotkey: "Ctrl+Alt+C".to_string(),
        target_language: "Spanish".to_string(),
        model: model.to_string(),
        custom_prompt: custom_prompt.to_string(),
        lm_studio_url: url.map(|u| u.to_string()),
        floating_on_hotkey: false,
        minimize_to_tray: true,
        auto_start: false,
    }
}

fn service() -> LmStudioTranslationService {
    LmStudioTranslationService::new(config(None, "qwen2.5-7b", ""))
}

fn parsed(content: &str) -> TranslationResult {
    service().parse_response_content(content).unwrap()
}

fn s(text: &str) -> Json {
    Json::Str(text.to_string())
}

fn obj(members: Vec<(&str, Json)>) -> Json {
    Json::Object(members.into_iter().map(|(k, v)| (k.to_string(), v)).collect())
}

#[test]
fn chat_url_defaults_to_local_server() {
    assert_eq!(service().chat_completions_url(), "http://127.0.0.1:1234/v1/chat/completions");
    let blank = LmStudioTranslationService::new(config(Some("   "), "m", ""));
    assert_eq!(blank.chat_completions_url(), "http://127.0.0.1:1234/v1/chat/completions");
}

#[test]
fn chat_url_uses_configured_server_without_trailing_slashes() {
    let a = LmStudioTranslationService::new(config(Some("http://10.0.0.5:8080"), "m", ""));
    assert_eq!(a.chat_completions_url(), "http://10.0.0.5:8080/v1/chat/completions");
    let b = LmStudioTranslationService::new(config(Some("http://10.0.0.5:8080//"), "m", ""));
    assert_eq!(b.chat_completions_url(), "http://10.0.0.5:8080/v1/chat/completions");
}

#[test]
fn json_reply_is_read() {
    let r = parsed(r#"{"detected_language": "French", "translated_text": "Hola mundo"}"#);
    assert_eq!(r.detected_language, "French");
    assert_eq!(r.translated_text, "Hola mundo");
    assert_eq!(r.target_language, "Spanish");
}

#[test]
fn written_out_escapes_become_characters() {
    let r = parsed(r#"{"detected_language": "English", "translated_text": "Line 1\\nLine 2\\tend"}"#);
    assert_eq!(r.translated_text, "Line 1\nLine 2\tend");
    let crlf = parsed(r#"{"detected_language": "English", "translated_text": "a\\r\\nb"}"#);
    assert_eq!(crlf.translated_text, "a\n\nb");
    let cr = parsed(r#"{"detected_language": "English", "translated_text": "a\\rb"}"#);
    assert_eq!(cr.translated_text, "a\nb");
}

#[test]
fn control_characters_are_dropped_before_reading() {
    let r = parsed("\u{0007}{\"detected_language\": \"German\", \"translated_text\": \"Hallo\"}\u{001b}");
    assert_eq!(r.detected_language, "German");
    assert_eq!(r.translated_text, "Hallo");
}

#[test]
fn json_block_inside_prose_is_found() {
    let r = parsed(r#"Sure! {"detected_language": "Italian", "translated_text": "Ciao {amico}"} Hope it helps."#);
    assert_eq!(r.detected_language, "Italian");
    assert_eq!(r.translated_text, "Ciao {amico}");
}

#[test]
fn plain_text_reply_is_the_translation() {
    let r = parsed("Hola, ¿qué tal?");
    assert_eq!(r.detected_language, "unknown");
    assert_eq!(r.translated_text, "Hola, ¿qué tal?");
    let unbalanced = parsed("see {this");
    assert_eq!(unbalanced.translated_text, "see {this");
    let bad_block = parsed("x {not json} y\\n");
    assert_eq!(bad_block.detected_language, "unknown");
    assert_eq!(bad_block.translated_text, "x {not json} y\n");
}

#[test]
fn string_reply_is_the_translation() {
    let r = parsed(r#""uno\\tdos""#);
    assert_eq!(r.detected_language, "unknown");
    assert_eq!(r.translated_text, "uno\tdos");
}

#[test]
fn missing_fields_have_defaults() {
    let r = parsed(r#"{"detected_language": "", "other": 1}"#);
    assert_eq!(r.detected_language, "unknown");
    assert_eq!(r.translated_text, "translation failed");
    let n = parsed("42");
    assert_eq!(n.translated_text, "translation failed");
}

#[test]
fn blank_model_is_refused() {
    let svc = LmStudioTranslationService::new(config(None, "  ", ""));
    match svc.chat_request("hello", "prompt") {
        Err(e) => assert_eq!(e, "Model not configured for LM Studio provider"),
        Ok(_) => panic!("a blank model must be refused"),
    }
}

#[test]
fn translation_request_prompts() {
    let q = service().chat_request("Good morning", "You translate.").unwrap();
    assert_eq!(q.model, "qwen2.5-7b");
    assert_eq!(q.max_tokens, 800);
    assert_eq!(q.temperature_tenths, 3);
    assert!(!q.alternatives);
    assert_eq!(q.user_prompt, "Text to translate into Spanish: \"Good morning\"");
    assert!(q.system_prompt.starts_with("You translate.\n\nIMPORTANT FORMATTING RULES:\n"));
    assert!(q.system_prompt.ends_with("\"translated_text\": \"Line 1\\nLine 2\"\n}"));
}

#[test]
fn alternatives_request_prompts() {
    let svc = LmStudioTranslationService::new(config(None, "m", "Give three alternatives as JSON"));
    let q = svc.chat_request("casa", "ignored").unwrap();
    assert!(q.alternatives);
    assert_eq!(q.user_prompt, "\"casa\"");
    assert_eq!(q.system_prompt, "Give three alternatives as JSON");
}

fn reply_with_content(content: &str) -> Json {
    obj(vec![(
        "choices",
        Json::Array(vec![obj(vec![("message", obj(vec![("content", s(content)), ("role", s("assistant"))]))])]),
    )])
}

#[test]
fn chat_response_without_choices() {
    let err = service().read_chat_response(&obj(vec![("error", s("x"))]), false);
    match err {
        Err(e) => assert_eq!(e, "No 'choices' array in LM Studio response. Full response: {\n  \"error\": \"x\"\n}"),
        Ok(_) => panic!("expected an error"),
    }
}

#[test]
fn chat_response_with_empty_choices() {
    match service().read_chat_response(&obj(vec![("choices", Json::Array(vec![]))]), false) {
        Err(e) => assert_eq!(e, "Empty 'choices' array in LM Studio response"),
        Ok(_) => panic!("expected an error"),
    }
}

#[test]
fn chat_response_without_content() {
    let reply = obj(vec![("choices", Json::Array(vec![obj(vec![("message", obj(vec![]))])]))]);
    match service().read_chat_response(&reply, false) {
        Err(e) => assert_eq!(e, "No 'content' field in LM Studio message"),
        Ok(_) => panic!("expected an error"),
    }
}

#[test]
fn chat_response_is_parsed() {
    let reply = reply_with_content(r#"{"detected_language":"English","translated_text":"Buenos días"}"#);
    let r = service().read_chat_response(&reply, false).unwrap();
    assert_eq!(r.detected_language, "English");
    assert_eq!(r.translated_text, "Buenos días");
    assert_eq!(r.target_language, "Spanish");
}

#[test]
fn alternatives_response_is_raw() {
    let reply = reply_with_content("[\"a\", \"b\"]");
    let r = service().read_chat_response(&reply, true).unwrap();
    assert_eq!(r.detected_language, "unknown");
    assert_eq!(r.translated_text, "[\"a\", \"b\"]");
    assert_eq!(r.target_language, "alternatives");
}

#[test]
fn server_answers() {
    match read_chat_reply(false, "404 Not Found", "no such model") {
        Err(e) => assert_eq!(e, "LM Studio API request failed (404 Not Found): no such model"),
        Ok(_) => panic!("expected an error"),
    }
    match read_chat_reply(true, "200 OK", "<html>") {
        Err(e) => assert_eq!(e, "error decoding response body"),
        Ok(_) => panic!("expected an error"),
    }
    match read_chat_reply(true, "200 OK", r#"{"choices": []}"#) {
        Ok(Json::Object(members)) => {
            assert_eq!(members.len(), 1);
            assert_eq!(members[0].0, "choices");
        }
        _ => panic!("expected a document"),
    }
}
