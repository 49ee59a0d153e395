//! The content-side helpers: translation chunking, provider prompts and
//! replies, web-page text extraction, file-text extraction, and the
//! credential records.

use ainotework::chunk::{
    estimate_tokens, split_content_for_translation, translation_prompts, MAX_CHUNK_CHARS,
    SMALL_TOKEN_LIMIT,
};
use ainotework::config::{AiConfig, ClaudeConfig, Credentials, McpConfig};
use ainotework::files::{excel_text, extract_plan, ExtractRoute, IMAGE_MSG};
use ainotework::json::{json_line, parse_json, JsonValue};
use ainotework::providers::{
    ask_prompt, claude_history_messages, claude_reply_text, claude_request, gemini_error,
    gemini_history_question, gemini_reply_text, gemini_request, openai_history_messages,
    openai_reply_text, openai_request, summarize_prompt, translate_prompt, ConversationMessage,
    CLAUDE_MODEL, HISTORY_ACK, NO_MESSAGES, OPENAI_MODEL,
};
use ainotework::web::{extract_text, is_notion_url};

fn jstr(s: &str) -> JsonValue {
    JsonValue::Str(s.to_string())
}

fn jobj(entries: Vec<(&str, JsonValue)>) -> JsonValue {
    JsonValue::Obj(entries.into_iter().map(|(k, v)| (k.to_string(), v)).collect())
}

fn get<'a>(v: &'a JsonValue, key: &str) -> &'a JsonValue {
    v.get(key).expect("missing key")
}

fn as_str(v: &JsonValue) -> &str {
    match v {
        JsonValue::Str(s) => s.as_str(),
        _ => panic!("not a string"),
    }
}

#[test]
fn small_content_is_one_chunk() {
    assert_eq!(split_content_for_translation("short text"), vec!["short text"]);
    assert_eq!(split_content_for_translation(""), vec![""]);
}

#[test]
fn paragraphs_are_packed_up_to_the_limit() {
    let a = "a".repeat(4000);
    let b = "b".repeat(4000);
    let content = format!("{}\n\n{}", a, b);
    let chunks = split_content_for_translation(&content);
    assert_eq!(chunks.len(), 2);
    assert_eq!(chunks[0], a);
    assert_eq!(chunks[1], b);
    let small = format!("{}\n\n{}", "a".repeat(100), "b".repeat(100));
    assert_eq!(split_content_for_translation(&small), vec![small.clone()]);
}

#[test]
fn oversized_paragraphs_split_at_sentence_ends() {
    let s1 = format!("{}.", "x".repeat(5999));
    let s2 = format!("{}.", "y".repeat(5999));
    let content = format!("{}{}", s1, s2);
    let chunks = split_content_for_translation(&content);
    assert_eq!(chunks.len(), 2);
    assert_eq!(chunks[0], s1);
    assert_eq!(chunks[1], s2);
    assert_eq!(MAX_CHUNK_CHARS, 6000);
}

#[test]
fn token_estimate_counts_three_characters_each() {
    assert_eq!(estimate_tokens("abcdef"), 2);
    assert_eq!(estimate_tokens(""), 0);
    assert_eq!(SMALL_TOKEN_LIMIT, 2000);
}

#[test]
fn small_translations_use_one_simple_prompt() {
    let prompts = translation_prompts("hello", "Korean");
    assert_eq!(prompts.len(), 1);
    assert_eq!(prompts[0], translate_prompt("hello", "Korean"));
    assert!(prompts[0].starts_with("Translate the following content to Korean."));
    assert!(prompts[0].ends_with("hello"));
}

#[test]
fn large_translations_are_numbered_parts() {
    let s1 = format!("{}.", "x".repeat(5999));
    let s2 = format!("{}.", "y".repeat(5999));
    let content = format!("{}{}", s1, s2);
    let prompts = translation_prompts(&content, "French");
    assert_eq!(prompts.len(), 2);
    assert!(prompts[0].contains(" part 1 of 2 parts"));
    assert!(prompts[1].contains(" part 2 of 2 parts"));
    assert!(prompts[0].ends_with(&s1));
    assert!(prompts[1].ends_with(&s2));
}

#[test]
fn prompts_embed_question_and_content() {
    let p = ask_prompt("the doc", "the question");
    assert!(p.contains("the doc"));
    assert!(p.contains("the question"));
    let s = summarize_prompt("the doc");
    assert!(s.ends_with("the doc"));
}

#[test]
fn chat_requests_carry_model_and_messages() {
    let messages = vec![ConversationMessage {
        role: "user".to_string(),
        content: "hi".to_string(),
    }];
    let chat = claude_history_messages(&messages, "doc");
    assert_eq!(chat.len(), 3);
    assert_eq!(chat[0].role, "user");
    assert!(chat[0].content.contains("doc"));
    assert_eq!(chat[1].role, "assistant");
    assert_eq!(chat[1].content, HISTORY_ACK);
    assert_eq!(chat[2].content, "hi");
    let body = claude_request(&chat);
    let line = json_line(&body);
    let v = parse_json(&line).expect("body parses");
    assert_eq!(as_str(get(&v, "model")), CLAUDE_MODEL);
    assert!(matches!(get(&v, "max_tokens"), JsonValue::Int(4096)));
    match get(&v, "messages") {
        JsonValue::Arr(items) => {
            assert_eq!(items.len(), 3);
            assert_eq!(as_str(get(&items[2], "content")), "hi");
            assert_eq!(as_str(get(&items[2], "role")), "user");
        },
        _ => panic!("expected messages"),
    }
    let openai_chat = openai_history_messages(&messages, "doc");
    assert_eq!(openai_chat.len(), 2);
    assert_eq!(openai_chat[0].role, "system");
    let openai_body = openai_request(&openai_chat);
    let v2 = parse_json(&json_line(&openai_body)).expect("body parses");
    assert_eq!(as_str(get(&v2, "model")), OPENAI_MODEL);
}

#[test]
fn gemini_request_wraps_the_prompt() {
    let body = gemini_request("ask me");
    let v = parse_json(&json_line(&body)).expect("body parses");
    match get(&v, "contents") {
        JsonValue::Arr(turns) => {
            assert_eq!(as_str(get(&turns[0], "role")), "user");
            match get(&turns[0], "parts") {
                JsonValue::Arr(parts) => assert_eq!(as_str(get(&parts[0], "text")), "ask me"),
                _ => panic!("expected parts"),
            }
        },
        _ => panic!("expected contents"),
    }
}

#[test]
fn gemini_history_needs_messages() {
    let none: Vec<ConversationMessage> = Vec::new();
    match gemini_history_question(&none, "doc") {
        Err(e) => assert_eq!(e, NO_MESSAGES),
        _ => panic!("expected the no-messages failure"),
    }
    let one = vec![ConversationMessage { role: "user".to_string(), content: "q1".to_string() }];
    assert_eq!(gemini_history_question(&one, "doc").unwrap(), "q1");
    let two = vec![
        ConversationMessage { role: "user".to_string(), content: "q1".to_string() },
        ConversationMessage { role: "assistant".to_string(), content: "a1".to_string() },
    ];
    let combined = gemini_history_question(&two, "doc").unwrap();
    assert!(combined.contains("doc"));
    assert!(combined.contains("q1"));
    assert!(combined.contains("AI: a1"));
}

#[test]
fn provider_replies_are_unwrapped() {
    let claude = jobj(vec![(
        "content",
        JsonValue::Arr(vec![jobj(vec![("text", jstr("answer"))])]),
    )]);
    assert_eq!(claude_reply_text(&claude).unwrap(), "answer");
    assert!(claude_reply_text(&jobj(vec![("content", JsonValue::Arr(vec![]))])).is_none());
    let openai = jobj(vec![(
        "choices",
        JsonValue::Arr(vec![jobj(vec![(
            "message",
            jobj(vec![("content", jstr("reply")), ("role", jstr("assistant"))]),
        )])]),
    )]);
    assert_eq!(openai_reply_text(&openai).unwrap(), "reply");
    let gemini = jobj(vec![(
        "candidates",
        JsonValue::Arr(vec![jobj(vec![(
            "content",
            jobj(vec![(
                "parts",
                JsonValue::Arr(vec![jobj(vec![("text", jstr("out"))])]),
            )]),
        )])]),
    )]);
    assert_eq!(gemini_reply_text(&gemini).unwrap(), "out");
    let gemini_err = jobj(vec![("error", jobj(vec![("message", jstr("quota"))]))]);
    assert_eq!(gemini_error(&gemini_err).unwrap(), "quota");
    assert!(gemini_error(&gemini).is_none());
}

#[test]
fn notion_urls_are_recognized() {
    assert!(is_notion_url("https://www.notion.so/page"));
    assert!(is_notion_url("https://acme.notion.site/x"));
    assert!(!is_notion_url("https://example.com/notion"));
}

#[test]
fn web_pages_reduce_to_title_and_content() {
    let html = "<html><head><title> T </title></head><body><p>hello</p></body></html>";
    assert_eq!(extract_text(html), "Title: T\n\nhello");
    let article = "<html><head><title>T</title></head><body>\
        <article><p>main text</p></article><p>aside</p></body></html>";
    assert_eq!(extract_text(article), "Title: T\n\nmain text");
}

#[test]
fn excel_sheets_lay_out_as_tab_separated_rows() {
    let sheets = vec![(
        "S1".to_string(),
        vec![
            vec!["a".to_string(), "b".to_string()],
            vec!["c".to_string()],
        ],
    )];
    assert_eq!(excel_text(&sheets), "## Sheet: S1\n\na\tb\nc\n\n");
}

#[test]
fn file_extraction_routes_on_type() {
    // "aGVsbG8=" is the standard base64 of "hello"
    let data = "data:application/octet-stream;base64,aGVsbG8=";
    match extract_plan(data, "image") {
        Ok(ExtractRoute::Done(text)) => assert_eq!(text, IMAGE_MSG),
        _ => panic!("expected the image placeholder"),
    }
    match extract_plan(data, "docx") {
        Ok(ExtractRoute::Done(text)) => assert!(text.starts_with("[DOCX ")),
        _ => panic!("expected the office placeholder"),
    }
    match extract_plan(data, "pdf") {
        Ok(ExtractRoute::Pdf(bytes)) => assert_eq!(bytes, b"hello"),
        _ => panic!("expected the PDF route"),
    }
    match extract_plan(data, "xlsx") {
        Ok(ExtractRoute::Xlsx(bytes)) => assert_eq!(bytes, b"hello"),
        _ => panic!("expected the modern-workbook route"),
    }
    match extract_plan(data, "xls") {
        Ok(ExtractRoute::Xls(bytes)) => assert_eq!(bytes, b"hello"),
        _ => panic!("expected the legacy-workbook route"),
    }
    match extract_plan(data, "gif") {
        Err(e) => assert_eq!(e, "Unsupported file type: gif"),
        _ => panic!("expected the unsupported failure"),
    }
    // text that is not base64 fails before any routing
    assert!(extract_plan("data:x;base64,!!!", "image").is_err());
    // a payload without a data-URL prefix is decoded whole
    match extract_plan("aGVsbG8=", "pdf") {
        Ok(ExtractRoute::Pdf(bytes)) => assert_eq!(bytes, b"hello"),
        _ => panic!("expected the PDF route"),
    }
}

#[test]
fn credentials_prefer_the_cached_value() {
    let mut c = Credentials::new();
    assert!(c.notion_token.is_none());
    assert!(c.load_notion_token(None).is_none());
    assert_eq!(c.load_notion_token(Some("tok".to_string())).unwrap(), "tok");
    assert_eq!(c.notion_token.as_deref(), Some("tok"));
    c.set_database_id("db".to_string());
    assert_eq!(c.database_id.as_deref(), Some("db"));
    assert_eq!(c.load_database_id(None), None);
    assert_eq!(c.database_id.as_deref(), Some("db"));
}

#[test]
fn config_records_start_empty() {
    let c = ClaudeConfig::default();
    assert!(c.api_key.is_none());
    let a = AiConfig::default();
    assert!(a.openai_api_key.is_none() && a.gemini_api_key.is_none());
    let m = McpConfig::default();
    assert!(m.notion_token.is_none() && m.recent_databases.is_none());
}
