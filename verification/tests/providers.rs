use openrouter_local::api::chat::{
    chat_usage, check_model, completion_body, stream_failure_chunk, upstream_failure, wants_stream,
};
use openrouter_local::api::models::list_models;
use openrouter_local::config::{
    key_env_of, provider_setup, ModelRoute, ProviderConfig, ProviderSetup, RoutingTable, ServerConfig,
    SetupError,
};
use openrouter_local::providers::cli::{cli_stream_chunks, interpret_cli_output, CliAdapter};
use openrouter_local::providers::gemini_http::{gemini_role, generate_url, interpret_gemini_reply};
use openrouter_local::providers::openai_http::{
    chat_completions_url, http_stream_pieces, interpret_openai_reply, split_bytes,
};
use openrouter_local::providers::ProviderError;
use openrouter_local::token::naive::NaiveTokenCounter;
use openrouter_local::token::TokenCounter;
use openrouter_local::types::normalized::{Message, NormalizedChatResponse};
use openrouter_local::types::openai::{ContentPart, MessageContent};

fn msg(role: &str, content: &str) -> Message {
    Message { role: role.to_string(), content: content.to_string() }
}

fn provider(kind: &str) -> ProviderConfig {
    ProviderConfig {
        kind: kind.to_string(),
        base_url: Some("https://api.openai.com/v1".to_string()),
        api_key_env: Some("OPENAI_API_KEY".to_string()),
        command: None,
        args: vec![],
    }
}

#[test]
fn cli_prompt_and_output() {
    let adapter = CliAdapter::new("gemini".to_string(), vec!["-p".to_string()]);
    assert_eq!(adapter.command(), "gemini");
    assert_eq!(adapter.args(), &vec!["-p".to_string()]);
    let prompt = CliAdapter::format_prompt(&[msg("system", "be brief"), msg("user", "hi there")]);
    assert_eq!(prompt, "SYSTEM: be brief\nUSER: hi there");
    assert_eq!(CliAdapter::format_prompt(&[]), "");
    let ok = interpret_cli_output(true, "  answer\n", "").unwrap();
    assert_eq!((ok.content.as_str(), ok.finish_reason.as_str()), ("answer", "stop"));
    match interpret_cli_output(false, "out", "bad flag") {
        Err(ProviderError::Cli(m)) => assert_eq!(m, "bad flag"),
        other => panic!("unexpected {other:?}"),
    }
    let chunks = cli_stream_chunks(&"y".repeat(100));
    assert_eq!(chunks.iter().map(|c| c.content_delta.len()).collect::<Vec<_>>(), vec![48, 48, 4]);
}

#[test]
fn openai_endpoint_and_reply() {
    assert_eq!(chat_completions_url("https://api.openai.com/v1/"), "https://api.openai.com/v1/chat/completions");
    let r = interpret_openai_reply(200, "{}", Some("hi".into()), None).unwrap();
    assert_eq!((r.content.as_str(), r.finish_reason.as_str()), ("hi", "stop"));
    let r = interpret_openai_reply(201, "{}", None, Some("length".into())).unwrap();
    assert_eq!((r.content.as_str(), r.finish_reason.as_str()), ("", "length"));
    match interpret_openai_reply(429, "{\"error\":1}", Some("x".into()), None) {
        Err(ProviderError::Http(m)) => assert_eq!(m, "{\"error\":1}"),
        other => panic!("unexpected {other:?}"),
    }
}

#[test]
fn gemini_endpoint_roles_and_reply() {
    assert_eq!(
        generate_url("https://g.example/", "gemini-pro", "k3y"),
        "https://g.example/v1beta/models/gemini-pro:generateContent?key=k3y"
    );
    assert_eq!(gemini_role(&"assistant".to_string()), "model");
    assert_eq!(gemini_role(&"system".to_string()), "user");
    assert_eq!(gemini_role(&"user".to_string()), "user");
    let r = interpret_gemini_reply(200, "{}", None).unwrap();
    assert_eq!((r.content.as_str(), r.finish_reason.as_str()), ("", "stop"));
    assert!(matches!(interpret_gemini_reply(500, "oops", Some("t".into())), Err(ProviderError::Http(_))));
}

#[test]
fn http_streams_in_64_byte_pieces() {
    let text = "é".repeat(40);
    let pieces = http_stream_pieces(&text);
    assert_eq!(pieces.iter().map(Vec::len).collect::<Vec<_>>(), vec![64, 16]);
    assert_eq!(pieces.concat(), text.as_bytes());
    assert_eq!(split_bytes(&[1, 2, 3, 4, 5], 2), vec![vec![1, 2], vec![3, 4], vec![5]]);
    assert!(http_stream_pieces("").is_empty());
}

#[test]
fn provider_setup_per_kind() {
    assert_eq!(key_env_of(&provider("openai_http")).unwrap().as_deref(), Some("OPENAI_API_KEY"));
    assert_eq!(key_env_of(&provider("cli")).unwrap(), None);
    assert_eq!(key_env_of(&provider("ftp")).unwrap_err(), SetupError::UnsupportedKind);
    let mut no_env = provider("gemini_http");
    no_env.api_key_env = None;
    assert_eq!(key_env_of(&no_env).unwrap_err().message(), "api_key_env missing");

    match provider_setup(&provider("gemini_http"), Some("k".into())).unwrap() {
        ProviderSetup::GeminiHttp { base_url, api_key } => {
            assert_eq!((base_url.as_str(), api_key.as_str()), ("https://api.openai.com/v1", "k"))
        }
        other => panic!("unexpected {other:?}"),
    }
    let mut no_url = provider("openai_http");
    no_url.base_url = None;
    assert_eq!(provider_setup(&no_url, Some("k".into())).unwrap_err().message(), "base_url missing");
    let cli = provider("cli");
    assert_eq!(provider_setup(&cli, None).unwrap_err().message(), "command missing");
    let cli = ProviderConfig { command: Some("qwen".into()), args: vec!["-y".into()], ..provider("cli") };
    match provider_setup(&cli, None).unwrap() {
        ProviderSetup::Cli { command, args } => assert_eq!((command.as_str(), args), ("qwen", vec!["-y".to_string()])),
        other => panic!("unexpected {other:?}"),
    }
    assert_eq!(provider_setup(&provider("ftp"), None).unwrap_err().message(), "unsupported provider kind");
}

#[test]
fn server_address() {
    let s = ServerConfig { bind: "127.0.0.1".into(), port: 18790 };
    assert_eq!(s.bind_address(), "127.0.0.1:18790");
}

#[test]
fn naive_token_estimates() {
    let counter = NaiveTokenCounter;
    let messages = [msg("user", "hello big   world"), msg("assistant", "")];
    assert_eq!(counter.count_prompt("m", &messages), 3 + 4 + 4);
    assert_eq!(counter.count_completion("m", " a b\tc\n"), 3);
    assert_eq!(counter.count_prompt("m", &[]), 0);
}

#[test]
fn chat_endpoint_decisions() {
    let table = RoutingTable {
        models: vec![ModelRoute { model: "gpt-4o".into(), provider: "openai".into() }],
        providers: vec!["openai".into()],
        fallback_models: vec![],
    };
    assert!(check_model(&table, &"gpt-4o".to_string()).is_ok());
    let e = check_model(&table, &"nope".to_string()).unwrap_err();
    assert_eq!((e.status, e.message.as_str(), e.error_type.as_str()), (400, "model 'nope' not found", "invalid_request_error"));
    let e = upstream_failure(&ProviderError::Http("down".into()));
    assert_eq!((e.status, e.message.as_str(), e.error_type.as_str()), (502, "http upstream error: down", "upstream_error"));
    assert_eq!(stream_failure_chunk(&ProviderError::Config("x".into())).content_delta, "[error] config error: x");
    assert!(!wants_stream(None));
    assert!(wants_stream(Some(true)));
    assert!(!wants_stream(Some(false)));
    let items = list_models(&table);
    assert_eq!((items[0].id.as_str(), items[0].object.as_str(), items[0].owned_by.as_str()), ("gpt-4o", "model", "openai"));
}

#[test]
fn message_content_keeps_text_parts() {
    let plain = MessageContent::Text("hi".to_string());
    assert_eq!(plain.to_plain_text(), "hi");
    assert!(!plain.has_non_text_parts());
    let parts = MessageContent::Parts(vec![
        ContentPart { part_type: "text".into(), text: Some("a".into()) },
        ContentPart { part_type: "image_url".into(), text: None },
        ContentPart { part_type: "text".into(), text: Some("b".into()) },
        ContentPart { part_type: "text".into(), text: None },
    ]);
    assert_eq!(parts.to_plain_text(), "ab");
    assert!(parts.has_non_text_parts());
    let only_text = MessageContent::Parts(vec![ContentPart { part_type: "text".into(), text: Some("x".into()) }]);
    assert!(!only_text.has_non_text_parts());
}

#[test]
fn prompt_estimate_adds_up_and_ignores_roles_and_model() {
    let counter = NaiveTokenCounter;
    let a = [msg("system", "be brief"), msg("user", "one two three")];
    let b = [msg("assistant", "  four\tfive ")];
    let ab = [msg("system", "be brief"), msg("user", "one two three"), msg("assistant", "  four\tfive ")];
    assert_eq!(counter.count_prompt("m", &a), 2 + 4 + 3 + 4);
    assert_eq!(counter.count_prompt("m", &ab), counter.count_prompt("m", &a) + counter.count_prompt("m", &b));
    let renamed = [msg("user", "be brief"), msg("tool", "one two three")];
    assert_eq!(counter.count_prompt("other-model", &renamed), counter.count_prompt("m", &a));
    for m in &ab {
        assert_eq!(
            counter.count_prompt("m", std::slice::from_ref(m)),
            counter.count_completion("m", &m.content) + 4
        );
    }
}

#[test]
fn completed_chat_body() {
    let reply = NormalizedChatResponse { content: "hi there".to_string(), finish_reason: "stop".to_string() };
    let body = completion_body("chatcmpl_1".to_string(), 1_700_000_000, "gpt-4o".to_string(), reply, 11, 2);
    assert_eq!(body.id, "chatcmpl_1");
    assert_eq!(body.object, "chat.completion");
    assert_eq!(body.created, 1_700_000_000);
    assert_eq!(body.model, "gpt-4o");
    assert_eq!(body.choices.len(), 1);
    assert_eq!(body.choices[0].index, 0);
    assert_eq!(body.choices[0].message.role, "assistant");
    assert_eq!(body.choices[0].message.content, "hi there");
    assert_eq!(body.choices[0].finish_reason, "stop");
    assert_eq!(body.usage.prompt_tokens, 11);
    assert_eq!(body.usage.completion_tokens, 2);
    assert_eq!(body.usage.total_tokens, 13);
    let u = chat_usage(u64::MAX - 5, 5);
    assert_eq!(u.total_tokens, u64::MAX);
    assert_eq!(chat_usage(0, 0).total_tokens, 0);
}

#[test]
fn model_list_names_each_model_once() {
    let route = |m: &str, p: &str| ModelRoute { model: m.into(), provider: p.into() };
    let table = RoutingTable {
        models: vec![route("gpt-4o", "openai"), route("gemini-pro", "gemini"), route("local", "cli")],
        providers: vec!["openai".into(), "gemini".into(), "cli".into()],
        fallback_models: vec![],
    };
    assert!(table.has_distinct_models());
    let items = list_models(&table);
    let ids: Vec<&str> = items.iter().map(|i| i.id.as_str()).collect();
    assert_eq!(ids, vec!["gpt-4o", "gemini-pro", "local"]);
    assert!(items.iter().all(|i| i.object == "model"));
    assert_eq!(items[1].owned_by, "gemini");
    let repeated = RoutingTable {
        models: vec![route("a", "openai"), route("b", "cli"), route("a", "cli")],
        providers: vec![],
        fallback_models: vec![],
    };
    assert!(!repeated.has_distinct_models());
    let empty = RoutingTable { models: vec![], providers: vec![], fallback_models: vec![] };
    assert!(empty.has_distinct_models());
    assert!(list_models(&empty).is_empty());
}
