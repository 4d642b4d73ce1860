use openrouter_local::config::{ModelRoute, RoutingTable};
use openrouter_local::providers::ProviderError;
use openrouter_local::router::model_router::{stream_provider, ChatRouting, RouteStep};

fn table() -> RoutingTable {
    RoutingTable {
        models: vec![
            ModelRoute { model: "gpt-4o".into(), provider: "openai".into() },
            ModelRoute { model: "gemini-pro".into(), provider: "gemini".into() },
            ModelRoute { model: "orphan".into(), provider: "missing".into() },
            ModelRoute { model: "qwen".into(), provider: "cli".into() },
        ],
        providers: vec!["openai".into(), "gemini".into(), "cli".into()],
        fallback_models: vec!["orphan".into(), "unknown".into(), "qwen".into()],
    }
}

fn call(step: RouteStep) -> (String, String) {
    match step {
        RouteStep::Call(r) => (r.model, r.provider),
        RouteStep::Finish(e) => panic!("expected a call, got {e:?}"),
    }
}

#[test]
fn tries_requested_model_then_routable_fallbacks() {
    let t = table();
    let mut routing = ChatRouting::new(&t, &"gpt-4o".to_string());
    assert_eq!(call(routing.next_step()), ("gpt-4o".to_string(), "openai".to_string()));
    routing.record_failure(ProviderError::Http("boom".into()));
    assert_eq!(call(routing.next_step()), ("qwen".to_string(), "cli".to_string()));
    routing.record_failure(ProviderError::Cli("exit 1".into()));
    match routing.next_step() {
        RouteStep::Finish(ProviderError::Cli(m)) => assert_eq!(m, "exit 1"),
        other => panic!("unexpected {other:?}"),
    }
}

#[test]
fn unknown_model_falls_back() {
    let t = table();
    let routing = ChatRouting::new(&t, &"nope".to_string());
    assert_eq!(call(routing.next_step()), ("qwen".to_string(), "cli".to_string()));
}

#[test]
fn no_route_found_when_nothing_is_routable() {
    let t = RoutingTable { models: vec![], providers: vec![], fallback_models: vec![] };
    let routing = ChatRouting::new(&t, &"gpt-4o".to_string());
    match routing.next_step() {
        RouteStep::Finish(e) => assert_eq!(e.message(), "config error: no route found"),
        other => panic!("unexpected {other:?}"),
    }
}

#[test]
fn streaming_does_not_fall_back() {
    let t = table();
    assert_eq!(stream_provider(&t, &"gemini-pro".to_string()).unwrap(), "gemini");
    match stream_provider(&t, &"nope".to_string()) {
        Err(e) => assert_eq!(e.message(), "config error: model not found"),
        Ok(p) => panic!("unexpected {p}"),
    }
    match stream_provider(&t, &"orphan".to_string()) {
        Err(e) => assert_eq!(e.message(), "config error: provider not found"),
        Ok(p) => panic!("unexpected {p}"),
    }
}

#[test]
fn provider_errors_read_as_their_kind() {
    assert_eq!(ProviderError::Http("x".into()).message(), "http upstream error: x");
    assert_eq!(ProviderError::Cli("x".into()).message(), "cli execution error: x");
    assert_eq!(ProviderError::Parse("x".into()).message(), "parse error: x");
    assert_eq!(ProviderError::Config("x".into()).message(), "config error: x");
}
