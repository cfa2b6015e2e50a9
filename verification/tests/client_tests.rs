use spica_writer::client::{
    ClientError, OpenAIClient, classify_response, extract_reply, tabs_from_reply,
};

fn client() -> OpenAIClient {
    OpenAIClient::new(Some("sk-test".to_string())).unwrap()
}

#[test]
fn new_with_credential() {
    let c = client();
    assert_eq!(c.api_key, "sk-test");
    assert_eq!(c.base_url, "https://api.openai.com/v1");
    assert_eq!(c.model, "gpt-4o");
}

#[test]
fn new_without_credential_is_config_error() {
    match OpenAIClient::new(None) {
        Err(ClientError::ConfigError(m)) => {
            assert_eq!(m, "OPENAI_API_KEY not found in environment");
        }
        other => panic!("expected a configuration error, got {:?}", other),
    }
}

#[test]
fn completions_url_appends_endpoint() {
    assert_eq!(client().completions_url(), "https://api.openai.com/v1/chat/completions");
}

#[test]
fn request_body_carries_both_messages_in_order() {
    let body = client().build_request_body("You are a helper.", "Write a scene.");
    let v: serde_json::Value = serde_json::from_str(&body).unwrap();
    assert_eq!(v.get("model").unwrap().as_str().unwrap(), "gpt-4o");
    let messages = v.get("messages").unwrap().as_array().unwrap();
    assert_eq!(messages.len(), 2);
    assert_eq!(messages[0].get("role").unwrap().as_str().unwrap(), "system");
    assert_eq!(messages[0].get("content").unwrap().as_str().unwrap(), "You are a helper.");
    assert_eq!(messages[1].get("role").unwrap().as_str().unwrap(), "user");
    assert_eq!(messages[1].get("content").unwrap().as_str().unwrap(), "Write a scene.");
}

#[test]
fn request_body_escapes_special_characters() {
    let tricky = "line one\nsaid \"hi\" \\ tab\there\u{1}";
    let body = client().build_request_body(tricky, "plain");
    let v: serde_json::Value = serde_json::from_str(&body).unwrap();
    let messages = v.get("messages").unwrap().as_array().unwrap();
    assert_eq!(messages[0].get("content").unwrap().as_str().unwrap(), tricky);
}

#[test]
fn success_with_well_formed_body_returns_content() {
    let body = "{\"choices\":[{\"message\":{\"role\":\"assistant\",\"content\":\"Hello.\"}}]}";
    let r = extract_reply(200, body.to_string());
    assert_eq!(r.unwrap(), "Hello.");
}

#[test]
fn success_with_malformed_body_is_api_error() {
    let body = "not json at all";
    match extract_reply(200, body.to_string()) {
        Err(ClientError::ApiError { status, body: b }) => {
            assert_eq!(status, 200);
            assert_eq!(b, body);
        }
        other => panic!("expected a protocol violation, got {:?}", other),
    }
}

#[test]
fn success_with_no_choices_is_api_error() {
    let body = "{\"choices\":[]}";
    match extract_reply(200, body.to_string()) {
        Err(ClientError::ApiError { status, .. }) => assert_eq!(status, 200),
        other => panic!("expected a protocol violation, got {:?}", other),
    }
}

#[test]
fn failure_with_envelope_is_upstream_error() {
    let body = "{\"error\":{\"message\":\"Rate limited\",\"type\":\"rate_limit_error\",\"code\":\"rate_limit_exceeded\"}}";
    match extract_reply(429, body.to_string()) {
        Err(ClientError::UpstreamError { status, message, code }) => {
            assert_eq!(status, 429);
            assert_eq!(message, "Rate limited");
            assert_eq!(code, "rate_limit_exceeded");
        }
        other => panic!("expected an upstream error, got {:?}", other),
    }
}

#[test]
fn failure_without_envelope_is_api_error() {
    let body = "Internal Server Error";
    match extract_reply(500, body.to_string()) {
        Err(ClientError::ApiError { status, body: b }) => {
            assert_eq!(status, 500);
            assert_eq!(b, "Internal Server Error");
        }
        other => panic!("expected an api error, got {:?}", other),
    }
}

#[test]
fn failure_with_incomplete_envelope_is_api_error() {
    let body = "{\"error\":{\"message\":\"Bad\"}}";
    match extract_reply(400, body.to_string()) {
        Err(ClientError::ApiError { status, .. }) => assert_eq!(status, 400),
        other => panic!("expected an api error, got {:?}", other),
    }
}

#[test]
fn classify_response_on_simulated_parts() {
    let ok = classify_response(204, "ignored".to_string(), None, Some("reply".to_string()));
    assert_eq!(ok.unwrap(), "reply");
    let up = classify_response(
        403,
        "body".to_string(),
        Some(("denied".to_string(), "forbidden".to_string())),
        None,
    );
    match up {
        Err(ClientError::UpstreamError { status, message, code }) => {
            assert_eq!((status, message.as_str(), code.as_str()), (403, "denied", "forbidden"));
        }
        other => panic!("expected an upstream error, got {:?}", other),
    }
}

#[test]
fn tabs_wrap_the_parsed_reply() {
    let r = tabs_from_reply("Alice nodded.\nShe said \"yes\".");
    assert_eq!(r.tabs.len(), 1);
    assert_eq!(r.tabs[0].title, "Generated Scene Segment");
    assert!(r.tabs[0].summary.is_none());
    let tl = &r.tabs[0].timeline;
    assert_eq!(tl.len(), 2);
    assert_eq!(tl[0].text, "Alice nodded.");
    assert_eq!(tl[1].text, "She said");
    assert_eq!(tl[1].dialogue.as_deref(), Some("yes"));
}
