use model_gateway::config::{Config, Provider};
use model_gateway::upstream::{status_is_success, Method, UpstreamOutcome};
use serde_json::Value;

fn live(base_url: &str, api_key: &str) -> Provider {
    Provider { base_url: base_url.to_string(), api_key: api_key.to_string(), models: None }
}

fn fixed(base_url: &str, models: &[&str]) -> Provider {
    Provider {
        base_url: base_url.to_string(),
        api_key: String::new(),
        models: Some(models.iter().map(|m| m.to_string()).collect()),
    }
}

fn empty_config() -> Config {
    Config { server_api_key: None, providers: Vec::new() }
}

fn answered(status: u16, body: &str) -> UpstreamOutcome {
    UpstreamOutcome::Answered { status, body: body.as_bytes().to_vec() }
}

fn json(text: &str) -> Value {
    serde_json::from_str(text).unwrap()
}

#[test]
fn validate_api_key_accepts_only_the_configured_secret() {
    let config = Config { server_api_key: Some("secret".to_string()), providers: Vec::new() };
    assert!(config.validate_api_key("secret"));
    assert!(!config.validate_api_key("Secret"));
    assert!(!config.validate_api_key("secret "));
    assert!(!config.validate_api_key(" secret"));
    assert!(!config.validate_api_key(""));
    assert!(!config.validate_api_key("secre"));
}

#[test]
fn validate_api_key_accepts_everything_without_a_secret() {
    let config = empty_config();
    assert!(config.validate_api_key("anything"));
    assert!(config.validate_api_key(""));
}

#[test]
fn validate_api_key_compares_whole_characters() {
    let config = Config { server_api_key: Some("clé-ключ".to_string()), providers: Vec::new() };
    assert!(config.validate_api_key("clé-ключ"));
    assert!(!config.validate_api_key("cle-ключ"));
}

#[test]
fn provider_clone_keeps_every_field() {
    let p = Provider {
        base_url: "https://a.example/v1".to_string(),
        api_key: "k".to_string(),
        models: Some(vec!["x".to_string(), "y".to_string()]),
    };
    assert_eq!(p.clone(), p);
    let q = live("https://b.example", "");
    assert_eq!(q.clone(), q);
}

#[test]
fn endpoint_strips_every_trailing_slash() {
    assert_eq!(live("https://a.example/v1", "").endpoint("/models"), "https://a.example/v1/models");
    assert_eq!(live("https://a.example/v1/", "").endpoint("/models"), "https://a.example/v1/models");
    assert_eq!(live("https://a.example/v1///", "").endpoint("/models"), "https://a.example/v1/models");
    assert_eq!(live("///", "").endpoint("/models"), "/models");
    assert_eq!(live("", "").endpoint("/models"), "/models");
    assert_eq!(live("https://a.example/a/b", "").endpoint("/x"), "https://a.example/a/b/x");
}

#[test]
fn authorization_is_sent_only_for_a_key() {
    assert_eq!(live("u", "sk-1").authorization(), Some("Bearer sk-1".to_string()));
    assert_eq!(live("u", "").authorization(), None);
    assert_eq!(live("u", " ").authorization(), Some("Bearer  ".to_string()));
}

#[test]
fn models_request_asks_the_listing_endpoint() {
    let request = live("https://a.example/v1/", "sk-1").models_request().unwrap();
    assert_eq!(request.method, Method::Get);
    assert_eq!(request.url, "https://a.example/v1/models");
    assert_eq!(request.authorization, Some("Bearer sk-1".to_string()));
    assert_eq!(request.body, None);
}

#[test]
fn models_request_without_key_has_no_header() {
    let request = live("http://localhost:11434/v1", "").models_request().unwrap();
    assert_eq!(request.url, "http://localhost:11434/v1/models");
    assert_eq!(request.authorization, None);
}

#[test]
fn configured_models_are_never_asked_for() {
    assert_eq!(fixed("https://a.example", &["x", "y"]).models_request(), None);
    assert_eq!(fixed("https://a.example", &[]).models_request(), None);
}

#[test]
fn chat_request_posts_the_body() {
    let request = live("https://a.example/v1/", "sk-1").chat_request(b"{\"model\":\"m\"}".to_vec());
    assert_eq!(request.method, Method::Post);
    assert_eq!(request.url, "https://a.example/v1/chat/completions");
    assert_eq!(request.authorization, Some("Bearer sk-1".to_string()));
    assert_eq!(request.body, Some(b"{\"model\":\"m\"}".to_vec()));
    let open = fixed("https://b.example", &["m"]).chat_request(Vec::new());
    assert_eq!(open.authorization, None);
    assert_eq!(open.body, Some(Vec::new()));
}

#[test]
fn success_is_the_2xx_class() {
    assert!(!status_is_success(199));
    assert!(status_is_success(200));
    assert!(status_is_success(204));
    assert!(status_is_success(299));
    assert!(!status_is_success(300));
    assert!(!status_is_success(500));
    assert!(!status_is_success(0));
}

#[test]
fn fetch_models_returns_configured_models_whatever_the_outcome() {
    let config = empty_config();
    let p = fixed("https://a.example", &["x", "y"]);
    let expected = vec!["x".to_string(), "y".to_string()];
    assert_eq!(config.fetch_models_from_provider(&p, &UpstreamOutcome::NotAsked), expected);
    assert_eq!(config.fetch_models_from_provider(&p, &answered(500, "")), expected);
    assert_eq!(
        config.fetch_models_from_provider(&p, &answered(200, r#"{"data":[{"id":"z"}]}"#)),
        expected
    );
}

#[test]
fn fetch_models_reads_the_ids_of_the_data_array() {
    let config = empty_config();
    let p = live("https://a.example", "k");
    let body = r#"{"object":"list","data":[{"id":"m1","owned_by":"a"},{"id":"m2"},{"id":"m1"}]}"#;
    assert_eq!(
        config.fetch_models_from_provider(&p, &answered(200, body)),
        vec!["m1".to_string(), "m2".to_string(), "m1".to_string()]
    );
}

#[test]
fn fetch_models_skips_records_without_a_string_id() {
    let config = empty_config();
    let p = live("https://a.example", "k");
    let body = r#"{"data":[{"id":7},{"name":"x"},"m0",null,{"id":null},{"id":"m3"},[],{"id":""}]}"#;
    assert_eq!(
        config.fetch_models_from_provider(&p, &answered(200, body)),
        vec!["m3".to_string(), String::new()]
    );
}

#[test]
fn fetch_models_degrades_to_nothing_on_every_failure() {
    let config = empty_config();
    let p = live("https://a.example", "k");
    let none: Vec<String> = Vec::new();
    let good = r#"{"data":[{"id":"m1"}]}"#;
    assert_eq!(config.fetch_models_from_provider(&p, &answered(500, good)), none);
    assert_eq!(config.fetch_models_from_provider(&p, &answered(404, good)), none);
    assert_eq!(config.fetch_models_from_provider(&p, &answered(301, good)), none);
    assert_eq!(config.fetch_models_from_provider(&p, &answered(199, good)), none);
    assert_eq!(config.fetch_models_from_provider(&p, &answered(200, "not json")), none);
    assert_eq!(config.fetch_models_from_provider(&p, &answered(200, "")), none);
    assert_eq!(config.fetch_models_from_provider(&p, &answered(200, r#"{"data":[{"id":"m1"}]} x"#)), none);
    assert_eq!(config.fetch_models_from_provider(&p, &answered(200, r#"{"models":[{"id":"m1"}]}"#)), none);
    assert_eq!(config.fetch_models_from_provider(&p, &answered(200, r#"{"data":{"id":"m1"}}"#)), none);
    assert_eq!(config.fetch_models_from_provider(&p, &answered(200, r#"[{"id":"m1"}]"#)), none);
    assert_eq!(config.fetch_models_from_provider(&p, &answered(200, r#"{"data":[]}"#)), none);
    assert_eq!(
        config.fetch_models_from_provider(&p, &UpstreamOutcome::Unreachable { reason: "refused".to_string() }),
        none
    );
    assert_eq!(config.fetch_models_from_provider(&p, &UpstreamOutcome::NotAsked), none);
}

#[test]
fn fetch_models_accepts_any_2xx_status() {
    let config = empty_config();
    let p = live("https://a.example", "k");
    let good = r#"{"data":[{"id":"m1"}]}"#;
    assert_eq!(config.fetch_models_from_provider(&p, &answered(200, good)), vec!["m1".to_string()]);
    assert_eq!(config.fetch_models_from_provider(&p, &answered(299, good)), vec!["m1".to_string()]);
}

#[test]
fn fetch_raw_models_makes_minimal_records_for_configured_models() {
    let config = empty_config();
    let p = fixed("https://a.example", &["x", "y"]);
    let records = config.fetch_raw_models_from_provider(&p, &answered(200, r#"{"data":[{"id":"z"}]}"#));
    assert_eq!(
        records,
        vec![
            json(r#"{"id":"x","object":"model","created":null,"owned_by":null}"#),
            json(r#"{"id":"y","object":"model","created":null,"owned_by":null}"#),
        ]
    );
}

#[test]
fn fetch_raw_models_hands_records_on_whole() {
    let config = empty_config();
    let p = live("https://a.example", "k");
    let body = r#"{"data":[{"id":"m1","context_length":8192,"pricing":{"in":0.5}},{"name":"no id"},17]}"#;
    let records = config.fetch_raw_models_from_provider(&p, &answered(200, body));
    assert_eq!(
        records,
        vec![
            json(r#"{"id":"m1","context_length":8192,"pricing":{"in":0.5}}"#),
            json(r#"{"name":"no id"}"#),
            json("17"),
        ]
    );
}

#[test]
fn fetch_raw_models_degrades_to_nothing_on_every_failure() {
    let config = empty_config();
    let p = live("https://a.example", "k");
    let none: Vec<Value> = Vec::new();
    assert_eq!(config.fetch_raw_models_from_provider(&p, &answered(500, r#"{"data":[{"id":"m1"}]}"#)), none);
    assert_eq!(config.fetch_raw_models_from_provider(&p, &answered(200, "{")), none);
    assert_eq!(config.fetch_raw_models_from_provider(&p, &answered(200, r#"{"data":"m1"}"#)), none);
    assert_eq!(
        config.fetch_raw_models_from_provider(&p, &UpstreamOutcome::Unreachable { reason: "timeout".to_string() }),
        none
    );
    assert_eq!(config.fetch_raw_models_from_provider(&p, &UpstreamOutcome::NotAsked), none);
}

#[test]
fn static_record_and_id_agree() {
    let record = model_gateway::listing::make_static_record("gpt-x");
    assert_eq!(model_gateway::listing::id_of(&record), Some("gpt-x".to_string()));
    assert_eq!(model_gateway::listing::id_of(&json(r#"{"id":3}"#)), None);
    assert_eq!(model_gateway::listing::id_of(&json(r#"["id"]"#)), None);
    assert_eq!(model_gateway::listing::id_of(&json(r#"{"ID":"x"}"#)), None);
}

#[test]
fn copy_texts_copies() {
    let list = vec!["a".to_string(), String::new(), "ü".to_string()];
    assert_eq!(model_gateway::listing::copy_texts(&list), list);
    assert_eq!(model_gateway::listing::copy_texts(&Vec::new()), Vec::<String>::new());
}

#[test]
fn listing_request_is_built_for_any_provider() {
    let request = fixed("https://a.example//", &["x"]).listing_request();
    assert_eq!(request.method, Method::Get);
    assert_eq!(request.url, "https://a.example/models");
    assert_eq!(request.authorization, None);
    assert_eq!(request.body, None);
}
