use model_gateway::config::{Config, Provider};
use model_gateway::mapping::ModelMapping;
use model_gateway::upstream::UpstreamOutcome;
use serde_json::Value;

fn live(base_url: &str) -> Provider {
    Provider { base_url: base_url.to_string(), api_key: "k".to_string(), models: None }
}

fn fixed(base_url: &str, models: &[&str]) -> Provider {
    Provider {
        base_url: base_url.to_string(),
        api_key: String::new(),
        models: Some(models.iter().map(|m| m.to_string()).collect()),
    }
}

fn config_of(providers: Vec<Provider>) -> Config {
    Config { server_api_key: None, providers }
}

fn answered(status: u16, body: &str) -> UpstreamOutcome {
    UpstreamOutcome::Answered { status, body: body.as_bytes().to_vec() }
}

fn json(text: &str) -> Value {
    serde_json::from_str(text).unwrap()
}

#[test]
fn earliest_provider_wins_a_shared_model() {
    let config = config_of(vec![live("https://a.example"), live("https://b.example")]);
    let outcomes = vec![
        answered(200, r#"{"data":[{"id":"m1"}]}"#),
        answered(200, r#"{"data":[{"id":"m0"},{"id":"m1"},{"id":"m2"}]}"#),
    ];
    let mapping = config.get_model_mapping(&outcomes);
    assert_eq!(mapping.get("m1").unwrap().base_url, "https://a.example");
    assert_eq!(mapping.get("m0").unwrap().base_url, "https://b.example");
    assert_eq!(mapping.get("m2").unwrap().base_url, "https://b.example");
    assert_eq!(mapping.len(), 3);
}

#[test]
fn earliest_provider_wins_whatever_the_order_of_the_later_list() {
    let config = config_of(vec![fixed("A", &["m1"]), fixed("B", &["m1", "m1", "m9"]), fixed("C", &["m9", "m1"])]);
    let mapping = config.get_model_mapping(&Vec::new());
    assert_eq!(mapping.get("m1").unwrap().base_url, "A");
    assert_eq!(mapping.get("m9").unwrap().base_url, "B");
    assert_eq!(mapping.len(), 2);
}

#[test]
fn configured_models_map_to_their_provider_without_any_outcome() {
    let config = config_of(vec![fixed("https://s.example", &["x", "y"])]);
    let mapping = config.get_model_mapping(&Vec::new());
    assert_eq!(mapping.get("x"), Some(&config.providers[0]));
    assert_eq!(mapping.get("y"), Some(&config.providers[0]));
    assert_eq!(mapping.get("z"), None);
    let same = config.get_model_mapping(&vec![answered(200, r#"{"data":[{"id":"z"}]}"#)]);
    assert_eq!(same.get("x"), Some(&config.providers[0]));
    assert_eq!(same.get("z"), None);
    assert_eq!(same.len(), 2);
}

#[test]
fn failing_provider_contributes_nothing_and_harms_nobody() {
    let config = config_of(vec![live("https://a.example"), live("https://b.example"), fixed("C", &["m3"])]);
    let outcomes = vec![
        answered(500, r#"{"data":[{"id":"m1"}]}"#),
        answered(200, r#"{"data":[{"id":"m1"},{"id":"m2"}]}"#),
        UpstreamOutcome::NotAsked,
    ];
    let mapping = config.get_model_mapping(&outcomes);
    assert_eq!(mapping.get("m1").unwrap().base_url, "https://b.example");
    assert_eq!(mapping.get("m2").unwrap().base_url, "https://b.example");
    assert_eq!(mapping.get("m3").unwrap().base_url, "C");
    assert_eq!(mapping.len(), 3);
}

#[test]
fn unreachable_provider_contributes_nothing() {
    let config = config_of(vec![live("https://a.example"), fixed("B", &["m1"])]);
    let outcomes = vec![UpstreamOutcome::Unreachable { reason: "connection refused".to_string() }];
    let mapping = config.get_model_mapping(&outcomes);
    assert_eq!(mapping.get("m1").unwrap().base_url, "B");
    assert_eq!(mapping.len(), 1);
}

#[test]
fn provider_without_an_outcome_counts_as_not_asked() {
    let config = config_of(vec![live("https://a.example"), live("https://b.example")]);
    let outcomes = vec![answered(200, r#"{"data":[{"id":"m1"}]}"#)];
    let mapping = config.get_model_mapping(&outcomes);
    assert_eq!(mapping.len(), 1);
    assert_eq!(mapping.get("m1").unwrap().base_url, "https://a.example");
}

#[test]
fn resolution_of_nothing_is_empty() {
    let mapping = config_of(Vec::new()).get_model_mapping(&Vec::new());
    assert!(mapping.is_empty());
    assert_eq!(mapping.len(), 0);
    assert_eq!(mapping.get("m1"), None);
    assert!(!mapping.contains_key("m1"));
    let none = config_of(vec![fixed("A", &[])]).get_model_mapping(&Vec::new());
    assert!(none.is_empty());
}

#[test]
fn mapping_keeps_the_first_provider_of_a_model() {
    let mut mapping = ModelMapping::new();
    assert!(mapping.is_empty());
    mapping.insert_if_absent("m1".to_string(), fixed("A", &[]));
    mapping.insert_if_absent("m1".to_string(), fixed("B", &[]));
    mapping.insert_if_absent("m2".to_string(), fixed("B", &[]));
    assert_eq!(mapping.len(), 2);
    assert!(!mapping.is_empty());
    assert_eq!(mapping.get("m1").unwrap().base_url, "A");
    assert_eq!(mapping.get("m2").unwrap().base_url, "B");
    assert!(mapping.contains_key("m1"));
    assert!(!mapping.contains_key("M1"));
    assert_eq!(mapping.get(""), None);
}

#[test]
fn mapped_provider_is_a_whole_copy() {
    let config = config_of(vec![Provider {
        base_url: "https://a.example/v1/".to_string(),
        api_key: "sk-1".to_string(),
        models: Some(vec!["x".to_string()]),
    }]);
    let mapping = config.get_model_mapping(&Vec::new());
    let p = mapping.get("x").unwrap();
    assert_eq!(p.base_url, "https://a.example/v1/");
    assert_eq!(p.api_key, "sk-1");
    assert_eq!(p.models, Some(vec!["x".to_string()]));
}

#[test]
fn raw_models_come_in_first_seen_order_each_id_once() {
    let config = config_of(vec![live("https://a.example"), fixed("B", &["m2", "m4"]), live("https://c.example")]);
    let outcomes = vec![
        answered(200, r#"{"data":[{"id":"m1","v":1},{"id":"m2","v":1},{"id":"m1","v":2},{"v":3}]}"#),
        UpstreamOutcome::NotAsked,
        answered(200, r#"{"data":[{"id":"m4","v":4},{"id":"m5","v":5},{"id":5}]}"#),
    ];
    let records = config.get_all_raw_models(&outcomes);
    assert_eq!(
        records,
        vec![
            json(r#"{"id":"m1","v":1}"#),
            json(r#"{"id":"m2","v":1}"#),
            json(r#"{"id":"m4","object":"model","created":null,"owned_by":null}"#),
            json(r#"{"id":"m5","v":5}"#),
        ]
    );
}

#[test]
fn raw_models_survive_a_failing_provider() {
    let config = config_of(vec![live("https://a.example"), fixed("B", &["m2"])]);
    let outcomes = vec![answered(503, "upstream down")];
    assert_eq!(
        config.get_all_raw_models(&outcomes),
        vec![json(r#"{"id":"m2","object":"model","created":null,"owned_by":null}"#)]
    );
    assert_eq!(config_of(Vec::new()).get_all_raw_models(&Vec::new()), Vec::<Value>::new());
}

#[test]
fn raw_models_and_mapping_know_the_same_ids() {
    let config = config_of(vec![live("https://a.example"), fixed("B", &["m2", "m3"])]);
    let outcomes = vec![answered(200, r#"{"data":[{"id":"m1"},{"id":"m2"},{"x":1}]}"#)];
    let mapping = config.get_model_mapping(&outcomes);
    let records = config.get_all_raw_models(&outcomes);
    assert_eq!(records.len(), mapping.len());
    for record in &records {
        let id = model_gateway::listing::id_of(record).unwrap();
        assert!(mapping.contains_key(&id));
    }
}
