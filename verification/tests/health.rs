use behest::health::HealthStatus;

fn object_text(key: &str, value: serde_json::Value) -> String {
    let mut m = serde_json::Map::new();
    m.insert(key.to_string(), value);
    serde_json::Value::Object(m).to_string()
}

#[test]
fn healthy_default_and_label() {
    let s = HealthStatus::healthy();
    assert!(s.is_healthy());
    assert!(s.is_operational());
    assert_eq!(s.label(), "healthy");
}

#[test]
fn degraded_is_operational_but_unhealthy_is_not() {
    let d = HealthStatus::degraded("slow".to_string());
    assert!(!d.is_healthy());
    assert!(d.is_operational());
    assert_eq!(d.label(), "degraded");
    let u = HealthStatus::unhealthy("down".to_string());
    assert!(!u.is_healthy());
    assert!(!u.is_operational());
    assert_eq!(u.label(), "unhealthy");
}

#[test]
fn with_detail_attaches_payload() {
    let s = HealthStatus::healthy().with_detail(object_text("latency_ms", serde_json::Value::from(12)));
    match s {
        HealthStatus::Healthy { detail: Some(v) } => {
            let parsed: serde_json::Value = serde_json::from_str(&v).unwrap();
            assert_eq!(parsed["latency_ms"], 12);
        }
        _ => panic!("expected Healthy with detail"),
    }
}

#[test]
fn to_json_shape_is_stable() {
    let s = HealthStatus::unhealthy_with(
        "redis-down".to_string(),
        object_text("host", serde_json::Value::from("127.0.0.1")),
    );
    let j: serde_json::Value = serde_json::from_str(&s.to_json()).unwrap();
    assert_eq!(j["status"], "unhealthy");
    assert_eq!(j["reason"], "redis-down");
    assert_eq!(j["detail"]["host"], "127.0.0.1");
}

#[test]
fn aggregate_empty_map_is_healthy() {
    let overall = HealthStatus::aggregate(&[]);
    assert!(overall.is_healthy());
}

#[test]
fn aggregate_all_healthy() {
    let map = vec![
        ("a".to_string(), HealthStatus::healthy()),
        ("b".to_string(), HealthStatus::healthy()),
    ];
    let overall = HealthStatus::aggregate(&map);
    assert!(overall.is_healthy());
}

#[test]
fn aggregate_with_degraded() {
    let map = vec![
        ("a".to_string(), HealthStatus::healthy()),
        ("b".to_string(), HealthStatus::degraded("slow".to_string())),
    ];
    let overall = HealthStatus::aggregate(&map);
    assert!(!overall.is_healthy());
    assert!(overall.is_operational());
    assert_eq!(overall.label(), "degraded");
}

#[test]
fn aggregate_with_unhealthy_wins() {
    let map = vec![
        ("a".to_string(), HealthStatus::degraded("slow".to_string())),
        ("b".to_string(), HealthStatus::unhealthy("down".to_string())),
    ];
    let overall = HealthStatus::aggregate(&map);
    assert!(!overall.is_healthy());
    assert!(!overall.is_operational());
    assert_eq!(overall.label(), "unhealthy");
}

#[test]
fn healthz_response_shape() {
    let map = vec![
        ("db".to_string(), HealthStatus::healthy()),
        ("cache".to_string(), HealthStatus::degraded("high latency".to_string())),
    ];
    let resp: serde_json::Value =
        serde_json::from_str(&HealthStatus::healthz_response(&map)).unwrap();
    assert_eq!(resp["status"], "degraded");
    assert!(resp["components"]["db"].is_object());
    assert!(resp["components"]["cache"].is_object());
}

#[test]
fn aggregate_detail_matches_serde_json_layout() {
    let map = vec![
        ("zeta".to_string(), HealthStatus::degraded("slow".to_string())),
        ("alpha".to_string(), HealthStatus::unhealthy("down".to_string())),
        ("mid".to_string(), HealthStatus::healthy()),
    ];
    let overall = HealthStatus::aggregate(&map);
    match overall {
        HealthStatus::Unhealthy { reason, detail: Some(d) } => {
            assert_eq!(reason, "unhealthy components: alpha");
            assert_eq!(
                d,
                "{\"alpha\":{\"detail\":null,\"reason\":\"down\",\"status\":\"unhealthy\"},\"zeta\":{\"detail\":null,\"reason\":\"slow\",\"status\":\"degraded\"}}"
            );
        }
        _ => panic!("expected unhealthy"),
    }
}

#[test]
fn describe_includes_reason_and_detail() {
    assert_eq!(HealthStatus::healthy().describe(), "healthy");
    assert_eq!(
        HealthStatus::degraded_with("slow".to_string(), "{}".to_string()).describe(),
        "degraded(slow; {})"
    );
}

#[test]
fn reason_is_quoted_exactly_as_serde_json_writes_it() {
    for reason in [
        "plain",
        "quote \" and backslash \\",
        "tab\tline\nreturn\rfeed\u{c}back\u{8}",
        "bell \u{7} nul \u{0} unit \u{1f} del \u{7f}",
        "naïve — ✓",
    ] {
        let expected = format!(
            "{{\"detail\":null,\"reason\":{},\"status\":\"degraded\"}}",
            serde_json::to_string(reason).unwrap()
        );
        assert_eq!(HealthStatus::degraded(reason.to_owned()).to_json(), expected);
    }
    assert_eq!(
        HealthStatus::degraded("a\u{1}b".to_owned()).to_json(),
        "{\"detail\":null,\"reason\":\"a\\u0001b\",\"status\":\"degraded\"}"
    );
}
