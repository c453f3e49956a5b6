use serde_json::Value;
use tauri_plugins::posthog::event::{batch_body, merged_properties, Base, Event};

fn base() -> Base {
    Base {
        distinct_id: "install-1".to_string(),
        lib_version: "0.1.0-alpha.1",
        app_version: "1.2.3".to_string(),
        os: "iOS",
        platform: "ios",
    }
}

const IDENTITY_PROPERTIES: [&str; 5] = [
    "$set",
    "$set_once",
    "$unset",
    "$groups",
    "$anon_distinct_id",
];

fn someone() -> Value {
    let mut person = serde_json::Map::new();
    person.insert("name".to_string(), Value::from("someone"));
    Value::Object(person)
}

#[test]
fn an_event_gets_a_uuid_and_a_utc_timestamp_when_it_is_made() {
    let e = Event::new("game_finished", serde_json::Map::new()).unwrap();
    assert_eq!(uuid::Uuid::parse_str(&e.uuid).unwrap().get_version_num(), 4);
    assert!(e.timestamp.ends_with('Z'));
    assert!(time::OffsetDateTime::parse(
        &e.timestamp,
        &time::format_description::well_known::Rfc3339
    )
    .is_ok());
}

#[test]
fn a_blank_or_overlong_name_is_refused() {
    assert!(Event::new("", serde_json::Map::new()).is_none());
    assert!(Event::new("   ", serde_json::Map::new()).is_none());
    assert!(Event::new(&"x".repeat(201), serde_json::Map::new()).is_none());
    assert!(Event::new(&"x".repeat(200), serde_json::Map::new()).is_some());
}

#[test]
fn the_names_that_would_identify_a_person_are_refused() {
    for name in [
        "$identify",
        "$create_alias",
        "$merge_dangerously",
        "$groupidentify",
    ] {
        assert!(Event::new(name, serde_json::Map::new()).is_none(), "{name}");
    }
    assert!(Event::new("$pageview", serde_json::Map::new()).is_some());
}

#[test]
fn the_properties_that_would_build_a_person_are_stripped() {
    let mut props = serde_json::Map::new();
    for key in IDENTITY_PROPERTIES {
        props.insert(key.into(), someone());
    }
    props.insert("game".into(), "caro".into());
    let body = batch_body("k", &base(), &[Event::new("x", props).unwrap()]);
    let p = body["batch"][0]["properties"].as_object().unwrap();
    for key in IDENTITY_PROPERTIES {
        assert!(!p.contains_key(key), "{key}");
    }
    assert_eq!(p["game"], "caro");
}

#[test]
fn the_body_carries_the_key_and_every_event_with_its_own_uuid_and_time() {
    let a = Event::new("room_created", serde_json::Map::new()).unwrap();
    let b = Event::new("game_started", serde_json::Map::new()).unwrap();
    let body = batch_body("phc_test", &base(), &[a.clone(), b.clone()]);
    assert_eq!(body["api_key"], "phc_test");
    assert_eq!(body["batch"][0]["event"], "room_created");
    assert_eq!(body["batch"][0]["uuid"], a.uuid);
    assert_eq!(body["batch"][1]["timestamp"], b.timestamp);
}

#[test]
fn every_event_is_anonymous_and_says_where_it_came_from() {
    let body = batch_body("k", &base(), &[Event::new("x", serde_json::Map::new()).unwrap()]);
    let p = &body["batch"][0]["properties"];
    assert_eq!(p["distinct_id"], "install-1");
    assert_eq!(p["$process_person_profile"], false);
    assert_eq!(p["$lib"], "tauri-plugin-posthog-anon");
    assert_eq!(p["$app_version"], "1.2.3");
    assert_eq!(p["$os"], "iOS");
    assert_eq!(p["platform"], "ios");
}

#[test]
fn a_caller_cannot_unmask_the_player_but_may_add_its_own_properties() {
    let mut props = serde_json::Map::new();
    props.insert("distinct_id".into(), "someone@example.com".into());
    props.insert("$process_person_profile".into(), true.into());
    props.insert("game".into(), "caro".into());
    props.insert("$os".into(), "custom".into());
    let body = batch_body("k", &base(), &[Event::new("x", props).unwrap()]);
    let p = &body["batch"][0]["properties"];
    assert_eq!(p["distinct_id"], "install-1");
    assert_eq!(p["$process_person_profile"], false);
    assert_eq!(p["game"], "caro");
    assert_eq!(p["$os"], "custom");
}

#[test]
fn a_name_is_trimmed_and_counted_in_characters() {
    let e = Event::new("  \t game_finished\u{3000}\n", serde_json::Map::new()).unwrap();
    assert_eq!(e.event, "game_finished");
    assert!(Event::new(&"ế".repeat(200), serde_json::Map::new()).is_some());
    assert!(Event::new(&"ế".repeat(201), serde_json::Map::new()).is_none());
    assert!(Event::new(" $identify ", serde_json::Map::new()).is_none());
}

#[test]
fn a_stamped_event_keeps_its_stamps() {
    let mut props = serde_json::Map::new();
    props.insert("n".to_string(), Value::from(3));
    let e = Event::stamped("x", props, "id-1".to_string(), Some("now".to_string())).unwrap();
    assert_eq!(e.uuid, "id-1");
    assert_eq!(e.timestamp, "now");
    assert_eq!(e.properties["n"], 3);
    assert!(Event::stamped("x", serde_json::Map::new(), "id-1".to_string(), None).is_none());
    assert!(Event::stamped("", serde_json::Map::new(), "id-1".to_string(), Some("now".to_string())).is_none());
}

#[test]
fn two_events_never_share_a_uuid() {
    let a = Event::new("x", serde_json::Map::new()).unwrap();
    let b = Event::new("x", serde_json::Map::new()).unwrap();
    assert_ne!(a.uuid, b.uuid);
}

#[test]
fn a_body_has_exactly_its_fields() {
    let e = Event::stamped("x", serde_json::Map::new(), "u".to_string(), Some("t".to_string())).unwrap();
    let body = batch_body("k", &base(), &[e]);
    let text = serde_json::to_string(&body).unwrap();
    assert_eq!(
        text,
        concat_all(&[
            r#"{"api_key":"k","batch":[{"event":"x","properties":{"#,
            r#""$app_version":"1.2.3","$lib":"tauri-plugin-posthog-anon","#,
            r#""$lib_version":"0.1.0-alpha.1","$os":"iOS","$process_person_profile":false,"#,
            r#""distinct_id":"install-1","platform":"ios"},"timestamp":"t","uuid":"u"}]}"#,
        ])
    );
    let empty = batch_body("k", &base(), &[]);
    assert_eq!(serde_json::to_string(&empty).unwrap(), r#"{"api_key":"k","batch":[]}"#);
}

fn concat_all(parts: &[&str]) -> String {
    parts.iter().copied().collect()
}

#[test]
fn what_was_said_at_capture_wins_when_sent_later() {
    let e = Event::new("x", serde_json::Map::new()).unwrap();
    let uuid = e.uuid.clone();
    let captured = e.captured_with(&base());
    assert_eq!(captured.uuid, uuid);
    assert_eq!(captured.properties["$app_version"], "1.2.3");

    let later = Base {
        distinct_id: "install-2".to_string(),
        lib_version: "0.2.0",
        app_version: "2.0.0".to_string(),
        os: "macOS",
        platform: "macos",
    };
    let merged = merged_properties(&later, &captured);
    assert_eq!(merged["$app_version"], "1.2.3");
    assert_eq!(merged["$os"], "iOS");
    assert_eq!(merged["distinct_id"], "install-2");

    let again = merged_properties(&base(), &captured);
    assert_eq!(again, captured.properties);
}

#[test]
fn cloning_an_event_changes_nothing() {
    let mut props = serde_json::Map::new();
    props.insert("game".to_string(), Value::from("caro"));
    let e = Event::new("x", props).unwrap();
    let copy = e.clone();
    assert_eq!(copy.uuid, e.uuid);
    assert_eq!(copy.event, e.event);
    assert_eq!(copy.timestamp, e.timestamp);
    assert_eq!(copy.properties, e.properties);
}
