use serde_json::Value;
use tauri_plugins::update_gate::decide::{decide, judge, Document, Override, State};
use tauri_plugins::update_gate::version::Version;

fn text_in(object: &serde_json::Map<String, Value>, key: &str) -> Option<String> {
    object.get(key).and_then(Value::as_str).map(str::to_string)
}

fn doc(s: &str) -> Document {
    let value: Value = serde_json::from_str(s).unwrap();
    let object = value.as_object().unwrap();
    let mut doc = Document::default();
    doc.min_version = text_in(object, "minVersion");
    doc.latest_version = text_in(object, "latestVersion");
    for (lang, message) in object.get("message").and_then(Value::as_object).unwrap_or(&serde_json::Map::new()) {
        doc.message.insert(lang.clone(), message.as_str().unwrap().to_string());
    }
    for (platform, url) in object.get("url").and_then(Value::as_object).unwrap_or(&serde_json::Map::new()) {
        doc.url.insert(platform.clone(), url.as_str().map(str::to_string));
    }
    let none = serde_json::Map::new();
    for (platform, own) in object.get("platforms").and_then(Value::as_object).unwrap_or(&none) {
        let own = own.as_object().map(|own| {
            let mut o = Override::default();
            o.min_version = text_in(own, "minVersion");
            o.latest_version = text_in(own, "latestVersion");
            o
        });
        doc.platforms.insert(platform.clone(), own);
    }
    doc
}

#[test]
fn below_min_is_forced() {
    let g = decide(
        &doc(r#"{"minVersion":"1.2.0","latestVersion":"1.4.0"}"#),
        "1.1.9",
        "vi",
        "ios",
    );
    assert!(matches!(g.state, State::Forced));
}

#[test]
fn between_min_and_latest_is_optional() {
    let g = decide(
        &doc(r#"{"minVersion":"1.2.0","latestVersion":"1.4.0"}"#),
        "1.3.0",
        "vi",
        "ios",
    );
    assert!(matches!(g.state, State::Optional));
}

#[test]
fn newest_is_ok() {
    let g = decide(
        &doc(r#"{"minVersion":"1.2.0","latestVersion":"1.4.0"}"#),
        "1.4.0",
        "vi",
        "ios",
    );
    assert!(matches!(g.state, State::Okay));
}

#[test]
fn a_prerelease_is_older_than_its_release() {
    let g = decide(
        &doc(r#"{"minVersion":"1.2.0"}"#),
        "1.2.0-alpha.1",
        "vi",
        "ios",
    );
    assert!(matches!(g.state, State::Forced));
}

#[test]
fn an_unreadable_version_opens_the_gate() {
    let g = decide(
        &doc(r#"{"minVersion":"not a version"}"#),
        "1.0.0",
        "vi",
        "ios",
    );
    assert!(matches!(g.state, State::Okay));
    let g = decide(&doc(r#"{"minVersion":"9.0.0"}"#), "nonsense", "vi", "ios");
    assert!(matches!(g.state, State::Okay));
}

#[test]
fn an_empty_document_opens_the_gate() {
    let g = decide(&doc("{}"), "1.0.0", "vi", "ios");
    assert!(matches!(g.state, State::Okay));
    assert!(g.message.is_none());
}

#[test]
fn it_picks_the_language_and_falls_back_to_english() {
    let d = doc(r#"{"minVersion":"2.0.0","message":{"vi":"Cập nhật nha","en":"Update"}}"#);
    assert_eq!(
        decide(&d, "1.0.0", "vi", "ios").message.as_deref(),
        Some("Cập nhật nha")
    );
    assert_eq!(
        decide(&d, "1.0.0", "fr", "ios").message.as_deref(),
        Some("Update")
    );
}

#[test]
fn it_picks_the_url_for_this_platform_and_tolerates_null() {
    let d = doc(
        r#"{"minVersion":"2.0.0","url":{"ios":"https://apps.apple.com/x","android":null}}"#,
    );
    assert_eq!(
        decide(&d, "1.0.0", "vi", "ios").url.as_deref(),
        Some("https://apps.apple.com/x")
    );
    assert_eq!(decide(&d, "1.0.0", "vi", "android").url, None);
    assert_eq!(decide(&d, "1.0.0", "vi", "macos").url, None);
}

/// The top level raised to 1.3.0 everywhere, with iOS held at 1.2.0 while its
/// build waits in review.
const HELD_BACK: &str = r#"{"minVersion":"1.3.0","latestVersion":"1.4.0",
    "platforms":{"ios":{"minVersion":"1.2.0"}}}"#;

#[test]
fn a_platform_can_hold_its_floor_below_the_rest() {
    let d = doc(HELD_BACK);
    assert_eq!(decide(&d, "1.2.5", "vi", "ios").state, State::Optional);
    assert_eq!(decide(&d, "1.2.5", "vi", "android").state, State::Forced);
}

#[test]
fn a_platform_can_hold_its_offer_back_and_reports_its_own_latest() {
    let d = doc(r#"{"minVersion":"1.0.0","latestVersion":"1.4.0",
            "platforms":{"ios":{"latestVersion":"1.3.0"}}}"#);
    let ios = decide(&d, "1.3.0", "vi", "ios");
    assert_eq!(ios.state, State::Okay);
    assert_eq!(ios.latest_version.as_deref(), Some("1.3.0"));
    let android = decide(&d, "1.3.0", "vi", "android");
    assert_eq!(android.state, State::Optional);
    assert_eq!(android.latest_version.as_deref(), Some("1.4.0"));
}

#[test]
fn an_override_leaves_the_field_it_does_not_name_to_the_top_level() {
    let d = doc(HELD_BACK);
    // iOS overrides only the floor, so the offer still comes from 1.4.0.
    assert_eq!(decide(&d, "1.3.0", "vi", "ios").state, State::Optional);
    assert_eq!(
        decide(&d, "1.3.0", "vi", "ios").latest_version.as_deref(),
        Some("1.4.0")
    );
}

#[test]
fn a_null_or_empty_override_means_the_top_level() {
    for platforms in [r#"{"ios":null}"#, r#"{"ios":{}}"#] {
        let d = doc(&format!(
            r#"{{"minVersion":"1.3.0","platforms":{platforms}}}"#
        ));
        assert_eq!(decide(&d, "1.2.0", "vi", "ios").state, State::Forced);
    }
}

#[test]
fn an_unreadable_override_opens_the_gate_on_that_platform_only() {
    let d = doc(r#"{"minVersion":"1.3.0",
            "platforms":{"ios":{"minVersion":"soon"}}}"#);
    assert_eq!(decide(&d, "1.2.0", "vi", "ios").state, State::Okay);
    assert_eq!(decide(&d, "1.2.0", "vi", "android").state, State::Forced);
}

#[test]
fn an_open_gate_that_cannot_be_read_says_only_the_newest_version() {
    let d = doc(r#"{"minVersion":"soon","latestVersion":"1.4.0","message":{"en":"Update"},
            "url":{"ios":"https://apps.apple.com/x"}}"#);
    let g = decide(&d, "1.0.0", "en", "ios");
    assert_eq!(g.state, State::Okay);
    assert_eq!(g.latest_version.as_deref(), Some("1.4.0"));
    assert_eq!(g.message, None);
    assert_eq!(g.url, None);

    let d = doc(r#"{"minVersion":"9.0.0","latestVersion":"1.4","message":{"en":"Update"}}"#);
    let g = decide(&d, "1.0.0", "en", "ios");
    assert_eq!(g.state, State::Okay);
    assert_eq!(g.latest_version.as_deref(), Some("1.4"));
}

fn version(major: u64, minor: u64, patch: u64, pre: &str, build: &str) -> Version {
    Version { major, minor, patch, pre: pre.to_string(), build: build.to_string() }
}

#[test]
fn versions_are_judged_in_semver_order() {
    let v = |a: u64, b: u64, c: u64| version(a, b, c, "", "");
    assert_eq!(judge(&v(1, 9, 9), &Some(v(2, 0, 0)), &None), State::Forced);
    assert_eq!(judge(&v(1, 1, 9), &Some(v(1, 2, 0)), &None), State::Forced);
    assert_eq!(judge(&v(1, 2, 0), &Some(v(1, 2, 1)), &None), State::Forced);
    assert_eq!(judge(&v(1, 2, 1), &Some(v(1, 2, 1)), &None), State::Okay);
    assert_eq!(judge(&v(1, 10, 0), &Some(v(1, 9, 0)), &None), State::Okay);
    assert_eq!(judge(&v(1, 0, 0), &None, &Some(v(1, 0, 1))), State::Optional);
    assert_eq!(judge(&v(1, 0, 0), &None, &None), State::Okay);

    let alpha = version(1, 0, 0, "alpha.9", "");
    let later = version(1, 0, 0, "alpha.10", "");
    assert_eq!(judge(&alpha, &Some(later), &None), State::Forced);
    let later = version(1, 0, 0, "alpha.10", "");
    assert_eq!(judge(&later, &Some(alpha), &None), State::Okay);
}

#[test]
fn a_newer_copy_is_never_held_up_harder() {
    let hardness = |state: State| match state {
        State::Okay => 0,
        State::Optional => 1,
        State::Forced => 2,
    };
    let d = doc(r#"{"minVersion":"1.2.0","latestVersion":"1.4.0","message":{"en":"Update"}}"#);
    let versions = [
        "0.9.0",
        "1.2.0-alpha",
        "1.2.0-alpha.1",
        "1.2.0",
        "1.2.0+7",
        "1.3.9",
        "1.4.0-rc.2",
        "1.4.0-rc.11",
        "1.4.0",
        "2.0.0",
    ];
    let mut states = Vec::new();
    for pair in versions.windows(2) {
        let older = decide(&d, pair[0], "vi", "ios");
        let newer = decide(&d, pair[1], "vi", "ios");
        assert!(hardness(newer.state) <= hardness(older.state), "{pair:?}");
        assert_eq!(newer.latest_version, older.latest_version);
        assert_eq!(newer.message, older.message);
        assert_eq!(newer.url, older.url);
        states.push(older.state);
    }
    assert_eq!(
        states,
        vec![
            State::Forced,
            State::Forced,
            State::Forced,
            State::Optional,
            State::Optional,
            State::Optional,
            State::Optional,
            State::Optional,
            State::Okay,
        ]
    );
}

#[test]
fn a_version_that_cannot_be_ordered_locks_nobody_out() {
    let odd = version(0, 0, 0, "not a pre-release", "");
    assert_eq!(judge(&odd, &Some(version(9, 0, 0, "", "")), &None), State::Okay);
    let odd = version(9, 0, 0, "", "not metadata");
    assert_eq!(judge(&version(1, 0, 0, "", ""), &Some(odd), &None), State::Okay);
}
