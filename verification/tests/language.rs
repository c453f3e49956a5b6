use tauri_plugins::update_gate::language::{
    env_language, language_code, parse_language, resolve_language,
};

/// An environment holding only `vars`, so the lookup order can be tested
/// without touching the real one.
fn env<'a>(vars: &'a [(&str, &str)]) -> impl Fn(&str) -> Option<String> + 'a {
    move |key| {
        vars.iter()
            .find(|(k, _)| *k == key)
            .map(|(_, v)| (*v).to_string())
    }
}

#[test]
fn the_environment_is_read_in_posix_order() {
    let all = [
        ("LANG", "en_US"),
        ("LC_MESSAGES", "fr_FR"),
        ("LC_ALL", "vi_VN"),
    ];
    assert_eq!(env_language(env(&all)).as_deref(), Some("vi_VN"));
    let no_all = [("LANG", "en_US"), ("LC_MESSAGES", "fr_FR")];
    assert_eq!(env_language(env(&no_all)).as_deref(), Some("fr_FR"));
    assert_eq!(
        env_language(env(&[("LANG", "en_US")])).as_deref(),
        Some("en_US")
    );
    assert_eq!(env_language(env(&[])), None);
}

#[test]
fn an_empty_variable_counts_as_unset() {
    let vars = [("LANG", "en_US"), ("LC_ALL", "")];
    assert_eq!(env_language(env(&vars)).as_deref(), Some("en_US"));
}

#[test]
fn the_callers_language_wins_over_the_environment() {
    assert_eq!(resolve_language(Some("vi"), Some("en_US.UTF-8")), "vi");
}

#[test]
fn the_callers_language_is_parsed_the_same_way_as_the_environment() {
    assert_eq!(resolve_language(Some("vi-VN"), None), "vi");
}

#[test]
fn an_absent_or_unusable_caller_falls_back_to_the_environment() {
    assert_eq!(resolve_language(None, Some("fr.UTF-8")), "fr");
    assert_eq!(resolve_language(Some(""), Some("fr.UTF-8")), "fr");
    assert_eq!(resolve_language(Some("123"), Some("fr.UTF-8")), "fr");
}

#[test]
fn neither_side_usable_falls_back_to_english() {
    assert_eq!(resolve_language(None, None), "en");
    assert_eq!(resolve_language(Some("C"), Some("POSIX")), "en");
}

/// The variables that are asked for, in order, in an environment of `vars`.
fn asked(vars: &[(&str, &str)]) -> Vec<String> {
    let keys = std::cell::RefCell::new(Vec::new());
    let lookup = env(vars);
    let _ = env_language(|key: &str| {
        keys.borrow_mut().push(key.to_string());
        lookup(key)
    });
    keys.into_inner()
}

#[test]
fn nothing_is_asked_after_the_first_variable_that_is_set() {
    assert_eq!(asked(&[("LC_ALL", "C"), ("LANG", "vi_VN")]), vec!["LC_ALL"]);
    assert_eq!(
        asked(&[("LC_ALL", ""), ("LC_MESSAGES", "fr_FR")]),
        vec!["LC_ALL", "LC_MESSAGES"]
    );
    assert_eq!(asked(&[]), vec!["LC_ALL", "LC_MESSAGES", "LANG"]);
    let vars = [("LC_ALL", "C"), ("LANG", "vi_VN")];
    assert_eq!(env_language(env(&vars)).as_deref(), Some("C"));
}

#[test]
fn a_code_is_two_ascii_letters_in_lowercase() {
    assert_eq!(parse_language("VI_vn").as_deref(), Some("vi"));
    assert_eq!(parse_language("en-US").as_deref(), Some("en"));
    assert_eq!(parse_language("vi.UTF-8").as_deref(), Some("vi"));
    assert_eq!(parse_language("C"), None);
    assert_eq!(parse_language("POSIX"), None);
    assert_eq!(parse_language(""), None);
    assert_eq!(parse_language("_vi"), None);
    assert_eq!(parse_language("eng"), None);
    assert_eq!(parse_language("e1"), None);
    assert_eq!(parse_language("đi"), None);
    // The Kelvin sign is the one letter past ASCII that lowers to a plain `k`.
    assert_eq!(parse_language("\u{212A}o").as_deref(), Some("ko"));
}

#[test]
fn only_a_lowered_text_is_a_code() {
    assert_eq!(language_code("vi".to_string()).as_deref(), Some("vi"));
    assert_eq!(language_code("VI".to_string()), None);
    assert_eq!(language_code("v".to_string()), None);
    assert_eq!(language_code("đ".to_string()), None);
}
