use watchlog::get_env_var;

#[test]
fn found_value_wins_over_fallback() {
    assert_eq!(get_env_var(Some("from env".to_string()), "fallback"), "from env");
}

#[test]
fn found_empty_value_is_still_a_value() {
    assert_eq!(get_env_var(Some(String::new()), "fallback"), "");
}

#[test]
fn missing_value_gives_fallback() {
    assert_eq!(get_env_var(None, "fallback"), "fallback");
    assert_eq!(get_env_var(None, ""), "");
}
