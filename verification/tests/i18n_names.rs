use angular_phases::i18n_closure::{
    generate_closure_var_name, generate_file_based_i18n_suffix, generate_i18n_var_name, serialize_message_for_closure,
};

#[test]
fn i18n_var_name_uses_lower_case_prefix() {
    assert_eq!(generate_i18n_var_name(0), "i18n_0");
    assert_eq!(generate_i18n_var_name(42), "i18n_42");
}

#[test]
fn closure_var_name_without_external_ids() {
    assert_eq!(generate_closure_var_name(Some("abc"), "APP_", 3, false), "MSG_APP__3");
    assert_eq!(generate_closure_var_name(None, "X_", 10, true), "MSG_X__10");
}

#[test]
fn closure_var_name_with_external_id_is_sanitized() {
    assert_eq!(
        generate_closure_var_name(Some("my-msg.id"), "APP_", 1, true),
        "MSG_EXTERNAL_my_msg_id$$APP_"
    );
}

#[test]
fn file_based_suffix_upper_cases_and_appends_underscore() {
    assert_eq!(generate_file_based_i18n_suffix("src/app.ts"), "SRC_APP_TS_");
    assert_eq!(generate_file_based_i18n_suffix(""), "_");
}

#[test]
fn closure_message_placeholders_become_camel_case() {
    let params = vec![
        ("INTERPOLATION".to_string(), "x".to_string()),
        ("START_TAG_DIV".to_string(), "y".to_string()),
    ];
    let message = "Hello \u{FFFD}INTERPOLATION\u{FFFD} and \u{FFFD}START_TAG_DIV\u{FFFD}!";
    assert_eq!(
        serialize_message_for_closure(message, &params),
        "Hello {$interpolation} and {$startTagDiv}!"
    );
}

#[test]
fn closure_message_keeps_numeric_postfix() {
    let params = vec![("INTERPOLATION_1".to_string(), "x".to_string())];
    let message = "\u{FFFD}INTERPOLATION_1\u{FFFD}";
    assert_eq!(serialize_message_for_closure(message, &params), "{$interpolation_1}");
}

#[test]
fn closure_message_without_markers_is_unchanged() {
    let params = vec![("NAME".to_string(), "x".to_string())];
    assert_eq!(serialize_message_for_closure("plain text", &params), "plain text");
}
