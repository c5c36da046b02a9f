use plugin_scaffold::templates::{kebab_case_identifier, pascal_case_identifier};

#[test]
fn kebab_lowercases_and_joins_words() {
    assert_eq!(kebab_case_identifier("My Cool_Plugin!!"), "my-cool-plugin");
    assert_eq!(kebab_case_identifier("ABC123"), "abc123");
}

#[test]
fn kebab_trims_dashes_at_both_ends() {
    assert_eq!(kebab_case_identifier("--Hello--World--"), "hello-world");
    assert_eq!(kebab_case_identifier("  spaced out  "), "spaced-out");
}

#[test]
fn kebab_of_nothing_alphanumeric_is_empty() {
    assert_eq!(kebab_case_identifier(""), "");
    assert_eq!(kebab_case_identifier("***"), "");
}

#[test]
fn kebab_treats_non_ascii_letters_as_separators() {
    assert_eq!(kebab_case_identifier("héllo wörld"), "h-llo-w-rld");
}

#[test]
fn kebab_is_idempotent() {
    for raw in ["My Cool_Plugin!!", "--a--b--", "x", "", "Ünïcode 42 Name"] {
        let once = kebab_case_identifier(raw);
        assert_eq!(kebab_case_identifier(&once), once);
    }
}

#[test]
fn pascal_capitalises_each_word() {
    assert_eq!(pascal_case_identifier("my-cool plugin"), "MyCoolPlugin");
    assert_eq!(pascal_case_identifier("fooBar baz"), "FooBarBaz");
    assert_eq!(pascal_case_identifier("1st-place"), "1stPlace");
}

#[test]
fn pascal_falls_back_to_generated_plugin() {
    assert_eq!(pascal_case_identifier(""), "GeneratedPlugin");
    assert_eq!(pascal_case_identifier("!!! ---"), "GeneratedPlugin");
}

#[test]
fn pascal_is_idempotent() {
    for raw in ["my-cool plugin", "", "a", "x_y_z", "ÄÖ ok"] {
        let once = pascal_case_identifier(raw);
        assert_eq!(pascal_case_identifier(&once), once);
    }
}

#[test]
fn pascal_and_kebab_forms_agree() {
    for raw in ["My Cool_Plugin!!", "fooBar baz", "1st-place", "a", "x y z", "", "!!", "日本 ab"] {
        let kebab = kebab_case_identifier(raw);
        let pascal = pascal_case_identifier(raw);
        if kebab.is_empty() {
            assert_eq!(pascal, "GeneratedPlugin");
        } else {
            assert_eq!(pascal.to_ascii_lowercase(), kebab.replace('-', ""));
        }
    }
}
