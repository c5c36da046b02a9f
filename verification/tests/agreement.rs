use plugin_scaffold::templates::{kebab_case_identifier, pascal_case_identifier};
use plugin_scaffold::text::{join, trim};

fn reference_kebab(raw: &str) -> String {
    let mut out = String::with_capacity(raw.len());
    let mut prev_dash = false;
    for ch in raw.chars() {
        if ch.is_ascii_alphanumeric() {
            out.push(ch.to_ascii_lowercase());
            prev_dash = false;
        } else if !prev_dash {
            out.push('-');
            prev_dash = true;
        }
    }
    out.trim_matches('-').to_string()
}

fn reference_pascal(raw: &str) -> String {
    let mut out = String::new();
    let mut make_upper = true;
    for ch in raw.chars() {
        if ch.is_ascii_alphanumeric() {
            if make_upper {
                out.push(ch.to_ascii_uppercase());
                make_upper = false;
            } else {
                out.push(ch);
            }
        } else {
            make_upper = true;
        }
    }
    if out.is_empty() {
        "GeneratedPlugin".to_string()
    } else {
        out
    }
}

fn samples() -> Vec<String> {
    let mut v: Vec<String> = [
        "", " ", "-", "--", "a", "A", "z9", "My Plugin", "my_plugin", "__init__", "x--y", "Ab-Cd ef",
        "日本 語", "ça va", "123", "a1b2-C3", "  lead", "trail  ", "!a!b!", "ÀÉÎ", "tab\tsep",
    ]
    .iter()
    .map(|s| s.to_string())
    .collect();
    let alphabet = ['a', 'Z', '5', '-', ' ', '_', 'é', '.'];
    for a in alphabet {
        for b in alphabet {
            for c in alphabet {
                v.push([a, b, c].iter().collect());
            }
        }
    }
    v
}

#[test]
fn kebab_agrees_with_char_scan() {
    for s in samples() {
        assert_eq!(kebab_case_identifier(&s), reference_kebab(&s), "input {s:?}");
    }
}

#[test]
fn pascal_agrees_with_char_scan() {
    for s in samples() {
        assert_eq!(pascal_case_identifier(&s), reference_pascal(&s), "input {s:?}");
    }
}

#[test]
fn trim_agrees_with_str_trim_on_every_low_char() {
    for code in 0u32..0x3100 {
        if let Some(c) = char::from_u32(code) {
            let s: String = [c, 'x', c].iter().collect();
            assert_eq!(trim(&s), s.trim(), "char {code:#x}");
        }
    }
}

#[test]
fn join_agrees_with_path_join() {
    let parts = ["", "/", "a", "a/", "/a", "/a/b/", "..", "b/c", "/x"];
    for base in parts {
        for rel in parts {
            let expected = std::path::Path::new(base).join(rel);
            assert_eq!(join(base, rel), expected.to_str().unwrap(), "{base:?} + {rel:?}");
        }
    }
}
