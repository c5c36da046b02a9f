use plugin_scaffold::generator::{generate_result, plan_generate, writes_files, GenerateOptions, Target, Template};
use plugin_scaffold::error::CliError;
use plugin_scaffold::generator::validate_collisions;
use plugin_scaffold::text::{ends_with, join, text_eq, trim};

fn paths() -> Vec<String> {
    vec!["/o/a".to_string(), "/o/b".to_string(), "/o/c".to_string()]
}

#[test]
fn force_skips_the_collision_check() {
    assert!(validate_collisions(&paths(), &vec![true, true, true], true).is_ok());
}

#[test]
fn no_collision_passes() {
    assert!(validate_collisions(&paths(), &vec![false, false, false], false).is_ok());
}

#[test]
fn first_existing_file_is_reported() {
    match validate_collisions(&paths(), &vec![false, true, true], false) {
        Err(e) => {
            assert!(matches!(&e, CliError::ExistingFile(p) if p == "/o/b"));
            assert_eq!(e.message(), "refusing to overwrite existing file: /o/b. Re-run with --force.");
        }
        Ok(()) => panic!("expected a collision"),
    }
}

#[test]
fn join_follows_path_rules() {
    assert_eq!(join("/a", "b"), "/a/b");
    assert_eq!(join("/a/", "b"), "/a/b");
    assert_eq!(join("", "b"), "b");
    assert_eq!(join("/a", "/b"), "/b");
    assert_eq!(join("a", ""), "a/");
    assert_eq!(
        join("/a", "b").as_str(),
        std::path::Path::new("/a").join("b").to_str().unwrap()
    );
}

#[test]
fn trim_removes_unicode_white_space() {
    assert_eq!(trim("\u{3000} abc\u{a0}\n"), "abc");
    assert_eq!(trim("  a b  "), "a b");
    assert_eq!(trim(" \t "), "");
    let s = "\u{2003}x\u{85}";
    assert_eq!(trim(s), s.trim());
}

#[test]
fn suffix_and_equality() {
    assert!(ends_with("/w/my-plugin", "/my-plugin"));
    assert!(!ends_with("my-plugin", "/my-plugin"));
    assert!(text_eq("abc", "abc"));
    assert!(!text_eq("abc", "abd"));
}

#[test]
fn dry_run_writes_nothing_and_records_the_plan() {
    let mut o = GenerateOptions {
        target: Target::Pi,
        template: Template::Minimal,
        project_name: "demo".to_string(),
        output_dir: "/o".to_string(),
        sdk_dependency: String::new(),
        force: false,
        dry_run: true,
    };
    assert!(!writes_files(&o));
    let plan = plan_generate(&o).unwrap();
    let r = generate_result(plan, o.dry_run);
    assert_eq!(r.written_paths, vec!["/o/package.json".to_string(), "/o/.pi/extensions/demo.ts".to_string()]);
    assert!(r.dry_run);
    o.dry_run = false;
    assert!(writes_files(&o));
}
