use plugin_scaffold::commands::wizard_run_options;
use plugin_scaffold::tui::WizardOutput;
use plugin_scaffold::commands::{
    direct_options, help_text, install_dirs, parse_command, result_lines, sdk_candidates,
    sdk_dependency, Command, GenerateArgs,
};
use plugin_scaffold::error::CliError;
use plugin_scaffold::generator::{GenerateOptions, GenerateResult, Target, Template};

fn args(list: &[&str]) -> Vec<String> {
    list.iter().map(|s| s.to_string()).collect()
}

fn generate_args(list: &[&str]) -> GenerateArgs {
    match parse_command(args(list)) {
        Ok(Command::Generate(a)) => a,
        _ => panic!("expected a generate command"),
    }
}

#[test]
fn no_arguments_start_the_wizard_with_defaults() {
    let a = generate_args(&[]);
    assert_eq!(a.target, None);
    assert_eq!(a.template, Template::Minimal);
    assert_eq!(a.name, None);
    assert_eq!(a.output, None);
    assert!(!a.force);
    assert!(!a.dry_run);
    assert!(a.install_deps);
}

#[test]
fn help_requests() {
    for first in ["help", "--help", "-h"] {
        assert!(matches!(parse_command(args(&[first, "--bogus"])), Ok(Command::Help)));
    }
}

#[test]
fn unknown_command_is_refused() {
    match parse_command(args(&["build"])) {
        Err(e) => {
            assert!(matches!(&e, CliError::UnknownCommand(c) if c == "build"));
            assert_eq!(e.message(), "unknown command `build`. Use `cli help`.");
        }
        _ => panic!("expected an error"),
    }
}

#[test]
fn all_flags_are_read() {
    let a = generate_args(&[
        "generate", "--target", "pi", "--template", "minimal", "--name", "demo", "--output",
        "/tmp/demo", "--force", "--dry-run", "--no-install",
    ]);
    assert_eq!(a.target, Some(Target::Pi));
    assert_eq!(a.template, Template::Minimal);
    assert_eq!(a.name.as_deref(), Some("demo"));
    assert_eq!(a.output.as_deref(), Some("/tmp/demo"));
    assert!(a.force);
    assert!(a.dry_run);
    assert!(!a.install_deps);
}

#[test]
fn later_flags_override_earlier_ones() {
    let a = generate_args(&["generate", "--no-install", "--install", "--target", "pi", "--target", "opencode"]);
    assert!(a.install_deps);
    assert_eq!(a.target, Some(Target::OpenCode));
    let b = generate_args(&["generate", "--name", "a", "--name", "b", "--no-install"]);
    assert_eq!(b.name.as_deref(), Some("b"));
    assert!(!b.install_deps);
}

#[test]
fn a_flag_value_may_look_like_a_flag() {
    let a = generate_args(&["generate", "--name", "--no-install"]);
    assert_eq!(a.name.as_deref(), Some("--no-install"));
    assert!(a.install_deps);
}

#[test]
fn missing_value_is_refused() {
    match parse_command(args(&["generate", "--name"])) {
        Err(e) => {
            assert!(matches!(&e, CliError::MissingValue(f) if f == "--name"));
            assert_eq!(e.message(), "missing value for --name");
        }
        _ => panic!("expected an error"),
    }
}

#[test]
fn unknown_flag_is_refused() {
    match parse_command(args(&["generate", "--verbose"])) {
        Err(e) => {
            assert!(matches!(&e, CliError::UnknownFlag(f) if f == "--verbose"));
            assert_eq!(e.message(), "unknown flag `--verbose`. Use `cli help`.");
        }
        _ => panic!("expected an error"),
    }
}

#[test]
fn invalid_target_and_template_are_refused() {
    match parse_command(args(&["generate", "--target", "vscode"])) {
        Err(e) => assert_eq!(e.message(), "invalid target `vscode`. Use `opencode` or `pi`."),
        _ => panic!("expected an error"),
    }
    match parse_command(args(&["generate", "--template", "full"])) {
        Err(e) => assert_eq!(
            e.message(),
            "invalid template `full`. Only `minimal` is supported right now."
        ),
        _ => panic!("expected an error"),
    }
}

#[test]
fn target_and_template_names_round_trip() {
    for t in [Target::OpenCode, Target::Pi] {
        assert_eq!(Target::parse(t.as_str()).unwrap(), t);
    }
    assert_eq!(Template::parse(Template::Minimal.as_str()).unwrap(), Template::Minimal);
    assert_eq!(Target::OpenCode.as_str(), "opencode");
    assert_eq!(Target::Pi.as_str(), "pi");
    assert!(matches!(Target::parse("OpenCode"), Err(CliError::InvalidTarget(_))));
}

#[test]
fn direct_options_need_target_and_name() {
    assert!(direct_options(&generate_args(&["generate", "--target", "pi"]), "/w", "sdk").is_none());
    assert!(direct_options(&generate_args(&["generate", "--name", "x"]), "/w", "sdk").is_none());
}

#[test]
fn output_defaults_to_name_under_cwd() {
    let (o, install) =
        direct_options(&generate_args(&["generate", "--target", "pi", "--name", "demo"]), "/w", "file:sdk")
            .unwrap();
    assert_eq!(o.output_dir, "/w/demo");
    assert_eq!(o.project_name, "demo");
    assert_eq!(o.sdk_dependency, "file:sdk");
    assert_eq!(o.target, Target::Pi);
    assert!(install);
    let (o, install) = direct_options(
        &generate_args(&["generate", "--target", "opencode", "--name", "demo", "--output", "x/y", "--no-install", "--dry-run"]),
        "/w",
        "s",
    )
    .unwrap();
    assert_eq!(o.output_dir, "x/y");
    assert!(o.dry_run);
    assert!(!install);
}

fn opts(target: Target, dry_run: bool) -> GenerateOptions {
    GenerateOptions {
        target,
        template: Template::Minimal,
        project_name: "p".to_string(),
        output_dir: "/o".to_string(),
        sdk_dependency: String::new(),
        force: false,
        dry_run,
    }
}

#[test]
fn install_directories() {
    assert_eq!(install_dirs(&opts(Target::OpenCode, false), true), vec!["/o".to_string(), "/o/.opencode".to_string()]);
    assert_eq!(install_dirs(&opts(Target::Pi, false), true), vec!["/o".to_string()]);
    assert!(install_dirs(&opts(Target::OpenCode, true), true).is_empty());
    assert!(install_dirs(&opts(Target::OpenCode, false), false).is_empty());
}

#[test]
fn sdk_lookup() {
    assert_eq!(
        sdk_candidates("/a/b"),
        vec!["/a/b/../plugin-sdk".to_string(), "/a/b/plugin-sdk".to_string(), "/a/b/../../plugin-sdk".to_string()]
    );
    assert_eq!(sdk_dependency(Some("/a/plugin-sdk")), "file:/a/plugin-sdk");
    assert_eq!(sdk_dependency(None), "file:../plugin-sdk");
}

#[test]
fn result_messages() {
    let empty = GenerateResult { written_paths: vec![], dry_run: false };
    assert_eq!(result_lines(&empty), vec!["No files generated.".to_string()]);
    let dry = GenerateResult { written_paths: vec!["a".to_string(), "b/c".to_string()], dry_run: true };
    assert_eq!(
        result_lines(&dry),
        vec!["Dry run complete. Planned files:".to_string(), "  - a".to_string(), "  - b/c".to_string()]
    );
    let real = GenerateResult { written_paths: vec!["a".to_string()], dry_run: false };
    assert_eq!(result_lines(&real), vec!["Generated files:".to_string(), "  - a".to_string()]);
}

#[test]
fn help_text_lists_usage() {
    let h = help_text();
    assert!(h.starts_with("Usage:\n  cli generate [--target opencode|pi]"));
    assert!(h.ends_with("`minimal` is the initial template for both targets."));
}

#[test]
fn next_value_past_the_end_is_missing() {
    let a = args(&["generate", "--name"]);
    match plugin_scaffold::commands::next_value(&a, 5, "--name") {
        Err(e) => assert!(matches!(&e, CliError::MissingValue(f) if f == "--name")),
        Ok(_) => panic!("expected an error"),
    }
    assert_eq!(plugin_scaffold::commands::next_value(&a, 0, "x").unwrap(), "--name");
}

#[test]
fn wizard_options_take_sdk_and_respect_no_install() {
    let wizard = || WizardOutput { options: opts(Target::Pi, false), install_deps: true };
    let (o, install) = wizard_run_options(&generate_args(&["generate"]), wizard(), "file:/sdk");
    assert_eq!(o.sdk_dependency, "file:/sdk");
    assert_eq!(o.target, Target::Pi);
    assert_eq!(o.output_dir, "/o");
    assert!(install);
    let (_, install) = wizard_run_options(&generate_args(&["generate", "--no-install"]), wizard(), "s");
    assert!(!install);
    let declined = WizardOutput { options: opts(Target::Pi, false), install_deps: false };
    let (_, install) = wizard_run_options(&generate_args(&["generate"]), declined, "s");
    assert!(!install);
}
