use plugin_scaffold::error::CliError;
use plugin_scaffold::generator::{Target, Template};
use plugin_scaffold::tui::{Key, Step, WizardEvent, WizardState};

fn typed(state: &mut WizardState, text: &str) {
    for c in text.chars() {
        assert!(matches!(state.handle_key(Key::Char(c)), WizardEvent::Continue));
    }
}

#[test]
fn wizard_starts_on_target_page() {
    let s = WizardState::new("/home/u");
    assert_eq!(s.step, Step::SelectTarget);
    assert_eq!(s.project_name, "my-plugin");
    assert_eq!(s.output_path, "/home/u/my-plugin");
    assert!(s.install_deps);
    assert_eq!(s.selected_target(), Target::OpenCode);
}

#[test]
fn target_selection_stays_in_range() {
    let mut s = WizardState::new("/w");
    s.apply_key(Key::Up).unwrap();
    assert_eq!(s.target_index, 0);
    s.apply_key(Key::Down).unwrap();
    s.apply_key(Key::Right).unwrap();
    assert_eq!(s.target_index, 1);
    assert_eq!(s.selected_target(), Target::Pi);
    s.apply_key(Key::Left).unwrap();
    assert_eq!(s.target_index, 0);
}

#[test]
fn full_run_produces_options() {
    let mut s = WizardState::new("/w");
    s.apply_key(Key::Down).unwrap();
    assert!(matches!(s.handle_key(Key::Enter), WizardEvent::Continue));
    assert_eq!(s.step, Step::SelectTemplate);
    assert!(matches!(s.handle_key(Key::Enter), WizardEvent::Continue));
    assert_eq!(s.step, Step::EditName);
    for _ in 0.."my-plugin".len() {
        s.handle_key(Key::Backspace);
    }
    typed(&mut s, "  cool ext ");
    assert!(matches!(s.handle_key(Key::Enter), WizardEvent::Continue));
    assert_eq!(s.step, Step::EditOutput);
    assert_eq!(s.output_path, "/w/cool ext");
    s.handle_key(Key::Enter);
    assert_eq!(s.step, Step::Confirm);
    assert_eq!(
        s.confirm_preview(),
        "target: pi\ntemplate: minimal\nname: cool ext\noutput: /w/cool ext\ninstall dependencies: yes\n\nEnter: generate | b: back | i: toggle install"
    );
    s.handle_key(Key::Char('i'));
    assert!(!s.install_deps);
    match s.handle_key(Key::Enter) {
        WizardEvent::Finished(out) => {
            assert_eq!(out.options.target, Target::Pi);
            assert_eq!(out.options.template, Template::Minimal);
            assert_eq!(out.options.project_name, "cool ext");
            assert_eq!(out.options.output_dir, "/w/cool ext");
            assert_eq!(out.options.sdk_dependency, "");
            assert!(!out.options.force);
            assert!(!out.options.dry_run);
            assert!(!out.install_deps);
        }
        _ => panic!("expected the wizard to finish"),
    }
    assert_eq!(s.step, Step::Done);
    assert!(matches!(s.handle_key(Key::Enter), WizardEvent::Continue));
}

#[test]
fn q_cancels_on_any_page() {
    let mut s = WizardState::new("/w");
    s.handle_key(Key::Enter);
    s.handle_key(Key::Enter);
    match s.handle_key(Key::Char('q')) {
        WizardEvent::Failed(e) => {
            assert!(matches!(e, CliError::Cancelled));
            assert_eq!(e.message(), "generation cancelled");
        }
        _ => panic!("expected cancellation"),
    }
    assert_eq!(s.project_name, "my-plugin");
}

#[test]
fn empty_name_is_refused() {
    let mut s = WizardState::new("/w");
    s.handle_key(Key::Enter);
    s.handle_key(Key::Enter);
    for _ in 0..20 {
        s.handle_key(Key::Backspace);
    }
    assert_eq!(s.project_name, "");
    typed(&mut s, " \t ");
    match s.handle_key(Key::Enter) {
        WizardEvent::Failed(e) => assert_eq!(e.message(), "project name cannot be empty"),
        _ => panic!("expected an error"),
    }
    assert_eq!(s.step, Step::EditName);
}

#[test]
fn custom_output_is_kept() {
    let mut s = WizardState::new("/w");
    s.step = Step::EditOutput;
    for _ in 0.."/w/my-plugin".len() {
        s.handle_key(Key::Backspace);
    }
    typed(&mut s, "/elsewhere");
    s.handle_key(Key::Esc);
    assert_eq!(s.step, Step::EditName);
    typed(&mut s, "-two");
    s.handle_key(Key::Enter);
    assert_eq!(s.output_path, "/elsewhere");
}

#[test]
fn default_output_follows_name() {
    let mut s = WizardState::new("/w");
    s.step = Step::EditName;
    typed(&mut s, "-x");
    s.handle_key(Key::Enter);
    assert_eq!(s.output_path, "/w/my-plugin-x");
    let mut t = WizardState::new("/w");
    t.output_path = "  /w  ".to_string();
    t.project_name = " n ".to_string();
    t.refresh_default_output();
    assert_eq!(t.output_path, "/w/n");
    let mut u = WizardState::new("/w");
    u.output_path = "/any/my-plugin".to_string();
    u.project_name = "/abs".to_string();
    u.refresh_default_output();
    assert_eq!(u.output_path, "/abs");
}

#[test]
fn backspace_undoes_typing() {
    let mut s = WizardState::new("/w");
    s.step = Step::EditName;
    s.apply_key(Key::Char('z')).unwrap();
    assert_eq!(s.project_name, "my-pluginz");
    s.apply_key(Key::Backspace).unwrap();
    assert_eq!(s.project_name, "my-plugin");
    s.project_name.clear();
    s.apply_key(Key::Backspace).unwrap();
    assert_eq!(s.project_name, "");
}

#[test]
fn pages_go_back() {
    let mut s = WizardState::new("/w");
    s.apply_key(Key::Enter).unwrap();
    s.apply_key(Key::Backspace).unwrap();
    assert_eq!(s.step, Step::SelectTarget);
    s.apply_key(Key::Enter).unwrap();
    s.apply_key(Key::Enter).unwrap();
    s.apply_key(Key::Esc).unwrap();
    assert_eq!(s.step, Step::SelectTemplate);
    s.step = Step::Confirm;
    s.apply_key(Key::Char('b')).unwrap();
    assert_eq!(s.step, Step::EditOutput);
    s.apply_key(Key::Esc).unwrap();
    assert_eq!(s.step, Step::EditName);
}

#[test]
fn template_selection_stays_minimal() {
    let mut s = WizardState::new("/w");
    s.step = Step::SelectTemplate;
    s.apply_key(Key::Down).unwrap();
    assert_eq!(s.template_index, 0);
    assert_eq!(s.selected_template(), Template::Minimal);
}
