//! The interactive generation wizard, as a state machine: each key moves the
//! wizard from one state to the next; drawing and reading keys are left to
//! the caller.
use vstd::prelude::*;
use vstd::string::*;

use crate::error::{CliError, ErrorView};
use crate::generator::{
    target_name, template_name, GenerateOptions, GenerateOptionsView, Target, Template,
};
use crate::text::{self, ends_with_spec, join_path, trim_spec};

verus! {

/// The page the wizard shows.
#[derive(Debug, Clone, Copy, PartialEq, Eq, Structural)]
pub enum Step {
    SelectTarget,
    SelectTemplate,
    EditName,
    EditOutput,
    Confirm,
    Done,
}

/// The keys the wizard reacts to; every other key is `Other`.
#[derive(Debug, Clone, Copy, PartialEq, Eq, Structural)]
pub enum Key {
    Up,
    Down,
    Left,
    Right,
    Enter,
    Backspace,
    Esc,
    Char(char),
    Other,
}

/// What the wizard hands back when it is confirmed.
#[derive(Debug, Clone)]
pub struct WizardOutput {
    pub options: GenerateOptions,
    pub install_deps: bool,
}

/// The wizard's state.
#[derive(Debug, Clone)]
pub struct WizardState {
    pub step: Step,
    /// 0 for OpenCode, anything else for PI.
    pub target_index: usize,
    pub template_index: usize,
    pub project_name: String,
    pub output_path: String,
    pub install_deps: bool,
    /// The directory the wizard was started in.
    pub cwd: String,
}

/// The mathematical value of `WizardState`.
pub struct WizardView {
    pub step: Step,
    pub target_index: int,
    pub template_index: int,
    pub project_name: Seq<char>,
    pub output_path: Seq<char>,
    pub install_deps: bool,
    pub cwd: Seq<char>,
}

impl View for WizardState {
    type V = WizardView;

    open spec fn view(&self) -> WizardView {
        WizardView {
            step: self.step,
            target_index: self.target_index as int,
            template_index: self.template_index as int,
            project_name: self.project_name@,
            output_path: self.output_path@,
            install_deps: self.install_deps,
            cwd: self.cwd@,
        }
    }
}

/// The name the wizard starts with.
pub open spec fn initial_name() -> Seq<char> {
    "my-plugin"@
}

/// The state the wizard starts in, for the directory `cwd`.
pub open spec fn initial_state(cwd: Seq<char>) -> WizardView {
    WizardView {
        step: Step::SelectTarget,
        target_index: 0,
        template_index: 0,
        project_name: initial_name(),
        output_path: join_path(cwd, initial_name()),
        install_deps: true,
        cwd,
    }
}

/// The output path after the project name is confirmed: a path that is
/// empty, is the start directory, or still ends in the initial name is
/// replaced by the start directory joined with the trimmed name; one the user
/// typed is kept.
pub open spec fn refreshed_output(v: WizardView) -> Seq<char> {
    let current = trim_spec(v.output_path);
    if current.len() == 0 || current == v.cwd || ends_with_spec(current, "/my-plugin"@) {
        join_path(v.cwd, trim_spec(v.project_name))
    } else {
        v.output_path
    }
}

/// What a key does to the wizard: the next state, and whether the wizard is
/// finished (or the error it stops with).
pub open spec fn apply_key_spec(v: WizardView, key: Key) -> (WizardView, Result<bool, ErrorView>) {
    match v.step {
        Step::SelectTarget => match key {
            Key::Up | Key::Left => (
                WizardView {
                    target_index: if v.target_index == 0 {
                        0
                    } else {
                        v.target_index - 1
                    },
                    ..v
                },
                Ok(false),
            ),
            Key::Down | Key::Right => (
                WizardView {
                    target_index: if v.target_index + 1 < 1 {
                        v.target_index + 1
                    } else {
                        1
                    },
                    ..v
                },
                Ok(false),
            ),
            Key::Enter => (WizardView { step: Step::SelectTemplate, ..v }, Ok(false)),
            _ => (v, Ok(false)),
        },
        Step::SelectTemplate => match key {
            Key::Up | Key::Left | Key::Down | Key::Right => (
                WizardView { template_index: 0, ..v },
                Ok(false),
            ),
            Key::Backspace => (WizardView { step: Step::SelectTarget, ..v }, Ok(false)),
            Key::Enter => (WizardView { step: Step::EditName, ..v }, Ok(false)),
            _ => (v, Ok(false)),
        },
        Step::EditName => match key {
            Key::Char(c) => (WizardView { project_name: v.project_name.push(c), ..v }, Ok(false)),
            Key::Backspace => (
                WizardView {
                    project_name: if v.project_name.len() == 0 {
                        v.project_name
                    } else {
                        v.project_name.drop_last()
                    },
                    ..v
                },
                Ok(false),
            ),
            Key::Enter => if trim_spec(v.project_name).len() == 0 {
                (v, Err(ErrorView::EmptyProjectName))
            } else {
                (
                    WizardView { output_path: refreshed_output(v), step: Step::EditOutput, ..v },
                    Ok(false),
                )
            },
            Key::Esc => (WizardView { step: Step::SelectTemplate, ..v }, Ok(false)),
            _ => (v, Ok(false)),
        },
        Step::EditOutput => match key {
            Key::Char(c) => (WizardView { output_path: v.output_path.push(c), ..v }, Ok(false)),
            Key::Backspace => (
                WizardView {
                    output_path: if v.output_path.len() == 0 {
                        v.output_path
                    } else {
                        v.output_path.drop_last()
                    },
                    ..v
                },
                Ok(false),
            ),
            Key::Enter => (WizardView { step: Step::Confirm, ..v }, Ok(false)),
            Key::Esc => (WizardView { step: Step::EditName, ..v }, Ok(false)),
            _ => (v, Ok(false)),
        },
        Step::Confirm => match key {
            Key::Char(c) => if c == 'b' {
                (WizardView { step: Step::EditOutput, ..v }, Ok(false))
            } else if c == 'i' {
                (WizardView { install_deps: !v.install_deps, ..v }, Ok(false))
            } else {
                (v, Ok(false))
            },
            Key::Enter => (WizardView { step: Step::Done, ..v }, Ok(true)),
            _ => (v, Ok(false)),
        },
        Step::Done => (v, Ok(false)),
    }
}

/// The target the wizard's selection stands for.
pub open spec fn selected_target_spec(v: WizardView) -> Target {
    if v.target_index == 0 {
        Target::OpenCode
    } else {
        Target::Pi
    }
}

/// The options the wizard's state stands for: the selection, the trimmed
/// name and output path, no SDK dependency yet, no force, no dry run.
pub open spec fn wizard_options(v: WizardView) -> GenerateOptionsView {
    GenerateOptionsView {
        target: selected_target_spec(v),
        template: Template::Minimal,
        project_name: trim_spec(v.project_name),
        output_dir: trim_spec(v.output_path),
        sdk_dependency: Seq::empty(),
        force: false,
        dry_run: false,
    }
}

/// The indices the wizard's keys keep its selections within.
pub open spec fn wizard_wf(v: WizardView) -> bool {
    0 <= v.target_index <= 1 && v.template_index == 0
}

pub open spec fn bool_result_view(r: Result<bool, CliError>) -> Result<bool, ErrorView> {
    match r {
        Ok(b) => Ok(b),
        Err(e) => Err(e@),
    }
}

/// What one key press leads to.
pub enum WizardEvent {
    /// Keep reading keys.
    Continue,
    /// The wizard was confirmed with these options.
    Finished(WizardOutput),
    /// The wizard stops with this error.
    Failed(CliError),
}

impl WizardState {
    /// The wizard's first state, for the directory `cwd`.
    pub fn new(cwd: &str) -> (s: Self)
        ensures
            s@ == initial_state(cwd@),
    {
        WizardState {
            step: Step::SelectTarget,
            target_index: 0,
            template_index: 0,
            project_name: String::from_str("my-plugin"),
            output_path: text::join(cwd, "my-plugin"),
            install_deps: true,
            cwd: String::from_str(cwd),
        }
    }

    /// Moves the wizard on by one key; `Ok(true)` when it is confirmed.
    pub fn apply_key(&mut self, key: Key) -> (r: Result<bool, CliError>)
        ensures
            final(self)@ == apply_key_spec(old(self)@, key).0,
            bool_result_view(r) == apply_key_spec(old(self)@, key).1,
    {
        match self.step {
            Step::SelectTarget => match key {
                Key::Up | Key::Left => {
                    self.target_index = if self.target_index == 0 {
                        0
                    } else {
                        self.target_index - 1
                    };
                },
                Key::Down | Key::Right => {
                    self.target_index = if self.target_index < 1 {
                        self.target_index + 1
                    } else {
                        1
                    };
                },
                Key::Enter => self.step = Step::SelectTemplate,
                _ => {},
            },
            Step::SelectTemplate => match key {
                Key::Up | Key::Left => {
                    self.template_index = 0;
                },
                Key::Down | Key::Right => {
                    self.template_index = 0;
                },
                Key::Backspace => self.step = Step::SelectTarget,
                Key::Enter => self.step = Step::EditName,
                _ => {},
            },
            Step::EditName => match key {
                Key::Char(ch) => text::push_char(&mut self.project_name, ch),
                Key::Backspace => {
                    text::pop_char(&mut self.project_name);
                },
                Key::Enter => {
                    let trimmed = text::trim(self.project_name.as_str());
                    if trimmed.as_str().unicode_len() == 0 {
                        return Err(CliError::EmptyProjectName);
                    }
                    self.refresh_default_output();
                    self.step = Step::EditOutput;
                },
                Key::Esc => self.step = Step::SelectTemplate,
                _ => {},
            },
            Step::EditOutput => match key {
                Key::Char(ch) => text::push_char(&mut self.output_path, ch),
                Key::Backspace => {
                    text::pop_char(&mut self.output_path);
                },
                Key::Enter => self.step = Step::Confirm,
                Key::Esc => self.step = Step::EditName,
                _ => {},
            },
            Step::Confirm => match key {
                Key::Char(ch) => {
                    if ch == 'b' {
                        self.step = Step::EditOutput;
                    } else if ch == 'i' {
                        self.install_deps = !self.install_deps;
                    }
                },
                Key::Enter => {
                    self.step = Step::Done;
                    return Ok(true);
                },
                _ => {},
            },
            Step::Done => {},
        }
        Ok(false)
    }

    /// The target the selection stands for.
    pub fn selected_target(&self) -> (t: Target)
        ensures
            t == selected_target_spec(self@),
    {
        if self.target_index == 0 {
            Target::OpenCode
        } else {
            Target::Pi
        }
    }

    /// The template the selection stands for; only `minimal` exists.
    pub fn selected_template(&self) -> (t: Template)
        ensures
            t == Template::Minimal,
    {
        Template::Minimal
    }

    /// The wizard's choices as generation options; see `wizard_options`.
    pub fn to_options(&self) -> (out: WizardOutput)
        ensures
            out.options@ == wizard_options(self@),
            out.install_deps == self.install_deps,
            out.options.target == selected_target_spec(self@),
            out.options.template == Template::Minimal,
            out.options.project_name@ == trim_spec(self.project_name@),
            out.options.output_dir@ == trim_spec(self.output_path@),
            out.options.sdk_dependency@.len() == 0,
            !out.options.force,
            !out.options.dry_run,
    {
        WizardOutput {
            options: GenerateOptions {
                target: self.selected_target(),
                template: self.selected_template(),
                project_name: text::trim(self.project_name.as_str()),
                output_dir: text::trim(self.output_path.as_str()),
                sdk_dependency: String::new(),
                force: false,
                dry_run: false,
            },
            install_deps: self.install_deps,
        }
    }

    /// Points the output path at the project's directory, unless the user
    /// typed one of their own; see `refreshed_output`.
    pub fn refresh_default_output(&mut self)
        ensures
            final(self)@ == (WizardView { output_path: refreshed_output(old(self)@), ..old(self)@ }),
    {
        let current = text::trim(self.output_path.as_str());
        if current.as_str().unicode_len() == 0 || current == self.cwd || text::ends_with(
            current.as_str(),
            "/my-plugin",
        ) {
            let name = text::trim(self.project_name.as_str());
            self.output_path = text::join(self.cwd.as_str(), name.as_str());
        }
    }

    /// Handles one key press: `q` quits; otherwise the key is applied, and a
    /// confirmed wizard hands back its options.
    pub fn handle_key(&mut self, key: Key) -> (ev: WizardEvent)
        ensures
            key == Key::Char('q') ==> final(self)@ == old(self)@ && (ev matches WizardEvent::Failed(
                e) && e@ == ErrorView::Cancelled),
            key != Key::Char('q') ==> {
                let (next, res) = apply_key_spec(old(self)@, key);
                &&& final(self)@ == next
                &&& match res {
                    Ok(true) => (ev matches WizardEvent::Finished(out) && out.options@
                        == wizard_options(next) && out.install_deps == next.install_deps),
                    Ok(false) => ev is Continue,
                    Err(e) => (ev matches WizardEvent::Failed(err) && err@ == e),
                }
            },
    {
        if key == Key::Char('q') {
            return WizardEvent::Failed(CliError::Cancelled);
        }
        match self.apply_key(key) {
            Ok(true) => WizardEvent::Finished(self.to_options()),
            Ok(false) => WizardEvent::Continue,
            Err(e) => WizardEvent::Failed(e),
        }
    }
}

/// The text of the confirmation page.
pub open spec fn confirm_preview_spec(v: WizardView) -> Seq<char> {
    "target: "@ + target_name(selected_target_spec(v)) + "\ntemplate: "@ + template_name(
        Template::Minimal,
    ) + "\nname: "@ + trim_spec(v.project_name) + "\noutput: "@ + trim_spec(v.output_path)
        + "\ninstall dependencies: "@ + (if v.install_deps {
        "yes"@
    } else {
        "no"@
    }) + "\n\nEnter: generate | b: back | i: toggle install"@
}

impl WizardState {
    /// The text of the confirmation page; see `confirm_preview_spec`.
    pub fn confirm_preview(&self) -> (out: String)
        ensures
            out@ == confirm_preview_spec(self@),
    {
        let name = text::trim(self.project_name.as_str());
        let output = text::trim(self.output_path.as_str());
        let mut out = String::from_str("target: ");
        out.append(self.selected_target().as_str());
        out.append("\ntemplate: ");
        out.append(self.selected_template().as_str());
        out.append("\nname: ");
        out.append(name.as_str());
        out.append("\noutput: ");
        out.append(output.as_str());
        out.append("\ninstall dependencies: ");
        out.append(if self.install_deps { "yes" } else { "no" });
        out.append("\n\nEnter: generate | b: back | i: toggle install");
        out
    }
}

/// The wizard starts with its selections in range, and no key moves them
/// out of range.
pub proof fn lemma_wizard_keeps_wf(v: WizardView, key: Key, cwd: Seq<char>)
    ensures
        wizard_wf(initial_state(cwd)),
        wizard_wf(v) ==> wizard_wf(apply_key_spec(v, key).0),
{
}

/// Once done, the wizard ignores every key.
pub proof fn lemma_done_is_final(v: WizardView, key: Key)
    requires
        v.step == Step::Done,
    ensures
        apply_key_spec(v, key) == (v, Ok::<bool, ErrorView>(false)),
{
}

/// The wizard finishes exactly on Enter at the confirmation page, and then it
/// is done; the only error is Enter on a project name that is empty or white
/// space.
pub proof fn lemma_wizard_outcomes(v: WizardView, key: Key)
    ensures
        apply_key_spec(v, key).1 == Ok::<bool, ErrorView>(true) <==> (v.step == Step::Confirm
            && key == Key::Enter),
        apply_key_spec(v, key).1 == Ok::<bool, ErrorView>(true) ==> apply_key_spec(v, key).0.step
            == Step::Done,
        apply_key_spec(v, key).1 is Err <==> (v.step == Step::EditName && key == Key::Enter
            && trim_spec(v.project_name).len() == 0),
        apply_key_spec(v, key).1 is Err ==> apply_key_spec(v, key) == (v, Err::<bool, ErrorView>(
            ErrorView::EmptyProjectName,
        )),
{
}

/// Typing a character and then Backspace leaves the name or output path as
/// it was.
pub proof fn lemma_backspace_undoes_typing(v: WizardView, c: char)
    requires
        v.step == Step::EditName || v.step == Step::EditOutput,
    ensures
        apply_key_spec(apply_key_spec(v, Key::Char(c)).0, Key::Backspace).0 == v,
{
    assert(v.project_name.push(c).drop_last() =~= v.project_name);
    assert(v.output_path.push(c).drop_last() =~= v.output_path);
}

/// Going forward a page and straight back returns to the same state, where
/// going forward changes nothing but the page: from the target to the
/// template page, from the template to the name page, and from the output to
/// the confirmation page.
pub proof fn lemma_back_undoes_forward(v: WizardView)
    ensures
        v.step == Step::SelectTarget ==> apply_key_spec(
            apply_key_spec(v, Key::Enter).0,
            Key::Backspace,
        ).0 == v,
        v.step == Step::SelectTemplate ==> apply_key_spec(
            apply_key_spec(v, Key::Enter).0,
            Key::Esc,
        ).0 == v,
        v.step == Step::EditOutput ==> apply_key_spec(
            apply_key_spec(v, Key::Enter).0,
            Key::Char('b'),
        ).0 == v,
{
}

/// Pressing `i` twice on the confirmation page leaves the install choice as
/// it was.
pub proof fn lemma_install_toggle_twice(v: WizardView)
    requires
        v.step == Step::Confirm,
    ensures
        apply_key_spec(apply_key_spec(v, Key::Char('i')).0, Key::Char('i')).0 == v,
        apply_key_spec(v, Key::Char('i')).0.install_deps == !v.install_deps,
{
}

/// The confirmation page shows exactly what the wizard hands back: the
/// target, the template, the project name and output directory of the
/// options, and the install choice.
pub proof fn lemma_confirm_shows_options(v: WizardView)
    ensures
        ({
            let o = wizard_options(v);
            confirm_preview_spec(v) == "target: "@ + target_name(o.target) + "\ntemplate: "@
                + template_name(o.template) + "\nname: "@ + o.project_name + "\noutput: "@
                + o.output_dir + "\ninstall dependencies: "@ + (if v.install_deps {
                "yes"@
            } else {
                "no"@
            }) + "\n\nEnter: generate | b: back | i: toggle install"@
        }),
{
}

/// The options the wizard hands back are what the user left on its pages:
/// the output directory is the output path as typed, trimmed, whatever the
/// start directory and the name; the project name is the name as typed,
/// trimmed; the target is OpenCode exactly when the first entry is selected.
/// Confirming from the output page hands back that path.
pub proof fn lemma_wizard_options_follow_input(v: WizardView, w: WizardView)
    ensures
        wizard_options(v).output_dir == trim_spec(v.output_path),
        wizard_options(v).project_name == trim_spec(v.project_name),
        (wizard_options(v).target == Target::OpenCode) <==> v.target_index == 0,
        v.output_path == w.output_path ==> wizard_options(v).output_dir == wizard_options(w).output_dir,
        v.step == Step::EditOutput ==> {
            let confirm = apply_key_spec(v, Key::Enter).0;
            let (done, finished) = apply_key_spec(confirm, Key::Enter);
            &&& finished == Ok::<bool, ErrorView>(true)
            &&& wizard_options(done).output_dir == trim_spec(v.output_path)
            &&& wizard_options(done).project_name == trim_spec(v.project_name)
        },
{
}

} // verus!
