//! The command line: reading the arguments into a command, and the decisions
//! a `generate` run makes around the files it writes.
use vstd::prelude::*;
use vstd::string::*;

use crate::error::{CliError, ErrorView};
use crate::generator::{
    parse_target, parse_template, GenerateOptions, GenerateOptionsView, GenerateResult, Target,
    Template,
};
use crate::text;
use crate::tui::WizardOutput;

verus! {

/// What the command line asks for.
pub enum Command {
    Generate(GenerateArgs),
    Help,
}

/// The flags of `generate`.
#[derive(Debug, Clone)]
pub struct GenerateArgs {
    pub target: Option<Target>,
    pub template: Template,
    pub name: Option<String>,
    pub output: Option<String>,
    pub force: bool,
    pub dry_run: bool,
    pub install_deps: bool,
}

/// The mathematical value of `GenerateArgs`.
pub struct ArgsView {
    pub target: Option<Target>,
    pub template: Template,
    pub name: Option<Seq<char>>,
    pub output: Option<Seq<char>>,
    pub force: bool,
    pub dry_run: bool,
    pub install_deps: bool,
}

/// The mathematical value of `Command`.
pub enum CommandView {
    Generate(ArgsView),
    Help,
}

pub open spec fn opt_view(o: Option<String>) -> Option<Seq<char>> {
    match o {
        Some(s) => Some(s@),
        None => None,
    }
}

impl View for GenerateArgs {
    type V = ArgsView;

    open spec fn view(&self) -> ArgsView {
        ArgsView {
            target: self.target,
            template: self.template,
            name: opt_view(self.name),
            output: opt_view(self.output),
            force: self.force,
            dry_run: self.dry_run,
            install_deps: self.install_deps,
        }
    }
}

impl View for Command {
    type V = CommandView;

    open spec fn view(&self) -> CommandView {
        match self {
            Command::Generate(a) => CommandView::Generate(a@),
            Command::Help => CommandView::Help,
        }
    }
}

/// The flags before any is read: no target or name, the minimal template,
/// dependencies installed.
pub open spec fn default_args() -> ArgsView {
    ArgsView {
        target: None,
        template: Template::Minimal,
        name: None,
        output: None,
        force: false,
        dry_run: false,
        install_deps: true,
    }
}

fn new_args() -> (a: GenerateArgs)
    ensures
        a@ == default_args(),
{
    GenerateArgs {
        target: None,
        template: Template::Minimal,
        name: None,
        output: None,
        force: false,
        dry_run: false,
        install_deps: true,
    }
}

/// Reads the flags of `generate` from `index` on, into `acc`: each flag in
/// turn, a later one overriding an earlier one.
pub open spec fn parse_flags(args: Seq<Seq<char>>, index: int, acc: ArgsView) -> Result<
    ArgsView,
    ErrorView,
>
    decreases args.len() - index,
{
    if index < 0 || index >= args.len() {
        Ok(acc)
    } else {
        let flag = args[index];
        if flag == "--target"@ {
            if index + 1 >= args.len() {
                Err(ErrorView::MissingValue("--target"@))
            } else {
                match parse_target(args[index + 1]) {
                    Ok(t) => parse_flags(args, index + 2, ArgsView { target: Some(t), ..acc }),
                    Err(e) => Err(e),
                }
            }
        } else if flag == "--template"@ {
            if index + 1 >= args.len() {
                Err(ErrorView::MissingValue("--template"@))
            } else {
                match parse_template(args[index + 1]) {
                    Ok(t) => parse_flags(args, index + 2, ArgsView { template: t, ..acc }),
                    Err(e) => Err(e),
                }
            }
        } else if flag == "--name"@ {
            if index + 1 >= args.len() {
                Err(ErrorView::MissingValue("--name"@))
            } else {
                parse_flags(args, index + 2, ArgsView { name: Some(args[index + 1]), ..acc })
            }
        } else if flag == "--output"@ {
            if index + 1 >= args.len() {
                Err(ErrorView::MissingValue("--output"@))
            } else {
                parse_flags(args, index + 2, ArgsView { output: Some(args[index + 1]), ..acc })
            }
        } else if flag == "--force"@ {
            parse_flags(args, index + 1, ArgsView { force: true, ..acc })
        } else if flag == "--dry-run"@ {
            parse_flags(args, index + 1, ArgsView { dry_run: true, ..acc })
        } else if flag == "--no-install"@ {
            parse_flags(args, index + 1, ArgsView { install_deps: false, ..acc })
        } else if flag == "--install"@ {
            parse_flags(args, index + 1, ArgsView { install_deps: true, ..acc })
        } else {
            Err(ErrorView::UnknownFlag(flag))
        }
    }
}

/// Whether an argument asks for help.
pub open spec fn is_help(arg: Seq<char>) -> bool {
    arg == "help"@ || arg == "--help"@ || arg == "-h"@
}

/// What the command line `args` (without the program name) asks for: no
/// arguments start the wizard with the defaults; `help`, `--help` or `-h`
/// first asks for help; otherwise the first must be `generate`, followed by
/// its flags.
pub open spec fn parse_command_spec(args: Seq<Seq<char>>) -> Result<CommandView, ErrorView> {
    if args.len() == 0 {
        Ok(CommandView::Generate(default_args()))
    } else if is_help(args[0]) {
        Ok(CommandView::Help)
    } else if args[0] != "generate"@ {
        Err(ErrorView::UnknownCommand(args[0]))
    } else {
        match parse_flags(args, 1, default_args()) {
            Ok(a) => Ok(CommandView::Generate(a)),
            Err(e) => Err(e),
        }
    }
}

pub open spec fn command_result_view(r: Result<Command, CliError>) -> Result<CommandView, ErrorView> {
    match r {
        Ok(c) => Ok(c@),
        Err(e) => Err(e@),
    }
}

/// The argument after the flag at `index`, or the error that it is missing.
pub fn next_value<'a>(args: &'a Vec<String>, index: usize, flag: &str) -> (r: Result<
    &'a str,
    CliError,
>)
    requires
        index < usize::MAX,
    ensures
        index + 1 < args.len() ==> (r matches Ok(v) && v@ == args@[index + 1]@),
        index + 1 >= args.len() ==> (r matches Err(e) && e@ == ErrorView::MissingValue(flag@)),
{
    if index + 1 < args.len() {
        Ok(args[index + 1].as_str())
    } else {
        Err(CliError::MissingValue(String::from_str(flag)))
    }
}

/// Reads the command line (without the program name).
pub fn parse_command(args: Vec<String>) -> (r: Result<Command, CliError>)
    ensures
        command_result_view(r) == parse_command_spec(text::strings_view(args@)),
{
    let ghost views = text::strings_view(args@);
    if args.len() == 0 {
        return Ok(Command::Generate(new_args()));
    }
    let first = args[0].as_str();
    if text::text_eq(first, "help") || text::text_eq(first, "--help") || text::text_eq(
        first,
        "-h",
    ) {
        return Ok(Command::Help);
    }
    if !text::text_eq(first, "generate") {
        return Err(CliError::UnknownCommand(args[0].clone()));
    }
    assert(views[0] == first@);
    let mut parsed = new_args();
    let mut index: usize = 1;
    while index < args.len()
        invariant
            1 <= index <= args.len(),
            views == text::strings_view(args@),
            !is_help(views[0]),
            views[0] == "generate"@,
            parse_flags(views, 1, default_args()) == parse_flags(views, index as int, parsed@),
        decreases args.len() - index,
    {
        let flag = args[index].as_str();
        assert(views[index as int] == flag@);
        if text::text_eq(flag, "--target") {
            let value = match next_value(&args, index, "--target") {
                Ok(v) => v,
                Err(e) => return Err(e),
            };
            parsed.target = match Target::parse(value) {
                Ok(t) => Some(t),
                Err(e) => return Err(e),
            };
            index += 2;
        } else if text::text_eq(flag, "--template") {
            let value = match next_value(&args, index, "--template") {
                Ok(v) => v,
                Err(e) => return Err(e),
            };
            parsed.template = match Template::parse(value) {
                Ok(t) => t,
                Err(e) => return Err(e),
            };
            index += 2;
        } else if text::text_eq(flag, "--name") {
            let value = match next_value(&args, index, "--name") {
                Ok(v) => v,
                Err(e) => return Err(e),
            };
            parsed.name = Some(String::from_str(value));
            index += 2;
        } else if text::text_eq(flag, "--output") {
            let value = match next_value(&args, index, "--output") {
                Ok(v) => v,
                Err(e) => return Err(e),
            };
            parsed.output = Some(String::from_str(value));
            index += 2;
        } else if text::text_eq(flag, "--force") {
            parsed.force = true;
            index += 1;
        } else if text::text_eq(flag, "--dry-run") {
            parsed.dry_run = true;
            index += 1;
        } else if text::text_eq(flag, "--no-install") {
            parsed.install_deps = false;
            index += 1;
        } else if text::text_eq(flag, "--install") {
            parsed.install_deps = true;
            index += 1;
        } else {
            return Err(CliError::UnknownFlag(args[index].clone()));
        }
    }
    Ok(Command::Generate(parsed))
}

proof fn lemma_parse_flags_append(args: Seq<Seq<char>>, index: int, acc: ArgsView, f: Seq<char>)
    requires
        0 <= index <= args.len(),
        parse_flags(args, index, acc) is Ok,
    ensures
        parse_flags(args.push(f), index, acc) == parse_flags(
            args.push(f),
            args.len() as int,
            parse_flags(args, index, acc)->Ok_0,
        ),
    decreases args.len() - index,
{
    let ext = args.push(f);
    if index < args.len() {
        assert(ext[index] == args[index]);
        if index + 1 < args.len() {
            assert(ext[index + 1] == args[index + 1]);
        }
        let flag = args[index];
        if flag == "--target"@ {
            lemma_parse_flags_append(args, index + 2, ArgsView { target: Some(parse_target(args[index + 1])->Ok_0), ..acc }, f);
        } else if flag == "--template"@ {
            lemma_parse_flags_append(args, index + 2, ArgsView { template: parse_template(args[index + 1])->Ok_0, ..acc }, f);
        } else if flag == "--name"@ {
            lemma_parse_flags_append(args, index + 2, ArgsView { name: Some(args[index + 1]), ..acc }, f);
        } else if flag == "--output"@ {
            lemma_parse_flags_append(args, index + 2, ArgsView { output: Some(args[index + 1]), ..acc }, f);
        } else if flag == "--force"@ {
            lemma_parse_flags_append(args, index + 1, ArgsView { force: true, ..acc }, f);
        } else if flag == "--dry-run"@ {
            lemma_parse_flags_append(args, index + 1, ArgsView { dry_run: true, ..acc }, f);
        } else if flag == "--no-install"@ {
            lemma_parse_flags_append(args, index + 1, ArgsView { install_deps: false, ..acc }, f);
        } else if flag == "--install"@ {
            lemma_parse_flags_append(args, index + 1, ArgsView { install_deps: true, ..acc }, f);
        }
    }
}

proof fn lemma_flag_names_differ()
    ensures
        "--force"@ != "--target"@,
        "--force"@ != "--template"@,
        "--force"@ != "--name"@,
        "--force"@ != "--output"@,
        "--dry-run"@ != "--target"@,
        "--dry-run"@ != "--template"@,
        "--dry-run"@ != "--name"@,
        "--dry-run"@ != "--output"@,
        "--dry-run"@ != "--force"@,
        "--no-install"@ != "--target"@,
        "--no-install"@ != "--template"@,
        "--no-install"@ != "--name"@,
        "--no-install"@ != "--output"@,
        "--no-install"@ != "--force"@,
        "--no-install"@ != "--dry-run"@,
        "--install"@ != "--target"@,
        "--install"@ != "--template"@,
        "--install"@ != "--name"@,
        "--install"@ != "--output"@,
        "--install"@ != "--force"@,
        "--install"@ != "--dry-run"@,
        "--install"@ != "--no-install"@,
{
    reveal_strlit("--target");
    reveal_strlit("--template");
    reveal_strlit("--name");
    reveal_strlit("--output");
    reveal_strlit("--force");
    reveal_strlit("--dry-run");
    reveal_strlit("--no-install");
    reveal_strlit("--install");
    assert("--force"@.len() != "--target"@.len());
    assert("--force"@.len() != "--template"@.len());
    assert("--force"@.len() != "--name"@.len());
    assert("--force"@.len() != "--output"@.len());
    assert("--dry-run"@.len() != "--target"@.len());
    assert("--dry-run"@.len() != "--template"@.len());
    assert("--dry-run"@.len() != "--name"@.len());
    assert("--dry-run"@.len() != "--output"@.len());
    assert("--dry-run"@.len() != "--force"@.len());
    assert("--no-install"@.len() != "--target"@.len());
    assert("--no-install"@.len() != "--template"@.len());
    assert("--no-install"@.len() != "--name"@.len());
    assert("--no-install"@.len() != "--output"@.len());
    assert("--no-install"@.len() != "--force"@.len());
    assert("--no-install"@.len() != "--dry-run"@.len());
    assert("--install"@.len() != "--target"@.len());
    assert("--install"@.len() != "--template"@.len());
    assert("--install"@.len() != "--name"@.len());
    assert("--install"@.len() != "--output"@.len());
    assert("--install"@.len() != "--force"@.len());
    assert("--install"@[2] != "--dry-run"@[2]);
    assert("--install"@.len() != "--no-install"@.len());
}

/// A switch added at the end of a `generate` command line that reads
/// successfully sets its field and leaves every other flag as it was:
/// `--force`, `--dry-run`, `--no-install` and `--install` each override what
/// came before.
pub proof fn lemma_trailing_switch_overrides(args: Seq<Seq<char>>)
    requires
        args.len() > 0,
        parse_command_spec(args) matches Ok(CommandView::Generate(_)),
    ensures
        ({
            let a = parse_command_spec(args)->Ok_0->Generate_0;
            &&& parse_command_spec(args.push("--force"@)) == Ok::<CommandView, ErrorView>(
                CommandView::Generate(ArgsView { force: true, ..a }),
            )
            &&& parse_command_spec(args.push("--dry-run"@)) == Ok::<CommandView, ErrorView>(
                CommandView::Generate(ArgsView { dry_run: true, ..a }),
            )
            &&& parse_command_spec(args.push("--no-install"@)) == Ok::<CommandView, ErrorView>(
                CommandView::Generate(ArgsView { install_deps: false, ..a }),
            )
            &&& parse_command_spec(args.push("--install"@)) == Ok::<CommandView, ErrorView>(
                CommandView::Generate(ArgsView { install_deps: true, ..a }),
            )
        }),
{
    lemma_flag_names_differ();
    let a = parse_command_spec(args)->Ok_0->Generate_0;
    if is_help(args[0]) {
        assert(false);
    }
    assert(args[0] == "generate"@);
    lemma_parse_flags_append(args, 1, default_args(), "--force"@);
    lemma_parse_flags_append(args, 1, default_args(), "--dry-run"@);
    lemma_parse_flags_append(args, 1, default_args(), "--no-install"@);
    lemma_parse_flags_append(args, 1, default_args(), "--install"@);
    assert(args.push("--force"@)[0] == args[0]);
    assert(args.push("--dry-run"@)[0] == args[0]);
    assert(args.push("--no-install"@)[0] == args[0]);
    assert(args.push("--install"@)[0] == args[0]);
    assert(parse_flags(args.push("--force"@), (args.len() + 1) as int, ArgsView { force: true, ..a })
        == Ok::<ArgsView, ErrorView>(ArgsView { force: true, ..a }));
    assert(parse_flags(args.push("--dry-run"@), (args.len() + 1) as int, ArgsView { dry_run: true, ..a })
        == Ok::<ArgsView, ErrorView>(ArgsView { dry_run: true, ..a }));
    assert(parse_flags(args.push("--no-install"@), (args.len() + 1) as int, ArgsView { install_deps: false, ..a })
        == Ok::<ArgsView, ErrorView>(ArgsView { install_deps: false, ..a }));
    assert(parse_flags(args.push("--install"@), (args.len() + 1) as int, ArgsView { install_deps: true, ..a })
        == Ok::<ArgsView, ErrorView>(ArgsView { install_deps: true, ..a }));
}

proof fn lemma_parse_flags_keeps_install(args: Seq<Seq<char>>, index: int, acc: ArgsView)
    requires
        acc.install_deps,
        forall|k: int| index <= k < args.len() ==> args[k] != "--no-install"@,
    ensures
        parse_flags(args, index, acc) matches Ok(a) ==> a.install_deps,
    decreases args.len() - index,
{
    if 0 <= index < args.len() {
        let flag = args[index];
        if flag == "--target"@ && index + 1 < args.len() {
            if parse_target(args[index + 1]) is Ok {
                lemma_parse_flags_keeps_install(args, index + 2, ArgsView { target: Some(parse_target(args[index + 1])->Ok_0), ..acc });
            }
        } else if flag == "--template"@ && index + 1 < args.len() {
            if parse_template(args[index + 1]) is Ok {
                lemma_parse_flags_keeps_install(args, index + 2, ArgsView { template: parse_template(args[index + 1])->Ok_0, ..acc });
            }
        } else if flag == "--name"@ && index + 1 < args.len() {
            lemma_parse_flags_keeps_install(args, index + 2, ArgsView { name: Some(args[index + 1]), ..acc });
        } else if flag == "--output"@ && index + 1 < args.len() {
            lemma_parse_flags_keeps_install(args, index + 2, ArgsView { output: Some(args[index + 1]), ..acc });
        } else if flag == "--force"@ {
            lemma_parse_flags_keeps_install(args, index + 1, ArgsView { force: true, ..acc });
        } else if flag == "--dry-run"@ {
            lemma_parse_flags_keeps_install(args, index + 1, ArgsView { dry_run: true, ..acc });
        } else if flag == "--install"@ {
            lemma_parse_flags_keeps_install(args, index + 1, ArgsView { install_deps: true, ..acc });
        }
    }
}

/// Dependencies are installed unless `--no-install` is given: a command line
/// without that argument that reads as `generate` installs dependencies.
pub proof fn lemma_install_by_default(args: Seq<Seq<char>>)
    requires
        forall|k: int| 0 <= k < args.len() ==> args[k] != "--no-install"@,
    ensures
        parse_command_spec(args) matches Ok(CommandView::Generate(a)) ==> a.install_deps,
{
    lemma_parse_flags_keeps_install(args, 1, default_args());
}

/// No argument from `index` on equals `flag`.
pub open spec fn absent_from(args: Seq<Seq<char>>, index: int, flag: Seq<char>) -> bool {
    forall|k: int| index <= k < args.len() ==> args[k] != flag
}

proof fn lemma_parse_flags_absent(args: Seq<Seq<char>>, index: int, acc: ArgsView)
    ensures
        parse_flags(args, index, acc) matches Ok(a) ==> {
            &&& absent_from(args, index, "--force"@) ==> a.force == acc.force
            &&& absent_from(args, index, "--dry-run"@) ==> a.dry_run == acc.dry_run
            &&& (absent_from(args, index, "--no-install"@) && absent_from(args, index, "--install"@))
                ==> a.install_deps == acc.install_deps
            &&& absent_from(args, index, "--target"@) ==> a.target == acc.target
            &&& absent_from(args, index, "--template"@) ==> a.template == acc.template
            &&& absent_from(args, index, "--name"@) ==> a.name == acc.name
            &&& absent_from(args, index, "--output"@) ==> a.output == acc.output
        },
    decreases args.len() - index,
{
    if 0 <= index < args.len() {
        let flag = args[index];
        if flag == "--target"@ && index + 1 < args.len() {
            if parse_target(args[index + 1]) is Ok {
                lemma_parse_flags_absent(
                    args,
                    index + 2,
                    ArgsView { target: Some(parse_target(args[index + 1])->Ok_0), ..acc },
                );
            }
        } else if flag == "--template"@ && index + 1 < args.len() {
            if parse_template(args[index + 1]) is Ok {
                lemma_parse_flags_absent(
                    args,
                    index + 2,
                    ArgsView { template: parse_template(args[index + 1])->Ok_0, ..acc },
                );
            }
        } else if flag == "--name"@ && index + 1 < args.len() {
            lemma_parse_flags_absent(args, index + 2, ArgsView { name: Some(args[index + 1]), ..acc });
        } else if flag == "--output"@ && index + 1 < args.len() {
            lemma_parse_flags_absent(
                args,
                index + 2,
                ArgsView { output: Some(args[index + 1]), ..acc },
            );
        } else if flag == "--force"@ {
            lemma_parse_flags_absent(args, index + 1, ArgsView { force: true, ..acc });
        } else if flag == "--dry-run"@ {
            lemma_parse_flags_absent(args, index + 1, ArgsView { dry_run: true, ..acc });
        } else if flag == "--no-install"@ {
            lemma_parse_flags_absent(args, index + 1, ArgsView { install_deps: false, ..acc });
        } else if flag == "--install"@ {
            lemma_parse_flags_absent(args, index + 1, ArgsView { install_deps: true, ..acc });
        }
    }
}

/// A `generate` command line that reads successfully keeps the defaults of
/// every flag it does not mention: without `--force` nothing is overwritten,
/// without `--dry-run` files are written, without `--target` or `--name` the
/// wizard has to ask, without `--output` no output directory is set, without
/// `--template` the template is `minimal`, and without `--no-install` or
/// `--install` dependencies are installed.
pub proof fn lemma_unmentioned_flags_keep_defaults(args: Seq<Seq<char>>)
    ensures
        parse_command_spec(args) matches Ok(CommandView::Generate(a)) ==> {
            &&& absent_from(args, 0, "--force"@) ==> !a.force
            &&& absent_from(args, 0, "--dry-run"@) ==> !a.dry_run
            &&& (absent_from(args, 0, "--no-install"@) && absent_from(args, 0, "--install"@))
                ==> a.install_deps
            &&& absent_from(args, 0, "--target"@) ==> a.target is None
            &&& absent_from(args, 0, "--template"@) ==> a.template == Template::Minimal
            &&& absent_from(args, 0, "--name"@) ==> a.name is None
            &&& absent_from(args, 0, "--output"@) ==> a.output is None
        },
{
    lemma_parse_flags_absent(args, 1, default_args());
}

/// A direct run carries the command line over unchanged: the target, the
/// template, the project name, the `--force` and `--dry-run` switches and the
/// install choice are the flags' own, the SDK dependency is the one given, and
/// the output directory is `--output` or else the project's name under `cwd`.
/// A run without both a target and a name has no direct options.
pub proof fn lemma_direct_options_follow_flags(args: ArgsView, cwd: Seq<char>, sdk: Seq<char>)
    ensures
        direct_options_spec(args, cwd, sdk) is Some <==> (args.target is Some && args.name is Some),
        direct_options_spec(args, cwd, sdk) matches Some((o, install)) ==> {
            &&& Some(o.target) == args.target
            &&& o.template == args.template
            &&& Some(o.project_name) == args.name
            &&& o.sdk_dependency == sdk
            &&& o.force == args.force
            &&& o.dry_run == args.dry_run
            &&& install == args.install_deps
            &&& (args.output matches Some(out) ==> o.output_dir == out)
            &&& (args.output is None ==> o.output_dir == text::join_path(cwd, o.project_name))
        },
{
}

/// `npm install` runs only when asked and not on a dry run: without the
/// install choice, or on a dry run, there is no directory at all; otherwise
/// the first directory is the output directory, followed by its `.opencode`
/// directory for OpenCode and by nothing for PI.
pub proof fn lemma_install_dirs_rules(options: GenerateOptionsView, install_deps: bool)
    ensures
        !install_deps ==> install_dirs_spec(options, install_deps).len() == 0,
        options.dry_run ==> install_dirs_spec(options, install_deps).len() == 0,
        install_deps && !options.dry_run ==> {
            let d = install_dirs_spec(options, install_deps);
            &&& d.len() >= 1
            &&& d[0] == options.output_dir
            &&& options.target == Target::Pi ==> d.len() == 1
            &&& options.target == Target::OpenCode ==> d.len() == 2 && d[1] == text::join_path(
                options.output_dir,
                ".opencode"@,
            )
        },
{
}

/// The usage text printed for `help`.
pub const HELP_TEXT: &'static str = r##"Usage:
  cli generate [--target opencode|pi] [--template minimal] [--name NAME] [--output PATH] [--force] [--dry-run] [--no-install]

Notes:
  - If --target/--name are not provided, interactive ratatui wizard starts.
  - If --output is omitted, defaults to ./<name>.
  - Dependencies are installed by default (use --no-install to skip).
  - `minimal` is the initial template for both targets."##;

/// The usage text printed for `help`.
pub fn help_text() -> (s: String)
    ensures
        s@ == HELP_TEXT@,
{
    String::from_str(HELP_TEXT)
}

/// The options of a `generate` run whose flags name both a target and a
/// project, and whether it installs dependencies afterwards; `None` when
/// either is missing and the wizard has to ask. Without `--output` the
/// project goes to a directory of its name under `cwd`.
pub open spec fn direct_options_spec(args: ArgsView, cwd: Seq<char>, sdk: Seq<char>) -> Option<
    (GenerateOptionsView, bool),
> {
    match (args.target, args.name) {
        (Some(target), Some(name)) => Some(
            (
                GenerateOptionsView {
                    target,
                    template: args.template,
                    project_name: name,
                    output_dir: match args.output {
                        Some(o) => o,
                        None => text::join_path(cwd, name),
                    },
                    sdk_dependency: sdk,
                    force: args.force,
                    dry_run: args.dry_run,
                },
                args.install_deps,
            ),
        ),
        _ => None,
    }
}

/// The options of a `generate` run given both `--target` and `--name`; see
/// `direct_options_spec`.
pub fn direct_options(args: &GenerateArgs, cwd: &str, sdk_dependency: &str) -> (r: Option<
    (GenerateOptions, bool),
>)
    ensures
        match r {
            Some((o, install)) => direct_options_spec(args@, cwd@, sdk_dependency@) == Some(
                (o@, install),
            ),
            None => direct_options_spec(args@, cwd@, sdk_dependency@) is None,
        },
        r is Some <==> (args.target is Some && args.name is Some),
        r matches Some((o, install)) ==> {
            &&& Some(o.target) == args.target
            &&& o.template == args.template
            &&& Some(o.project_name@) == opt_view(args.name)
            &&& o.sdk_dependency@ == sdk_dependency@
            &&& o.force == args.force
            &&& o.dry_run == args.dry_run
            &&& install == args.install_deps
        },
{
    match (args.target, &args.name) {
        (Some(target), Some(name)) => {
            let output_dir = match &args.output {
                Some(o) => o.clone(),
                None => text::join(cwd, name.as_str()),
            };
            let options = GenerateOptions {
                target,
                template: args.template,
                project_name: name.clone(),
                output_dir,
                sdk_dependency: String::from_str(sdk_dependency),
                force: args.force,
                dry_run: args.dry_run,
            };
            Some((options, args.install_deps))
        },
        _ => None,
    }
}

/// The options of a `generate` run whose target or name was missing, once
/// the wizard has supplied them: the wizard's options with the SDK dependency
/// filled in, and dependencies installed only when both the wizard and the
/// command line (no `--no-install`) ask for it.
pub fn wizard_run_options(args: &GenerateArgs, wizard: WizardOutput, sdk: &str) -> (r: (
    GenerateOptions,
    bool,
))
    ensures
        r.0@ == (GenerateOptionsView { sdk_dependency: sdk@, ..wizard.options@ }),
        r.1 == (wizard.install_deps && args.install_deps),
{
    let install = wizard.install_deps && args.install_deps;
    let options = GenerateOptions { sdk_dependency: String::from_str(sdk), ..wizard.options };
    (options, install)
}

/// The directories `npm install` runs in after a generation, in order: none
/// when installing is off or the run is dry; the output directory, and for
/// OpenCode also its `.opencode` directory.
pub open spec fn install_dirs_spec(options: GenerateOptionsView, install_deps: bool) -> Seq<
    Seq<char>,
> {
    if !install_deps || options.dry_run {
        Seq::empty()
    } else if options.target == Target::OpenCode {
        seq![options.output_dir, text::join_path(options.output_dir, ".opencode"@)]
    } else {
        seq![options.output_dir]
    }
}

/// The directories to install dependencies in; see `install_dirs_spec`.
pub fn install_dirs(options: &GenerateOptions, install_deps: bool) -> (dirs: Vec<String>)
    ensures
        text::strings_view(dirs@) == install_dirs_spec(options@, install_deps),
        !install_deps || options.dry_run ==> dirs.len() == 0,
        install_deps && !options.dry_run ==> dirs.len() > 0 && dirs@[0]@ == options.output_dir@,
{
    let mut dirs: Vec<String> = Vec::new();
    if install_deps && !options.dry_run {
        dirs.push(options.output_dir.clone());
        if options.target == Target::OpenCode {
            dirs.push(text::join(options.output_dir.as_str(), ".opencode"));
        }
    }
    assert(text::strings_view(dirs@) =~= install_dirs_spec(options@, install_deps));
    dirs
}

/// Where the SDK is looked for, in order, relative to `cwd`.
pub open spec fn sdk_candidates_spec(cwd: Seq<char>) -> Seq<Seq<char>> {
    seq![
        text::join_path(cwd, "../plugin-sdk"@),
        text::join_path(cwd, "plugin-sdk"@),
        text::join_path(cwd, "../../plugin-sdk"@),
    ]
}

/// Where the SDK is looked for; see `sdk_candidates_spec`.
pub fn sdk_candidates(cwd: &str) -> (c: Vec<String>)
    ensures
        text::strings_view(c@) == sdk_candidates_spec(cwd@),
{
    let mut c: Vec<String> = Vec::new();
    c.push(text::join(cwd, "../plugin-sdk"));
    c.push(text::join(cwd, "plugin-sdk"));
    c.push(text::join(cwd, "../../plugin-sdk"));
    assert(text::strings_view(c@) =~= sdk_candidates_spec(cwd@));
    c
}

/// The SDK dependency written into `package.json`: the found SDK directory
/// as a `file:` dependency, or `file:../plugin-sdk` when none was found.
pub open spec fn sdk_dependency_spec(found: Option<Seq<char>>) -> Seq<char> {
    match found {
        Some(dir) => "file:"@ + dir,
        None => "file:../plugin-sdk"@,
    }
}

/// The SDK dependency for the SDK directory found, if any.
pub fn sdk_dependency(found: Option<&str>) -> (s: String)
    ensures
        s@ == sdk_dependency_spec(
            match found {
                Some(d) => Some(d@),
                None => None,
            },
        ),
{
    match found {
        Some(dir) => {
            let mut s = String::from_str("file:");
            s.append(dir);
            s
        },
        None => String::from_str("file:../plugin-sdk"),
    }
}

/// The lines printed after a generation.
pub open spec fn result_lines_spec(paths: Seq<Seq<char>>, dry_run: bool) -> Seq<Seq<char>> {
    if paths.len() == 0 {
        seq!["No files generated."@]
    } else {
        seq![
            if dry_run {
                "Dry run complete. Planned files:"@
            } else {
                "Generated files:"@
            },
        ] + paths.map_values(|p: Seq<char>| "  - "@ + p)
    }
}

/// The lines printed after a generation; see `result_lines_spec`.
pub fn result_lines(result: &GenerateResult) -> (lines: Vec<String>)
    ensures
        text::strings_view(lines@) == result_lines_spec(
            text::strings_view(result.written_paths@),
            result.dry_run,
        ),
{
    let mut lines: Vec<String> = Vec::new();
    if result.written_paths.len() == 0 {
        lines.push(String::from_str("No files generated."));
        assert(text::strings_view(lines@) =~= result_lines_spec(
            text::strings_view(result.written_paths@),
            result.dry_run,
        ));
        return lines;
    }
    if result.dry_run {
        lines.push(String::from_str("Dry run complete. Planned files:"));
    } else {
        lines.push(String::from_str("Generated files:"));
    }
    let mut i: usize = 0;
    while i < result.written_paths.len()
        invariant
            i <= result.written_paths.len(),
            lines.len() == i + 1,
            text::strings_view(lines@)[0] == result_lines_spec(
                text::strings_view(result.written_paths@),
                result.dry_run,
            )[0],
            forall|k: int|
                1 <= k <= i ==> #[trigger] lines@[k]@ == "  - "@ + result.written_paths@[k - 1]@,
        decreases result.written_paths.len() - i,
    {
        let mut line = String::from_str("  - ");
        line.append(result.written_paths[i].as_str());
        lines.push(line);
        i += 1;
    }
    assert(text::strings_view(lines@) =~= result_lines_spec(
        text::strings_view(result.written_paths@),
        result.dry_run,
    ));
    lines
}

} // verus!
