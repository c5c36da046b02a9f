//! What to generate: the target agent, the template, the options of one
//! generation, and the plan of which files land where.
use vstd::prelude::*;
use vstd::string::*;

use crate::error::{CliError, ErrorView};
use crate::templates::{self, RenderedTemplateFile};
use crate::text;

verus! {

/// The coding agent a scaffold is generated for.
#[derive(Debug, Clone, Copy, PartialEq, Eq, Structural)]
pub enum Target {
    OpenCode,
    Pi,
}

/// The scaffold templates on offer.
#[derive(Debug, Clone, Copy, PartialEq, Eq, Structural)]
pub enum Template {
    Minimal,
}

/// The name a target is written with on the command line and in messages.
pub open spec fn target_name(t: Target) -> Seq<char> {
    match t {
        Target::OpenCode => "opencode"@,
        Target::Pi => "pi"@,
    }
}

/// What `Target::parse` gives for `raw`.
pub open spec fn parse_target(raw: Seq<char>) -> Result<Target, ErrorView> {
    if raw == "opencode"@ {
        Ok(Target::OpenCode)
    } else if raw == "pi"@ {
        Ok(Target::Pi)
    } else {
        Err(ErrorView::InvalidTarget(raw))
    }
}

/// The name a template is written with on the command line and in messages.
pub open spec fn template_name(t: Template) -> Seq<char> {
    match t {
        Template::Minimal => "minimal"@,
    }
}

/// What `Template::parse` gives for `raw`.
pub open spec fn parse_template(raw: Seq<char>) -> Result<Template, ErrorView> {
    if raw == "minimal"@ {
        Ok(Template::Minimal)
    } else {
        Err(ErrorView::InvalidTemplate(raw))
    }
}

/// A result whose error is taken by its view.
pub open spec fn result_view<T>(r: Result<T, CliError>) -> Result<T, ErrorView> {
    match r {
        Ok(v) => Ok(v),
        Err(e) => Err(e@),
    }
}

impl Target {
    /// Reads a target from its name: `opencode` or `pi`.
    pub fn parse(raw: &str) -> (r: Result<Self, CliError>)
        ensures
            result_view(r) == parse_target(raw@),
    {
        if text::text_eq(raw, "opencode") {
            Ok(Target::OpenCode)
        } else if text::text_eq(raw, "pi") {
            Ok(Target::Pi)
        } else {
            Err(CliError::InvalidTarget(String::from_str(raw)))
        }
    }

    /// The target's name.
    pub fn as_str(&self) -> (r: &'static str)
        ensures
            r@ == target_name(*self),
    {
        match self {
            Target::OpenCode => "opencode",
            Target::Pi => "pi",
        }
    }
}

impl Template {
    /// Reads a template from its name; only `minimal` exists.
    pub fn parse(raw: &str) -> (r: Result<Self, CliError>)
        ensures
            result_view(r) == parse_template(raw@),
    {
        if text::text_eq(raw, "minimal") {
            Ok(Template::Minimal)
        } else {
            Err(CliError::InvalidTemplate(String::from_str(raw)))
        }
    }

    /// The template's name.
    pub fn as_str(&self) -> (r: &'static str)
        ensures
            r@ == template_name(*self),
    {
        match self {
            Template::Minimal => "minimal",
        }
    }
}

/// Reading a target's name gives the target back.
pub proof fn lemma_target_parse_name(t: Target)
    ensures
        parse_target(target_name(t)) == Ok::<Target, ErrorView>(t),
{
    reveal_strlit("opencode");
    reveal_strlit("pi");
    assert("pi"@.len() != "opencode"@.len());
}

/// Reading a template's name gives the template back.
pub proof fn lemma_template_parse_name(t: Template)
    ensures
        parse_template(template_name(t)) == Ok::<Template, ErrorView>(t),
{
}

/// Only the two target names are read as targets, and each as its own target.
pub proof fn lemma_target_parse_only_names(raw: Seq<char>)
    ensures
        parse_target(raw) matches Ok(t) ==> raw == target_name(t),
        parse_target(raw) is Err <==> (raw != target_name(Target::OpenCode) && raw
            != target_name(Target::Pi)),
{
}

/// The choices of one generation.
#[derive(Debug, Clone)]
pub struct GenerateOptions {
    pub target: Target,
    pub template: Template,
    /// The name the user gave the project.
    pub project_name: String,
    /// The directory the files go under.
    pub output_dir: String,
    /// What the generated `package.json` depends on for the SDK.
    pub sdk_dependency: String,
    /// Overwrite files that already exist.
    pub force: bool,
    /// Plan only; write nothing.
    pub dry_run: bool,
}

/// The mathematical value of `GenerateOptions`.
pub struct GenerateOptionsView {
    pub target: Target,
    pub template: Template,
    pub project_name: Seq<char>,
    pub output_dir: Seq<char>,
    pub sdk_dependency: Seq<char>,
    pub force: bool,
    pub dry_run: bool,
}

impl View for GenerateOptions {
    type V = GenerateOptionsView;

    open spec fn view(&self) -> GenerateOptionsView {
        GenerateOptionsView {
            target: self.target,
            template: self.template,
            project_name: self.project_name@,
            output_dir: self.output_dir@,
            sdk_dependency: self.sdk_dependency@,
            force: self.force,
            dry_run: self.dry_run,
        }
    }
}

/// What a generation did, or would do on a dry run.
#[derive(Debug, Clone)]
pub struct GenerateResult {
    /// The paths written (or planned), in order.
    pub written_paths: Vec<String>,
    pub dry_run: bool,
}

/// Where each file lands: its relative path joined onto the output
/// directory.
pub open spec fn planned_paths(output_dir: Seq<char>, files: Seq<(Seq<char>, Seq<char>)>) -> Seq<
    Seq<char>,
> {
    files.map_values(|f: (Seq<char>, Seq<char>)| text::join_path(output_dir, f.0))
}

/// The paths the rendered files are written to, in order.
pub fn output_paths(output_dir: &str, files: &Vec<RenderedTemplateFile>) -> (paths: Vec<String>)
    ensures
        text::strings_view(paths@) == planned_paths(output_dir@, templates::files_view(files@)),
{
    let mut paths: Vec<String> = Vec::new();
    let mut i: usize = 0;
    while i < files.len()
        invariant
            i <= files.len(),
            paths.len() == i,
            forall|k: int|
                0 <= k < i ==> #[trigger] paths@[k]@ == text::join_path(
                    output_dir@,
                    files@[k].relative_path@,
                ),
        decreases files.len() - i,
    {
        let p = text::join(output_dir, files[i].relative_path.as_str());
        paths.push(p);
        i += 1;
    }
    assert(text::strings_view(paths@) =~= planned_paths(output_dir@, templates::files_view(files@)));
    paths
}

/// The files of a generation and the paths they land at.
pub struct GeneratePlan {
    pub files: Vec<RenderedTemplateFile>,
    pub paths: Vec<String>,
}

/// Renders the options' template and places each file under the output
/// directory; this is what a generation writes, or plans on a dry run.
pub fn plan_generate(options: &GenerateOptions) -> (r: Result<GeneratePlan, CliError>)
    ensures
        r matches Ok(plan) && {
            &&& templates::files_view(plan.files@) == templates::rendered_files(
                options.target,
                options.template,
                options.project_name@,
                options.sdk_dependency@,
            )
            &&& text::strings_view(plan.paths@) == planned_paths(
                options.output_dir@,
                templates::files_view(plan.files@),
            )
        },
{
    let files = templates::render(options)?;
    let paths = output_paths(options.output_dir.as_str(), &files);
    Ok(GeneratePlan { files, paths })
}

/// Whether the file at `i` is reported to exist already.
pub open spec fn exists_at(existing: Seq<bool>, i: int) -> bool {
    0 <= i < existing.len() && existing[i]
}

/// Refuses to overwrite: unless `force` holds, the first path reported as
/// existing (`existing[i]` for `paths[i]`) is an error.
pub fn validate_collisions(paths: &Vec<String>, existing: &Vec<bool>, force: bool) -> (r: Result<
    (),
    CliError,
>)
    ensures
        force ==> r is Ok,
        r is Ok <==> (force || forall|i: int| 0 <= i < paths.len() ==> !exists_at(existing@, i)),
        r matches Err(e) ==> exists|i: int|
            0 <= i < paths.len() && exists_at(existing@, i) && (forall|j: int|
                0 <= j < i ==> !exists_at(existing@, j)) && e@ == ErrorView::ExistingFile(
                paths@[i]@,
            ),
{
    if force {
        return Ok(());
    }
    let mut i: usize = 0;
    while i < paths.len()
        invariant
            !force,
            i <= paths.len(),
            forall|j: int| 0 <= j < i ==> !exists_at(existing@, j),
        decreases paths.len() - i,
    {
        if i < existing.len() && existing[i] {
            assert(exists_at(existing@, i as int));
            return Err(CliError::ExistingFile(paths[i].clone()));
        }
        i += 1;
    }
    Ok(())
}

/// Whether a generation touches the file system: it checks for existing
/// files and writes the rendered ones unless it is a dry run.
pub fn writes_files(options: &GenerateOptions) -> (r: bool)
    ensures
        r == !options.dry_run,
{
    !options.dry_run
}

/// The record of a generation: the planned paths, in order, written or (on a
/// dry run) only planned.
pub fn generate_result(plan: GeneratePlan, dry_run: bool) -> (r: GenerateResult)
    ensures
        text::strings_view(r.written_paths@) == text::strings_view(plan.paths@),
        r.dry_run == dry_run,
{
    GenerateResult { written_paths: plan.paths, dry_run }
}

} // verus!
