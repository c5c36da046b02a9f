//! The scaffold templates: the files each target gets, and the identifiers
//! derived from the project name that they are filled in with.
use vstd::prelude::*;
use vstd::string::*;

use crate::error::CliError;
use crate::generator::{GenerateOptions, Target, Template};
use crate::text::{self, ascii_lower, ascii_upper, is_ascii_alnum, trim_both, trim_end, trim_start};

verus! {

/// `package.json` up to the package name.
pub const PACKAGE_JSON_HEAD: &'static str = r##"{
  "name": ""##;

/// `package.json` between the package name and the SDK dependency.
pub const PACKAGE_JSON_MID: &'static str = r##"",
  "version": "1.0.0",
  "private": true,
  "type": "module",
  "scripts": {
    "test": "echo \"No tests yet\""
  },
  "dependencies": {
    "@amaan/plugin-sdk": ""##;

/// `package.json` after the SDK dependency.
pub const PACKAGE_JSON_TAIL: &'static str = r##""
  }
}
"##;

/// `.opencode/package.json` up to the SDK dependency.
pub const OPENCODE_DEPS_HEAD: &'static str = r##"{
  "dependencies": {
    "@amaan/plugin-sdk": ""##;

/// `.opencode/package.json` after the SDK dependency.
pub const OPENCODE_DEPS_TAIL: &'static str = r##"",
    "@opencode-ai/plugin": "1.14.28"
  }
}
"##;

/// The OpenCode plugin source up to the first use of the plugin symbol.
pub const OPENCODE_PLUGIN_0: &'static str = r##"import type { Plugin } from "@amaan/plugin-sdk";
import { blockReadPaths, createPlugin, injectEnv, onSessionIdle } from "@amaan/plugin-sdk";

export const "##;

/// The OpenCode plugin source between the first and second use of the plugin symbol.
pub const OPENCODE_PLUGIN_1: &'static str = r##": Plugin = createPlugin(
  injectEnv((input) => ({
    AMAAN_PLUGIN: "true",
    AMAAN_WORKTREE: input.cwd,
  })),
  blockReadPaths([/\.md$/], "Blocked by "##;

/// The OpenCode plugin source between the plugin symbol and the package name.
pub const OPENCODE_PLUGIN_2: &'static str = r##""),
  onSessionIdle(async (_event, ctx) => {
    await ctx.client.app.log({
      body: {
        service: ""##;

/// The OpenCode plugin source between the package name and the last use of the plugin symbol.
pub const OPENCODE_PLUGIN_3: &'static str = r##"",
        level: "info",
        message: "Session became idle",
        extra: {
          project: ctx.project,
          directory: ctx.directory,
        },
      },
    });
  }),
);

export default "##;

/// The OpenCode plugin source after the last use of the plugin symbol.
pub const OPENCODE_PLUGIN_4: &'static str = r##";
"##;

/// The PI extension source up to the first use of the extension symbol.
pub const PI_EXTENSION_0: &'static str = r##"import type { PiExtensionFactory } from "@amaan/plugin-sdk/pi";
import {
  blockReadPaths,
  createExtension,
  defineCommand,
  onSessionStart,
  registerCommand,
  sendMessageOn,
} from "@amaan/plugin-sdk/pi";

export const "##;

/// The PI extension source between uses 1 and 2 of the extension symbol.
pub const PI_EXTENSION_1: &'static str = r##": PiExtensionFactory = createExtension(
  blockReadPaths([/\.md$/], "Reading markdown files is blocked by "##;

/// The PI extension source between uses 2 and 3 of the extension symbol.
pub const PI_EXTENSION_2: &'static str = r##""),
  onSessionStart((_event, ctx) => {
    ctx.ui.notify?.(""##;

/// The PI extension source between uses 3 and 4 of the extension symbol.
pub const PI_EXTENSION_3: &'static str = r##" loaded", "info");
  }),
  sendMessageOn("session_start", async () => ({
    content: ""##;

/// The PI extension source between uses 4 and 5 of the extension symbol.
pub const PI_EXTENSION_4: &'static str = r##" boot message",
    display: true,
  })),
  registerCommand(
    "sdk-ping",
    defineCommand({
      description: "Send a typed sdk ping message",
      handler: async (args: string, ctx) => {
        const suffix = args.trim() ? `: ${args.trim()}` : "";
        ctx.ui.notify?.(`sdk-ping${suffix}`, "info");
      },
    }),
  ),
);

export default "##;

/// The PI extension source after the last use of the extension symbol.
pub const PI_EXTENSION_5: &'static str = r##";
"##;

/// One file of a scaffold: where it goes, below the output directory, and
/// what it holds.
#[derive(Debug, Clone)]
pub struct RenderedTemplateFile {
    pub relative_path: String,
    pub contents: String,
}

/// The files as (relative path, contents) pairs.
pub open spec fn files_view(files: Seq<RenderedTemplateFile>) -> Seq<(Seq<char>, Seq<char>)> {
    files.map_values(|f: RenderedTemplateFile| (f.relative_path@, f.contents@))
}

/// The `package.json` of a scaffold.
pub open spec fn package_json(package_name: Seq<char>, sdk: Seq<char>) -> Seq<char> {
    PACKAGE_JSON_HEAD@ + package_name + PACKAGE_JSON_MID@ + sdk + PACKAGE_JSON_TAIL@
}

/// The `.opencode/package.json` of an OpenCode scaffold.
pub open spec fn opencode_deps_json(sdk: Seq<char>) -> Seq<char> {
    OPENCODE_DEPS_HEAD@ + sdk + OPENCODE_DEPS_TAIL@
}

/// The plugin source of an OpenCode scaffold.
pub open spec fn opencode_plugin_source(symbol: Seq<char>, package_name: Seq<char>) -> Seq<char> {
    OPENCODE_PLUGIN_0@ + symbol + OPENCODE_PLUGIN_1@ + symbol + OPENCODE_PLUGIN_2@ + package_name
        + OPENCODE_PLUGIN_3@ + symbol + OPENCODE_PLUGIN_4@
}

/// The extension source of a PI scaffold.
pub open spec fn pi_extension_source(symbol: Seq<char>) -> Seq<char> {
    PI_EXTENSION_0@ + symbol + PI_EXTENSION_1@ + symbol + PI_EXTENSION_2@ + symbol
        + PI_EXTENSION_3@ + symbol + PI_EXTENSION_4@ + symbol + PI_EXTENSION_5@
}

/// The files of the minimal OpenCode scaffold for a project.
pub open spec fn opencode_files(project_name: Seq<char>, sdk: Seq<char>) -> Seq<
    (Seq<char>, Seq<char>),
> {
    let symbol = pascal_case(project_name);
    let package_name = kebab_case(project_name);
    seq![
        ("package.json"@, package_json(package_name, sdk)),
        (".opencode/package.json"@, opencode_deps_json(sdk)),
        (".opencode/plugins/"@ + package_name + ".ts"@, opencode_plugin_source(symbol, package_name)),
    ]
}

/// The files of the minimal PI scaffold for a project.
pub open spec fn pi_files(project_name: Seq<char>, sdk: Seq<char>) -> Seq<(Seq<char>, Seq<char>)> {
    let symbol = pascal_case(project_name);
    let package_name = kebab_case(project_name);
    seq![
        ("package.json"@, package_json(package_name, sdk)),
        (".pi/extensions/"@ + package_name + ".ts"@, pi_extension_source(symbol)),
    ]
}

/// The files a target and template give for a project.
pub open spec fn rendered_files(
    target: Target,
    template: Template,
    project_name: Seq<char>,
    sdk: Seq<char>,
) -> Seq<(Seq<char>, Seq<char>)> {
    match (target, template) {
        (Target::OpenCode, Template::Minimal) => opencode_files(project_name, sdk),
        (Target::Pi, Template::Minimal) => pi_files(project_name, sdk),
    }
}

/// `s` followed by `t`.
fn cat(s: String, t: &str) -> (r: String)
    ensures
        r@ == s@ + t@,
{
    let mut s = s;
    s.append(t);
    s
}

fn file(relative_path: String, contents: String) -> (f: RenderedTemplateFile)
    ensures
        f.relative_path@ == relative_path@,
        f.contents@ == contents@,
{
    RenderedTemplateFile { relative_path, contents }
}

/// The files of the chosen target and template for the options' project.
pub fn render(options: &GenerateOptions) -> (r: Result<Vec<RenderedTemplateFile>, CliError>)
    ensures
        r matches Ok(files) && files_view(files@) == rendered_files(
            options.target,
            options.template,
            options.project_name@,
            options.sdk_dependency@,
        ),
{
    match (options.target, options.template) {
        (Target::OpenCode, Template::Minimal) => Ok(render_opencode_minimal(options)),
        (Target::Pi, Template::Minimal) => Ok(render_pi_minimal(options)),
    }
}

/// The minimal OpenCode scaffold: `package.json`, `.opencode/package.json`
/// and the plugin source under `.opencode/plugins/`.
pub fn render_opencode_minimal(options: &GenerateOptions) -> (files: Vec<RenderedTemplateFile>)
    ensures
        files_view(files@) == opencode_files(options.project_name@, options.sdk_dependency@),
        files@.len() == 3,
        files@[0].relative_path@ == "package.json"@,
        files@[0].contents@ == PACKAGE_JSON_HEAD@ + kebab_case(options.project_name@)
            + PACKAGE_JSON_MID@ + options.sdk_dependency@ + PACKAGE_JSON_TAIL@,
        files@[1].relative_path@ == ".opencode/package.json"@,
        files@[1].contents@ == OPENCODE_DEPS_HEAD@ + options.sdk_dependency@ + OPENCODE_DEPS_TAIL@,
        files@[2].relative_path@ == ".opencode/plugins/"@ + kebab_case(options.project_name@)
            + ".ts"@,
{
    let plugin_symbol = pascal_case_identifier(options.project_name.as_str());
    let package_name = kebab_case_identifier(options.project_name.as_str());
    let sdk = options.sdk_dependency.as_str();
    let plugin_file_name = cat(package_name.clone(), ".ts");

    let package = cat(
        cat(
            cat(cat(String::from_str(PACKAGE_JSON_HEAD), package_name.as_str()), PACKAGE_JSON_MID),
            sdk,
        ),
        PACKAGE_JSON_TAIL,
    );
    let deps = cat(cat(String::from_str(OPENCODE_DEPS_HEAD), sdk), OPENCODE_DEPS_TAIL);
    let mut source = String::from_str(OPENCODE_PLUGIN_0);
    source = cat(source, plugin_symbol.as_str());
    source = cat(source, OPENCODE_PLUGIN_1);
    source = cat(source, plugin_symbol.as_str());
    source = cat(source, OPENCODE_PLUGIN_2);
    source = cat(source, package_name.as_str());
    source = cat(source, OPENCODE_PLUGIN_3);
    source = cat(source, plugin_symbol.as_str());
    source = cat(source, OPENCODE_PLUGIN_4);

    let mut files: Vec<RenderedTemplateFile> = Vec::new();
    files.push(file(String::from_str("package.json"), package));
    files.push(file(String::from_str(".opencode/package.json"), deps));
    files.push(
        file(cat(String::from_str(".opencode/plugins/"), plugin_file_name.as_str()), source),
    );
    let ghost expected = opencode_files(options.project_name@, options.sdk_dependency@);
    assert(package@ == package_json(kebab_case(options.project_name@), options.sdk_dependency@));
    assert(deps@ == opencode_deps_json(options.sdk_dependency@));
    assert(source@ == opencode_plugin_source(
        pascal_case(options.project_name@),
        kebab_case(options.project_name@),
    ));
    assert(files_view(files@)[0] == expected[0]);
    assert(files_view(files@)[1] == expected[1]);
    assert(files_view(files@)[2] == expected[2]);
    assert(files_view(files@) =~= expected);
    files
}

/// The minimal PI scaffold: `package.json` and the extension source under
/// `.pi/extensions/`.
pub fn render_pi_minimal(options: &GenerateOptions) -> (files: Vec<RenderedTemplateFile>)
    ensures
        files_view(files@) == pi_files(options.project_name@, options.sdk_dependency@),
        files@.len() == 2,
        files@[0].relative_path@ == "package.json"@,
        files@[0].contents@ == PACKAGE_JSON_HEAD@ + kebab_case(options.project_name@)
            + PACKAGE_JSON_MID@ + options.sdk_dependency@ + PACKAGE_JSON_TAIL@,
        files@[1].relative_path@ == ".pi/extensions/"@ + kebab_case(options.project_name@)
            + ".ts"@,
{
    let extension_symbol = pascal_case_identifier(options.project_name.as_str());
    let package_name = kebab_case_identifier(options.project_name.as_str());
    let sdk = options.sdk_dependency.as_str();
    let extension_file_name = cat(package_name.clone(), ".ts");

    let package = cat(
        cat(
            cat(cat(String::from_str(PACKAGE_JSON_HEAD), package_name.as_str()), PACKAGE_JSON_MID),
            sdk,
        ),
        PACKAGE_JSON_TAIL,
    );
    let mut source = String::from_str(PI_EXTENSION_0);
    source = cat(source, extension_symbol.as_str());
    source = cat(source, PI_EXTENSION_1);
    source = cat(source, extension_symbol.as_str());
    source = cat(source, PI_EXTENSION_2);
    source = cat(source, extension_symbol.as_str());
    source = cat(source, PI_EXTENSION_3);
    source = cat(source, extension_symbol.as_str());
    source = cat(source, PI_EXTENSION_4);
    source = cat(source, extension_symbol.as_str());
    source = cat(source, PI_EXTENSION_5);

    let mut files: Vec<RenderedTemplateFile> = Vec::new();
    files.push(file(String::from_str("package.json"), package));
    files.push(
        file(cat(String::from_str(".pi/extensions/"), extension_file_name.as_str()), source),
    );
    assert(package@ == package_json(kebab_case(options.project_name@), options.sdk_dependency@));
    assert(source@ == pi_extension_source(pascal_case(options.project_name@)));
    assert(files_view(files@)[0] == pi_files(options.project_name@, options.sdk_dependency@)[0]);
    assert(files_view(files@)[1] == pi_files(options.project_name@, options.sdk_dependency@)[1]);
    assert(files_view(files@) =~= pi_files(options.project_name@, options.sdk_dependency@));
    files
}

/// One step of the kebab-case scan: the text built so far and whether it
/// ends in a dash written for a run of other characters.
pub open spec fn kebab_scan(s: Seq<char>) -> (Seq<char>, bool)
    decreases s.len(),
{
    if s.len() == 0 {
        (Seq::empty(), false)
    } else {
        let (out, prev_dash) = kebab_scan(s.drop_last());
        let c = s.last();
        if is_ascii_alnum(c) {
            (out.push(ascii_lower(c)), false)
        } else if !prev_dash {
            (out.push('-'), true)
        } else {
            (out, prev_dash)
        }
    }
}

/// The kebab-case form of a name: ASCII letters and digits lower-cased, each
/// run of other characters replaced by one `-`, and leading and trailing `-`
/// removed.
pub open spec fn kebab_case(s: Seq<char>) -> Seq<char> {
    trim_both(kebab_scan(s).0, true)
}

/// The characters a kebab-case name is made of.
pub open spec fn is_kebab_char(c: char) -> bool {
    ('a' <= c && c <= 'z') || ('0' <= c && c <= '9') || c == '-'
}

/// A well-formed kebab-case name: lower-case letters, digits and single
/// dashes, with no dash at either end.
pub open spec fn is_kebab(s: Seq<char>) -> bool {
    &&& forall|k: int| 0 <= k < s.len() ==> is_kebab_char(#[trigger] s[k])
    &&& forall|k: int| 0 <= k < s.len() - 1 ==> !(#[trigger] s[k] == '-' && s[k + 1] == '-')
    &&& s.len() > 0 ==> s[0] != '-' && s.last() != '-'
}

/// The kebab-case form of `raw`, used as package and file name.
pub fn kebab_case_identifier(raw: &str) -> (out: String)
    ensures
        out@ == kebab_case(raw@),
        is_kebab(out@),
{
    let v = text::chars_of(raw);
    let mut out: Vec<char> = Vec::new();
    let mut prev_dash = false;
    let mut i: usize = 0;
    while i < v.len()
        invariant
            i <= v.len(),
            (out@, prev_dash) == kebab_scan(v@.take(i as int)),
        decreases v.len() - i,
    {
        let ch = v[i];
        assert(v@.take(i + 1).drop_last() =~= v@.take(i as int));
        if text::ascii_alnum(ch) {
            out.push(text::to_ascii_lower(ch));
            prev_dash = false;
        } else if !prev_dash {
            out.push('-');
            prev_dash = true;
        }
        i += 1;
    }
    assert(v@.take(v.len() as int) =~= v@);
    let trimmed = text::trim_chars(&out, true);
    proof {
        lemma_kebab_case_well_formed(raw@);
    }
    text::string_from_chars(&trimmed)
}

/// One step of the PascalCase scan: the text built so far and whether the
/// next letter or digit starts a word.
pub open spec fn pascal_scan(s: Seq<char>) -> (Seq<char>, bool)
    decreases s.len(),
{
    if s.len() == 0 {
        (Seq::empty(), true)
    } else {
        let (out, make_upper) = pascal_scan(s.drop_last());
        let c = s.last();
        if is_ascii_alnum(c) {
            if make_upper {
                (out.push(ascii_upper(c)), false)
            } else {
                (out.push(c), false)
            }
        } else {
            (out, true)
        }
    }
}

/// The identifier used when a name has no ASCII letter or digit.
pub open spec fn default_symbol() -> Seq<char> {
    "GeneratedPlugin"@
}

/// The PascalCase form of a name: its ASCII letters and digits, with the
/// first of each run upper-cased and every other character dropped; a name
/// with none of them gives `GeneratedPlugin`.
pub open spec fn pascal_case(s: Seq<char>) -> Seq<char> {
    if pascal_scan(s).0.len() == 0 {
        default_symbol()
    } else {
        pascal_scan(s).0
    }
}

/// A well-formed PascalCase identifier: non-empty, ASCII letters and digits
/// only, not starting with a lower-case letter.
pub open spec fn is_pascal(s: Seq<char>) -> bool {
    &&& s.len() > 0
    &&& forall|k: int| 0 <= k < s.len() ==> is_ascii_alnum(#[trigger] s[k])
    &&& !('a' <= s[0] && s[0] <= 'z')
}

/// The PascalCase form of `raw`, used as the exported symbol.
pub fn pascal_case_identifier(raw: &str) -> (out: String)
    ensures
        out@ == pascal_case(raw@),
        is_pascal(out@),
{
    let v = text::chars_of(raw);
    let mut out = String::new();
    let mut make_upper = true;
    let mut i: usize = 0;
    while i < v.len()
        invariant
            i <= v.len(),
            (out@, make_upper) == pascal_scan(v@.take(i as int)),
        decreases v.len() - i,
    {
        let ch = v[i];
        assert(v@.take(i + 1).drop_last() =~= v@.take(i as int));
        if text::ascii_alnum(ch) {
            if make_upper {
                text::push_char(&mut out, text::to_ascii_upper(ch));
                make_upper = false;
            } else {
                text::push_char(&mut out, ch);
            }
        } else {
            make_upper = true;
        }
        i += 1;
    }
    assert(v@.take(v.len() as int) =~= v@);
    proof {
        lemma_pascal_case_well_formed(raw@);
    }
    if out.as_str().unicode_len() == 0 {
        String::from_str("GeneratedPlugin")
    } else {
        out
    }
}

proof fn lemma_ascii_lower(c: char)
    ensures
        is_ascii_alnum(c) ==> is_kebab_char(ascii_lower(c)) && ascii_lower(c) != '-',
        is_kebab_char(c) ==> ascii_lower(c) == c,
{
}

proof fn lemma_kebab_scan(s: Seq<char>)
    ensures
        forall|k: int| 0 <= k < kebab_scan(s).0.len() ==> is_kebab_char(#[trigger] kebab_scan(s).0[k]),
        forall|k: int|
            0 <= k < kebab_scan(s).0.len() - 1 ==> !(#[trigger] kebab_scan(s).0[k] == '-'
                && kebab_scan(s).0[k + 1] == '-'),
        kebab_scan(s).0.len() == 0 ==> !kebab_scan(s).1,
        kebab_scan(s).0.len() > 0 ==> (kebab_scan(s).1 <==> kebab_scan(s).0.last() == '-'),
    decreases s.len(),
{
    if s.len() > 0 {
        lemma_kebab_scan(s.drop_last());
        lemma_ascii_lower(s.last());
        let prev = kebab_scan(s.drop_last()).0;
        let out = kebab_scan(s).0;
        assert forall|k: int| 0 <= k < out.len() - 1 implies !(#[trigger] out[k] == '-' && out[k + 1]
            == '-') by {
            if k < prev.len() - 1 {
                assert(out[k] == prev[k] && out[k + 1] == prev[k + 1]);
            }
        }
    }
}

proof fn lemma_kebab_case_well_formed(s: Seq<char>)
    ensures
        is_kebab(kebab_case(s)),
{
    lemma_kebab_scan(s);
    let raw = kebab_scan(s).0;
    let k = text::lemma_trim_start_suffix(raw, true);
    let t1 = trim_start(raw, true);
    let j = text::lemma_trim_end_prefix(t1, true);
    let t2 = trim_end(t1, true);
    assert forall|i: int| 0 <= i < t2.len() implies is_kebab_char(#[trigger] t2[i]) by {
        assert(t2[i] == raw[i + k]);
    }
    assert forall|i: int| 0 <= i < t2.len() - 1 implies !(#[trigger] t2[i] == '-' && t2[i + 1]
        == '-') by {
        assert(t2[i] == raw[i + k] && t2[i + 1] == raw[i + 1 + k]);
    }
    if t2.len() > 0 {
        assert(t2[0] == t1[0]);
    }
}

proof fn lemma_ascii_upper(c: char)
    ensures
        is_ascii_alnum(c) ==> is_ascii_alnum(ascii_upper(c)),
        !('a' <= ascii_upper(c) && ascii_upper(c) <= 'z'),
        ascii_upper(ascii_upper(c)) == ascii_upper(c),
{
}

proof fn lemma_pascal_scan(s: Seq<char>)
    ensures
        forall|k: int| 0 <= k < pascal_scan(s).0.len() ==> is_ascii_alnum(#[trigger] pascal_scan(s).0[k]),
        pascal_scan(s).0.len() == 0 ==> pascal_scan(s).1,
        pascal_scan(s).0.len() > 0 ==> !('a' <= pascal_scan(s).0[0] && pascal_scan(s).0[0] <= 'z'),
    decreases s.len(),
{
    if s.len() > 0 {
        lemma_pascal_scan(s.drop_last());
        lemma_ascii_upper(s.last());
    }
}

proof fn lemma_pascal_case_well_formed(s: Seq<char>)
    ensures
        is_pascal(pascal_case(s)),
{
    lemma_pascal_scan(s);
    reveal_strlit("GeneratedPlugin");
}

proof fn lemma_kebab_scan_fixed(t: Seq<char>)
    requires
        forall|k: int| 0 <= k < t.len() ==> is_kebab_char(#[trigger] t[k]),
        forall|k: int| 0 <= k < t.len() - 1 ==> !(#[trigger] t[k] == '-' && t[k + 1] == '-'),
        t.len() > 0 ==> t[0] != '-',
    ensures
        kebab_scan(t) == (t, t.len() > 0 && t.last() == '-'),
    decreases t.len(),
{
    if t.len() > 0 {
        let p = t.drop_last();
        assert forall|k: int| 0 <= k < p.len() - 1 implies !(#[trigger] p[k] == '-' && p[k + 1]
            == '-') by {
            assert(p[k] == t[k] && p[k + 1] == t[k + 1]);
        }
        assert forall|k: int| 0 <= k < p.len() implies is_kebab_char(#[trigger] p[k]) by {
            assert(p[k] == t[k]);
        }
        lemma_kebab_scan_fixed(p);
        lemma_ascii_lower(t.last());
        if p.len() > 0 {
            assert(p.last() == t[t.len() - 2]);
        }
        assert(p.push(t.last()) =~= t);
    }
}

/// A well-formed kebab-case name is its own kebab-case form.
pub proof fn lemma_kebab_case_fixed(t: Seq<char>)
    requires
        is_kebab(t),
    ensures
        kebab_case(t) == t,
{
    lemma_kebab_scan_fixed(t);
}

/// Kebab-casing twice gives what kebab-casing once gives.
pub proof fn lemma_kebab_case_idempotent(s: Seq<char>)
    ensures
        kebab_case(kebab_case(s)) == kebab_case(s),
{
    lemma_kebab_case_well_formed(s);
    lemma_kebab_case_fixed(kebab_case(s));
}

proof fn lemma_pascal_scan_fixed(t: Seq<char>)
    requires
        t.len() > 0,
        forall|k: int| 0 <= k < t.len() ==> is_ascii_alnum(#[trigger] t[k]),
        !('a' <= t[0] && t[0] <= 'z'),
    ensures
        pascal_scan(t) == (t, false),
    decreases t.len(),
{
    let p = t.drop_last();
    if p.len() > 0 {
        assert forall|k: int| 0 <= k < p.len() implies is_ascii_alnum(#[trigger] p[k]) by {
            assert(p[k] == t[k]);
        }
        assert(p[0] == t[0]);
        lemma_pascal_scan_fixed(p);
        assert(pascal_scan(p) == (p, false));
        assert(is_ascii_alnum(t.last()));
    } else {
        assert(p =~= Seq::<char>::empty());
        assert(t.last() == t[0]);
        assert(pascal_scan(p) == (p, true));
        assert(ascii_upper(t[0]) == t[0]);
        assert(pascal_scan(t).0 == p.push(ascii_upper(t.last())));
    }
    assert(t[t.len() - 1] == t.last());
    assert(p.push(t.last()) =~= t);
}

/// A well-formed PascalCase identifier is its own PascalCase form.
pub proof fn lemma_pascal_case_fixed(t: Seq<char>)
    requires
        is_pascal(t),
    ensures
        pascal_case(t) == t,
{
    lemma_pascal_scan_fixed(t);
}

/// PascalCasing twice gives what PascalCasing once gives.
pub proof fn lemma_pascal_case_idempotent(s: Seq<char>)
    ensures
        pascal_case(pascal_case(s)) == pascal_case(s),
{
    lemma_pascal_case_well_formed(s);
    lemma_pascal_case_fixed(pascal_case(s));
}

/// The maximal runs of ASCII letters and digits in `s`, in order: a letter
/// or digit continues the run of the character before it when that one is a
/// letter or digit too, and starts a new run otherwise.
pub open spec fn words(s: Seq<char>) -> Seq<Seq<char>>
    decreases s.len(),
{
    if s.len() == 0 {
        Seq::empty()
    } else {
        let w = words(s.drop_last());
        let c = s.last();
        if !is_ascii_alnum(c) {
            w
        } else if s.len() >= 2 && is_ascii_alnum(s[s.len() - 2]) && w.len() > 0 {
            w.update(w.len() - 1, w.last().push(c))
        } else {
            w.push(seq![c])
        }
    }
}

/// A word with every character lower-cased.
pub open spec fn lower_all(w: Seq<char>) -> Seq<char> {
    w.map_values(|c: char| ascii_lower(c))
}

/// A word with its first character upper-cased.
pub open spec fn capitalize(w: Seq<char>) -> Seq<char> {
    if w.len() == 0 {
        w
    } else {
        w.update(0, ascii_upper(w[0]))
    }
}

/// The words lower-cased and joined by `-`.
pub open spec fn kebab_words(ws: Seq<Seq<char>>) -> Seq<char>
    decreases ws.len(),
{
    if ws.len() == 0 {
        Seq::empty()
    } else if ws.len() == 1 {
        lower_all(ws[0])
    } else {
        kebab_words(ws.drop_last()).push('-') + lower_all(ws.last())
    }
}

/// The words capitalized and concatenated.
pub open spec fn pascal_words(ws: Seq<Seq<char>>) -> Seq<char>
    decreases ws.len(),
{
    if ws.len() == 0 {
        Seq::empty()
    } else {
        pascal_words(ws.drop_last()) + capitalize(ws.last())
    }
}

/// `s` without its dashes.
pub open spec fn remove_dashes(s: Seq<char>) -> Seq<char>
    decreases s.len(),
{
    if s.len() == 0 {
        s
    } else if s.last() == '-' {
        remove_dashes(s.drop_last())
    } else {
        remove_dashes(s.drop_last()).push(s.last())
    }
}

/// Every word is non-empty and made of ASCII letters and digits; the last
/// character of `s` is a letter or digit exactly when it ends the last word.
proof fn lemma_words_shape(s: Seq<char>)
    ensures
        forall|i: int| 0 <= i < words(s).len() ==> #[trigger] words(s)[i].len() > 0,
        forall|i: int, k: int|
            0 <= i < words(s).len() && 0 <= k < words(s)[i].len() ==> is_ascii_alnum(
                #[trigger] words(s)[i][k],
            ),
        s.len() > 0 && is_ascii_alnum(s.last()) ==> words(s).len() > 0,
    decreases s.len(),
{
    if s.len() > 0 {
        lemma_words_shape(s.drop_last());
        let w = words(s.drop_last());
        let c = s.last();
        if is_ascii_alnum(c) && s.len() >= 2 && is_ascii_alnum(s[s.len() - 2]) && w.len() > 0 {
            let n = w.len() - 1;
            assert forall|i: int, k: int|
                0 <= i < words(s).len() && 0 <= k < words(s)[i].len() implies is_ascii_alnum(
                #[trigger] words(s)[i][k],
            ) by {
                if i == n && k == w[n].len() {
                    assert(words(s)[i][k] == c);
                } else if i == n {
                    assert(words(s)[i][k] == w[n][k]);
                } else {
                    assert(words(s)[i] == w[i]);
                }
            }
        } else if is_ascii_alnum(c) {
            assert forall|i: int, k: int|
                0 <= i < words(s).len() && 0 <= k < words(s)[i].len() implies is_ascii_alnum(
                #[trigger] words(s)[i][k],
            ) by {
                if i < w.len() {
                    assert(words(s)[i] == w[i]);
                }
            }
        }
    }
}

proof fn lemma_capitalize_push(w: Seq<char>, c: char)
    requires
        w.len() > 0,
    ensures
        capitalize(w.push(c)) == capitalize(w).push(c),
{
    assert(capitalize(w.push(c)) =~= capitalize(w).push(c));
}

proof fn lemma_lower_all_push(w: Seq<char>, c: char)
    ensures
        lower_all(w.push(c)) == lower_all(w).push(ascii_lower(c)),
{
    assert(lower_all(w.push(c)) =~= lower_all(w).push(ascii_lower(c)));
}

proof fn lemma_pascal_scan_words(s: Seq<char>)
    ensures
        pascal_scan(s).0 == pascal_words(words(s)),
        pascal_scan(s).1 == (s.len() == 0 || !is_ascii_alnum(s.last())),
    decreases s.len(),
{
    if s.len() > 0 {
        let t = s.drop_last();
        let c = s.last();
        lemma_pascal_scan_words(t);
        lemma_words_shape(t);
        let w = words(t);
        if is_ascii_alnum(c) {
            if s.len() >= 2 && is_ascii_alnum(s[s.len() - 2]) {
                assert(t.last() == s[s.len() - 2]);
                let n = w.len() - 1;
                let u = w.update(n, w.last().push(c));
                assert(u.drop_last() =~= w.drop_last());
                assert(w[n].len() > 0);
                lemma_capitalize_push(w.last(), c);
                assert(pascal_words(u) == pascal_words(w.drop_last()) + capitalize(w.last()).push(c));
                assert(pascal_words(u) =~= pascal_words(w).push(c));
            } else {
                if s.len() >= 2 {
                    assert(t.last() == s[s.len() - 2]);
                }
                let u = w.push(seq![c]);
                assert(u.drop_last() =~= w);
                assert(capitalize(seq![c]) =~= seq![ascii_upper(c)]);
                assert(pascal_words(u) =~= pascal_words(w).push(ascii_upper(c)));
            }
        }
    }
}

/// What PascalCase means directly: the runs of ASCII letters and digits, each
/// with its first character upper-cased, concatenated; `GeneratedPlugin`
/// when there are none.
pub proof fn lemma_pascal_case_words(s: Seq<char>)
    ensures
        pascal_case(s) == if words(s).len() == 0 {
            default_symbol()
        } else {
            pascal_words(words(s))
        },
{
    lemma_pascal_scan_words(s);
    lemma_words_shape(s);
    lemma_pascal_words_len(words(s));
}

proof fn lemma_pascal_words_len(ws: Seq<Seq<char>>)
    requires
        forall|i: int| 0 <= i < ws.len() ==> #[trigger] ws[i].len() > 0,
    ensures
        pascal_words(ws).len() == 0 <==> ws.len() == 0,
    decreases ws.len(),
{
    if ws.len() > 0 {
        assert(ws.last() == ws[ws.len() - 1]);
        lemma_pascal_words_len(ws.drop_last());
    }
}

/// The dash written before the first word when `s` starts with something
/// else.
spec fn lead_dash(s: Seq<char>) -> Seq<char> {
    if s.len() > 0 && !is_ascii_alnum(s[0]) {
        seq!['-']
    } else {
        Seq::empty()
    }
}

/// The dash written after the last word when `s` ends with something else.
spec fn trail_dash(s: Seq<char>) -> Seq<char> {
    if s.len() > 0 && !is_ascii_alnum(s.last()) && words(s).len() > 0 {
        seq!['-']
    } else {
        Seq::empty()
    }
}

proof fn lemma_kebab_words_ends(ws: Seq<Seq<char>>)
    requires
        forall|i: int| 0 <= i < ws.len() ==> #[trigger] ws[i].len() > 0,
        forall|i: int, k: int|
            0 <= i < ws.len() && 0 <= k < ws[i].len() ==> is_ascii_alnum(#[trigger] ws[i][k]),
    ensures
        kebab_words(ws).len() == 0 <==> ws.len() == 0,
        kebab_words(ws).len() > 0 ==> kebab_words(ws)[0] != '-' && kebab_words(ws).last() != '-',
    decreases ws.len(),
{
    if ws.len() > 0 {
        let last = ws[ws.len() - 1];
        assert(ws.last() == last);
        assert(is_ascii_alnum(last[last.len() - 1]));
        lemma_ascii_lower(last[last.len() - 1]);
        assert(lower_all(last).last() == ascii_lower(last[last.len() - 1]));
        if ws.len() == 1 {
            assert(is_ascii_alnum(last[0]));
            lemma_ascii_lower(last[0]);
            assert(lower_all(last)[0] == ascii_lower(last[0]));
        } else {
            let d = ws.drop_last();
            assert forall|i: int| 0 <= i < d.len() implies #[trigger] d[i].len() > 0 by {
                assert(d[i] == ws[i]);
            }
            assert forall|i: int, k: int|
                0 <= i < d.len() && 0 <= k < d[i].len() implies is_ascii_alnum(
                #[trigger] d[i][k],
            ) by {
                assert(d[i] == ws[i]);
            }
            lemma_kebab_words_ends(d);
            let j = kebab_words(d).push('-') + lower_all(last);
            assert(j[0] == kebab_words(d)[0]);
            assert(j.last() == lower_all(last).last());
        }
    }
}

proof fn lemma_kebab_scan_words(s: Seq<char>)
    ensures
        kebab_scan(s).0 == lead_dash(s) + kebab_words(words(s)) + trail_dash(s),
        kebab_scan(s).1 == (s.len() > 0 && !is_ascii_alnum(s.last())),
    decreases s.len(),
{
    if s.len() == 1 {
        let c = s.last();
        assert(s[0] == c);
        assert(s.drop_last() =~= Seq::<char>::empty());
        assert(kebab_scan(s.drop_last()) == (Seq::<char>::empty(), false));
        assert(words(s.drop_last()) == Seq::<Seq<char>>::empty());
        if is_ascii_alnum(c) {
            assert(lower_all(seq![c]) =~= seq![ascii_lower(c)]);
            assert(words(s) =~= seq![seq![c]]);
            assert(kebab_words(words(s)) =~= seq![ascii_lower(c)]);
            assert(kebab_scan(s).0 =~= lead_dash(s) + kebab_words(words(s)) + trail_dash(s));
        } else {
            assert(words(s) =~= Seq::<Seq<char>>::empty());
            assert(kebab_scan(s).0 =~= seq!['-']);
            assert(kebab_scan(s).0 =~= lead_dash(s) + kebab_words(words(s)) + trail_dash(s));
        }
    } else if s.len() > 1 {
        let t = s.drop_last();
        let c = s.last();
        lemma_kebab_scan_words(t);
        lemma_words_shape(t);
        assert(t[0] == s[0]);
        assert(t.last() == s[s.len() - 2]);
        assert(lead_dash(t) == lead_dash(s));
        let w = words(t);
        let l = lead_dash(s);
        if is_ascii_alnum(c) {
            lemma_words_shape(s);
            if is_ascii_alnum(t.last()) {
                let n = w.len() - 1;
                let u = w.update(n, w.last().push(c));
                assert(u.drop_last() =~= w.drop_last());
                lemma_lower_all_push(w.last(), c);
                assert(kebab_words(u) =~= kebab_words(w).push(ascii_lower(c)));
                assert(kebab_scan(s).0 =~= l + kebab_words(words(s)) + trail_dash(s));
            } else {
                let u = w.push(seq![c]);
                assert(u.drop_last() =~= w);
                assert(lower_all(seq![c]) =~= seq![ascii_lower(c)]);
                if w.len() == 0 {
                    assert(kebab_words(u) =~= seq![ascii_lower(c)]);
                } else {
                    assert(kebab_words(u) =~= kebab_words(w).push('-').push(ascii_lower(c)));
                }
                assert(kebab_scan(s).0 =~= l + kebab_words(words(s)) + trail_dash(s));
            }
        } else {
            assert(words(s) == w);
            assert(kebab_scan(s).0 =~= l + kebab_words(words(s)) + trail_dash(s));
        }
    }
}

/// What kebab-case means directly: the runs of ASCII letters and digits,
/// lower-cased and joined by `-`.
pub proof fn lemma_kebab_case_words(s: Seq<char>)
    ensures
        kebab_case(s) == kebab_words(words(s)),
{
    lemma_kebab_scan_words(s);
    lemma_words_shape(s);
    lemma_kebab_words_ends(words(s));
    let j = kebab_words(words(s));
    let l = lead_dash(s);
    let t = trail_dash(s);
    let whole = l + j + t;
    if l.len() > 0 {
        assert(whole[0] == '-');
        assert(whole.drop_first() =~= j + t);
    } else {
        assert(whole =~= j + t);
    }
    assert(trim_start(whole, true) == trim_start(j + t, true));
    if j.len() > 0 {
        assert((j + t)[0] == j[0]);
        assert(trim_start(j + t, true) == j + t);
        if t.len() > 0 {
            assert((j + t).last() == '-');
            assert((j + t).drop_last() =~= j);
            assert(trim_end(j + t, true) == trim_end(j, true));
        } else {
            assert(j + t =~= j);
        }
        assert(trim_end(j, true) == j);
    } else {
        assert(j + t =~= Seq::<char>::empty());
    }
}

proof fn lemma_lower_upper(c: char)
    ensures
        ascii_lower(ascii_upper(c)) == ascii_lower(c),
{
}

proof fn lemma_lower_all_capitalize(w: Seq<char>)
    ensures
        lower_all(capitalize(w)) == lower_all(w),
{
    if w.len() > 0 {
        lemma_lower_upper(w[0]);
        assert(lower_all(capitalize(w)) =~= lower_all(w));
    }
}

proof fn lemma_remove_dashes_concat(a: Seq<char>, b: Seq<char>)
    ensures
        remove_dashes(a + b) == remove_dashes(a) + remove_dashes(b),
    decreases b.len(),
{
    if b.len() == 0 {
        assert(a + b =~= a);
        assert(remove_dashes(a) + remove_dashes(b) =~= remove_dashes(a));
    } else {
        lemma_remove_dashes_concat(a, b.drop_last());
        assert((a + b).drop_last() =~= a + b.drop_last());
        assert((a + b).last() == b.last());
        if b.last() != '-' {
            assert(remove_dashes(a) + remove_dashes(b) =~= (remove_dashes(a) + remove_dashes(
                b.drop_last(),
            )).push(b.last()));
        }
    }
}

proof fn lemma_remove_dashes_lower_word(w: Seq<char>)
    requires
        forall|k: int| 0 <= k < w.len() ==> is_ascii_alnum(#[trigger] w[k]),
    ensures
        remove_dashes(lower_all(w)) == lower_all(w),
    decreases w.len(),
{
    if w.len() > 0 {
        let d = w.drop_last();
        assert forall|k: int| 0 <= k < d.len() implies is_ascii_alnum(#[trigger] d[k]) by {
            assert(d[k] == w[k]);
        }
        lemma_remove_dashes_lower_word(d);
        assert(lower_all(w).drop_last() =~= lower_all(d));
        assert(is_ascii_alnum(w[w.len() - 1]));
        lemma_ascii_lower(w[w.len() - 1]);
        assert(lower_all(w).last() == ascii_lower(w[w.len() - 1]));
        assert(lower_all(w) =~= lower_all(d).push(lower_all(w).last()));
    }
}

proof fn lemma_words_forms_agree(ws: Seq<Seq<char>>)
    requires
        ws.len() > 0,
        forall|i: int, k: int|
            0 <= i < ws.len() && 0 <= k < ws[i].len() ==> is_ascii_alnum(#[trigger] ws[i][k]),
    ensures
        lower_all(pascal_words(ws)) == remove_dashes(kebab_words(ws)),
    decreases ws.len(),
{
    let last = ws[ws.len() - 1];
    assert(ws.last() == last);
    assert forall|k: int| 0 <= k < last.len() implies is_ascii_alnum(#[trigger] last[k]) by {
        assert(is_ascii_alnum(ws[ws.len() - 1][k]));
    }
    lemma_remove_dashes_lower_word(last);
    lemma_lower_all_capitalize(last);
    let d = ws.drop_last();
    assert(lower_all(pascal_words(d) + capitalize(last)) =~= lower_all(pascal_words(d))
        + lower_all(capitalize(last)));
    if ws.len() == 1 {
        assert(d.len() == 0);
        assert(pascal_words(d) =~= Seq::<char>::empty());
        assert(lower_all(pascal_words(d)) =~= Seq::<char>::empty());
        assert(lower_all(pascal_words(ws)) =~= lower_all(last));
    } else {
        assert forall|i: int, k: int|
            0 <= i < d.len() && 0 <= k < d[i].len() implies is_ascii_alnum(#[trigger] d[i][k]) by {
            assert(d[i] == ws[i]);
        }
        lemma_words_forms_agree(d);
        lemma_remove_dashes_concat(kebab_words(d).push('-'), lower_all(last));
        assert(kebab_words(d).push('-').drop_last() =~= kebab_words(d));
        assert(remove_dashes(kebab_words(d).push('-')) == remove_dashes(kebab_words(d)));
    }
}

/// The two identifier forms of a name agree: when the kebab-case form is not
/// empty, the lower-cased PascalCase form is the kebab-case form without its
/// dashes; when it is empty, the PascalCase form is `GeneratedPlugin`.
pub proof fn lemma_pascal_kebab_agree(s: Seq<char>)
    ensures
        kebab_case(s).len() > 0 ==> lower_all(pascal_case(s)) == remove_dashes(kebab_case(s)),
        kebab_case(s).len() == 0 ==> pascal_case(s) == default_symbol(),
{
    lemma_kebab_case_words(s);
    lemma_pascal_case_words(s);
    lemma_words_shape(s);
    lemma_kebab_words_ends(words(s));
    if words(s).len() > 0 {
        lemma_words_forms_agree(words(s));
    }
}

/// `sub` stands in `s` at position `at`.
pub open spec fn occurs_at(s: Seq<char>, sub: Seq<char>, at: int) -> bool {
    0 <= at && at + sub.len() <= s.len() && s.subrange(at, at + sub.len()) == sub
}

/// The dependency files are the fixed templates filled with the SDK
/// dependency that was asked for, whatever it is: `package.json` (both
/// targets) names the kebab-case package and the SDK, and OpenCode's
/// `.opencode/package.json` names the SDK; in each the SDK stands right after
/// the `"@amaan/plugin-sdk": "` key.
pub proof fn lemma_rendered_sdk_dependency(target: Target, name: Seq<char>, sdk: Seq<char>)
    ensures
        ({
            let files = rendered_files(target, Template::Minimal, name, sdk);
            let package = PACKAGE_JSON_HEAD@ + kebab_case(name) + PACKAGE_JSON_MID@ + sdk
                + PACKAGE_JSON_TAIL@;
            &&& files.len() >= 2
            &&& files[0] == ("package.json"@, package)
            &&& occurs_at(
                files[0].1,
                sdk,
                (PACKAGE_JSON_HEAD@.len() + kebab_case(name).len() + PACKAGE_JSON_MID@.len()) as int,
            )
            &&& target == Target::OpenCode ==> {
                &&& files.len() == 3
                &&& files[1] == (
                    ".opencode/package.json"@,
                    OPENCODE_DEPS_HEAD@ + sdk + OPENCODE_DEPS_TAIL@,
                )
                &&& occurs_at(files[1].1, sdk, OPENCODE_DEPS_HEAD@.len() as int)
            }
            &&& target == Target::Pi ==> files.len() == 2
        }),
{
    let files = rendered_files(target, Template::Minimal, name, sdk);
    let k = kebab_case(name);
    let package = PACKAGE_JSON_HEAD@ + k + PACKAGE_JSON_MID@ + sdk + PACKAGE_JSON_TAIL@;
    let at = (PACKAGE_JSON_HEAD@.len() + k.len() + PACKAGE_JSON_MID@.len()) as int;
    assert(package.subrange(at, at + sdk.len()) =~= sdk);
    let deps = OPENCODE_DEPS_HEAD@ + sdk + OPENCODE_DEPS_TAIL@;
    let h = OPENCODE_DEPS_HEAD@.len() as int;
    assert(deps.subrange(h, h + sdk.len()) =~= sdk);
}

} // verus!
