use plugin_scaffold::generator::{plan_generate, GenerateOptions, Target, Template};
use plugin_scaffold::templates::{render, render_opencode_minimal, render_pi_minimal};

fn options(target: Target, name: &str, output: &str) -> GenerateOptions {
    GenerateOptions {
        target,
        template: Template::Minimal,
        project_name: name.to_string(),
        output_dir: output.to_string(),
        sdk_dependency: "file:../plugin-sdk".to_string(),
        force: false,
        dry_run: false,
    }
}

fn expected_package_json(package_name: &str, sdk_dependency: &str) -> String {
    format!(
        r#"{{
  "name": "{package_name}",
  "version": "1.0.0",
  "private": true,
  "type": "module",
  "scripts": {{
    "test": "echo \"No tests yet\""
  }},
  "dependencies": {{
    "@amaan/plugin-sdk": "{sdk_dependency}"
  }}
}}
"#,
        sdk_dependency = sdk_dependency
    )
}

fn expected_opencode_deps(sdk_dependency: &str) -> String {
    format!(
        r#"{{
  "dependencies": {{
    "@amaan/plugin-sdk": "{sdk_dependency}",
    "@opencode-ai/plugin": "1.14.28"
  }}
}}
"#,
        sdk_dependency = sdk_dependency
    )
}

fn expected_opencode_plugin(plugin_symbol: &str, package_name: &str) -> String {
    format!(
        r#"import type {{ Plugin }} from "@amaan/plugin-sdk";
import {{ blockReadPaths, createPlugin, injectEnv, onSessionIdle }} from "@amaan/plugin-sdk";

export const {plugin_symbol}: Plugin = createPlugin(
  injectEnv((input) => ({{
    AMAAN_PLUGIN: "true",
    AMAAN_WORKTREE: input.cwd,
  }})),
  blockReadPaths([/\.md$/], "Blocked by {plugin_symbol}"),
  onSessionIdle(async (_event, ctx) => {{
    await ctx.client.app.log({{
      body: {{
        service: "{package_name}",
        level: "info",
        message: "Session became idle",
        extra: {{
          project: ctx.project,
          directory: ctx.directory,
        }},
      }},
    }});
  }}),
);

export default {plugin_symbol};
"#
    )
}

fn expected_pi_extension(extension_symbol: &str) -> String {
    format!(
        r#"import type {{ PiExtensionFactory }} from "@amaan/plugin-sdk/pi";
import {{
  blockReadPaths,
  createExtension,
  defineCommand,
  onSessionStart,
  registerCommand,
  sendMessageOn,
}} from "@amaan/plugin-sdk/pi";

export const {extension_symbol}: PiExtensionFactory = createExtension(
  blockReadPaths([/\.md$/], "Reading markdown files is blocked by {extension_symbol}"),
  onSessionStart((_event, ctx) => {{
    ctx.ui.notify?.("{extension_symbol} loaded", "info");
  }}),
  sendMessageOn("session_start", async () => ({{
    content: "{extension_symbol} boot message",
    display: true,
  }})),
  registerCommand(
    "sdk-ping",
    defineCommand({{
      description: "Send a typed sdk ping message",
      handler: async (args: string, ctx) => {{
        const suffix = args.trim() ? `: ${{args.trim()}}` : "";
        ctx.ui.notify?.(`sdk-ping${{suffix}}`, "info");
      }},
    }}),
  ),
);

export default {extension_symbol};
"#
    )
}

#[test]
fn opencode_scaffold_has_three_files() {
    let files = render_opencode_minimal(&options(Target::OpenCode, "My Cool Plugin", "out"));
    assert_eq!(files.len(), 3);
    assert_eq!(files[0].relative_path, "package.json");
    assert_eq!(files[0].contents, expected_package_json("my-cool-plugin", "file:../plugin-sdk"));
    assert_eq!(files[1].relative_path, ".opencode/package.json");
    assert_eq!(files[1].contents, expected_opencode_deps("file:../plugin-sdk"));
    assert_eq!(files[2].relative_path, ".opencode/plugins/my-cool-plugin.ts");
    assert_eq!(files[2].contents, expected_opencode_plugin("MyCoolPlugin", "my-cool-plugin"));
}

#[test]
fn pi_scaffold_has_two_files() {
    let files = render_pi_minimal(&options(Target::Pi, "sdk demo", "out"));
    assert_eq!(files.len(), 2);
    assert_eq!(files[0].relative_path, "package.json");
    assert_eq!(files[0].contents, expected_package_json("sdk-demo", "file:../plugin-sdk"));
    assert_eq!(files[1].relative_path, ".pi/extensions/sdk-demo.ts");
    assert_eq!(files[1].contents, expected_pi_extension("SdkDemo"));
}

#[test]
fn render_dispatches_on_target() {
    let oc = render(&options(Target::OpenCode, "x", "out")).unwrap();
    assert_eq!(oc.len(), 3);
    let pi = render(&options(Target::Pi, "x", "out")).unwrap();
    assert_eq!(pi.len(), 2);
    assert_eq!(pi[1].relative_path, ".pi/extensions/x.ts");
}

#[test]
fn sdk_dependency_is_written_into_package_json() {
    let mut o = options(Target::Pi, "p", "out");
    o.sdk_dependency = "file:/abs/plugin-sdk".to_string();
    let files = render(&o).unwrap();
    assert!(files[0].contents.contains("\"@amaan/plugin-sdk\": \"file:/abs/plugin-sdk\""));
}

#[test]
fn plan_places_files_under_output_dir() {
    let plan = plan_generate(&options(Target::OpenCode, "demo", "/tmp/out")).unwrap();
    assert_eq!(
        plan.paths,
        vec![
            "/tmp/out/package.json".to_string(),
            "/tmp/out/.opencode/package.json".to_string(),
            "/tmp/out/.opencode/plugins/demo.ts".to_string(),
        ]
    );
    assert_eq!(plan.files.len(), 3);
}

#[test]
fn plan_does_not_double_the_separator() {
    let plan = plan_generate(&options(Target::Pi, "demo", "out/")).unwrap();
    assert_eq!(plan.paths, vec!["out/package.json".to_string(), "out/.pi/extensions/demo.ts".to_string()]);
    let plan = plan_generate(&options(Target::Pi, "demo", "")).unwrap();
    assert_eq!(plan.paths, vec!["package.json".to_string(), ".pi/extensions/demo.ts".to_string()]);
}
