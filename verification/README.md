# plugin_scaffold

A verified library behind a small command-line tool that scaffolds plugins for
coding agents (OpenCode plugins and PI extensions).

- `src/commands.rs`: reading the command line, the options of a direct run,
  the install directories, the SDK dependency and the printed result lines.
- `src/generator.rs`: targets, templates, options, and the plan of a
  generation (where each file lands, which existing file blocks it).
- `src/templates.rs`: the template texts and the kebab-case and PascalCase
  identifiers they are filled with.
- `src/tui.rs`: the wizard as a state machine driven by key presses.
- `src/text.rs`: character-level helpers (trim, suffix, equality, path join).
- `app/`: the program itself: argument reading, file writing, `npm install`
  and the terminal user interface.
