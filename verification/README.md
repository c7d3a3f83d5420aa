# algosketch

Turns Python, Java, C++ and Go source code into CLRS-style pseudocode and a
step-by-step explanation in English or Chinese.

The library under `src/` is written in Verus and proved against its
contracts:

- `syntax` holds a plain copy of a tree-sitter syntax tree; the calls into
  tree-sitter are the only trusted code of the parsers.
- `parser/` maps each language's tree onto one shared IR (`ir`). What each
  adapter produces is stated as spec functions over syntax trees; the raw
  fallbacks are recorded in `diagnostics`, and the library proves that the
  diagnostics of a parse account for every raw fragment of the module.
- `renderer/` renders the IR as pseudocode and as explanation text, both
  stated exactly over the IR and independent of the source language.
- `cli` holds the decisions of the command line (locale, language choice,
  which outputs, how sections are joined, the raw-fallback warning).

`app/main.rs` is the command-line program: argument parsing, reading files
and standard input, printing, and exit codes. `tests/` exercises the library
on concrete programs.
