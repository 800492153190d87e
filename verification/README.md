# ucg

A verified core of UCG, a configuration language: the tokenizer and the
grammar that turn source text into the syntax tree, and the rules by which the build stage binds, looks up, combines, compares,
selects, copies and converts values. Each function states its behaviour in
`requires` / `ensures` contracts that Verus proves.

## Layout

- `src/ast.rs` — positions, tokens and the syntax tree, with the text that
  shows a value, an expression or a selector.
- `src/parse/` — parse results and errors; `lexer.rs`, the tokenizer, stated
  by `tokens_of` over the characters of the text; `grammar.rs`, the grammar of
  statements and expressions over tokens, stated by `statements_of` over the
  syntax model of `syntax.rs` (the tree with sequences in place of vectors);
  `precedence.rs`, the precedence
  parser for operator expressions (comparisons bind loosest, then sums, then
  products) and the operand list that feeds it; `selector.rs`, selector paths
  over tokens; `numbers.rs`, number literals read as integers or floats;
  `nodes.rs`, the tree nodes built from what the grammar matched.
- `src/build/` — the builder state and its bindings (`mod.rs`), values and
  deep equality (`ir.rs`), the binary operators (`ops.rs`), selector lookups
  (`lookup.rs`), tuple copies (`copy.rs`), and the decisions that follow the
  evaluation of sub-expressions: selects, list operations, macro arguments,
  assertions, outputs and imports (`eval.rs`).
- `src/symbols.rs` — validation of macros: a body may refer only to the arguments.
- `src/convert/toml.rs` — conversion of values into TOML values.
- `app/` — the driver around the library: it parses source text with the
  library's `parse_text`, walks whole expressions and
  statements, reads files and follows imports, reads the environment, does
  float arithmetic, and writes TOML text with the `toml` crate.

The laws of the library (what a let binding reads back, that bindings and
outputs are final, how operators bind, how copies keep their base, how
comparisons and equality relate, what list operations yield, how assertion
results accumulate) are public proof functions named `law_*`.
