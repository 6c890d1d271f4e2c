# pascal_s

A front end for Pascal-S with Indonesian keywords, written in Verus. The
library in `src/` is verified. `app/` is the command-line program around it:
it reads the source file and the DFA configuration (JSON, through serde),
then runs the pipeline and prints the results.

## Layout

- `src/lexer`: the DFA, with an exact spec of the run and of longest-match
  acceptance, and a lexer whose token list is stated step by step. The list
  ends with exactly one `Eof`.
- `src/parser`: `grammar.rs` states each syntactic category as a spec
  function over the token sequence. The recursive-descent readers give
  exactly those results, and `tree_printer.rs` gives the tree-style text of
  a parse tree.
- `src/semantic_analyzer`: the symbol tables (`tab.rs`, with the scope
  laws), the abstract syntax tree and its builder (stated by `bd_program`),
  the analyzer (stated by `check_program`), the tree-style text of the
  annotated tree (`ast/ast_printer.rs`, stated by `at_program`), and the
  table dump (`dump.rs`). A real literal is shown as it was written.

## Trusted

Everything else is proved. The trusted items are in `src/text.rs`, and
each makes one call into std:

- `is_alphabetic` (`char::is_alphabetic`), named by `alphabetic_char`; an
  ASCII character is alphabetic exactly when it is a letter.
- `to_lowercase` (`str::to_lowercase`), named by `lowercase_of`; ASCII text
  is lower-cased letter by letter.
- `push_char` (`String::push`).
- `parse_i32` (`str::parse::<i32>`), stated by `i32_of`.
- `trim_matches_char` (`str::trim_matches` with a character), stated by
  `trim_char`.
