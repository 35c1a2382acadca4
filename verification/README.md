# akkhara

Akkhara is a programming language whose keywords, syntax and error messages
are in Myanmar; `akk` runs its programs and manages the installation.

This crate is verified with Verus.

- `src/` is the verified library: the lexer (Myanmar and ASCII digits, keyword
  suffixes fused onto words, line numbers), the parser (statements ending at
  `။` outside brackets and blocks, expressions, conditions, if/while/for,
  functions, classes and the "စမ်းရန်" try/catch statement), how each
  statement runs as a sequence of steps (`exec::exec_step`: which branch
  runs, when a loop stops, which calls, classes and field assignments are
  refused, where a math assignment starts, what a catch clause catches and
  that the finally part always runs), string-literal placeholders, the run-time messages
  and checks that need no fractional numbers, the "request" library's URL
  checks and reply handling, reading flat JSON, and the decisions of the
  command line and its prompts. Each public function states its result in
  its `ensures`; the `law_*` proof functions state what holds across calls
  or of all inputs (token lines in order, numerals in ASCII, statements that
  tile the tokens, parse errors that name their line, and more).
- `app/` is the `akk` program around it: reading files, the network, the
  terminal, and the evaluation of expressions and for-loop ranges, whose
  values hold `f64` numbers; it performs the actions that `exec_step` asks
  for.
- `tests/` runs the library on concrete programs and values.
