# simplesl

The types, values and checks of SimpleSL, a small scripting language, written
in Verus with their contracts proved.

- `src/variable`: types (`var_type`), their text (`type_text`) and parser
  (`type_parse`), the round trip between the two (`type_round_trip`), values
  (`value`) and string literals (`literal`).
- `src/instruction`: the type checks and the evaluation of the operators:
  indexing (`at`), `+`, `|`, `~`, `^`, `>>`, array literals, `[value; len]`,
  and the array operators `?`, `@`, `$` and `?type` (`array_ops`).
- `src/interpreter`: running scripts. `script` parses a text into trees,
  `reader` checks them and turns them into instructions (or names why a
  script is refused), `statement` keeps a statement with its text, `eval`
  states what running an instruction does, `arith` the integer operators,
  `exec` runs it (`BinOperation::exec` for the operators, `?` and `@` calling
  a function on each element in order), `recreate` makes a function literal
  capture the values it reads and folds what is then known, and `code` runs
  a whole script.

Scripts may hold integer, string, `true`/`false` and array literals
(`[value; len]` too), function literals `(x: int) -> int { ... }` that may
call themselves through the name they are assigned to, calls, indexing,
`name = value`, `if ... { } else { }`, `loop`, `break`, `continue`, the
operators `|| && == != < <= > >= | ^ & << >> + - * / % ** ? @`, and `//`
and `/* */` comments.
- `src/function`: parameters, function values, native functions and the
  check of call arguments.
- `src/errors`: the error types and their messages.
- `app/`: what computes with floating-point numbers, kept outside the
  verified library.

Laws proved about the library include: matching of types is reflexive and
transitive, a union is the least type that both operands match, a canonical
type reads back from its text, the value that each operation computes has
a type that matches the type its check gives it, a function literal captures
by value the variables it reads, statements and arguments run in order, a
`break` or `continue` outside a loop is refused, `@` gives as many results
as the array has elements, folding an array or an operation of known values
keeps what it gives, and a run that finishes with some fuel (the bound on
nested calls and rounds of loops) finishes the same way with more.
