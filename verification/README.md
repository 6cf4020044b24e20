# tn_typecheck

Checks of resolved TypeNative programs, and the control-flow graphs that their bodies are lowered
to, written in Rust and proved with Verus.

TypeNative has affine ownership, checked borrowing and typed errors. This library is the part of
its compiler that comes behind name resolution and type inference and before code generation.

## What it does

| Module          | What it holds                                                                   |
| --------------- | ------------------------------------------------------------------------------- |
| `hir`, `names`, `syntax` | the resolved program: tokens, types, declarations, definitions, checked bodies |
| `mir`           | the control-flow graph: locals, blocks, statements, terminators                  |
| `program`       | lookups in a program                                                             |
| `diagnostics`   | what can be found, where, and in which words it is reported                      |
| `source_rules`  | rules on names, attributes, initializers, C signatures, and moves of names        |
| `signatures`    | rules on types, generics, overrides, interfaces, constructors, markers            |
| `lowering`      | from a checked body and its tokens to a graph                                     |
| `ownership`     | facts about types; moves, loans, returned references and suspensions in a graph   |

The entry points are `check_source_rules`, `check_signatures`, `derive_ownership_facts`,
`lower_mir`, `check_ownership`, `check_capture_requirements` and `check_static_requirements`.

Parsing, name resolution and inference come before this library. A module brings its tokens
without white space and comments, the place of its path among file names (`path_place`) and the
part that its path gives it (`role_of`); a template brings the tokens of what is put into it; a
floating point literal brings its bits. The structural validation of a graph comes before the check of its
ownership, which takes the errors that the validation reported, and analyses the graph only where
there are none.

## What is proved

Every function says exactly what it returns. Beyond that:

* Where the analysis of a graph finds nothing, no way through the graph uses what it has moved,
  breaks a loan, or waits while its own storage is borrowed (`ownership::soundness`). A loan lasts
  up to the last mention of the local that holds it, in the order in which the blocks stand; a use
  that a loop comes back to, and that stands earlier, is not covered. Of references that are
  returned, the first known loan decides.
* The analysis ends. What it reports is sorted by file, place and text (`ownership::ordering`), and
  no two neighbours say the same.
* Every graph that lowering makes names only blocks, locals and closures of its own
  (`lowering::shape`), and the graphs come in the order of their declarations.
* Parentheses around an expression change nothing, and a switch and a handler of errors lead to
  the first arm or clause that fits (`lowering::grouping`, `lowering::targets`).
* Integers that are written are read back, and what is inferred from a type in which parameters
  were replaced replaces them in the same way (`lowering::numerals`, `lowering::inference`).
* The table of a class holds the slots of the class that it extends, with its own overrides, and
  then its new methods in their order (`lowering::laws`).
* In a program whose signatures are accepted, overrides and implementations can stand for what
  they override and implement, copied types are plain, numbers of variants are distinct, and
  constructors set every field (`signatures::laws`).
* The derived facts about sending and sharing are the largest consistent ones.

A check only adds to the reports before it (`appending`); the laws about accepted programs rest on
that.

Two functions of the standard library are taken at their word: `String::push` and
`char::from_u32`.
