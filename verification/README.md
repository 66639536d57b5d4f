# minifier_pure

The statement passes of a JavaScript minifier's pure optimizer, verified
with Verus: pruning `if` branches whose test has a known truth value,
removing statements that can never run, inlining blocks that scope nothing,
rewriting a trailing `return void x;`, and dropping `debugger` statements,
together with the state and traversal context of the optimizer.

- `src/ast.rs` — the statement tree the passes work on; expressions and
  statement kinds the passes do not look into stay the parser's nodes.
- `src/ctx.rs` — options, expression-evaluation settings, and the context
  carried down the tree.
- `src/eval.rs` — which expressions may be evaluated, and their truth
  values, computed by `swc_ecma_utils`.
- `src/dead_code.rs` — the list passes and what they compute.
- `src/pure.rs` — the optimizer's state and what its visitor does after a
  node's children are visited.
- `src/laws.rs` — properties that hold for every input: each pass reports a
  change exactly when it makes one, removing unreachable code twice changes
  nothing more, declarations survive, no empty or `debugger` statement is
  left.
- `app/lib.rs` — the visitor over the parser's tree (`swc_ecma_visit`),
  parallel visits (`rayon`), and conversion between the parser's statements
  and the library's.
