# cool_compiler

Verified building blocks of the Cool compiler.

- `src/` — the library, verified with Verus:
  - `arena`: interning arena (each distinct value stored once, named by a
    dense index), with string and slice interning;
  - `index`, `id_indexed_vec`: strongly typed indexes and a vector indexed
    by ids that count from one;
  - `small_vec_map`, `small_vec_set`, `small_string`: small collections kept
    in insertion order, and a string kept as its UTF-8 bytes;
  - `hash_map_ext`: insertion into a `HashMap` that never replaces;
  - `generated_tys`: the backend type of every type of a program, each
    lowered once and remembered, with the signatures of function types and
    the field maps of aggregates and structs;
  - `lowering`, `ty_lowering`, `mangle`, `defers`, `fn_state`, `value`: the
    decisions and the bookkeeping of the code generator — which instruction
    an operator, cast or assignment lowers to, how types lower, which symbol
    name an item gets, which deferred statements run when control leaves
    nested frames, the stack of functions and loops being generated, and the
    values that expressions yield;
  - `eq_search`, `text`: searching by `==` and comparing strings by bytes.
- `tests/`: tests of the library.
- `app/`: formatting and serde support for the library's types.

## What the library leaves to its callers

- The compiler's code generator emits LLVM IR through `inkwell`, over the
  syntax trees and the resolver of the compiler's own front-end crates. None
  of that emission is here: this library holds the decisions the generator
  takes (which instruction, which backend type, which slot, which deferred
  statements, which loop a `break` leaves) as functions over plain values,
  and a caller that owns a backend turns each decision into IR. Backend
  handles (functions, blocks, values, types) appear only as type
  parameters.
- The small collections (`SmallVecMap`, `SmallVecSet`, `SmallString`) hold
  a `Vec` where a `smallvec::SmallVec` would keep the first few items
  inline. Their contents are what the contracts speak of, and those
  contracts would have to rest on a name for the contents of a
  `SmallVec<A>`, which is generic over its array type; a name for what an
  outside collection holds cannot be generic here, and `SmallVec` itself
  cannot be declared to the verifier with its `smallvec::Array` bound.
  Behaviour is the same; only the inline storage is gone.
- `Arena` keeps its values in a `Vec` and finds a value by a linear search
  for an equal one, keeping the stored values distinct as an invariant. A
  hash index over the stored values, keyed by their addresses in a bump
  allocator, needs raw pointers and a bump allocator, neither of which the
  library uses; the indexes handed out and the values they name are the
  same.
