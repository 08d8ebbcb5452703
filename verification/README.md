# mmtk

Memory management by reference counting and tracing, verified with Verus: the spaces of the LXR
collector, the processing of soft, weak and phantom references, the triggers of collections, and the
allocators of a mutator. Each function states in its contract what it returns and changes.

- `src/policy/lxr`: the immix space and the large object space of LXR, the operations on their
  blocks, and the laws that hold of them. `src/policy/immix` and `src/policy/largeobjectspace.rs`
  are the plain spaces that these are built on.
- `src/util/reference_*.rs`: references, in the order model, processor, processors, work packets and
  laws.
- `src/util/heap/gc_trigger.rs`: when to collect, and how large the heap may be.
- `src/util/rounding.rs`: quotients in single precision, reckoned with integers.
- `src/util/metadata`: tables beside the heap, and the numbers in them.
- `src/util/allocation`, `src/plan/lxr`, `src/memory_manager.rs`: allocation for a mutator.
- `src/macros`: how a plan traces an object, by the marks of its fields.
- `src/util/test_util`: a small virtual machine and fixtures for tests.
- `app`: clocks, counters, floating-point estimates, sharing between threads, rendering of code.

The library describes what one thread does to the state of the collector: where threads share state,
the callers take turns (`app/fixtures.rs` shows how).

What is taken on trust are the calls into other crates: `atomic::Atomic` in
`src/util/heap/gc_trigger.rs`, `enum_map::EnumMap` in `src/util/allocation/allocators.rs`, and the
lexer of `proc_macro2` and the parser of `syn` in `src/macros/derive_input.rs`.
