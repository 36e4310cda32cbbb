# Aura

The core of a statically typed, object-oriented language and its runtime, written
and verified in Verus.

- `src/typer/` is the type checker: it works on a syntax tree, gathers the
  declarations, checks every class and reports every error that it finds, with
  suggestions for misspelled names.
- `src/vm/` is the virtual machine: values, a generational heap with a collector,
  the operations, native functions, exceptions, the interpreter, and what a
  debugger may look at. `vm/safety.rs` shows that no reference ever dangles.
- `src/jit/` is the compiler to x86-64 machine code: control flow graph, types of
  stack slots, lowering to an intermediate form, optimization, register
  allocation, instruction selection and encoding. `jit/simulate.rs`,
  `jit/blocks.rs`, `jit/methods.rs` and `jit/whole.rs` show that lowered methods
  do what the interpreter does, `jit/preserve.rs` and `jit/sweep.rs` that they
  still do after optimization, `jit/heights.rs` that the stack heights agree
  where blocks meet, `jit/coexist.rs` that register allocation loses no value.
  `jit/folding.rs` relates constants to the interpreter. `jit/typed.rs` shows that
  lowered code computes on operands of known types. `jit/assembly.rs` states what
  holds of every sequence of calls of the assembler. `jit/meaning.rs` and
  `jit/decide.rs` say what short instruction sequences compute; `jit/processor.rs`,
  `jit/inline.rs`, `jit/plain.rs` and `jit/insns.rs` what the code of one
  instruction does on the processor and what it leaves alone, `jit/runs.rs` what
  the code of consecutive instructions that compute in place does, and
  `jit/edges.rs` what moves, jumps, tests and returns do. Calls of helpers, and the
  code of a function as a whole, are not covered by these.
- `src/bytecode.rs`, `src/natives.rs`, `src/arith.rs` and `src/text.rs` are shared.

The library computes; it performs no input or output and no float arithmetic.
Where a result depends on either, it hands out a question and goes on when the
answer is there. `app/` answers the questions, drives the machine, and puts
machine code into executable memory.

Floats are held by their bits. Maps whose order matters to a reader (declarations,
members, entries of a dictionary) are lists in the order in which their keys came.
