# dalvik_vm

A machine for Dalvik bytecode with a small framework around it: enough of the Android and libGDX
classes to run a simple game. The library is verified with Verus; it computes everything that can
be computed from plain values, floating-point arithmetic included, which it does on bits.

What only the program around it can do, the machine asks for (`host::Query`) or tells it to do
(`host::Effect`): clocks, trigonometry, the texts of floating-point numbers, assets, views and
drawing. A request runs until it is done or until the machine asks; `Vm::resume` goes on with
the answer.

- `src/text.rs`, `float.rs`, `arith.rs`, `ops.rs`, `convert.rs`, `color.rs`, `table.rs`: texts,
  numbers and tables.
- `src/value.rs`, `error.rs`, `spelling.rs`, `dex.rs`, `code.rs`, `world.rs`, `host.rs`: values
  and objects, messages and how they read, programs, registers, the state of the framework, and
  what passes between the machine and its surroundings.
- `src/interp/`: the instructions.
- `src/framework/`, `src/gdx/`: the classes of the framework and of the game library.
- `src/frames.rs`, `machine.rs`, `run.rs`, `vm.rs`, `search.rs`: the stack of calls, one step of
  the machine, running it, and what callers can ask of it.
- `src/laws/`: what holds of the machine as a whole.
- `app/`: a host that answers the questions and hands the rest to an implementation of
  `Surroundings`.
