# collector

The compile-time benchmark collector: which benchmarks to run, which cargo
invocations build and measure them, and how their output is read, with the
register accessors of the STM32F4 peripheral benchmark crate.

- `src/` is the library, verified with Verus. Its functions state their
  results over mathematical models (`Seq`, `Set`, views of the library's
  types); proof functions state the laws that span several functions
  (selection, sorting, planning, register writes and reads).
  - `text`: string operations with exact contracts (white space, splitting,
    decimal numbers).
  - `sorting`: stable insertion sort as a specification, with its laws.
  - `selector`: recorded test cases and the set of those already computed.
  - `compile::benchmark`: benchmark configuration, selection by name
    (`select`), and the plan of a measurement.
  - `compile::execute`: the cargo invocations of a build, the tools that
    measure it, and the classification of what it prints (`stat_output`).
  - `stm32f4`: generic register readers and writers, and the registers of
    the peripheral benchmark.
- `app/` is the driver around the library: reading the benchmark
  directory and configuration files, running the planned commands,
  floating-point statistics, and self-profile data.
- `tests/` runs the library on concrete inputs.
