# abr_infinity_fabric

The Infinity Fabric interconnect of an eight-module accelerator platform,
declared as a directed relational graph, with the models derived from it:
the bandwidth field and its A operator, the community workload graph, the
partition of that workload over the modules and its admissibility
conditions, the throughput invariants, the convergence test that chains
them, the fabric read-beat simulation of three dependency classes, the
traversal-count scaling correspondence, and the pointer-chase kernels of
the dependency-class timing benchmark.

Every function in `src/` is verified with Verus against a contract stated
over mathematical models. Bandwidths are whole megabytes per second and
ratios are exact fractions or thousandths. The throughput rates are rounded
to the nearest whole number, and the reports round fractions to a fixed
number of decimals, an exact half to the even digit; the table's reduction
factor is rendered as double-precision division of its two beat counts
gives it, computed with integers. Each contract states where it rounds.

Layout:

- `src/`: the verified library, one module per model; `text.rs` renders
  integers and exact fractions as decimal text for the reports.
- `tests/`: tests of the library on concrete values.
- `app/`: the command-line program: prints the simulation table and the
  reports, and times the benchmark kernels (`bench_dependency_classes.rs`).
