# Miller

A local coding agent. A model writes code for a task; the agent takes the code out of the
answer, refuses what is not safe, writes it into a project or onto a scratchpad, has it
compiled and run in a container, and asks for repairs until the code works or the attempts
are used up. The functions and structs of the project are kept in a vector database, from
which the prompts take their context.

- `src/` is the library: what the agent decides and computes, with contracts that Verus
  proves. Each module ends with the laws that hold of it, as public proof functions.
- `app/` is the program around it: files, containers, HTTP, the terminal.
- `tests/` runs the library on concrete values, with the outside crates linked.

What the library takes from elsewhere without proof stands behind functions marked
`#[verifier::external_body]`, each with the contract that is believed of it: the system
clock (`clock`), the decoding of bytes (`sandbox`), letter case (`logger`, `session`),
regular expressions (`security`), SHA-256 (`scanner`), the Rust grammar (`ast_graph`), and
`String::push` (`text`).
