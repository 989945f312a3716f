# checkc

Checks how well a container is isolated from its host. Data about the
container is gathered on the host and inside the container, evaluated into
categories of isolation mechanisms (namespaces, root directory, cgroups,
capabilities, device access, flag files written on mount points), and the
evaluation is assessed against four security goals.

Layout:

- `src/` – the library, verified with Verus: parsing of `/proc` files
  (`process`, `c_config`), the evaluation (`evaluation`), the capability
  table (`config`), the assessment (`assessment`) and text helpers (`text`).
  Public proof functions named `law_*` state properties that hold across
  functions.
- `app/` – the command line program: it reads `/proc`, `/sys` and `/dev`,
  makes the system calls, writes and reads the JSON reports, and hands plain
  values to the library.
- `tests/` – tests of the library on concrete values.
