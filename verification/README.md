# astrid-capsule

The runtime of Astrid capsules: WebAssembly components that declare in a
manifest what they need, and get no more than that.

`src/` is the decision core, verified with Verus. It performs no I/O. Each
operation that needs the outside is a course of steps: the library says what to
do next, the caller does it and hands back what happened.

- `capabilities`, `manifest`, `discovery`: manifests, which are acceptable, and
  which of several wins.
- `security`: the security gate over a manifest's capabilities.
- `prescan`, `load`, `loading`: from a binary on disk to a plan for its
  instances. Only a binary whose BLAKE3 hash was recorded is planned.
- `budget`, `invoke`: who may call, how often, and what a call is charged.
- `host_state`, `principal_home`, `logs`, `calendar`: what an instance knows of
  the principal it serves, and where that principal's files are. Paths are Unix
  paths.
- `net`: sockets, their number and their audit records.
- `engine`, `lifecycle`, `tool_discovery`, `onboarding`: the rest of a capsule's
  life.
- `foreign`: the calls into other crates, with what is relied on of each.

`app/` is ordinary Rust around it: files, sockets, WebAssembly execution, and
the interfaces to the kernel's services. `tests/` runs the library from outside.
