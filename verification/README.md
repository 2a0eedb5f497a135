# gear_git

State logic of a git hosting service built from on-chain programs, with
proved contracts:

- `src/keys.rs`: 256-bit actor and code identifiers, the orders of map keys
  (identifiers, `u32`, strings by code point).
- `src/sorted_map.rs`: an ordered map kept as a strictly increasing list.
- `src/master.rs`, `src/master_smart.rs`: the two registries of users.
- `src/user.rs`: a user's program and its repository programs.
- `src/repos.rs`: a user's repository registry with collaborators.
- `src/repo.rs`: a repository program with branches and commits.

Each program's request handler decides: it returns the reply, the refusal, or
the runtime action to perform (create a program) together with the function
that completes the request. `app/` is the runtime glue: decoding messages,
the sender, random bytes, block time, program creation, replies and the
encodable copies of the types.
