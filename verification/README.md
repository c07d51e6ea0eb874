# mahakala

The Mahakala agent: an AI assistant that talks with a language model, runs tools for
it, and keeps users, roles, audit logs, skills, plugins, schedules, workspaces and
memories.

- `src/` is the library, written in Verus: each operation carries a contract over a
  mathematical model of its data (maps, sequences, text as sequences of characters),
  and Verus proves the code meets it. Calls into outside crates (serde_json, regex,
  evalexpr, qrcode, resvg, image, sha2, uuid, chrono) sit behind small trusted
  functions whose contracts name what the crate computes.
- `tests/` runs the library on concrete values.
- `app/` is the program around the library: settings files, logging, HTTP requests to
  the model, the tools that touch the world, the SQLite stores, and the models whose
  numbers are floating-point (user modelling, semantic search, reinforcement-learning
  environments and trajectories). It offers a console session: lines starting with `/`
  are commands, other lines go to the agent.
