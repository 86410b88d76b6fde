# daydream_memory

Long-term memory and daydreaming for role-playing characters, written in Rust and verified with
Verus.

- `src/` is the verified library. It decides: how a role's name becomes a file name, which records
  lie nearest to a time, when a memory settles, how recalled memories read, how a daydream goes
  from the latest dialogue over a monologue to insights, and how the `idle` tool runs.
- `app/` is ordinary Rust around it: the memory databases, the language models, the tool's place in
  the application.
- `tests/` runs the library.

Where a decision hangs on the outside, the library hands out an action and takes an event back.
`daydream`, `idle` and `opening` are built that way, and each is proved to come to an end.

Floating-point numbers do not enter the library. An importance or a number of days is held as the
bits of a double, a weight in hundredths, a confidence as the text it is shown as.
