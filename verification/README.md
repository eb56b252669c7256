# stoat_policy

The rules of a chat platform that are worth proving: who may claim and confirm a Discord
account, how consent is recorded and read back, what an erasure removes and what it spares, how
reports are filed, which links are previewed and how copies of their images are kept, how the
push daemon reconnects, and what counts against which rate limit.

- `src/` is the library. Every function states in its contract what it returns or changes, and
  the laws that span functions stand beside them as `law_…` proof functions.
- `tests/` runs the library on concrete values.
- `app/` is ordinary Rust around it: the database, the message broker, the routes, the daemons.

What touches the outside is split into steps: a value says what is to be done next, the service
does it, and `advance` takes up what came of it. The routes on claims and consent work on any
store that keeps the traits' contracts; `ReferenceDb` keeps them in memory.

Calls into other crates stand behind small wrappers whose contracts are stated in their doc
comments: `clock`, `ids`, `digest`, `url`, `embeds`, `reports` and `text` hold them.
