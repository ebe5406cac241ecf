# Conduit

SSH over MCP. A model works on remote servers through MCP tools and never gets hold
of a credential: it sees opaque session, job and upload identifiers only.

The library under `src/` holds the rules, each stated in a contract that Verus
proves: who may use which session, how a chain of jump hosts is walked and connected,
what a command's output is captured into, which commands are blocked or come too
soon, what is put on record, how credentials are stored, and when sessions, jobs and
uploads end. It does no I/O. Where something has to be awaited, it hands out an
action and takes the outcome back.

| Module | What it holds |
|--------|---------------|
| `text`, `error`, `models`, `params`, `ports` | texts, errors and the records that pass between the parts |
| `clock`, `ids`, `crypto`, `sshkey` | time, identifiers, stored secrets, SSH credentials |
| `policy`, `ratelimit`, `service`, `store` | command blacklist, request rates, bearer tokens, rows and statements of the database |
| `session`, `job`, `registry`, `ingest`, `state` | SSH sessions, background jobs, staged uploads, and what is kept between calls |
| `tools`, `channel`, `commands`, `files`, `audit`, `admin` | the MCP tools, the audit trail and its display |

Laws that span several functions are public proof functions whose names begin with
`law_`.

`app/` is the program around the library: the HTTP surface, SSH connections, SQLite,
and the command line.

    conduit genkey
    conduit --db ./conduit.db serve
    conduit --db ./conduit.db audit query --limit 20
