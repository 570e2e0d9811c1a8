# nexus

A sandbox for WebAssembly tools that agents call: every run is captured, judged,
and rolled back where it fails, and can be attested by a signed capsule.

`src/` is the library. Everything in it is verified with Verus: each function
states what it returns, and the laws that span functions stand beside them as
proof functions named `lemma_*`.

| Module | What it decides |
| --- | --- |
| `text`, `paths`, `env`, `ids`, `json`, `constant_time` | the vocabulary of the rest |
| `error`, `security` | errors and capabilities |
| `profile` | capability profiles: grammar and validation |
| `attestation` | digests, redaction, canonical bytes, signatures, scorecards |
| `hypervisor` | failures, executions, retries, races, snapshots, recovery, attested runs |
| `instinct` | what was learnt from failures |
| `aeon` | memory recall, evidence, and the timeline with its spool |
| `daemon` | framing, authentication, and the pool of the daemon |
| `mcp` | the tools of the MCP server, their tokens, tenants and limits |
| `session` | the command line's session and its reports |

Calls into other crates stand behind small functions marked `external_body`, each
with a contract and a comment that says what is taken on trust.

`app/` is the program around the library: argument handling, the engine, files,
sockets and HTTP. `tests/` runs the library on concrete values.
