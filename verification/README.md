# guigu-agent-bridge

A bridge that takes tasks from chat rooms and from other bridges, hands them to coding
agents that run as local processes or as peers on the same network, and tells everyone
concerned how they went.

- `src/` is the library: what the bridge decides. Every function in it carries a contract
  that Verus proves. It starts no process and opens no socket. It reads the clock
  only where it draws an identifier; every other instant, and whatever else it needs of
  the outside world, it takes as a value, and answers with what to do next.
- `app/` performs what the library decides: processes, HTTP, the database, timers.
- `tests/` runs the library on concrete values.

## Layout of the library

| module | what it decides |
|--------|-----------------|
| `text`, `path`, `time`, `ids`, `net`, `json`, `models`, `config`, `storage` | the values that everything else speaks of |
| `bus::registry` | which endpoints exist, and which may be given a task |
| `bus::memory`, `bus::channel` | how a task and its first event enter the queue |
| `bus::control` | why a task is to stop, and how long that is remembered |
| `bus::worker` | which task is next |
| `bus::transition` | what happens to one task, from the queue to its only terminal event |
| `bus::history` | what every history of a task looks like |
| `bus::fanout` | who is told of an event |
| `agents::mock` | a scripted agent |
| `acp::framing`, `acp::jsonrpc`, `acp::schema`, `acp::result` | the messages of the agent protocol |
| `acp::transport` | which request an answer belongs to, and what ends a request |
| `acp::client`, `acp::connection`, `acp::session`, `acp::dispatcher`, `acp::turn` | handshakes, sessions, deliveries and turns |
| `a2a` | exchanges with peers: whom to trust, what to send, store, answer and clean |
| `app` | admission, recovery, retries, the outbox, health, reloading, starting and stopping |

## How a part is written

A part that works with the outside world is a state machine: `begin` gives the first
action, the application performs it, and `step` takes what came of it and gives the next.
`expects` says whether an input answers the last action. A `*_next` specification says
what each step does, and the `law_*` proof functions say what holds of every run.

What the library takes from other crates on trust stands behind functions marked
`external_body`, each with a comment that names the outside function: JSON text
(`serde_json`), UUIDs (`uuid`), SHA-256 (`sha2`), URLs (`url`), instants (`chrono`) and
channels (`tokio`).
