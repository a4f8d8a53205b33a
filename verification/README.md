# RouteScope

RouteScope watches the traffic of a Linux router: which devices use how much, with whom, and under
which domain names. It collects flows from the kernel, gives them the names that clients asked for,
keeps them in SQLite and shows them on management pages and over a JSON API.

`src/` is the library. Everything it decides is proved with Verus against the contracts of its
functions. `app/` is the program around it: sockets, the kernel, the database, the HTTP server.

## What is where

| Modules | What they do |
| --- | --- |
| `domain`, `addr`, `text`, `num`, `table` | Flows, devices, addresses, strings, numbers, a keyed table |
| `collector`, `tc_ebpf`, `simulator`, `conntrack` | Batches of flows, where they come from, translations and states from the connection table |
| `dns`, `dns_message`, `dns_proxy`, `dns_laws` | What clients asked for, and which flows that names |
| `storage`, `ledger`, `storage_laws`, `ledger_laws`, `tally_laws`, `deletion_laws` | Which changes storing, naming and deleting call for, what they do to a database, and what always holds of it |
| `sql`, `sqlite`, `schema`, `session`, `repository` | The commands that carry out the changes, and what is made of the answers |
| `trace`, `trace_laws`, `replay_laws`, `growth_laws`, `backfill_laws`, `count_laws`, `account_laws` | What the record of a session holds after each operation, and what that leaves in a database |
| `service`, `paging`, `paging_laws` | Questions about devices, and pages of flows |
| `auth`, `auth_laws`, `login`, `crypto` | The administrator's account, sessions, logins |
| `api`, `web`, `pages`, `format` | What requests are answered, and what pages show |
| `state`, `cycle`, `config` | Health, one round of collecting, settings |

## What is taken on trust

`crypto` and `dns_message` hand their arguments to the crates sha2, base64, argon2 and
hickory-proto, and state what those promise of the result. `text` states what `String::push` does.
Nothing else is assumed. The database is reached through the trait `SqlDriver`, of which nothing is
assumed.

`repository` reaches the database through a `session`, which keeps a record of the commands and of
the questions on which they rest, with their answers. The contract of each operation that changes
something says what the record holds afterwards: which questions and commands, in which order, and
nothing besides, also where the operation fails. Those of the operations that only read say to which
question their result is an answer, and what is made of it. What SQLite does with a command is not part of any contract. `trace_laws` shows what follows
from the record whatever the commands do: a transaction that fails leaves nothing behind.
The laws beside it show what follows if each command does what `ledger` says of its change, and if
questions and counts are answered truly; each of them names these as conditions.
