# ghcache

A cache of GitHub data in SQLite. Pull requests, reviews, labels, status checks, branches,
events and notifications are fetched through the `gh` command and written to a local
database; tools read the database and never wait for the network. A log of changes tells
readers what is new.

The library under `src/` holds everything that decides or computes, and is verified with
[Verus](https://github.com/verus-lang/verus). It performs no input or output: it names SQL
statements, commands and HTTP texts, and says what is done with what comes back. Long
operations are machines that ask for one action at a time.

| Module | What it holds |
|--------|---------------|
| `text`, `number`, `json`, `time` | texts, numbers, JSON values and points in time |
| `sql`, `db` | statements, rows, the schema, and the statements on the cache's own tables |
| `gh` | requests to GitHub and the answers to them |
| `sync` | a run of the sync: discovery, events, pull requests, branches, notifications, throttling, and the loop around it |
| `checkout` | local checkouts of repositories |
| `cmd`, `http` | the command server: subscriptions, routes, requests and answers |
| `serve` | the log of changes as it is pushed to listeners |
| `client` | what readers of the cache and clients of the server ask, and how a subscriber follows the log of changes |
| `query`, `output`, `report` | what the command line shows |
| `config` | the configuration |

`app/` is the program around the library: the command line, the database, processes and
sockets. `tests/` runs the library against an in-memory database and a scripted GitHub.
