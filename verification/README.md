# local_api

The machine-side service of YoLab: every machine of a cluster runs it. It decides
which disks become storage and when one may be unplugged, heals a broken cluster
from the machines that still answer, finds direct paths between machines, tells the
owner's phone what is wrong, keeps the catalogs of apps, and answers the pages of the
local user interface.

All of that is decided in `src/`, a library that Verus verifies. Programs, files, the
network and the clock are outside: a procedure of the library asks for what it needs.

## How a procedure runs

A procedure takes a `Script` (`src/effects.rs`), the answers it has got so far. It goes
through them from the first one on, and ends either with its result or with the next
question, an `Ask`. Whoever runs it performs the question, adds the answer to the
script, and calls the procedure again.

The contract of a procedure says which question comes next, or what the result is, for
every list of answers: a spec function whose name ends in `_flow` describes it over the
answers, and `effects::went` ties the run to that description. What no clause can say
of one run is said by the public proof functions beside the procedures: that nothing
is destroyed in passing, that a heal starts only on what the owner confirmed, that a
commit and an undo together change nothing.

## Layout

| Where | What |
|---|---|
| `src/text.rs`, `table.rs`, `names.rs`, `json.rs`, `conf.rs`, `ip.rs`, `stamps.rs`, `time.rs`, `double.rs` | texts, tables, documents, addresses, moments |
| `src/exec.rs`, `error.rs`, `effects.rs`, `host.rs` | what commands say, how errors are told, questions and answers |
| `src/kubectl.rs`, `ceph_cli.rs`, `ceph/`, `cephfs.rs`, `csi.rs` | Kubernetes and Ceph; what destroys goes through `ceph/destructive.rs` alone |
| `src/disks/` | disks: what they hold, whether they become storage, how they leave it |
| `src/heal/` | two ways to heal: repairing (`repair`, `drive`, `run`, `steps`) and installing anew (`reinstall`, `fleet`, `rebuild`, with `member` and `switch` on every machine) |
| `src/mesh/` | direct paths between machines |
| `src/notify/` | notifications |
| `src/auth.rs`, `cache.rs`, `http.rs` | the pages: who may see them, and what is remembered of them |
| `src/charts.rs`, `config.rs`, `cron.rs`, `lease.rs`, `ops.rs`, `priority.rs`, `loop_osd.rs` | catalogs, settings, schedules, leases, work in progress |
| `src/boot/`, `controllers.rs`, `runtime.rs` | what runs at boot, and what runs over and over |
| `app/` | the program: it performs the questions, serves the pages and runs the controllers |
| `tests/` | the library from outside |

## What is taken on trust

Every outside function that the library calls stands behind a small function with a
contract that Verus believes, marked `external_body`: JSON (`serde_json`, and documents
of `serde_norway` where the entries keep their order), TOML (`toml`), dates (`chrono`),
base64, SHA-256, hexadecimal, password hashes (`pwhash`), chance (`rand`), and two
functions of the standard library (a text as `{:?}` writes it, and the text that bytes
encode). Its doc comment names the function and says what is claimed of it.
