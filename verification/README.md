# microsandbox

The decisions behind local and cloud sandboxes, written in Rust and proved with Verus: how a
sandbox is created, booted, started, stopped, replaced and listed, what its process is launched
with, and what a recorded process ID still names. The network of a sandbox is decoded elsewhere:
the library hands it on, in the payload that a sandbox process reads from its private channel.

`src/` is the library. Nothing in it touches the host: every flow that waits for processes, locks,
files or services is a step machine. A step says what has to be done, an event says what came of
it, and `advance` gives the next step. The contracts say exactly which; the laws next to them say
what holds of every run, whatever the events.

| module | what it decides |
|---|---|
| `text`, `paths`, `host_paths`, `namemap` | text, `/`-separated paths, paths as either kind of host reads them, maps keyed by text |
| `types`, `error`, `host` | configurations, errors, failures of the host |
| `outside` | calls into `sha2`, `base64`, `serde_json` and std, with the contracts that are believed |
| `launch`, `mounts` | the command line, launch configuration and mount lists of a sandbox process |
| `volumes`, `disks`, `staging`, `descriptors` | named volumes, disk locks, staged files, inherited descriptors |
| `agent_socket` | where the agent of a sandbox listens |
| `spawn` | the spawn of a sandbox process |
| `relay` | waiting for a sandbox to answer, and booting it |
| `images` | which image a sandbox boots, and how it is fetched |
| `create`, `creation`, `records` | creating a sandbox: refusals, disks, the order of steps and what a failure undoes |
| `replace` | making way for a new sandbox, rolling a failed one back |
| `lifecycle`, `reconcile`, `catalog`, `listing` | starting, stopping, killing, draining; records and lists |
| `identity`, `runtime_identity` | process instances, and whether a recorded process is still the runtime |
| `process_exit`, `process_exit_macos` | watching a runtime exit |
| `cloud` | requests to the cloud, and what it answers |

A host is a Unix or Windows. Where the two differ, a function is told which by a `windows` argument
or field, or has a form of its own for Windows, under a name that begins with `windows_`.

`app/` performs the steps: it spawns processes, takes locks, reads `/proc`, and talks to the
catalog, the image store and the guest through traits.

`tests/` runs the library on concrete values.
