# flat-playground-runner

The runner of a playground takes tasks from a control server, starts a virtual machine
for each client, and passes the traffic between the clients and their machines on.

- `src/` is the library: everything that the runner decides and computes, verified with
  Verus. It asks for actions and is told what came of them.
- `app/` is the program around it: network, files, processes and time.
- `tests/` runs the library.

| module | what it holds |
| --- | --- |
| `config` | the configuration and the profiles |
| `profile`, `update_laws` | how the profiles are kept up to date |
| `fetch`, `digest`, `resource` | downloads, and where images are kept |
| `ids`, `qemu` | task ids and the launch of a machine |
| `cache`, `vmm`, `vmm_laws` | the instances and the clients that come for them |
| `relay` | the traffic between a client and its machine |
| `worker`, `worker_laws`, `request`, `endpoint` | the talk with the control server |
| `path`, `text` | paths and pieces of text |

The functions marked `external_body` call `lru_time_cache`, `sha2`, `serde_json`, `url`,
`uuid` and `String::from_utf8`. Their contracts are believed, and each says what it claims.
