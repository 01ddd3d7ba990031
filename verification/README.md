# Maglev

Maglev provisions and manages Kubernetes clusters on virtual machines of Google
Cloud and DigitalOcean. A YAML file lists groups of nodes, specs and the rules
that bind them together; Maglev creates the machines, initialises the cluster
with `kubeadm`, deploys Cilium, and resets, restarts or destroys the cluster
again, all over plain SSH.

The logic is a library that is verified with Verus. It performs no I/O. A
command is a procedure: it hands out one action at a time (run a command on a
node, ask the provider for an address, put a question to the operator), is told
the outcome, and writes what the operator should read into a log. Each procedure
has a model in ghost code, its executable steps are proved equal to the model's,
and what must hold of whole runs is stated as public proof functions whose names
begin with `law_`.

## Layout

| Path | What it holds |
|---|---|
| `src/text.rs` | text as sequences of characters |
| `src/session.rs` | actions, events, notes: how a procedure talks to the world |
| `src/structs.rs`, `src/ip.rs` | the configuration |
| `src/spec.rs`, `src/rule.rs` | merging specs, resolving rules |
| `src/endpoint.rs`, `src/utils.rs`, `src/ssh.rs` | endpoints, paths and prompts, `ssh` arguments |
| `src/registry.rs`, `src/state.rs` | what was created, and the state file |
| `src/json.rs`, `src/http.rs` | JSON documents, requests and replies |
| `src/provider/` | Google Cloud, DigitalOcean, signed tokens, the credential builder |
| `src/cp/` | `kubeadm init`, the endpoint check, Cilium, certificate requests |
| `src/command/` | `apply`, `play`, `destroy`, and the sweep behind `reset` and `restart` |
| `src/containerd.rs` | whether containerd runs, and how long to wait for it |
| `src/mapper.rs` | the map of a source tree |
| `tests/` | tests of the library |
| `app/` | the program: arguments, files, HTTP, `ssh`, the terminal |

## What is trusted

A few functions call other crates: `serde_json` and `serde` for JSON,
`serde_yaml` to find the provider of a configuration, `base64`, `sha2` and `rsa`
for signed tokens, `rcgen` and `time` for certificates, and the standard library
for the `Debug` form of a list. Each is marked `external_body`, and its
documentation says what is claimed of the call. `String::push` has an assumed
specification.
