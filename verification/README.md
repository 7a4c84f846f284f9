# devcluster

A small cluster of machines that run one image, described in one place. The
library holds the model of that cluster, cross-checks it, renders every
infrastructure artifact from it, and decides what a node does when a new image
is published. Its behaviour is stated in contracts and proved with Verus.

## Layout

| Path | What it is |
| --- | --- |
| `src/cluster.rs`, `network.rs`, `images.rs`, `policy.rs`, `model.rs` | the model, and what it derives: slots, addresses, links |
| `src/check/` | the cross-checks, and what a model that passes them guarantees |
| `src/render/` | every rendered file, and what holds of the tree |
| `src/rollout.rs`, `drain.rs`, `updater.rs` | ordering a rollout, draining a node, one run of the updater |
| `src/agent/` | the node-local agent: is a workspace safe to move, and moving it |
| `src/registry.rs` | the register of claims |
| `src/tasks/` | is the committed tree the rendered one; does anything dangle; the installer configuration |
| `src/web.rs` | what the management page says |
| `src/text.rs`, `lists.rs`, `order.rs`, `address.rs`, `named.rs` | text, lists, stable ordering, addresses, lookup by name |
| `app/` | files, commands, sockets and the page around the library |
| `tests/` | the library from outside, on concrete values |

## What is stated

Each function's contract gives its result over sequences of characters and of
rows: a rendered file is the text its specification spells out, and a check
returns the findings its specification lists. The properties that span functions
stand as public proof functions: beside the code they are about, or in the
`laws.rs` of their directory, and for the rendered tree also in
`src/render/claims.rs`.

## What is trusted

Six calls are believed rather than proved, each where it is made:
`String::push` and `str::to_uppercase` in `src/text.rs`, the `Debug` form of a
string in `src/lists.rs`, `serde_json::from_str` and `serde_json::from_slice` in
`src/updater.rs`, and `toml::from_str` in `src/tasks/installer.rs`. The results
of the last five have names, as functions of what they were computed from; of upper-casing it is also
said what it does to ASCII.
