# assayist

A verified library for benchmarking virtual machines from the host side: no
agent in the guest, records that say how they were measured, and comparisons
that can be trusted because the rules behind them are proved.

## What is proved

Every function of `src/` has a contract over mathematical models (JSON documents
as a tree, tables as sorted sequences, a run as the sequence of its acts), and
the laws that span functions are public proof functions whose names begin with
`law_`. Some of them:

- a run is torn down whatever failed before, a step that fails is what it reports,
  and every VM that was registered is removed (`drive_laws.rs`);
- every gadget is spawned before any is waited for, and where one fails to spawn
  those before it are killed (`capture.rs`);
- runs of two hosts, or of two tenancy classes, are never compared
  (`gate_laws.rs`);
- a record is invalid exactly where the tuning did not take, and an imported one
  is never reproducible (`contract.rs`);
- spans, series, identity and fingerprint come back from an OTLP export
  (`otlp_laws.rs`);
- a command that a client sends is the command that the owner of the attribution
  map reads (`owner.rs`);
- one reading that cannot be trusted makes a comparison contaminated, and clean
  runs are never called so (`gate_laws.rs`);
- a shuffle of the permutation test rearranges its pool and loses nothing
  (`stats.rs`).

What is asked of the machine, of a host and of a gadget runner goes through
sessions that hide them and keep a log in ghost state (`Session` in `adapter.rs`,
`host.rs`, `crew.rs`), and targets and workloads say by relations of their own
what their methods do. So the contract of a run speaks of the calls that were
made: for command adapters, of the very commands and their order. What a machine,
a runner or a control socket answers is left open: contracts hold for every
answer.

## What is believed

The calls into `serde_json`, `sha2` and a few functions of std stand behind small
wrappers, marked as such, each with what is claimed of it in its comment: in
`digest.rs`, `json.rs`, `otlp.rs`, `parse.rs`, `text.rs` and `workloads.rs`.
Floating-point numbers are held as the text that they are written as; arithmetic
on them is done by the programs.

## Layout

- `src/`: the library.
  - records and grading: `contract`, `run`, `def`, `digest`
  - documents: `json`, `parse`, `table`, `text`
  - making runs: `adapter`, `command`, `native`, `firecracker`, `vmm`,
    `workloads`, `vsock`, `fanout`, `instance`, `drive`, `drive_laws`, `job`,
    `pipeline`, `commands`
  - the host: `host`, `hostprep`, `linux`, `hostmem`
  - capture: `capture`, `crew`, `gadget`, `block`, `kvm`, `net`, `ctrlplane`, `snapshot`,
    `netattrib`, `owner`
  - comparison: `reduce`, `stats`, `gate`, `gate_laws`, `gate_cli`, `gate_call`
  - OTLP: `otlp`, `otlp_import`, `otlp_laws`
  - command lines: `args`, `cli`, `inspect`
- `app/`: the programs. One binary answers to the names `assayist`,
  `assayist-gate` and `assayist-capture-<signal>`. The gadgets that attach
  probes need libbpf and their compiled eBPF objects beside the binary.
- `tests/`: what the library does, on concrete values.
