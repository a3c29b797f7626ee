//! Benchmarks of virtual machines: what a run is, how it is made, what it is
//! worth, and how two groups of runs compare.
//!
//! A run is a record ([`contract`]) that a definition ([`def`]) asks for. It is
//! made by bringing a target up and loading it ([`drive`], [`job`], [`pipeline`])
//! while gadgets watch from the host ([`capture`] and the modules of the
//! signals), and it is graded by what is known of the host ([`hostprep`]). Groups
//! of runs are reduced to numbers ([`reduce`]) and compared ([`gate`]). A record
//! goes to OTLP and back ([`otlp`], [`otlp_import`], [`otlp_laws`]).
pub mod adapter;
pub mod args;
pub mod block;
pub mod capture;
pub mod cli;
pub mod cli_laws;
pub mod command;
pub mod command_laws;
pub mod commands;
pub mod contract;
pub mod crew;
pub mod ctrlplane;
pub mod def;
pub mod def_laws;
pub mod digest;
pub mod drive;
pub mod drive_laws;
pub mod export_laws;
pub mod fanout;
pub mod firecracker;
pub mod firecracker_laws;
pub mod fleet_laws;
pub mod gadget;
pub mod gadget_laws;
pub mod gate;
pub mod gate_call;
pub mod gate_cli;
pub mod gate_laws;
pub mod host;
pub mod host_laws;
pub mod hostmem;
pub mod hostprep;
pub mod inspect;
pub mod instance;
pub mod job;
pub mod json;
pub mod kvm;
pub mod linux;
pub mod native;
pub mod net;
pub mod netattrib;
pub mod otlp;
pub mod otlp_import;
pub mod otlp_laws;
pub mod outcome_laws;
pub mod owner;
pub mod parse;
pub mod pipeline;
pub mod pipeline_laws;
pub mod reduce;
pub mod reduce_laws;
pub mod run;
pub mod snapshot;
pub mod stats;
pub mod table;
pub mod text;
pub mod vmm;
pub mod vsock;
pub mod workload_laws;
pub mod workloads;
