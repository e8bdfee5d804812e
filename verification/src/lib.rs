//! Verified core of an eBPF TCP observability agent: probe event decoding,
//! chunk reassembly, MySQL and DNS protocol parsing, metric formatting,
//! probe routing and kernel BTF layout detection.

pub mod bytes;
pub mod common;
pub mod config;
pub mod probes;
pub mod assembler;
pub mod sink;
pub mod router;
pub mod orchestrator;
pub mod modules;
pub mod text;
pub mod net;
pub mod lru_model;
pub mod dns_cache;
pub mod dns;
pub mod mysql;
pub mod mysql_module;
pub mod btf;
