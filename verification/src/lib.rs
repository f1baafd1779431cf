//! A verified core for a declarative Ansible operator.
//!
//! A `PlaybookPlan` describes an embedded playbook, the hosts it should reach,
//! a connection strategy and a schedule.  The modules below hold the pure
//! reconciliation logic for such plans: resolving inventories against node
//! labels, fingerprinting the playbook and its referenced secrets, deciding
//! which hosts are outdated, gating on a cron schedule, building per-host job
//! definitions and folding observed job results back into the plan's status.
//! Cluster I/O stays outside; callers hand in plain values and apply the
//! returned decisions.

pub mod model;
pub mod strutil;
pub mod nodeselector;
pub mod inventory;
pub mod fingerprint;
pub mod errors;
pub mod execution;
pub mod schedule;
pub mod command;
pub mod job;
pub mod workspace;
pub mod mappers;
pub mod reconciler;
pub mod conditions;
pub mod status_eval;
