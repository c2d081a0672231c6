//! GridOps: the control plane of self-hosted CI runners.
//!
//! The library holds what the programs of the system decide and compute: which
//! pool a queued job belongs to, how many runners a pool has, how a runner is
//! started and removed, what a host can still take, what a webhook changes, who
//! may do what, and how logs are shown. The programs around it read and write the
//! database, speak to GitHub, Bitbucket and Docker, and ask the library what to
//! do next.
//!
//! Amounts of processors are in billionths of a processor, and instants in
//! milliseconds since 1970.
use vstd::prelude::*;

pub mod assignment;
pub mod auth;
pub mod autoscaling;
pub mod bitbucket;
pub mod capacity;
pub mod clock;
pub mod config;
pub mod console;
pub mod crypto;
pub mod diagnosis;
pub mod doubles;
pub mod error;
pub mod github;
pub mod github_app;
pub mod job_log;
pub mod job_steps;
pub mod json;
pub mod keys;
pub mod leases;
pub mod logs;
pub mod maintenance;
pub mod manager;
pub mod manager_error;
pub mod models;
pub mod numbers;
pub mod oauth;
pub mod order;
pub mod overview;
pub mod pages;
pub mod payload;
pub mod pool_changes;
pub mod provisioning;
pub mod queries;
pub mod reconciler;
pub mod repositories;
pub mod runner_pools;
pub mod runner_start;
pub mod scripts;
pub mod search;
pub mod settings;
pub mod tart_agent;
pub mod text;
pub mod web;
pub mod webhooks;

verus! {

}
