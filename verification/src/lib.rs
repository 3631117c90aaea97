//! Verified core of a webhook-driven Podman/systemd upgrade service: input
//! validation for units, host paths and SSH targets, parsing of registry and
//! webhook data, and the decisions that drive task execution.

pub mod text;
pub mod host;
pub mod units;
pub mod systemd;
pub mod quadlet;
pub mod http;
pub mod config;
pub mod ratelimit;
pub mod images;
pub mod registry;
pub mod json;
pub mod github;
pub mod signature;
pub mod ids;
pub mod auth;
pub mod webhook;
pub mod tasks;
pub mod podman;
pub mod runs;
pub mod sorting;
pub mod digests;
pub mod services;
pub mod queries;
pub mod selfupdate;
pub mod cli;
pub mod stream;
pub mod hookstatus;
pub mod manual;
pub mod webhooktask;
pub mod dispatch;
pub mod responses;
pub mod discovery;
pub mod meta;
pub mod maintenance;
pub mod frontend;
pub mod paths;
