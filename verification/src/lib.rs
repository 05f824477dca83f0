//! Verified core of the Speck container runtime: shell integration text,
//! configuration resolution, VM resource planning, Docker API helpers and the
//! small wire formats shared by the CLI and the Docker API proxy.
pub mod assets;
pub mod attach;
pub mod build_context;
pub mod buildkit;
pub mod cli;
pub mod codec;
pub mod commands;
pub mod config;
pub mod container;
pub mod containerd;
pub mod control;
pub mod dashboard;
pub mod containers;
pub mod docker_client;
pub mod error;
pub mod events;
pub mod exec;
pub mod host;
pub mod images;
pub mod keyed;
pub mod lifecycle;
pub mod log_relay;
pub mod log_rotation;
pub mod middleware;
pub mod netconfig;
pub mod networks;
pub mod proxy;
pub mod registry_auth;
pub mod run;
pub mod shell;
pub mod stream;
pub mod text;
pub mod theme;
pub mod up;
pub mod volumes;
