//! Host-telemetry aggregation core: counter-to-rate conversion, mount-point
//! resolution, disk/network sampling, category-partitioned log caching, and
//! the state logic of a container-runtime bridge.
//!
//! All I/O (reading `/proc` files, running log commands, talking to the
//! container runtime) lives outside this crate; every function here works on
//! plain values and carries a verified contract.

pub mod rate;
pub mod nav;
pub mod strutil;
pub mod kvmap;
pub mod textparse;
pub mod mount;
pub mod disk;
pub mod network;
pub mod i18n;
pub mod lineset;
pub mod logs;
pub mod docker;
