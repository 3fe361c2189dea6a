//! A lightweight process supervisor core: the per-service state machine, the
//! event fold that drives it, and the scheduling decisions built on top.
//!
//! Nothing in here touches the operating system. Components that wait for
//! children, fork, deliver signals or move events between threads hand this
//! library plain values and carry out the plans it returns.

pub mod bus;
pub mod config;
pub mod escalation;
pub mod formats;
pub mod healthcheck;
pub mod laws;
pub mod loader;
pub mod reaper;
pub mod repository;
pub mod runtime;
pub mod service_handler;
pub mod signal_handling;
pub mod spawner;
pub mod validation;

pub use crate::config::{ExitStatus, HorustConfig};
pub use crate::formats::{Event, Healthcheck, Pid, RestartStrategy, Service, ServiceStatus};
pub use crate::repository::ServiceRepository;
pub use crate::runtime::{Horust, TickPlan};
pub use crate::service_handler::ServiceHandler;
