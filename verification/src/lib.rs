//! Polling engine for a "cast, wait, detect, react" automation.
//!
//! Every tracked target owns a pair of timestamps, an optional reaction
//! deadline and a pause flag. On each tick the engine decides from these and
//! from one volume sample whether the target casts, reacts, arms a reaction or
//! stays idle, and keeps per-target statistics. All times are milliseconds read
//! from one monotonic clock; volume levels are millionths of full scale.

pub mod inject;
pub mod laws;
pub mod policy;
pub mod random;
pub mod registry;
pub mod sample;
pub mod session;
pub mod stats;
pub mod target;
pub mod window;

pub use inject::{plan_injection, plan_injection_with, Injection};
pub use policy::Policy;
pub use registry::{InsertError, Registry, StatEvent};
pub use sample::SampleResult;
pub use session::{contains_text, mentions, process_session_audio, OutputVolume, Reading};
pub use stats::Stats;
pub use target::{Outcome, Phase, Target, TickInput, WindowHandle};
pub use window::{callback, collect, CallbackCollector};
