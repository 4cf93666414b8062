//! Renders named templates against a context of variables.
//!
//! A run has three parts. The registry holds the template sources under
//! their logical names. The context is built from a data file, from
//! assignments and from the environment, laid over one another in that
//! order. The dispatcher takes up the requested templates one by one and
//! stops at the first that fails.
//!
//! The library reads no file and no environment, runs no template, and
//! writes nothing: the caller hands it what it has read, asks the engine for
//! each request that the dispatcher hands out, and delivers what comes back.

pub mod dispatch;
pub mod engine;
pub mod error;
pub mod json;
pub mod path;
pub mod registry;
pub mod template;
pub mod text;
pub mod vars;
