//! Builds validated argument lists for the `bwrap` namespace-isolation
//! launcher.
//!
//! A [`config::BwrapArgs`] value describes the sandbox: which host paths are
//! bound inside it, which directories and symlinks are created, and which
//! environment variables are set.  Profile constructors build a configuration
//! from a snapshot of the host environment, the merge operations keep the
//! bind and environment collections free of conflicts, the resolver registers
//! extra binds for symlinked sources, and the serializer turns the finished
//! configuration into the exact flag sequence the launcher expects.

pub mod cli;
pub mod config;
pub mod model;
pub mod profiles;
pub mod resolver;
pub mod serialize;
