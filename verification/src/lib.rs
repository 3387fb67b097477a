//! Capability routing over a tree of component instances, together with the
//! small system-facing helpers that surround it.

#![allow(non_camel_case_types)]

pub mod accounts;
pub mod capability;
pub mod device_settings;
pub mod expectation;
pub mod handle;
pub mod instance_path;
pub mod logger;
pub mod manifest;
pub mod namespace;
pub mod router;
pub mod router_laws;
pub mod selection;
pub mod sys;
pub mod token_error;
pub mod topology;
pub mod verdict;
