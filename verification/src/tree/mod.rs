//! Passes over whole trees that decide item by item, asking the remote about
//! each.

pub mod admission;
pub mod local_item;
pub mod local_laws;
pub mod pass;
pub mod pass_laws;
pub mod remote_item;
pub mod remote_laws;
