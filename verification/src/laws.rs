//! What the operations are for, stated of what goes into them and what comes out.
//!
//! Each law here is a statement about every input. It speaks of the resources
//! themselves, not of the steps by which a result is found.

pub mod answers;
pub mod authentications;
pub mod authorizations;
pub mod defaults;
pub mod listings;
pub mod operations;
pub mod port_lists;
pub mod resources;
pub mod routes;
pub mod selection;
pub mod values;
pub mod workloads;
