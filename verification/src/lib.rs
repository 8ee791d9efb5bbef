//! A verified index of inbound policy.
//!
//! [`index::Index`] is told which pods, external groups and policy resources
//! there are, and keeps a server configuration for every known port, which its
//! clients watch. The modules below it, from the outside in:
//!
//! - [`index`] and [`consistency`]: the index as a whole, and what always holds
//!   of it;
//! - [`laws`]: what its operations, and those of the modules below, are for;
//! - [`namespace`], [`pod`], [`external`]: what is known of a namespace;
//! - [`policy`], [`authentications`], [`listing`]: the policy resources, and how
//!   they change;
//! - [`watching`]: the watch channels on which configurations are published;
//! - [`inbound`], [`route`], [`authz`], [`server`], [`server_authorization`],
//!   [`authorization_policy`], [`cluster`], [`meta`], [`labels`], [`ports`]: the
//!   values that all of this is made of;
//! - [`table`], [`slots`], [`search`], [`text`], [`value`]: what they rest on.
//!
//! A value of type `T` means a value of type `TModel`, its deep view, and
//! contracts speak of models.

pub mod authentications;
pub mod authorization_policy;
pub mod authz;
pub mod cluster;
pub mod consistency;
pub mod external;
pub mod inbound;
pub mod index;
pub mod labels;
pub mod laws;
pub mod listing;
pub mod meta;
pub mod namespace;
pub mod pod;
pub mod policy;
pub mod ports;
pub mod route;
pub mod search;
pub mod server;
pub mod server_authorization;
pub mod slots;
pub mod table;
pub mod text;
pub mod value;
pub mod watching;
