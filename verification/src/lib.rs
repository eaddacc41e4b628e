//! A copy engine that replicates a file or a directory subtree from one
//! filesystem onto another, keeping structure, symbolic links, permission
//! bits and ownership.
//!
//! The engine never touches a filesystem itself. It is a state machine:
//! [`engine::DiskDrive::step`] takes the outcome of the previous filesystem
//! request and answers with the next request to perform. Whoever drives the
//! machine performs the requests against the two filesystems of its choice.
//!
//! What the engine achieves is stated and proved against a model of the two
//! filesystems ([`model`]): for one discovered path ([`entries`]), for the
//! copy of a single file ([`single`]), for the copy of a subtree ([`tree`],
//! [`order`]) and for a copy that is run a second time ([`repeat`]).

pub mod chains;
pub mod engine;
pub mod entries;
pub mod entry;
pub mod model;
pub mod order;
pub mod path;
pub mod repeat;
pub mod request;
pub mod single;
pub mod tree;
