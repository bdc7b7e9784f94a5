//! Read access to the systemd journal: the decisions of a reader, stated over
//! the status codes and buffers that the native log store hands back, and the
//! encoding of the fields that are sent to it. The native calls themselves
//! are made by the caller.

pub mod emit;
pub mod journal;
pub mod record;
