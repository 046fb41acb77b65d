//! Block devices that a URI asks for.
pub mod loopback;
pub mod malloc;
pub mod null;
pub mod uri;
