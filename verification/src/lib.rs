//! Data-plane core of a replicated block-storage engine: the on-disk nexus
//! label, the NVMe I/O channel and handle decisions, and the child
//! management of a nexus.
use vstd::prelude::*;

pub mod aligned;
pub mod checksum;
pub mod client_context;
pub mod dev;
pub mod block_device;
pub mod environment;
pub mod errors;
pub mod gpt_entry;
pub mod gpt_header;
pub mod guid;
pub mod label_laws;
pub mod label_probe;
pub mod label_sync;
pub mod label_text;
pub mod label_write;
pub mod mbr;
pub mod nexus_bdev;
pub mod nexus_bdev_children;
pub mod nexus_bdev_rebuild;
pub mod nexus_child;
pub mod nexus_child_error_store;
pub mod nexus_io;
pub mod nexus_label;
pub mod nvmx;
pub mod rebuild;
pub mod text;
pub mod wire;

verus! {

/// Always succeeds.
pub fn that() -> (r: Result<(), ()>)
    ensures
        r == Ok::<(), ()>(()),
{
    Ok(())
}

} // verus!
