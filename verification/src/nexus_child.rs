//! A nexus's view of one block device.
use crate::guid::GptGuid;
use crate::nexus_child_error_store::NexusErrStore;
use vstd::prelude::*;

verus! {

/// Why a child was faulted.
#[derive(Debug, Clone, Copy, PartialEq, Eq, Structural)]
pub enum Reason {
    /// The child is new and has not been rebuilt yet.
    OutOfSync,
    /// The error store saw too many failed I/Os.
    IoError,
    /// The rebuild of the child failed.
    RebuildFailed,
    /// The error store saw too many I/Os time out.
    Timeout,
}

#[derive(Debug, Clone, Copy, PartialEq, Eq, Structural)]
pub enum ChildState {
    /// child has been created, but not opened
    Init,
    /// cannot add this bdev to the parent as its incompatible property wise
    ConfigInvalid,
    /// the child is open for RW
    Open,
    /// the child is being destroyed
    Destroying,
    /// the child has been closed by the nexus
    Closed,
    /// the child is faulted
    Faulted(Reason),
}

/// Why a child could not be opened.
#[derive(Debug, Clone, Copy, PartialEq, Eq, Structural)]
pub enum ChildError {
    /// The child is faulted and has to be brought online first.
    ChildFaulted,
    /// The child is being destroyed.
    ChildBeingDestroyed,
    /// No block device stands behind the child.
    OpenWithoutBdev,
    /// The device is too small for the nexus and its metadata.
    ChildTooSmall { child_blocks: u64, required_blocks: u64 },
}

/// What a nexus reads of a block device: its name and its geometry.
#[derive(Debug, PartialEq, Eq)]
pub struct Bdev {
    pub name: String,
    pub block_len: u32,
    pub num_blocks: u64,
    pub alignment: u8,
    pub uuid: GptGuid,
}

impl Clone for Bdev {
    fn clone(&self) -> (copy: Bdev)
        ensures
            copy.name@ == self.name@,
            copy.block_len == self.block_len,
            copy.num_blocks == self.num_blocks,
            copy.alignment == self.alignment,
            copy.uuid == self.uuid,
    {
        Bdev {
            name: self.name.clone(),
            block_len: self.block_len,
            num_blocks: self.num_blocks,
            alignment: self.alignment,
            uuid: self.uuid,
        }
    }
}

#[derive(Debug, PartialEq, Eq)]
pub struct NexusChild {
    /// name of the child itself, its URI
    pub name: String,
    /// name of the parent this child belongs too
    pub parent: String,
    /// current state of the child
    pub state: ChildState,
    /// the block device behind the child, where there is one
    pub bdev: Option<Bdev>,
    /// LBA of the metadata index on the child; 0 while it is not known
    pub metadata_index_lba: u64,
    /// record of most-recent IO errors
    pub err_store: NexusErrStore,
}

impl Clone for NexusChild {
    fn clone(&self) -> (copy: NexusChild)
        ensures
            copy.name@ == self.name@,
            copy.parent@ == self.parent@,
            copy.state == self.state,
            copy.metadata_index_lba == self.metadata_index_lba,
            copy.bdev is Some == self.bdev is Some,
            copy.err_store.records@ == self.err_store.records@,
    {
        NexusChild {
            name: self.name.clone(),
            parent: self.parent.clone(),
            state: self.state,
            bdev: match &self.bdev {
                Some(bdev) => Some(bdev.clone()),
                None => None,
            },
            metadata_index_lba: self.metadata_index_lba,
            err_store: self.err_store.clone(),
        }
    }
}

impl NexusChild {
    /// A child that is open has a block device behind it, and a block
    /// device has blocks of some length.
    pub open spec fn wf(self) -> bool {
        &&& self.state == ChildState::Open ==> self.bdev is Some
        &&& self.bdev matches Some(bdev) ==> bdev.block_len > 0
        &&& self.err_store.wf()
    }

    /// Whether the child is in order, to be asked of a child that was put
    /// together by hand.
    pub fn is_wf(&self) -> (r: bool)
        ensures
            r == self.wf(),
    {
        let device = match &self.bdev {
            Some(bdev) => bdev.block_len > 0,
            None => match self.state {
                ChildState::Open => false,
                _ => true,
            },
        };
        device && self.err_store.is_wf()
    }

    /// Whether the child is on the I/O path of its nexus.
    pub open spec fn is_open(self) -> bool {
        self.state == ChildState::Open
    }

    /// create a new nexus child
    pub fn new(name: String, parent: String, bdev: Option<Bdev>) -> (child: NexusChild)
        requires
            bdev matches Some(device) ==> device.block_len > 0,
        ensures
            child.name == name,
            child.parent == parent,
            child.bdev == bdev,
            child.state == ChildState::Init,
            child.metadata_index_lba == 0,
            child.err_store.records@.len() == 0,
            child.err_store.capacity == 0,
            child.wf(),
    {
        NexusChild {
            name,
            parent,
            state: ChildState::Init,
            bdev,
            metadata_index_lba: 0,
            err_store: NexusErrStore::new(0),
        }
    }

    /// returns the state of the child
    pub fn state(&self) -> (state: ChildState)
        ensures
            state == self.state,
    {
        self.state
    }
}


impl NexusChild {
    /// What `open` makes of a child in a state, with or without a device,
    /// for a nexus of `parent_size` bytes: the reason why it cannot be
    /// opened, if there is one.
    pub open spec fn open_check(self, parent_size: u64) -> Result<(), ChildError> {
        match self.state {
            ChildState::Faulted(_) => Err(ChildError::ChildFaulted),
            ChildState::Destroying => Err(ChildError::ChildBeingDestroyed),
            ChildState::Open => Ok(()),
            _ => match self.bdev {
                None => Err(ChildError::OpenWithoutBdev),
                Some(bdev) => if parent_size > bdev.num_blocks * bdev.block_len {
                    Err(
                        ChildError::ChildTooSmall {
                            child_blocks: bdev.num_blocks,
                            required_blocks: parent_size,
                        },
                    )
                } else {
                    Ok(())
                },
            },
        }
    }

    /// Open the child. A child that is open stays so. A faulted child and
    /// one that is being destroyed are refused, and so is a child without
    /// device, or with a device smaller than the nexus. Gives the name of
    /// the child.
    pub fn open(&mut self, parent_size: u64) -> (r: Result<String, ChildError>)
        requires
            old(self).wf(),
        ensures
            final(self).wf(),
            final(self).name == old(self).name,
            final(self).parent == old(self).parent,
            final(self).bdev == old(self).bdev,
            final(self).metadata_index_lba == old(self).metadata_index_lba,
            final(self).err_store == old(self).err_store,
            match r {
                Ok(name) => old(self).open_check(parent_size) is Ok && name@ == old(self).name@
                    && final(self).state == ChildState::Open,
                Err(error) => old(self).open_check(parent_size) == Err::<(), ChildError>(error)
                    && final(self).state == old(self).state,
            },
    {
        match self.state {
            ChildState::Faulted(_) => {
                return Err(ChildError::ChildFaulted);
            },
            ChildState::Destroying => {
                return Err(ChildError::ChildBeingDestroyed);
            },
            ChildState::Open => {
                // the child (should) already be open
                return Ok(self.name.clone());
            },
            _ => {},
        }
        match &self.bdev {
            None => {
                return Err(ChildError::OpenWithoutBdev);
            },
            Some(bdev) => {
                proof {
                    crate::aligned::lemma_product_fits(
                        bdev.num_blocks as int,
                        bdev.block_len as int,
                    );
                }
                if parent_size as u128 > (bdev.num_blocks as u128) * (bdev.block_len as u128) {
                    return Err(
                        ChildError::ChildTooSmall {
                            child_blocks: bdev.num_blocks,
                            required_blocks: parent_size,
                        },
                    );
                }
            },
        }
        self.state = ChildState::Open;
        Ok(self.name.clone())
    }

    /// Fault the child with a specific reason: it leaves the I/O path of
    /// the nexus.
    pub fn fault(&mut self, reason: Reason)
        requires
            old(self).wf(),
        ensures
            final(self).wf(),
            *final(self) == (NexusChild { state: ChildState::Faulted(reason), ..*old(self) }),
    {
        self.state = ChildState::Faulted(reason);
    }

    /// Set the child as temporarily offline: it is closed.
    pub fn offline(&mut self)
        requires
            old(self).wf(),
        ensures
            final(self).wf(),
            *final(self) == (NexusChild { state: ChildState::Closed, ..*old(self) }),
    {
        self.state = ChildState::Closed;
    }

    /// Close the child.
    pub fn close(&mut self)
        requires
            old(self).wf(),
        ensures
            final(self).wf(),
            *final(self) == (NexusChild { state: ChildState::Closed, ..*old(self) }),
    {
        self.state = ChildState::Closed;
    }

    /// Marks the child as on its way out of the nexus.
    pub fn remove(&mut self)
        requires
            old(self).wf(),
        ensures
            final(self).wf(),
            *final(self) == (NexusChild { state: ChildState::Destroying, ..*old(self) }),
    {
        self.state = ChildState::Destroying;
    }

    /// What `online` makes of a child: a child that is being destroyed is
    /// refused; any other is opened as a closed child is.
    pub open spec fn online_check(self, parent_size: u64) -> Result<(), ChildError> {
        match self.state {
            ChildState::Destroying => Err(ChildError::ChildBeingDestroyed),
            ChildState::Open => Ok(()),
            _ => (NexusChild { state: ChildState::Closed, ..self }).open_check(parent_size),
        }
    }

    /// Online a previously offlined or faulted child: it is opened again.
    pub fn online(&mut self, parent_size: u64) -> (r: Result<String, ChildError>)
        requires
            old(self).wf(),
        ensures
            final(self).wf(),
            final(self).name == old(self).name,
            final(self).parent == old(self).parent,
            final(self).bdev == old(self).bdev,
            final(self).metadata_index_lba == old(self).metadata_index_lba,
            final(self).err_store == old(self).err_store,
            match r {
                Ok(name) => old(self).online_check(parent_size) is Ok && name@ == old(self).name@
                    && final(self).state == ChildState::Open,
                Err(error) => old(self).online_check(parent_size) == Err::<(), ChildError>(error)
                    && final(self).state == old(self).state,
            },
    {
        let before = self.state;
        match self.state {
            ChildState::Destroying => {
                return Err(ChildError::ChildBeingDestroyed);
            },
            ChildState::Open => {},
            _ => {
                self.state = ChildState::Closed;
            },
        }
        match self.open(parent_size) {
            Ok(name) => Ok(name),
            Err(error) => {
                self.state = before;
                Err(error)
            },
        }
    }
}

} // verus!
