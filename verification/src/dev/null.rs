//! As the name implies, this is a dummy driver that discards all writes and
//! returns undefined data for reads. It's useful for benchmarking the I/O stack
//! with minimal overhead and should *NEVER* be used with *real* data.
use crate::dev::malloc::{disk_from, disk_of};
use crate::dev::uri::{error_for, NexusBdevError, Uri};
use crate::guid::GptGuid;
use vstd::prelude::*;

verus! {

#[derive(Debug, PartialEq, Eq)]
pub struct Null {
    /// the name of the bdev we created, this is equal to the URI path minus
    /// the leading '/'
    pub name: String,
    /// alias which can be used to open the bdev
    pub alias: String,
    /// the number of blocks the device should have
    pub num_blocks: u64,
    /// the size of a single block if no blk_size is given we default to 512
    pub blk_size: u32,
    /// uuid of the spdk bdev
    pub uuid: Option<GptGuid>,
}

impl Null {
    /// Reads the device that a URI asks for. Where the URI gives no UUID,
    /// a random one is drawn.
    pub fn try_from(uri: &Uri) -> (r: Result<Null, NexusBdevError>)
        ensures
            match r {
                Ok(disk) => {
                    &&& disk_of(uri@) matches Ok(asked)
                    &&& disk.name@ == asked.name
                    &&& disk.alias@ == asked.alias
                    &&& disk.num_blocks == asked.num_blocks
                    &&& disk.blk_size == asked.blk_size
                    &&& disk.uuid matches Some(uuid)
                    &&& match asked.uuid {
                        Some(given) => uuid == given,
                        None => uuid.is_random(),
                    }
                },
                Err(error) => disk_of(uri@) matches Err(fault) && error_for(
                    uri@.text,
                    fault,
                    error,
                ),
            },
    {
        match disk_from(uri) {
            Err(fault) => Err(uri.error(fault)),
            Ok((name, alias, num_blocks, blk_size, uuid)) => Ok(
                Null {
                    name,
                    alias,
                    num_blocks,
                    blk_size,
                    uuid: match uuid {
                        Some(uuid) => Some(uuid),
                        None => Some(GptGuid::new_random()),
                    },
                },
            ),
        }
    }

    /// The name of the device.
    pub fn get_name(&self) -> (name: String)
        ensures
            name@ == self.name@,
    {
        self.name.clone()
    }

    /// Whether the device may be created: not if a device of its name
    /// exists.
    pub fn create(&self, exists: bool) -> (r: Result<(), NexusBdevError>)
        ensures
            match r {
                Ok(()) => !exists,
                Err(error) => exists && error.is_exists(self.name@),
            },
    {
        if exists {
            Err(NexusBdevError::BdevExists { name: self.name.clone() })
        } else {
            Ok(())
        }
    }

    /// Takes in what the driver returned for the creation of the device:
    /// 0 gives the name of the device, anything else an error with the
    /// errno.
    pub fn created(&self, ret: i32) -> (r: Result<String, NexusBdevError>)
        requires
            ret > i32::MIN,
        ensures
            match r {
                Ok(name) => ret == 0 && name@ == self.name@,
                Err(error) => ret != 0 && error.is_create(
                    if ret < 0 {
                        -ret
                    } else {
                        ret as int
                    },
                    self.name@,
                ),
            },
    {
        if ret != 0 {
            Err(
                NexusBdevError::CreateBdev {
                    source: if ret < 0 {
                        -ret
                    } else {
                        ret
                    },
                    name: self.name.clone(),
                },
            )
        } else {
            Ok(self.name.clone())
        }
    }

    /// Whether the device may be destroyed: only if it exists.
    pub fn destroy(&self, exists: bool) -> (r: Result<(), NexusBdevError>)
        ensures
            match r {
                Ok(()) => exists,
                Err(error) => !exists && error.is_not_found(self.name@),
            },
    {
        if exists {
            Ok(())
        } else {
            Err(NexusBdevError::BdevNotFound { name: self.name.clone() })
        }
    }

    /// Takes in how the destruction of the device ended: `outcome` is the
    /// errno that the driver reported, 0 for success, or nothing if the
    /// command was cancelled.
    pub fn destroyed(&self, outcome: Option<i32>) -> (r: Result<(), NexusBdevError>)
        ensures
            match r {
                Ok(()) => outcome == Some(0i32),
                Err(error) => match outcome {
                    None => error.is_cancel(self.name@),
                    Some(errno) => errno != 0 && error.is_destroy(errno as int, self.name@),
                },
            },
    {
        match outcome {
            None => Err(NexusBdevError::CancelBdev { name: self.name.clone() }),
            Some(errno) => if errno != 0 {
                Err(NexusBdevError::DestroyBdev { source: errno, name: self.name.clone() })
            } else {
                Ok(())
            },
        }
    }
}

} // verus!
