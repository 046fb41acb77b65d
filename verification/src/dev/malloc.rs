//!
//! The malloc bdev as the name implies, creates an in memory disk. Note
//! that the backing memory is allocated from huge pages and not from the
//! heap. IOW, you must ensure you do not run out of huge pages while using
//! this.
use crate::dev::uri::{
    error_for, int_param, only_keys, uuid_param, IntParam, NexusBdevError, Uri, UriFault, UriSpec,
};
use crate::guid::GptGuid;
use vstd::prelude::*;
use vstd::string::StrSliceExecFns;

verus! {

#[derive(Debug, PartialEq, Eq)]
pub struct Malloc {
    /// the name of the bdev we created, this is equal to the URI path minus
    /// the leading '/'
    pub name: String,
    /// alias which can be used to open the bdev
    pub alias: String,
    /// the number of blocks the device should have
    pub num_blocks: u64,
    /// the size of a single block if no blk_size is given we default to 512
    pub blk_size: u32,
    /// uuid of the spdk bdev
    pub uuid: Option<GptGuid>,
}

/// What the URI of a memory-backed device asks for.
pub struct DiskSpec {
    pub name: Seq<char>,
    pub alias: Seq<char>,
    pub num_blocks: u64,
    pub blk_size: u32,
    /// The UUID that the URI gives, if it gives one.
    pub uuid: Option<GptGuid>,
}

/// The parameters that the URI of a memory-backed device may have.
pub open spec fn disk_keys() -> Seq<Seq<char>> {
    seq!["blk_size"@, "size_mb"@, "num_blocks"@, "uuid"@]
}

/// The path without its first character.
pub open spec fn path_name(path: Seq<char>) -> Seq<char> {
    if path.len() >= 1 {
        path.subrange(1, path.len() as int)
    } else {
        path
    }
}

/// What the URI of a memory-backed device asks for, or the first thing
/// that is wrong with it.
///
/// The path must have a segment. `blk_size` is 512 or 4096, 512 if it is
/// not given. The size is given in blocks by `num_blocks` or in MiB by
/// `size_mb`, not by both. `uuid` is a UUID. No other parameter is known.
/// The device bears the path without the leading slash as its name, and
/// the URI as its alias.
pub open spec fn disk_of(uri: UriSpec) -> Result<DiskSpec, UriFault> {
    if uri.segments.len() == 0 {
        Err(UriFault::NoPathSegments)
    } else {
        match int_param(uri.query, "blk_size"@, IntParam::BlkSize, 512) {
            Err(fault) => Err(fault),
            Ok(blk_size) => if blk_size != 512 && blk_size != 4096 {
                Err(UriFault::InvalidBlkSize)
            } else {
                match int_param(uri.query, "size_mb"@, IntParam::SizeMb, 0) {
                    Err(fault) => Err(fault),
                    Ok(size) => match int_param(uri.query, "num_blocks"@, IntParam::NumBlocks, 0) {
                        Err(fault) => Err(fault),
                        Ok(num_blocks) => if size != 0 && num_blocks != 0 {
                            Err(UriFault::ConflictingSize)
                        } else {
                            match uuid_param(uri.query) {
                                Err(fault) => Err(fault),
                                Ok(uuid) => if !only_keys(uri.query, disk_keys()) {
                                    Err(UriFault::UnknownParameters)
                                } else {
                                    Ok(
                                        DiskSpec {
                                            name: path_name(uri.path),
                                            alias: uri.text,
                                            num_blocks: if num_blocks != 0 {
                                                num_blocks as u64
                                            } else {
                                                ((size as u64 * 0x10_0000) / blk_size as int) as u64
                                            },
                                            blk_size,
                                            uuid,
                                        },
                                    )
                                },
                            }
                        },
                    },
                }
            },
        }
    }
}

/// The name of the device of a URI: its path without the leading slash.
pub fn name_of(uri: &Uri) -> (name: String)
    ensures
        name@ == path_name(uri@.path),
{
    let path = uri.path.as_str();
    let len = path.unicode_len();
    if len >= 1 {
        path.substring_char(1, len).to_owned()
    } else {
        path.to_owned()
    }
}

/// Reads what the URI of a memory-backed device asks for.
pub fn disk_from(uri: &Uri) -> (r: Result<(String, String, u64, u32, Option<GptGuid>), UriFault>)
    ensures
        match r {
            Ok((name, alias, num_blocks, blk_size, uuid)) => disk_of(uri@) matches Ok(disk)
                && name@ == disk.name && alias@ == disk.alias && num_blocks == disk.num_blocks
                && blk_size == disk.blk_size && uuid == disk.uuid,
            Err(fault) => disk_of(uri@) == Err::<DiskSpec, UriFault>(fault),
        },
{
    if uri.segments.len() == 0 {
        assert(uri@.segments.len() == 0);
        return Err(UriFault::NoPathSegments);
    }
    assert(uri@.segments.len() == uri.segments@.len());
    let blk_size: u32 = match uri.int_value("blk_size", IntParam::BlkSize, 512) {
        Ok(value) => value,
        Err(fault) => {
            return Err(fault);
        },
    };
    if blk_size != 512 && blk_size != 4096 {
        return Err(UriFault::InvalidBlkSize);
    }
    let size: u32 = match uri.int_value("size_mb", IntParam::SizeMb, 0) {
        Ok(value) => value,
        Err(fault) => {
            return Err(fault);
        },
    };
    let num_blocks: u32 = match uri.int_value("num_blocks", IntParam::NumBlocks, 0) {
        Ok(value) => value,
        Err(fault) => {
            return Err(fault);
        },
    };
    if size != 0 && num_blocks != 0 {
        return Err(UriFault::ConflictingSize);
    }
    let uuid = match uri.uuid_value() {
        Ok(uuid) => uuid,
        Err(fault) => {
            return Err(fault);
        },
    };
    let known: [&str; 4] = ["blk_size", "size_mb", "num_blocks", "uuid"];
    proof {
        assert(known@.map_values(|key: &str| key@) =~= disk_keys());
    }
    if !uri.knows_only(known.as_slice()) {
        return Err(UriFault::UnknownParameters);
    }
    let blocks: u64 = if num_blocks != 0 {
        num_blocks as u64
    } else {
        (size as u64 * 0x10_0000) / blk_size as u64
    };
    Ok((name_of(uri), uri.text.clone(), blocks, blk_size, uuid))
}

impl Malloc {
    /// Reads the device that a URI asks for. Where the URI gives no UUID,
    /// a random one is drawn.
    pub fn try_from(uri: &Uri) -> (r: Result<Malloc, NexusBdevError>)
        ensures
            match r {
                Ok(disk) => {
                    &&& disk_of(uri@) matches Ok(asked)
                    &&& disk.name@ == asked.name
                    &&& disk.alias@ == asked.alias
                    &&& disk.num_blocks == asked.num_blocks
                    &&& disk.blk_size == asked.blk_size
                    &&& disk.uuid matches Some(uuid)
                    &&& match asked.uuid {
                        Some(given) => uuid == given,
                        None => uuid.is_random(),
                    }
                },
                Err(error) => disk_of(uri@) matches Err(fault) && error_for(
                    uri@.text,
                    fault,
                    error,
                ),
            },
    {
        match disk_from(uri) {
            Err(fault) => Err(uri.error(fault)),
            Ok((name, alias, num_blocks, blk_size, uuid)) => Ok(
                Malloc {
                    name,
                    alias,
                    num_blocks,
                    blk_size,
                    uuid: match uuid {
                        Some(uuid) => Some(uuid),
                        None => Some(GptGuid::new_random()),
                    },
                },
            ),
        }
    }

    /// The name of the device.
    pub fn get_name(&self) -> (name: String)
        ensures
            name@ == self.name@,
    {
        self.name.clone()
    }

    /// Whether the device may be created: not if a device of its name
    /// exists.
    pub fn create(&self, exists: bool) -> (r: Result<(), NexusBdevError>)
        ensures
            match r {
                Ok(()) => !exists,
                Err(error) => exists && error.is_exists(self.name@),
            },
    {
        if exists {
            Err(NexusBdevError::BdevExists { name: self.name.clone() })
        } else {
            Ok(())
        }
    }

    /// Takes in what the driver returned for the creation of the device:
    /// 0 gives the name of the device, anything else an error with the
    /// errno.
    pub fn created(&self, ret: i32) -> (r: Result<String, NexusBdevError>)
        requires
            ret > i32::MIN,
        ensures
            match r {
                Ok(name) => ret == 0 && name@ == self.name@,
                Err(error) => ret != 0 && error.is_create(
                    if ret < 0 {
                        -ret
                    } else {
                        ret as int
                    },
                    self.name@,
                ),
            },
    {
        if ret != 0 {
            Err(
                NexusBdevError::CreateBdev {
                    source: if ret < 0 {
                        -ret
                    } else {
                        ret
                    },
                    name: self.name.clone(),
                },
            )
        } else {
            Ok(self.name.clone())
        }
    }

    /// Whether the device may be destroyed: only if it exists.
    pub fn destroy(&self, exists: bool) -> (r: Result<(), NexusBdevError>)
        ensures
            match r {
                Ok(()) => exists,
                Err(error) => !exists && error.is_not_found(self.name@),
            },
    {
        if exists {
            Ok(())
        } else {
            Err(NexusBdevError::BdevNotFound { name: self.name.clone() })
        }
    }

    /// Takes in how the destruction of the device ended: `outcome` is the
    /// errno that the driver reported, 0 for success, or nothing if the
    /// command was cancelled.
    pub fn destroyed(&self, outcome: Option<i32>) -> (r: Result<(), NexusBdevError>)
        ensures
            match r {
                Ok(()) => outcome == Some(0i32),
                Err(error) => match outcome {
                    None => error.is_cancel(self.name@),
                    Some(errno) => errno != 0 && error.is_destroy(errno as int, self.name@),
                },
            },
    {
        match outcome {
            None => Err(NexusBdevError::CancelBdev { name: self.name.clone() }),
            Some(errno) => if errno != 0 {
                Err(NexusBdevError::DestroyBdev { source: errno, name: self.name.clone() })
            } else {
                Ok(())
            },
        }
    }
}

} // verus!
