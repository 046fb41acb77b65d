//! Reading a label from a child: which blocks to read, and what to make
//! of them.
use crate::aligned::{blocks_for, lemma_blocks_for_is_ceiling, lemma_product_fits, Aligned};
use crate::errors::{LabelError, LabelPart, ProbeError};
use crate::gpt_entry::{views, EntrySpec, GptEntry};
use crate::gpt_header::GptHeader;
use crate::mbr::Pmbr;
use crate::nexus_child::NexusChild;
use crate::nexus_label::{consistency, LabelSpec, NexusLabel, NexusLabelStatus};
use vstd::prelude::*;
use vstd::slice::slice_subrange;

verus! {

/// The MBR and the two headers of a label, with what the reads of the
/// headers showed: which of them were found valid on the device.
#[derive(Debug, Clone, Copy, PartialEq, Eq)]
pub struct LabelHeaders {
    pub status: NexusLabelStatus,
    pub mbr: Pmbr,
    pub primary: GptHeader,
    pub secondary: GptHeader,
}

/// Where the MBR and the two headers of a label lie on a device: of
/// each the offset and the length in bytes. A device without blocks has
/// no place for the secondary header.
#[derive(Debug, Clone, Copy, PartialEq, Eq)]
pub struct HeaderExtents {
    pub mbr: (u128, u128),
    pub primary: (u128, u128),
    pub secondary: Option<(u128, u128)>,
}

/// Where the MBR and the headers lie on a device of `num_blocks` blocks
/// of `block_size` bytes: the MBR in the first block, the primary header
/// in the second, the secondary header in the last.
pub open spec fn header_extents_of(block_size: u64, num_blocks: u64) -> HeaderExtents {
    HeaderExtents {
        mbr: (0, block_size as u128),
        primary: (block_size as u128, block_size as u128),
        secondary: if num_blocks == 0 {
            None
        } else {
            Some((((num_blocks - 1) * block_size) as u128, block_size as u128))
        },
    }
}

/// Whether an entry defines a partition: entries that start or end at
/// block 0 only fill the table.
pub open spec fn in_use(entry: EntrySpec) -> bool {
    entry.ent_start > 0 && entry.ent_end > 0
}

/// What the headers of a label come to, given the MBR and the blocks that
/// hold the primary and the secondary header.
///
/// With both headers valid they must agree, and the label is whole. With
/// one valid the other is derived from it. With neither the label is
/// refused with the fault of the primary header. Last, the MBR must give
/// the size of the disk as the primary header does, unless it gives the
/// largest size it can hold.
pub open spec fn probe_headers_spec(
    mbr: Pmbr,
    primary_block: Seq<u8>,
    secondary_block: Seq<u8>,
    block_size: u64,
    num_blocks: u64,
) -> Result<LabelHeaders, LabelError> {
    let first = NexusLabel::read_primary_spec(primary_block, block_size, num_blocks);
    let second = NexusLabel::read_secondary_spec(secondary_block, block_size, num_blocks);
    let found: Result<LabelHeaders, LabelError> = match first {
        Ok(primary) => match second {
            Ok(secondary) => match consistency(primary, secondary) {
                Ok(()) => Ok(
                    LabelHeaders { status: NexusLabelStatus::Both, mbr, primary, secondary },
                ),
                Err(error) => Err(LabelError::InvalidLabel { source: error }),
            },
            Err(_) => Ok(
                LabelHeaders {
                    status: NexusLabelStatus::Primary,
                    mbr,
                    primary,
                    secondary: primary.to_secondary_spec(),
                },
            ),
        },
        Err(error) => match second {
            Ok(secondary) => Ok(
                LabelHeaders {
                    status: NexusLabelStatus::Secondary,
                    mbr,
                    primary: secondary.to_primary_spec(),
                    secondary,
                },
            ),
            Err(_) => Err(LabelError::InvalidLabel { source: error }),
        },
    };
    match found {
        Ok(headers) => if mbr.entries[0].num_sectors != 0xffff_ffff && mbr.entries[0].num_sectors
            != headers.primary.lba_alt {
            Err(LabelError::InvalidLabel { source: ProbeError::MbrSize })
        } else {
            Ok(headers)
        },
        Err(error) => Err(error),
    }
}

/// What a label comes to, given its headers and the blocks that hold the
/// partition table of the header in use: the table must be valid under
/// that header, and of its entries those in use are kept.
pub open spec fn probe_partitions_spec(headers: LabelHeaders, table: Seq<u8>, block_size: u64) -> Result<
    LabelSpec,
    LabelError,
> {
    match NexusLabel::read_partitions_spec(table, headers.active()) {
        Ok(entries) => Ok(
            LabelSpec {
                status: headers.status,
                block_size,
                mbr: headers.mbr,
                primary: headers.primary,
                partitions: entries.filter(|entry: EntrySpec| in_use(entry)),
                secondary: headers.secondary,
            },
        ),
        Err(error) => Err(LabelError::InvalidLabel { source: error }),
    }
}

/// The `len` bytes at `offset` of a device, if it has them.
pub open spec fn block_at(disk: Seq<u8>, offset: int, len: int) -> Option<Seq<u8>> {
    if 0 <= offset && 0 <= len && offset + len <= disk.len() {
        Some(disk.subrange(offset, offset + len))
    } else {
        None
    }
}

/// The bytes of a device at an extent, if it has them.
pub open spec fn extent_at(disk: Seq<u8>, extent: (u128, u128)) -> Option<Seq<u8>> {
    block_at(disk, extent.0 as int, extent.1 as int)
}

/// What the device holds where the secondary header lies, if it has that
/// place.
pub open spec fn secondary_at(disk: Seq<u8>, block_size: u64, num_blocks: u64) -> Option<Seq<u8>> {
    match header_extents_of(block_size, num_blocks).secondary {
        Some(extent) => extent_at(disk, extent),
        None => None,
    }
}

/// What a probe makes of a device of `num_blocks` blocks of `block_size`
/// bytes that holds `disk`: the MBR is read from the first block, the
/// headers from the second and the last, the partition table from where
/// the header in use says: the places that `header_extents_of` and the
/// headers' `table_offset` and `table_len` give. A read beyond the device
/// fails.
pub open spec fn probe_spec(disk: Seq<u8>, block_size: u64, num_blocks: u64) -> Result<
    LabelSpec,
    LabelError,
> {
    let extents = header_extents_of(block_size, num_blocks);
    match extent_at(disk, extents.mbr) {
        None => Err(LabelError::ReadError { part: LabelPart::Mbr }),
        Some(mbr_block) => match NexusLabel::read_mbr_spec(mbr_block) {
            Err(error) => Err(LabelError::InvalidLabel { source: error }),
            Ok(mbr) => match extent_at(disk, extents.primary) {
                None => Err(LabelError::ReadError { part: LabelPart::PrimaryHeader }),
                Some(primary_block) => match secondary_at(disk, block_size, num_blocks) {
                    None => Err(LabelError::ReadError { part: LabelPart::SecondaryHeader }),
                    Some(secondary_block) => match probe_headers_spec(
                        mbr,
                        primary_block,
                        secondary_block,
                        block_size,
                        num_blocks,
                    ) {
                        Err(error) => Err(error),
                        Ok(headers) => match block_at(
                            disk,
                            headers.table_offset(block_size),
                            headers.table_len(block_size),
                        ) {
                            None => Err(LabelError::ReadError { part: LabelPart::PartitionTable }),
                            Some(table) => probe_partitions_spec(headers, table, block_size),
                        },
                    },
                },
            },
        },
    }
}

impl LabelHeaders {
    /// The header whose partition table is read: the primary one, unless
    /// only the secondary one was found valid.
    pub open spec fn active(self) -> GptHeader {
        if self.status == NexusLabelStatus::Secondary {
            self.secondary
        } else {
            self.primary
        }
    }

    /// The offset in bytes of the partition table to read.
    pub open spec fn table_offset(self, block_size: u64) -> int {
        self.active().lba_table * block_size
    }

    /// The number of bytes of the partition table to read: the blocks
    /// that the entries take.
    pub open spec fn table_len(self, block_size: u64) -> int {
        blocks_for(self.active().entry_size * self.active().num_entries, block_size as int)
            * block_size
    }

    /// The header whose partition table is to be read.
    pub fn active_header(&self) -> (header: GptHeader)
        ensures
            header == self.active(),
    {
        match self.status {
            NexusLabelStatus::Secondary => self.secondary,
            _ => self.primary,
        }
    }

    /// Where to read the partition table: offset and length in bytes.
    pub fn table_extent(&self, block_size: u64) -> (extent: (u128, u128))
        requires
            block_size > 0,
        ensures
            extent.0 == self.table_offset(block_size),
            extent.1 == self.table_len(block_size),
    {
        let active = self.active_header();
        proof {
            lemma_product_fits(active.entry_size as int, active.num_entries as int);
        }
        let size: u64 = (active.entry_size as u64) * (active.num_entries as u64);
        proof {
            lemma_blocks_for_is_ceiling(size as int, block_size as int);
        }
        let blocks: u64 = <u64 as Aligned>::get_blocks(size, block_size);
        proof {
            lemma_product_fits(active.lba_table as int, block_size as int);
            lemma_product_fits(blocks as int, block_size as int);
        }
        ((active.lba_table as u128) * (block_size as u128), (blocks as u128) * (block_size as u128))
    }
}

impl NexusLabel {
    /// Where to read the MBR and the two headers of a label on a device
    /// of `num_blocks` blocks of `block_size` bytes.
    pub fn header_extents(block_size: u64, num_blocks: u64) -> (extents: HeaderExtents)
        ensures
            extents == header_extents_of(block_size, num_blocks),
    {
        let size: u128 = block_size as u128;
        let secondary: Option<(u128, u128)> = if num_blocks == 0 {
            None
        } else {
            proof {
                lemma_product_fits(num_blocks - 1, block_size as int);
            }
            Some((((num_blocks - 1) as u128) * size, size))
        };
        HeaderExtents { mbr: (0, size), primary: (size, size), secondary }
    }

    /// Settles the headers of a label from the MBR and the blocks read
    /// from the places of the primary and the secondary header.
    pub fn probe_headers(
        mbr: Pmbr,
        primary_block: &[u8],
        secondary_block: &[u8],
        block_size: u64,
        num_blocks: u64,
    ) -> (r: Result<LabelHeaders, LabelError>)
        requires
            block_size > 0,
        ensures
            r == probe_headers_spec(mbr, primary_block@, secondary_block@, block_size, num_blocks),
    {
        let first = NexusLabel::read_primary_header(primary_block, block_size, num_blocks);
        let second = NexusLabel::read_secondary_header(secondary_block, block_size, num_blocks);
        let headers = match first {
            Ok(primary) => {
                match second {
                    Ok(secondary) => {
                        match NexusLabel::consistency_check(&primary, &secondary) {
                            Ok(()) => {},
                            Err(error) => {
                                return Err(LabelError::InvalidLabel { source: error });
                            },
                        }
                        // All good - primary and secondary GTP headers
                        // are valid and consistent with each other.
                        LabelHeaders { status: NexusLabelStatus::Both, mbr, primary, secondary }
                    },
                    Err(_) => {
                        // Secondary GPT header is either not present
                        // or invalid. Construct new secondary
                        // GPT header from primary.
                        LabelHeaders {
                            status: NexusLabelStatus::Primary,
                            mbr,
                            primary,
                            secondary: primary.to_secondary(),
                        }
                    },
                }
            },
            Err(error) => {
                // Primary GPT header is either not present or invalid.
                // See if we can obtain a valid secondary GPT header.
                match second {
                    Ok(secondary) => {
                        // Construct new primary GPT header from secondary.
                        LabelHeaders {
                            status: NexusLabelStatus::Secondary,
                            mbr,
                            primary: secondary.to_primary(),
                            secondary,
                        }
                    },
                    Err(_) => {
                        // Neither primary or secondary GPT header
                        // is present or valid.
                        return Err(LabelError::InvalidLabel { source: error });
                    },
                }
            },
        };
        // The disk size recorded in protective MBR
        // must be consistent with GPT header.
        if mbr.entries[0].num_sectors != 0xffff_ffff && mbr.entries[0].num_sectors as u64
            != headers.primary.lba_alt {
            return Err(LabelError::InvalidLabel { source: ProbeError::MbrSize });
        }
        Ok(headers)
    }

    /// Completes a label from its headers and the blocks read from the
    /// place of the partition table.
    pub fn probe_partitions(headers: &LabelHeaders, table: &[u8], block_size: u64) -> (r: Result<
        NexusLabel,
        LabelError,
    >)
        ensures
            match r {
                Ok(label) => Ok::<LabelSpec, LabelError>(label@) == probe_partitions_spec(
                    *headers,
                    table@,
                    block_size,
                ),
                Err(error) => Err::<LabelSpec, LabelError>(error) == probe_partitions_spec(
                    *headers,
                    table@,
                    block_size,
                ),
            },
    {
        let active = headers.active_header();
        let all = match NexusLabel::read_partitions(table, &active) {
            Ok(partitions) => partitions,
            Err(error) => {
                return Err(LabelError::InvalidLabel { source: error });
            },
        };
        // There can be up to 128 partition entries stored on disk,
        // even though most are not used. Retain only those entries
        // that actually define partitions.
        let partitions = Self::retain_used(&all);
        Ok(
            NexusLabel {
                status: headers.status,
                block_size,
                mbr: headers.mbr,
                primary: headers.primary,
                partitions,
                secondary: headers.secondary,
            },
        )
    }

    /// The entries of a table that define partitions, in their order.
    pub fn retain_used(all: &Vec<GptEntry>) -> (used: Vec<GptEntry>)
        ensures
            views(used@) == views(all@).filter(|entry: EntrySpec| in_use(entry)),
    {
        let ghost keep = |entry: EntrySpec| in_use(entry);
        let ghost entries = views(all@);
        let mut used: Vec<GptEntry> = Vec::new();
        let mut i: usize = 0;
        proof {
            reveal(Seq::filter);
            assert(entries.take(0).filter(keep) =~= Seq::<EntrySpec>::empty());
            assert(views(used@) =~= Seq::<EntrySpec>::empty());
        }
        while i < all.len()
            invariant
                i <= all.len(),
                entries == views(all@),
                keep == |entry: EntrySpec| in_use(entry),
                views(used@) == entries.take(i as int).filter(keep),
            decreases all.len() - i,
        {
            let entry = &all[i];
            let ghost before = views(used@);
            proof {
                assert(entries.take(i + 1) =~= entries.take(i as int).push(entries[i as int]));
                entries.take(i as int).lemma_filter_push(entries[i as int], keep);
                assert(entry@ == entries[i as int]);
            }
            if entry.ent_start > 0 && entry.ent_end > 0 {
                used.push(entry.clone());
                assert(views(used@) =~= before.push(entry@));
            }
            i = i + 1;
        }
        assert(entries.take(all.len() as int) =~= entries);
        used
    }
}

impl NexusChild {
    /// The `len` bytes at `offset` of an image, if it has them.
    pub fn read_at(disk: &[u8], offset: u128, len: u128) -> (r: Option<&[u8]>)
        ensures
            match r {
                Some(block) => block_at(disk@, offset as int, len as int) == Some(block@),
                None => block_at(disk@, offset as int, len as int) is None,
            },
    {
        if offset > disk.len() as u128 || len > disk.len() as u128 - offset {
            None
        } else {
            Some(slice_subrange(disk, offset as usize, (offset + len) as usize))
        }
    }

    /// read and validate this child's label
    ///
    /// `disk` is what the child's device holds. The child must have a
    /// device, whose geometry says where the label lies.
    ///
    /// This is the probe of a device that is held in memory as a whole. A
    /// caller that reads from its device as it goes makes the same reads
    /// in the same order: those of `NexusLabel::header_extents`, judged
    /// by `NexusLabel::read_mbr` and `NexusLabel::probe_headers`, then
    /// that of `LabelHeaders::table_extent`, judged by
    /// `NexusLabel::probe_partitions`.
    pub fn probe_label(&self, disk: &[u8]) -> (r: Result<NexusLabel, LabelError>)
        requires
            self.wf(),
        ensures
            match self.bdev {
                Some(bdev) => match r {
                    Ok(label) => Ok::<LabelSpec, LabelError>(label@) == probe_spec(
                        disk@,
                        bdev.block_len as u64,
                        bdev.num_blocks,
                    ),
                    Err(error) => Err::<LabelSpec, LabelError>(error) == probe_spec(
                        disk@,
                        bdev.block_len as u64,
                        bdev.num_blocks,
                    ),
                },
                None => r matches Err(LabelError::HandleError { name }) && name@ == self.name@,
            },
    {
        let (block_size, num_blocks) = match &self.bdev {
            Some(bdev) => (bdev.block_len as u64, bdev.num_blocks),
            None => {
                return Err(LabelError::HandleError { name: self.name.clone() });
            },
        };
        let extents = NexusLabel::header_extents(block_size, num_blocks);
        // Protective MBR
        let mbr_block = match Self::read_at(disk, extents.mbr.0, extents.mbr.1) {
            Some(block) => block,
            None => {
                return Err(LabelError::ReadError { part: LabelPart::Mbr });
            },
        };
        let mbr = match NexusLabel::read_mbr(mbr_block) {
            Ok(mbr) => mbr,
            Err(error) => {
                return Err(LabelError::InvalidLabel { source: error });
            },
        };
        // GPT headers
        let primary_block = match Self::read_at(disk, extents.primary.0, extents.primary.1) {
            Some(block) => block,
            None => {
                return Err(LabelError::ReadError { part: LabelPart::PrimaryHeader });
            },
        };
        let secondary_block = match extents.secondary {
            Some((offset, len)) => match Self::read_at(disk, offset, len) {
                Some(block) => block,
                None => {
                    return Err(LabelError::ReadError { part: LabelPart::SecondaryHeader });
                },
            },
            None => {
                return Err(LabelError::ReadError { part: LabelPart::SecondaryHeader });
            },
        };
        let headers = match NexusLabel::probe_headers(
            mbr,
            primary_block,
            secondary_block,
            block_size,
            num_blocks,
        ) {
            Ok(headers) => headers,
            Err(error) => {
                return Err(error);
            },
        };
        // Partition table
        let (offset, len) = headers.table_extent(block_size);
        let table = match Self::read_at(disk, offset, len) {
            Some(block) => block,
            None => {
                return Err(LabelError::ReadError { part: LabelPart::PartitionTable });
            },
        };
        NexusLabel::probe_partitions(&headers, table, block_size)
    }
}

} // verus!
