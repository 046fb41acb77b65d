//! Writing a label to a child: the bytes of each half and where they go.
use crate::aligned::lemma_product_fits;
use crate::errors::{LabelError, LabelHalf};
use crate::gpt_entry::{table_bytes, table_chunks, views, EntrySpec, GptEntry};
use crate::nexus_child::NexusChild;
use crate::nexus_label::{LabelSpec, NexusLabel, NexusLabelStatus};
use crate::wire::{lemma_join_len, overlay, put_zeros, write_over, zeros};
use vstd::prelude::*;

verus! {

/// Bytes to write to a child, and the offset to write them at.
#[derive(Debug, PartialEq, Eq)]
pub struct LabelData {
    pub offset: u64,
    pub buf: Vec<u8>,
}

/// Bytes to write and their offset, as a mathematical value.
pub struct DataSpec {
    pub offset: u64,
    pub buf: Seq<u8>,
}

impl View for LabelData {
    type V = DataSpec;

    open spec fn view(&self) -> DataSpec {
        DataSpec { offset: self.offset, buf: self.buf@ }
    }
}

/// The views of a sequence of writes.
pub open spec fn data_views(writes: Seq<LabelData>) -> Seq<DataSpec> {
    writes.map_values(|data: LabelData| data@)
}

/// The bytes of the entries of a table, one entry after the other.
pub open spec fn entries_image(entries: Seq<EntrySpec>) -> Seq<u8> {
    table_bytes(entries, 0)
}

/// A buffer with `bytes` written at `at`, unless they do not fit.
pub open spec fn placed(buf: Seq<u8>, at: int, bytes: Seq<u8>) -> Result<Seq<u8>, LabelError> {
    if at + bytes.len() > buf.len() {
        Err(LabelError::SerializeError)
    } else {
        Ok(overlay(buf, at, bytes))
    }
}

/// The primary half of a label: a buffer from the start of the device to
/// the first usable block, zero but for the MBR record at byte 440, the
/// primary header in its block and the partition table in its blocks.
pub open spec fn primary_data(label: LabelSpec, block_size: u64) -> Result<DataSpec, LabelError> {
    let len = label.primary.lba_start * block_size;
    let table = entries_image(label.partitions);
    if len > usize::MAX {
        Err(LabelError::WriteAlloc { half: LabelHalf::Primary })
    } else {
        match placed(zeros(len as nat), 440, label.mbr.bytes()) {
            Err(error) => Err(error),
            Ok(first) => match placed(
                first,
                label.primary.lba_self * block_size,
                label.primary.bytes(),
            ) {
                Err(error) => Err(error),
                Ok(second) => if table.len() == 0 {
                    Ok(DataSpec { offset: 0, buf: second })
                } else {
                    match placed(second, label.primary.lba_table * block_size, table) {
                        Err(error) => Err(error),
                        Ok(third) => Ok(DataSpec { offset: 0, buf: third }),
                    }
                },
            },
        }
    }
}

/// The secondary half of a label: a buffer from the first block of the
/// secondary partition table to the block of the secondary header, zero
/// but for the table at its start and the header in the last block.
pub open spec fn secondary_data(label: LabelSpec, block_size: u64) -> Result<DataSpec, LabelError> {
    let blocks = label.secondary.lba_self - label.secondary.lba_table + 1;
    let len = blocks * block_size;
    let table = entries_image(label.partitions);
    if blocks <= 0 || len > usize::MAX || label.secondary.lba_table * block_size > u64::MAX {
        Err(LabelError::WriteAlloc { half: LabelHalf::Secondary })
    } else {
        match placed(zeros(len as nat), 0, table) {
            Err(error) => Err(error),
            Ok(first) => match placed(first, (blocks - 1) * block_size, label.secondary.bytes()) {
                Err(error) => Err(error),
                Ok(second) => Ok(
                    DataSpec {
                        offset: (label.secondary.lba_table * block_size) as u64,
                        buf: second,
                    },
                ),
            },
        }
    }
}

/// What is written for a label: the halves that the device lacks, going
/// by the status of the label, the primary one first. No half is written
/// unless all that are due can be made.
pub open spec fn label_writes(label: LabelSpec, block_size: u64) -> Result<
    Seq<DataSpec>,
    LabelError,
> {
    match label.status {
        NexusLabelStatus::Both => Ok(Seq::empty()),
        NexusLabelStatus::Primary => match secondary_data(label, block_size) {
            Ok(secondary) => Ok(seq![secondary]),
            Err(error) => Err(error),
        },
        NexusLabelStatus::Secondary => match primary_data(label, block_size) {
            Ok(primary) => Ok(seq![primary]),
            Err(error) => Err(error),
        },
        NexusLabelStatus::Neither => match primary_data(label, block_size) {
            Ok(primary) => match secondary_data(label, block_size) {
                Ok(secondary) => Ok(seq![primary, secondary]),
                Err(error) => Err(error),
            },
            Err(error) => Err(error),
        },
    }
}

/// What stands against the writes of a label, if anything.
pub open spec fn writes_fault(label: LabelSpec, block_size: u64) -> Option<LabelError> {
    match label_writes(label, block_size) {
        Ok(_) => None,
        Err(error) => Some(error),
    }
}

/// Whether two results fail alike, or both succeed.
pub open spec fn alike(first: Result<DataSpec, LabelError>, second: Result<DataSpec, LabelError>) -> bool {
    match (first, second) {
        (Ok(_), Ok(_)) => true,
        (Err(one), Err(other)) => one == other,
        _ => false,
    }
}

/// Whether writes of as many bytes fit into buffers of the same length
/// does not depend on the bytes, and leaves buffers of that length.
pub proof fn lemma_placed_alike(
    first: Seq<u8>,
    second: Seq<u8>,
    at: int,
    one: Seq<u8>,
    other: Seq<u8>,
)
    requires
        first.len() == second.len(),
        one.len() == other.len(),
    ensures
        match (placed(first, at, one), placed(second, at, other)) {
            (Ok(left), Ok(right)) => left.len() == first.len() && right.len() == first.len(),
            (Err(error), Err(fault)) => error == fault,
            _ => false,
        },
{
}

/// Whether the primary half of a label can be made depends on where its
/// parts lie and on the number of its partitions, not on what they hold.
pub proof fn lemma_primary_fault(first: LabelSpec, second: LabelSpec, block_size: u64)
    requires
        first.partitions.len() == second.partitions.len(),
        first.primary.lba_self == second.primary.lba_self,
        first.primary.lba_start == second.primary.lba_start,
        first.primary.lba_table == second.primary.lba_table,
    ensures
        alike(primary_data(first, block_size), primary_data(second, block_size)),
{
    first.mbr.lemma_round_trip();
    second.mbr.lemma_round_trip();
    first.primary.lemma_round_trip();
    second.primary.lemma_round_trip();
    lemma_table_len(first.partitions);
    lemma_table_len(second.partitions);
    let len = first.primary.lba_start * block_size;
    if len <= usize::MAX {
        let blank = zeros(len as nat);
        lemma_placed_alike(blank, blank, 440, first.mbr.bytes(), second.mbr.bytes());
        match (
            placed(blank, 440, first.mbr.bytes()),
            placed(blank, 440, second.mbr.bytes()),
        ) {
            (Ok(left), Ok(right)) => {
                let at = first.primary.lba_self * block_size;
                lemma_placed_alike(left, right, at, first.primary.bytes(), second.primary.bytes());
                match (
                    placed(left, at, first.primary.bytes()),
                    placed(right, at, second.primary.bytes()),
                ) {
                    (Ok(left), Ok(right)) => {
                        lemma_placed_alike(
                            left,
                            right,
                            first.primary.lba_table * block_size,
                            entries_image(first.partitions),
                            entries_image(second.partitions),
                        );
                    },
                    _ => {},
                }
            },
            _ => {},
        }
    }
}

/// Whether the secondary half of a label can be made depends on where
/// its parts lie and on the number of its partitions, not on what they
/// hold.
pub proof fn lemma_secondary_fault(first: LabelSpec, second: LabelSpec, block_size: u64)
    requires
        first.partitions.len() == second.partitions.len(),
        first.secondary.lba_self == second.secondary.lba_self,
        first.secondary.lba_table == second.secondary.lba_table,
    ensures
        alike(secondary_data(first, block_size), secondary_data(second, block_size)),
{
    first.secondary.lemma_round_trip();
    second.secondary.lemma_round_trip();
    lemma_table_len(first.partitions);
    lemma_table_len(second.partitions);
    let blocks = first.secondary.lba_self - first.secondary.lba_table + 1;
    let len = blocks * block_size;
    if !(blocks <= 0 || len > usize::MAX || first.secondary.lba_table * block_size > u64::MAX) {
        let blank = zeros(len as nat);
        lemma_placed_alike(
            blank,
            blank,
            0,
            entries_image(first.partitions),
            entries_image(second.partitions),
        );
        match (
            placed(blank, 0, entries_image(first.partitions)),
            placed(blank, 0, entries_image(second.partitions)),
        ) {
            (Ok(left), Ok(right)) => {
                lemma_placed_alike(
                    left,
                    right,
                    (blocks - 1) * block_size,
                    first.secondary.bytes(),
                    second.secondary.bytes(),
                );
            },
            _ => {},
        }
    }
}

/// Whether the halves of a label can be made depends on where its parts
/// lie and on the number of its partitions, not on what they hold.
pub proof fn lemma_writes_fault(first: LabelSpec, second: LabelSpec, block_size: u64)
    requires
        first.status == second.status,
        first.partitions.len() == second.partitions.len(),
        first.primary.lba_self == second.primary.lba_self,
        first.primary.lba_start == second.primary.lba_start,
        first.primary.lba_table == second.primary.lba_table,
        first.secondary.lba_self == second.secondary.lba_self,
        first.secondary.lba_table == second.secondary.lba_table,
    ensures
        writes_fault(first, block_size) == writes_fault(second, block_size),
{
    lemma_primary_fault(first, second, block_size);
    lemma_secondary_fault(first, second, block_size);
}

/// The bytes of a table are 128 for each entry.
pub proof fn lemma_table_len(entries: Seq<EntrySpec>)
    ensures
        entries_image(entries).len() == 128 * entries.len(),
{
    let chunks = entries.map_values(|entry: EntrySpec| entry.bytes());
    assert(table_chunks(entries, 0) =~= chunks);
    assert forall|k: int| 0 <= k < chunks.len() implies (#[trigger] chunks[k]).len() == 128 by {
        entries[k].lemma_len();
    }
    lemma_join_len(chunks, 128);
}

/// Writes `bytes` into the buffer at `at`, unless they do not fit.
pub fn place(buf: &mut Vec<u8>, at: u128, bytes: &[u8]) -> (r: Result<(), LabelError>)
    ensures
        match r {
            Ok(()) => placed(old(buf)@, at as int, bytes@) == Ok::<Seq<u8>, LabelError>(
                final(buf)@,
            ),
            Err(error) => placed(old(buf)@, at as int, bytes@) == Err::<Seq<u8>, LabelError>(error)
                && final(buf)@ == old(buf)@,
        },
{
    if at > buf.len() as u128 || bytes.len() as u128 > buf.len() as u128 - at {
        return Err(LabelError::SerializeError);
    }
    write_over(buf, at as usize, bytes);
    Ok(())
}

impl NexusChild {
    /// The block length of the device behind the child.
    pub fn block_len(&self) -> (r: Result<u64, LabelError>)
        ensures
            match self.bdev {
                Some(bdev) => r == Ok::<u64, LabelError>(bdev.block_len as u64),
                None => r matches Err(LabelError::HandleError { name }) && name@ == self.name@,
            },
    {
        match &self.bdev {
            Some(bdev) => Ok(bdev.block_len as u64),
            None => Err(LabelError::HandleError { name: self.name.clone() }),
        }
    }

    /// generate raw data for (primary) label ready to be written to disk
    pub fn get_primary_data(&self, label: &NexusLabel) -> (r: Result<LabelData, LabelError>)
        ensures
            match self.bdev {
                Some(bdev) => match r {
                    Ok(data) => Ok::<DataSpec, LabelError>(data@) == primary_data(
                        label@,
                        bdev.block_len as u64,
                    ),
                    Err(error) => Err::<DataSpec, LabelError>(error) == primary_data(
                        label@,
                        bdev.block_len as u64,
                    ),
                },
                None => r matches Err(LabelError::HandleError { name }) && name@ == self.name@,
            },
    {
        let block_size = match self.block_len() {
            Ok(block_size) => block_size,
            Err(error) => {
                return Err(error);
            },
        };
        proof {
            lemma_product_fits(label.primary.lba_start as int, block_size as int);
            lemma_product_fits(label.primary.lba_self as int, block_size as int);
            lemma_product_fits(label.primary.lba_table as int, block_size as int);
        }
        let len: u128 = (label.primary.lba_start as u128) * (block_size as u128);
        if len > usize::MAX as u128 {
            return Err(LabelError::WriteAlloc { half: LabelHalf::Primary });
        }
        let mut buf: Vec<u8> = Vec::new();
        put_zeros(&mut buf, len as usize);
        assert(buf@ =~= zeros(len as nat));
        // Protective MBR
        let mbr = label.mbr.to_bytes();
        match place(&mut buf, 440, mbr.as_slice()) {
            Ok(()) => {},
            Err(error) => {
                return Err(error);
            },
        }
        // Primary GPT header
        let header = label.primary.to_bytes();
        match place(
            &mut buf,
            (label.primary.lba_self as u128) * (block_size as u128),
            header.as_slice(),
        ) {
            Ok(()) => {},
            Err(error) => {
                return Err(error);
            },
        }
        // Primary partition table
        let table = GptEntry::table(label.partitions.as_slice(), 0);
        if table.len() > 0 {
            match place(
                &mut buf,
                (label.primary.lba_table as u128) * (block_size as u128),
                table.as_slice(),
            ) {
                Ok(()) => {},
                Err(error) => {
                    return Err(error);
                },
            }
        }
        Ok(LabelData { offset: 0, buf })
    }

    /// generate raw data for (secondary) label ready to be written to disk
    pub fn get_secondary_data(&self, label: &NexusLabel) -> (r: Result<LabelData, LabelError>)
        ensures
            match self.bdev {
                Some(bdev) => match r {
                    Ok(data) => Ok::<DataSpec, LabelError>(data@) == secondary_data(
                        label@,
                        bdev.block_len as u64,
                    ),
                    Err(error) => Err::<DataSpec, LabelError>(error) == secondary_data(
                        label@,
                        bdev.block_len as u64,
                    ),
                },
                None => r matches Err(LabelError::HandleError { name }) && name@ == self.name@,
            },
    {
        let block_size = match self.block_len() {
            Ok(block_size) => block_size,
            Err(error) => {
                return Err(error);
            },
        };
        if label.secondary.lba_table > label.secondary.lba_self {
            return Err(LabelError::WriteAlloc { half: LabelHalf::Secondary });
        }
        let blocks: u128 = (label.secondary.lba_self - label.secondary.lba_table) as u128 + 1;
        proof {
            lemma_product_fits(blocks - 1, block_size as int);
            lemma_product_fits(label.secondary.lba_table as int, block_size as int);
            assert(blocks * block_size <= 0x1_0000_0000_0000_0000 * 0xffff_ffff_ffff_ffff)
                by (nonlinear_arith)
                requires
                    0 <= blocks <= 0x1_0000_0000_0000_0000,
                    0 <= block_size <= 0xffff_ffff_ffff_ffff,
            ;
        }
        let len: u128 = blocks * (block_size as u128);
        let offset: u128 = (label.secondary.lba_table as u128) * (block_size as u128);
        if len > usize::MAX as u128 || offset > u64::MAX as u128 {
            return Err(LabelError::WriteAlloc { half: LabelHalf::Secondary });
        }
        let mut buf: Vec<u8> = Vec::new();
        put_zeros(&mut buf, len as usize);
        assert(buf@ =~= zeros(len as nat));
        // Secondary partition table
        let table = GptEntry::table(label.partitions.as_slice(), 0);
        match place(&mut buf, 0, table.as_slice()) {
            Ok(()) => {},
            Err(error) => {
                return Err(error);
            },
        }
        // Secondary GPT header
        let header = label.secondary.to_bytes();
        match place(&mut buf, (blocks - 1) * (block_size as u128), header.as_slice()) {
            Ok(()) => {},
            Err(error) => {
                return Err(error);
            },
        }
        Ok(LabelData { offset: offset as u64, buf })
    }

    /// The writes that bring a label to the child's device: the halves
    /// that the device lacks, the primary one first.
    pub fn write_label(&self, label: &NexusLabel) -> (r: Result<Vec<LabelData>, LabelError>)
        ensures
            match self.bdev {
                Some(bdev) => match r {
                    Ok(writes) => Ok::<Seq<DataSpec>, LabelError>(data_views(writes@))
                        == label_writes(label@, bdev.block_len as u64),
                    Err(error) => Err::<Seq<DataSpec>, LabelError>(error) == label_writes(
                        label@,
                        bdev.block_len as u64,
                    ),
                },
                None => label.status != NexusLabelStatus::Both ==> (r matches Err(
                    LabelError::HandleError { name },
                ) && name@ == self.name@),
            },
            self.bdev is None && label.status == NexusLabelStatus::Both ==> (r matches Ok(writes)
                && writes@.len() == 0),
    {
        let mut writes: Vec<LabelData> = Vec::new();
        match label.status {
            NexusLabelStatus::Both => {
                // Nothing to do as both labels on disk are valid.
                assert(data_views(writes@) =~= Seq::<DataSpec>::empty());
            },
            NexusLabelStatus::Primary => {
                // Only write out secondary as disk already has valid primary.
                let secondary = match self.get_secondary_data(label) {
                    Ok(data) => data,
                    Err(error) => {
                        return Err(error);
                    },
                };
                let ghost second = secondary@;
                writes.push(secondary);
                assert(data_views(writes@) =~= seq![second]);
            },
            NexusLabelStatus::Secondary => {
                // Only write out primary as disk already has valid secondary.
                let primary = match self.get_primary_data(label) {
                    Ok(data) => data,
                    Err(error) => {
                        return Err(error);
                    },
                };
                let ghost first = primary@;
                writes.push(primary);
                assert(data_views(writes@) =~= seq![first]);
            },
            NexusLabelStatus::Neither => {
                // Write out both labels.
                let primary = match self.get_primary_data(label) {
                    Ok(data) => data,
                    Err(error) => {
                        return Err(error);
                    },
                };
                let secondary = match self.get_secondary_data(label) {
                    Ok(data) => data,
                    Err(error) => {
                        return Err(error);
                    },
                };
                let ghost first = primary@;
                let ghost second = secondary@;
                writes.push(primary);
                writes.push(secondary);
                assert(data_views(writes@) =~= seq![first, second]);
            },
        }
        Ok(writes)
    }
}

} // verus!
