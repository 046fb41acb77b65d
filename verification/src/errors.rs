//! What can be wrong with a label.
use vstd::prelude::*;

verus! {

/// Why a label found on a device was not accepted.
#[derive(Debug, PartialEq, Eq)]
pub enum ProbeError {
    /// The bytes are too few, or a partition name has no terminator.
    DeserializeError,
    /// Incorrect MBR signature
    MbrSignature,
    /// Disk size in MBR does not match size in GPT header
    MbrSize,
    /// Incorrect GPT header signature
    GptSignature,
    /// Incorrect GPT header revision
    GptRevision,
    /// Incorrect GPT header size
    GptHeaderSize { actual_size: u32, expected_size: u32 },
    /// Incorrect GPT header checksum
    GptChecksum,
    /// Incorrect GPT partition table checksum
    PartitionTableChecksum,
    /// Disk GUIDs differ
    CompareDiskGuid,
    /// GPT stored partition table checksums differ
    ComparePartitionTableChecksum,
    /// GPT partition table location is incorrect
    PartitionTableLocation,
    /// Missing partition
    MissingPartition { name: String },
    /// Primary GTP header location is incorrect
    PrimaryLocation,
    /// Secondary GTP header location is incorrect
    SecondaryLocation,
    /// Location of first usable block is incorrect
    FirstUsableBlock,
    /// Location of last usable block is incorrect
    LastUsableBlock,
    /// Partition table exceeds maximum size
    PartitionTableSize,
    /// Insufficient space reserved for partition table
    PartitionTableSpace,
    /// Partition starts before first usable block
    PartitionStart,
    /// Partition ends after last usable block
    PartitionEnd,
    /// Partition has negative size
    NegativePartitionSize,
    /// GPT header locations are inconsistent
    CompareHeaderLocation,
    /// Number of partition table entries differ
    ComparePartitionEntryCount,
    /// Partition table entry sizes differ
    ComparePartitionEntrySize,
    /// Incorrect partition layout
    IncorrectPartitions,
    /// Label is invalid
    LabelRedundancy,
}

/// The parts that a label is read in.
#[derive(Debug, PartialEq, Eq, Clone, Copy, Structural)]
pub enum LabelPart {
    /// The protective MBR, in the first block.
    Mbr,
    /// The primary GPT header, in the second block.
    PrimaryHeader,
    /// The secondary GPT header, in the last block.
    SecondaryHeader,
    /// The partition table that belongs to the header in use.
    PartitionTable,
}

/// The halves that a label is written in.
#[derive(Debug, PartialEq, Eq, Clone, Copy, Structural)]
pub enum LabelHalf {
    /// The MBR, the primary header and its partition table.
    Primary,
    /// The secondary partition table and its header.
    Secondary,
}

/// Why a label could not be made, read or written.
#[derive(Debug, PartialEq, Eq)]
pub enum LabelError {
    /// A part of the label does not fit into the buffer written to the child.
    SerializeError,
    /// The buffer for a half of the label cannot be had: its size is beyond
    /// what can be addressed.
    WriteAlloc { half: LabelHalf },
    /// Error reading a part of the label from the child.
    ReadError { part: LabelPart },
    /// No block device stands behind the child `name`.
    HandleError { name: String },
    /// Label is invalid
    InvalidLabel { source: ProbeError },
    /// Device is too small to accomodate Metadata partition
    DeviceTooSmall { num_blocks: u64, block_size: u32 },
    /// Child data offsets differ for the nexus `name`
    DataOffsetMismatch { name: String },
    /// The written label could not be read back from the child `name`
    ReReadError { name: String },
}

impl LabelError {
    /// The label error that stands for a probe error.
    pub fn from(error: ProbeError) -> (r: LabelError)
        ensures
            r == (LabelError::InvalidLabel { source: error }),
    {
        LabelError::InvalidLabel { source: error }
    }
}

} // verus!
