//! GPT labeling for Nexus devices. The primary partition
//! (/dev/x1) will be used for meta data during, rebuild. The second
//! partition contains the file system.
//!
//! The nexus will adjust internal data structures to offset the IO to the
//! right partition. put differently, when connecting to this device via
//! NVMF or iSCSI it will show up as device with just one partition.
//!
//! When the nexus is removed from the data path and other initiations are
//! used, the data is still accessible and thus removes us has a hard
//! dependency in the data path.
use crate::aligned::{blocks_for, lemma_blocks_for_is_ceiling, Aligned};
use crate::errors::{LabelError, ProbeError};
use crate::gpt_entry::{table_crc, views, EntrySpec, GptEntry, GptName};
use crate::gpt_header::GptHeader;
use crate::guid::GptGuid;
use crate::mbr::{MbrEntry, Pmbr};
use crate::nexus_bdev::Nexus;
use crate::nexus_child::NexusChild;
use vstd::prelude::*;

verus! {

#[derive(Clone, Copy, Debug, PartialEq, Eq, Structural)]
pub enum NexusLabelStatus {
    /// Both primary and secondary labels are synced with disk.
    Both,
    /// Only primary label is synced with disk.
    Primary,
    /// Only secondary label is synced with disk.
    Secondary,
    /// Neither primary or secondary labels are synced with disk.
    Neither,
}

/// The nexus label is standard GPT label (such that you can use it without us
/// in the data path) The only thing that is really specific to us is the
/// ent_type GUID if we see that attached to a partition, we assume the data in
/// that partition is ours. In the data we will have more magic markers to
/// confirm the assumption but this is step one.
#[derive(Debug, PartialEq, Eq)]
pub struct NexusLabel {
    /// The status of the Nexus labels
    pub status: NexusLabelStatus,
    /// Block size of underlying device
    pub block_size: u64,
    /// The protective MBR
    pub mbr: Pmbr,
    /// The main GPT header
    pub primary: GptHeader,
    /// Vector of GPT entries where the first element is considered to be ours
    pub partitions: Vec<GptEntry>,
    /// The backup GPT header
    pub secondary: GptHeader,
}

/// A label as a mathematical value.
pub struct LabelSpec {
    pub status: NexusLabelStatus,
    pub block_size: u64,
    pub mbr: Pmbr,
    pub primary: GptHeader,
    pub partitions: Seq<EntrySpec>,
    pub secondary: GptHeader,
}

impl View for NexusLabel {
    type V = LabelSpec;

    open spec fn view(&self) -> LabelSpec {
        LabelSpec {
            status: self.status,
            block_size: self.block_size,
            mbr: self.mbr,
            primary: self.primary,
            partitions: views(self.partitions@),
            secondary: self.secondary,
        }
    }
}

impl Clone for NexusLabel {
    fn clone(&self) -> (copy: NexusLabel)
        ensures
            copy@ == self@,
    {
        let mut partitions: Vec<GptEntry> = Vec::new();
        let mut i: usize = 0;
        while i < self.partitions.len()
            invariant
                i <= self.partitions.len(),
                views(partitions@) == views(self.partitions@).take(i as int),
            decreases self.partitions.len() - i,
        {
            let ghost before = views(partitions@);
            let entry = self.partitions[i].clone();
            partitions.push(entry);
            assert(views(partitions@) =~= before.push(self.partitions@[i as int]@));
            assert(views(partitions@) =~= views(self.partitions@).take(i + 1));
            i = i + 1;
        }
        assert(views(self.partitions@).take(self.partitions.len() as int) =~= views(
            self.partitions@,
        ));
        NexusLabel {
            status: self.status,
            block_size: self.block_size,
            mbr: self.mbr,
            primary: self.primary,
            partitions,
            secondary: self.secondary,
        }
    }
}

/// Blocks that a partition table of the largest size takes.
pub open spec fn table_blocks(block_size: u64) -> int {
    blocks_for(GptHeader::PARTITION_TABLE_SIZE as int, block_size as int)
}

/// What is wrong with a primary header on a device of `num_blocks`
/// blocks: the first of the checks on it that fails, if any.
pub open spec fn primary_check(primary: GptHeader, block_size: u64, num_blocks: u64) -> Result<
    (),
    ProbeError,
> {
    if primary.lba_self != 1 {
        Err(ProbeError::PrimaryLocation)
    } else if primary.lba_alt + 1 != num_blocks {
        Err(ProbeError::SecondaryLocation)
    } else if primary.lba_end >= primary.lba_alt {
        Err(ProbeError::LastUsableBlock)
    } else if primary.lba_table != primary.lba_self + 1 {
        Err(ProbeError::PartitionTableLocation)
    } else if primary.num_entries * primary.entry_size > GptHeader::PARTITION_TABLE_SIZE {
        Err(ProbeError::PartitionTableSize)
    } else if primary.lba_table + table_blocks(block_size) > primary.lba_start {
        Err(ProbeError::PartitionTableSpace)
    } else {
        Ok(())
    }
}

/// What is wrong with a secondary header on a device of `num_blocks`
/// blocks: the first of the checks on it that fails, if any.
pub open spec fn secondary_check(
    secondary: GptHeader,
    block_size: u64,
    num_blocks: u64,
) -> Result<(), ProbeError> {
    if secondary.lba_alt != 1 {
        Err(ProbeError::PrimaryLocation)
    } else if secondary.lba_self + 1 != num_blocks {
        Err(ProbeError::SecondaryLocation)
    } else if secondary.lba_alt >= secondary.lba_start {
        Err(ProbeError::FirstUsableBlock)
    } else if secondary.lba_table != secondary.lba_end + 1 {
        Err(ProbeError::PartitionTableLocation)
    } else if secondary.num_entries * secondary.entry_size > GptHeader::PARTITION_TABLE_SIZE {
        Err(ProbeError::PartitionTableSize)
    } else if secondary.lba_table + table_blocks(block_size) > secondary.lba_self {
        Err(ProbeError::PartitionTableSpace)
    } else {
        Ok(())
    }
}

/// What is wrong with the place of one entry under a header, if anything.
pub open spec fn entry_check(entry: EntrySpec, header: GptHeader) -> Result<(), ProbeError> {
    if 0 < entry.ent_start && entry.ent_start < header.lba_start {
        Err(ProbeError::PartitionStart)
    } else if entry.ent_start > entry.ent_end {
        Err(ProbeError::NegativePartitionSize)
    } else if entry.ent_end > header.lba_end {
        Err(ProbeError::PartitionEnd)
    } else {
        Ok(())
    }
}

/// The index of the first entry at or behind `from` whose place is wrong;
/// the number of entries if there is none.
pub open spec fn first_misplaced(entries: Seq<EntrySpec>, header: GptHeader, from: int) -> int
    decreases entries.len() - from,
{
    if from >= entries.len() {
        entries.len() as int
    } else if entry_check(entries[from], header) is Err {
        from
    } else {
        first_misplaced(entries, header, from + 1)
    }
}

/// What is wrong with a partition table under a header: the fault of the
/// first misplaced entry; where all are in place, a table checksum that
/// differs from the one stored in the header.
pub open spec fn partitions_check(entries: Seq<EntrySpec>, header: GptHeader) -> Result<
    (),
    ProbeError,
> {
    let at = first_misplaced(entries, header, 0);
    if at < entries.len() {
        entry_check(entries[at], header)
    } else if header.table_crc != table_crc(entries, header.num_entries) {
        Err(ProbeError::PartitionTableChecksum)
    } else {
        Ok(())
    }
}

/// What the comparison of a table's checksum with the one that the
/// header stores comes to.
pub open spec fn table_crc_check(stored: u32, computed: u32) -> Result<(), ProbeError> {
    if stored != computed {
        Err(ProbeError::PartitionTableChecksum)
    } else {
        Ok(())
    }
}

/// Where the two headers of a label disagree: the first of the
/// comparisons that fails, if any.
pub open spec fn consistency(primary: GptHeader, secondary: GptHeader) -> Result<(), ProbeError> {
    if primary.lba_self != secondary.lba_alt {
        Err(ProbeError::CompareHeaderLocation)
    } else if primary.lba_alt != secondary.lba_self {
        Err(ProbeError::CompareHeaderLocation)
    } else if primary.lba_start != secondary.lba_start {
        Err(ProbeError::FirstUsableBlock)
    } else if primary.lba_end != secondary.lba_end {
        Err(ProbeError::LastUsableBlock)
    } else if primary.guid != secondary.guid {
        Err(ProbeError::CompareDiskGuid)
    } else if primary.num_entries != secondary.num_entries {
        Err(ProbeError::ComparePartitionEntryCount)
    } else if primary.entry_size != secondary.entry_size {
        Err(ProbeError::ComparePartitionEntrySize)
    } else if primary.table_crc != secondary.table_crc {
        Err(ProbeError::ComparePartitionTableChecksum)
    } else {
        Ok(())
    }
}

/// A primary header passes its checks exactly if it lies at block 1, names
/// the last block as its alternate, leaves the last usable block before
/// that, has its table at block 2, and its table, of at most 16 KiB, ends
/// before the first usable block.
pub proof fn lemma_primary_check(primary: GptHeader, block_size: u64, num_blocks: u64)
    ensures
        primary_check(primary, block_size, num_blocks) is Ok <==> {
            &&& primary.lba_self == 1
            &&& primary.lba_alt == num_blocks - 1
            &&& primary.lba_end < primary.lba_alt
            &&& primary.lba_table == 2
            &&& primary.num_entries * primary.entry_size <= 16384
            &&& 2 + table_blocks(block_size) <= primary.lba_start
        },
{
}

/// A secondary header passes its checks exactly if it lies at the last
/// block, names block 1 as its alternate, the first usable block lies
/// behind that, its table starts right behind the last usable block, and
/// its table, of at most 16 KiB, ends before the header.
pub proof fn lemma_secondary_check(secondary: GptHeader, block_size: u64, num_blocks: u64)
    ensures
        secondary_check(secondary, block_size, num_blocks) is Ok <==> {
            &&& secondary.lba_alt == 1
            &&& secondary.lba_self == num_blocks - 1
            &&& 1 < secondary.lba_start
            &&& secondary.lba_table == secondary.lba_end + 1
            &&& secondary.num_entries * secondary.entry_size <= 16384
            &&& secondary.lba_table + table_blocks(block_size) <= secondary.lba_self
        },
{
}

/// A partition table passes its checks exactly if every entry that starts
/// behind block 0 starts at or behind the first usable block, no entry ends
/// before it starts or behind the last usable block, and the header holds
/// the table's checksum.
pub proof fn lemma_partitions_check(entries: Seq<EntrySpec>, header: GptHeader)
    ensures
        partitions_check(entries, header) is Ok <==> {
            &&& forall|i: int|
                0 <= i < entries.len() ==> {
                    &&& (#[trigger] entries[i]).ent_start == 0 || entries[i].ent_start
                        >= header.lba_start
                    &&& entries[i].ent_start <= entries[i].ent_end
                    &&& entries[i].ent_end <= header.lba_end
                }
            &&& header.table_crc == table_crc(entries, header.num_entries)
        },
{
    lemma_first_misplaced(entries, header, 0);
    let at = first_misplaced(entries, header, 0);
    if at < entries.len() {
        assert(entry_check(entries[at], header) is Err);
    } else {
        assert forall|i: int| 0 <= i < entries.len() implies {
            &&& (#[trigger] entries[i]).ent_start == 0 || entries[i].ent_start >= header.lba_start
            &&& entries[i].ent_start <= entries[i].ent_end
            &&& entries[i].ent_end <= header.lba_end
        } by {
            assert(entry_check(entries[i], header) is Ok);
        }
    }
}

/// The first misplaced entry is misplaced, and no entry between `from` and
/// it is.
pub proof fn lemma_first_misplaced(entries: Seq<EntrySpec>, header: GptHeader, from: int)
    requires
        0 <= from <= entries.len(),
    ensures
        from <= first_misplaced(entries, header, from) <= entries.len(),
        first_misplaced(entries, header, from) < entries.len() ==> entry_check(
            entries[first_misplaced(entries, header, from)],
            header,
        ) is Err,
        forall|i: int|
            from <= i < first_misplaced(entries, header, from) ==> entry_check(
                #[trigger] entries[i],
                header,
            ) is Ok,
    decreases entries.len() - from,
{
    if from < entries.len() && entry_check(entries[from], header) is Ok {
        lemma_first_misplaced(entries, header, from + 1);
    }
}

impl NexusLabel {
    /// check that primary GPT header is valid and consistent
    pub fn validate_primary_header(primary: &GptHeader, block_size: u64, num_blocks: u64) -> (r:
        Result<(), ProbeError>)
        requires
            block_size > 0,
        ensures
            r == primary_check(*primary, block_size, num_blocks),
    {
        if primary.lba_self != 1 {
            return Err(ProbeError::PrimaryLocation);
        }
        if primary.lba_alt as u128 + 1 != num_blocks as u128 {
            return Err(ProbeError::SecondaryLocation);
        }
        if primary.lba_end >= primary.lba_alt {
            return Err(ProbeError::LastUsableBlock);
        }
        if primary.lba_table != primary.lba_self + 1 {
            return Err(ProbeError::PartitionTableLocation);
        }
        assert(primary.num_entries * primary.entry_size <= u64::MAX) by (nonlinear_arith)
            requires
                primary.num_entries <= u32::MAX,
                primary.entry_size <= u32::MAX,
        ;
        if (primary.num_entries as u64) * (primary.entry_size as u64)
            > GptHeader::PARTITION_TABLE_SIZE {
            return Err(ProbeError::PartitionTableSize);
        }
        proof {
            lemma_blocks_for_is_ceiling(GptHeader::PARTITION_TABLE_SIZE as int, block_size as int);
        }
        if primary.lba_table + <u64 as Aligned>::get_blocks(
            GptHeader::PARTITION_TABLE_SIZE,
            block_size,
        ) > primary.lba_start {
            return Err(ProbeError::PartitionTableSpace);
        }
        Ok(())
    }

    /// check that secondary GPT header is valid and consistent
    pub fn validate_secondary_header(
        secondary: &GptHeader,
        block_size: u64,
        num_blocks: u64,
    ) -> (r: Result<(), ProbeError>)
        requires
            block_size > 0,
        ensures
            r == secondary_check(*secondary, block_size, num_blocks),
    {
        if secondary.lba_alt != 1 {
            return Err(ProbeError::PrimaryLocation);
        }
        if secondary.lba_self as u128 + 1 != num_blocks as u128 {
            return Err(ProbeError::SecondaryLocation);
        }
        if secondary.lba_alt >= secondary.lba_start {
            return Err(ProbeError::FirstUsableBlock);
        }
        if secondary.lba_table as u128 != secondary.lba_end as u128 + 1 {
            return Err(ProbeError::PartitionTableLocation);
        }
        assert(secondary.num_entries * secondary.entry_size <= u64::MAX) by (nonlinear_arith)
            requires
                secondary.num_entries <= u32::MAX,
                secondary.entry_size <= u32::MAX,
        ;
        if (secondary.num_entries as u64) * (secondary.entry_size as u64)
            > GptHeader::PARTITION_TABLE_SIZE {
            return Err(ProbeError::PartitionTableSize);
        }
        proof {
            lemma_blocks_for_is_ceiling(GptHeader::PARTITION_TABLE_SIZE as int, block_size as int);
        }
        if secondary.lba_table as u128 + (<u64 as Aligned>::get_blocks(
            GptHeader::PARTITION_TABLE_SIZE,
            block_size,
        ) as u128) > secondary.lba_self as u128 {
            return Err(ProbeError::PartitionTableSpace);
        }
        Ok(())
    }

    /// Checks the place of every entry under a header: the fault of the
    /// first misplaced entry, if there is one.
    pub fn validate_places(partitions: &[GptEntry], header: &GptHeader) -> (r: Result<
        (),
        ProbeError,
    >)
        ensures
            r == ({
                let at = first_misplaced(views(partitions@), *header, 0);
                if at < partitions@.len() {
                    entry_check(views(partitions@)[at], *header)
                } else {
                    Ok(())
                }
            }),
    {
        let ghost entries = views(partitions@);
        let mut i: usize = 0;
        while i < partitions.len()
            invariant
                i <= partitions.len(),
                entries == views(partitions@),
                first_misplaced(entries, *header, 0) == first_misplaced(entries, *header, i as int),
            decreases partitions.len() - i,
        {
            let entry = &partitions[i];
            assert(entry@ == entries[i as int]);
            if 0 < entry.ent_start && entry.ent_start < header.lba_start {
                return Err(ProbeError::PartitionStart);
            }
            if entry.ent_start > entry.ent_end {
                return Err(ProbeError::NegativePartitionSize);
            }
            if entry.ent_end > header.lba_end {
                return Err(ProbeError::PartitionEnd);
            }
            i = i + 1;
        }
        Ok(())
    }

    /// Compares the checksum computed for a table with the one that the
    /// header stores.
    pub fn validate_table_crc(stored: u32, computed: u32) -> (r: Result<(), ProbeError>)
        ensures
            r == table_crc_check(stored, computed),
    {
        if stored != computed {
            Err(ProbeError::PartitionTableChecksum)
        } else {
            Ok(())
        }
    }

    /// check that partition table entries are valid and consistent
    pub fn validate_partitions(partitions: &[GptEntry], header: &GptHeader) -> (r: Result<
        (),
        ProbeError,
    >)
        ensures
            r == partitions_check(views(partitions@), *header),
    {
        proof {
            lemma_first_misplaced(views(partitions@), *header, 0);
        }
        match Self::validate_places(partitions, header) {
            Ok(()) => {},
            Err(error) => {
                return Err(error);
            },
        }
        let computed = GptEntry::checksum(partitions, header.num_entries);
        Self::validate_table_crc(header.table_crc, computed)
    }

    /// check that primary and secondary GPT headers
    /// are consistent with each other
    pub fn consistency_check(primary: &GptHeader, secondary: &GptHeader) -> (r: Result<
        (),
        ProbeError,
    >)
        ensures
            r == consistency(*primary, *secondary),
    {
        if primary.lba_self != secondary.lba_alt {
            return Err(ProbeError::CompareHeaderLocation);
        }
        if primary.lba_alt != secondary.lba_self {
            return Err(ProbeError::CompareHeaderLocation);
        }
        if primary.lba_start != secondary.lba_start {
            return Err(ProbeError::FirstUsableBlock);
        }
        if primary.lba_end != secondary.lba_end {
            return Err(ProbeError::LastUsableBlock);
        }
        if primary.guid != secondary.guid {
            return Err(ProbeError::CompareDiskGuid);
        }
        if primary.num_entries != secondary.num_entries {
            return Err(ProbeError::ComparePartitionEntryCount);
        }
        if primary.entry_size != secondary.entry_size {
            return Err(ProbeError::ComparePartitionEntrySize);
        }
        if primary.table_crc != secondary.table_crc {
            return Err(ProbeError::ComparePartitionTableChecksum);
        }
        Ok(())
    }
}


/// The index of the first entry at or behind `from` that bears `name`;
/// the number of entries if there is none.
pub open spec fn entry_position(entries: Seq<EntrySpec>, name: Seq<char>, from: int) -> int
    decreases entries.len() - from,
{
    if from >= entries.len() {
        entries.len() as int
    } else if entries[from].ent_name == name {
        from
    } else {
        entry_position(entries, name, from + 1)
    }
}

/// The first entry that bears `name`.
pub open spec fn find_partition(entries: Seq<EntrySpec>, name: Seq<char>) -> Option<EntrySpec> {
    let at = entry_position(entries, name, 0);
    if at < entries.len() {
        Some(entries[at])
    } else {
        None
    }
}

/// Blocks that the metadata partition takes.
pub open spec fn metadata_blocks(block_size: int) -> int {
    blocks_for(Nexus::METADATA_PARTITION_SIZE as int, block_size)
}

/// The first block of the data partition under a header.
pub open spec fn data_start(header: GptHeader, block_size: int) -> int {
    header.lba_start + metadata_blocks(block_size)
}

/// The two partitions of a nexus label under a header: "MayaMeta", of
/// 4 MiB, from the first usable block, and "MayaData" right behind it, as
/// large as asked for or as the usable blocks allow.
pub open spec fn maya_partitions(
    header: GptHeader,
    block_size: u32,
    size: u64,
    meta_guid: GptGuid,
    data_guid: GptGuid,
) -> Seq<EntrySpec> {
    let start = data_start(header, block_size as int);
    let last = start + blocks_for(size as int, block_size as int) - 1;
    seq![
        EntrySpec {
            ent_type: Nexus::metadata_type(),
            ent_guid: meta_guid,
            ent_start: header.lba_start,
            ent_end: (start - 1) as u64,
            ent_attr: 0,
            ent_name: "MayaMeta"@,
        },
        EntrySpec {
            ent_type: Nexus::metadata_type(),
            ent_guid: data_guid,
            ent_start: start as u64,
            ent_end: if last < header.lba_end {
                last as u64
            } else {
                header.lba_end
            },
            ent_attr: 0,
            ent_name: "MayaData"@,
        },
    ]
}

/// Whether a device is large enough for a nexus label: for both headers,
/// both partition tables and the metadata partition.
pub open spec fn has_room(block_size: u32, num_blocks: u64) -> bool {
    &&& GptHeader::fits(block_size, num_blocks)
    &&& data_start(GptHeader::new_spec(GptGuid::zero(), block_size, num_blocks), block_size as int)
        <= GptHeader::new_spec(GptGuid::zero(), block_size, num_blocks).lba_end
}

/// The label that is generated for a device, given the GUIDs drawn for its
/// two partitions.
pub open spec fn generated(
    guid: GptGuid,
    block_size: u32,
    num_blocks: u64,
    size: u64,
    meta_guid: GptGuid,
    data_guid: GptGuid,
) -> LabelSpec {
    let fresh = GptHeader::new_spec(guid, block_size, num_blocks);
    let partitions = maya_partitions(fresh, block_size, size, meta_guid, data_guid);
    let primary = GptHeader { table_crc: table_crc(partitions, fresh.num_entries), ..fresh }.sealed();
    LabelSpec {
        status: NexusLabelStatus::Neither,
        block_size: block_size as u64,
        mbr: Pmbr::protective(num_blocks),
        primary,
        partitions,
        secondary: primary.to_secondary_spec(),
    }
}

impl Nexus {
    /// Partition Type GUID for our "MayaMeta" partition.
    pub const METADATA_PARTITION_TYPE_ID: &'static str = "27663382-e5e6-11e9-81b4-ca5ca5ca5ca5";

    pub const METADATA_PARTITION_SIZE: u64 = 4 * 1024 * 1024;

    /// The partition type GUID by its fields.
    pub open spec fn metadata_type() -> GptGuid {
        GptGuid {
            time_low: 0x27663382,
            time_mid: 0xe5e6,
            time_high: 0x11e9,
            node: [0x81u8, 0xb4u8, 0xcau8, 0x5cu8, 0xa5u8, 0xcau8, 0x5cu8, 0xa5u8],
        }
    }

    /// The partition type GUID of both nexus partitions: the GUID that
    /// `METADATA_PARTITION_TYPE_ID` spells.
    pub fn metadata_partition_type() -> (guid: GptGuid)
        ensures
            guid == Self::metadata_type(),
    {
        let guid = GptGuid {
            time_low: 0x27663382,
            time_mid: 0xe5e6,
            time_high: 0x11e9,
            node: [0x81u8, 0xb4u8, 0xcau8, 0x5cu8, 0xa5u8, 0xcau8, 0x5cu8, 0xa5u8],
        };
        assert(guid.node =~= Self::metadata_type().node);
        guid
    }

    /// Generate a new nexus label based on the nexus configuration.
    ///
    /// The GUIDs of the two partitions are drawn at random; all else is
    /// fixed by the arguments. A device without room for the label is
    /// refused.
    pub fn generate_label(guid: GptGuid, block_size: u32, num_blocks: u64, size: u64) -> (r: Result<
        NexusLabel,
        LabelError,
    >)
        requires
            block_size > 0,
        ensures
            match r {
                Ok(label) => {
                    &&& has_room(block_size, num_blocks)
                    &&& label@ == generated(
                        guid,
                        block_size,
                        num_blocks,
                        size,
                        label@.partitions[0].ent_guid,
                        label@.partitions[1].ent_guid,
                    )
                    &&& label@.partitions[0].ent_guid.is_random()
                    &&& label@.partitions[1].ent_guid.is_random()
                    &&& label.primary.lba_alt + 1 == num_blocks
                    &&& label.secondary.lba_self == label.primary.lba_alt
                    &&& label.primary.checksum_valid()
                    &&& label.secondary.checksum_valid()
                    &&& label.primary.table_crc == table_crc(
                        label@.partitions,
                        label.primary.num_entries,
                    )
                    &&& label.secondary.table_crc == label.primary.table_crc
                },
                Err(error) => {
                    &&& !has_room(block_size, num_blocks)
                    &&& error == (LabelError::DeviceTooSmall { num_blocks, block_size })
                },
            },
    {
        let meta_guid = GptGuid::new_random();
        let data_guid = GptGuid::new_random();
        let r = Self::generate_label_with(guid, block_size, num_blocks, size, meta_guid, data_guid);
        proof {
            if r is Ok {
                let label = r->Ok_0;
                assert(label@.partitions[0].ent_guid == meta_guid);
                assert(label@.partitions[1].ent_guid == data_guid);
            }
        }
        r
    }

    /// Generates the label for a device, with the given GUIDs for its two
    /// partitions.
    pub fn generate_label_with(
        guid: GptGuid,
        block_size: u32,
        num_blocks: u64,
        size: u64,
        meta_guid: GptGuid,
        data_guid: GptGuid,
    ) -> (r: Result<NexusLabel, LabelError>)
        requires
            block_size > 0,
        ensures
            match r {
                Ok(label) => {
                    &&& has_room(block_size, num_blocks)
                    &&& label@ == generated(
                        guid,
                        block_size,
                        num_blocks,
                        size,
                        meta_guid,
                        data_guid,
                    )
                    &&& label.primary.lba_alt + 1 == num_blocks
                    &&& label.secondary.lba_self == label.primary.lba_alt
                    &&& label.primary.checksum_valid()
                    &&& label.secondary.checksum_valid()
                    &&& label.primary.table_crc == table_crc(
                        label@.partitions,
                        label.primary.num_entries,
                    )
                    &&& label.secondary.table_crc == label.primary.table_crc
                },
                Err(error) => !has_room(block_size, num_blocks) && error == (
                LabelError::DeviceTooSmall { num_blocks, block_size }),
            },
    {
        proof {
            lemma_blocks_for_is_ceiling(GptHeader::PARTITION_TABLE_SIZE as int, block_size as int);
        }
        let partition_blocks: u64 = <u64 as Aligned>::get_blocks(
            GptHeader::PARTITION_TABLE_SIZE,
            block_size as u64,
        );
        if num_blocks < partition_blocks + 2 {
            return Err(LabelError::DeviceTooSmall { num_blocks, block_size });
        }
        // (Protective) MBR

        let mut first = MbrEntry::new();
        first.protect(num_blocks);
        let pmbr = Pmbr {
            disk_signature: 0,
            reserved: 0,
            entries: [first, MbrEntry::new(), MbrEntry::new(), MbrEntry::new()],
            signature: Pmbr::PMBR_SIGNATURE,
        };
        assert(pmbr.entries =~= Pmbr::protective(num_blocks).entries);
        // Primary GPT header
        let mut header = GptHeader::new(guid, block_size, num_blocks);
        // Partition table
        let partitions = match Nexus::create_maya_partitions_with(
            &header,
            block_size,
            size,
            meta_guid,
            data_guid,
        ) {
            Ok(partitions) => partitions,
            Err(error) => {
                return Err(error);
            },
        };
        header.table_crc = GptEntry::checksum(partitions.as_slice(), header.num_entries);
        header.checksum();
        // Secondary GPT header
        let secondary = header.to_secondary();
        Ok(
            NexusLabel {
                status: NexusLabelStatus::Neither,
                block_size: block_size as u64,
                mbr: pmbr,
                primary: header,
                partitions,
                secondary,
            },
        )
    }

    /// Create partition table entries for the MayaMeta and
    /// MayaData partitions based on the nexus configuration.
    ///
    /// The GUIDs of the two entries are drawn at random.
    pub fn create_maya_partitions(header: &GptHeader, block_size: u32, size: u64) -> (r: Result<
        Vec<GptEntry>,
        LabelError,
    >)
        requires
            block_size > 0,
            header.lba_alt < u64::MAX,
        ensures
            match r {
                Ok(partitions) => {
                    &&& data_start(*header, block_size as int) <= header.lba_end
                    &&& partitions@.len() == 2
                    &&& views(partitions@) == maya_partitions(
                        *header,
                        block_size,
                        size,
                        partitions@[0].ent_guid,
                        partitions@[1].ent_guid,
                    )
                    &&& partitions@[0].ent_guid.is_random()
                    &&& partitions@[1].ent_guid.is_random()
                },
                Err(error) => {
                    &&& data_start(*header, block_size as int) > header.lba_end
                    &&& error == (LabelError::DeviceTooSmall {
                        num_blocks: (header.lba_alt + 1) as u64,
                        block_size,
                    })
                },
            },
    {
        let meta_guid = GptGuid::new_random();
        let data_guid = GptGuid::new_random();
        let r = Self::create_maya_partitions_with(header, block_size, size, meta_guid, data_guid);
        proof {
            if r is Ok {
                let partitions = r->Ok_0;
                let entries = views(partitions@);
                assert(entries.len() == partitions@.len());
                assert(entries[0] == partitions@[0]@);
                assert(entries[1] == partitions@[1]@);
            }
        }
        r
    }

    /// Creates the two partition table entries under a header, with the
    /// given GUIDs.
    pub fn create_maya_partitions_with(
        header: &GptHeader,
        block_size: u32,
        size: u64,
        meta_guid: GptGuid,
        data_guid: GptGuid,
    ) -> (r: Result<Vec<GptEntry>, LabelError>)
        requires
            block_size > 0,
            header.lba_alt < u64::MAX,
        ensures
            match r {
                Ok(partitions) => {
                    &&& data_start(*header, block_size as int) <= header.lba_end
                    &&& views(partitions@) == maya_partitions(
                        *header,
                        block_size,
                        size,
                        meta_guid,
                        data_guid,
                    )
                },
                Err(error) => {
                    &&& data_start(*header, block_size as int) > header.lba_end
                    &&& error == (LabelError::DeviceTooSmall {
                        num_blocks: (header.lba_alt + 1) as u64,
                        block_size,
                    })
                },
            },
    {
        proof {
            lemma_blocks_for_is_ceiling(Nexus::METADATA_PARTITION_SIZE as int, block_size as int);
            lemma_blocks_for_is_ceiling(size as int, block_size as int);
        }
        let metadata_blocks: u64 = <u64 as Aligned>::get_blocks(
            Nexus::METADATA_PARTITION_SIZE,
            block_size as u64,
        );
        if header.lba_start as u128 + metadata_blocks as u128 > header.lba_end as u128 {
            // Device is too small to accomodate Metadata partition
            return Err(
                LabelError::DeviceTooSmall { num_blocks: header.lba_alt + 1, block_size },
            );
        }
        let data_start: u64 = header.lba_start + metadata_blocks;
        let data_blocks: u64 = <u64 as Aligned>::get_blocks(size, block_size as u64);
        let data_last: u128 = data_start as u128 + data_blocks as u128;
        let data_end: u64 = if data_last - 1 < header.lba_end as u128 {
            (data_last - 1) as u64
        } else {
            header.lba_end
        };
        assert(metadata_blocks >= 1) by {
            if metadata_blocks == 0 {
                assert(metadata_blocks * block_size == 0) by (nonlinear_arith)
                    requires
                        metadata_blocks == 0,
                ;
            }
        }
        let mut partitions: Vec<GptEntry> = Vec::with_capacity(2);
        partitions.push(
            GptEntry {
                ent_type: Nexus::metadata_partition_type(),
                ent_guid: meta_guid,
                ent_start: header.lba_start,
                ent_end: data_start - 1,
                ent_attr: 0,
                ent_name: GptName::from("MayaMeta"),
            },
        );
        partitions.push(
            GptEntry {
                ent_type: Nexus::metadata_partition_type(),
                ent_guid: data_guid,
                ent_start: data_start,
                ent_end: data_end,
                ent_attr: 0,
                ent_name: GptName::from("MayaData"),
            },
        );
        assert(views(partitions@) =~= maya_partitions(
            *header,
            block_size,
            size,
            meta_guid,
            data_guid,
        ));
        Ok(partitions)
    }
}


/// Whether a label has the layout of a nexus label: the first usable block
/// at 1 MiB, a "MayaMeta" partition of the nexus type and of 4 MiB from
/// there, and a "MayaData" partition of the nexus type right behind it.
pub open spec fn maya_layout(label: LabelSpec) -> bool {
    let metadata_start = blocks_for(GptHeader::DATA_OFFSET as int, label.block_size as int);
    let start = metadata_start + metadata_blocks(label.block_size as int);
    &&& metadata_start == label.primary.lba_start
    &&& start <= label.primary.lba_end
    &&& match find_partition(label.partitions, "MayaMeta"@) {
        Some(entry) => {
            &&& entry.ent_type == Nexus::metadata_type()
            &&& entry.ent_start == metadata_start
            &&& entry.ent_end == start - 1
        },
        None => false,
    }
    &&& match find_partition(label.partitions, "MayaData"@) {
        Some(entry) => entry.ent_type == Nexus::metadata_type() && entry.ent_start == start,
        None => false,
    }
}

/// The value that all offsets share; none where there is no offset or
/// where two differ.
pub open spec fn unique_spec(offsets: Seq<u64>) -> Option<u64> {
    if offsets.len() > 0 && forall|i: int|
        0 <= i < offsets.len() ==> #[trigger] offsets[i] == offsets.first() {
        Some(offsets[0])
    } else {
        None
    }
}

/// Check that all elements in an array/slice have the same value.
pub fn unique(offsets: &[u64]) -> (r: Option<u64>)
    ensures
        r == unique_spec(offsets@),
{
    if offsets.len() == 0 {
        return None;
    }
    let first = offsets[0];
    let mut i: usize = 1;
    while i < offsets.len()
        invariant
            1 <= i <= offsets.len(),
            first == offsets@[0],
            forall|k: int| 0 <= k < i ==> offsets@[k] == first,
        decreases offsets.len() - i,
    {
        if offsets[i] != first {
            return None;
        }
        i = i + 1;
    }
    Some(first)
}

impl NexusLabel {
    /// update label with new disk guid
    pub fn set_guid(&mut self, guid: GptGuid)
        requires
            old(self).primary.lba_end < u64::MAX,
        ensures
            final(self).primary == (GptHeader { guid, ..old(self).primary }).sealed(),
            final(self).secondary == final(self).primary.to_secondary_spec(),
            final(self).status == NexusLabelStatus::Neither,
            final(self).block_size == old(self).block_size,
            final(self).mbr == old(self).mbr,
            final(self).partitions == old(self).partitions,
    {
        self.primary.guid = guid;
        self.primary.checksum();
        self.secondary = self.primary.to_secondary();
        self.status = NexusLabelStatus::Neither;
    }

    /// locate a partition by name
    pub fn get_partition(&self, name: &str) -> (r: Option<&GptEntry>)
        ensures
            match r {
                Some(entry) => find_partition(self@.partitions, name@) == Some(entry@),
                None => find_partition(self@.partitions, name@) is None,
            },
    {
        let wanted = name.to_owned();
        let ghost entries = self@.partitions;
        let mut i: usize = 0;
        while i < self.partitions.len()
            invariant
                i <= self.partitions.len(),
                wanted@ == name@,
                entries == views(self.partitions@),
                entry_position(entries, name@, 0) == entry_position(entries, name@, i as int),
            decreases self.partitions.len() - i,
        {
            let entry = &self.partitions[i];
            assert(entry@ == entries[i as int]);
            if entry.ent_name.name == wanted {
                return Some(entry);
            }
            i = i + 1;
        }
        None
    }

    /// The offset in bytes of the partition `name`, where there is one.
    pub open spec fn offset_of(self, name: Seq<char>) -> Option<int> {
        match find_partition(self@.partitions, name) {
            Some(entry) => Some(entry.ent_start * self.block_size),
            None => None,
        }
    }

    /// The size in bytes of the partition `name`, where there is one: the
    /// blocks from its first to its last, both counted.
    pub open spec fn size_of(self, name: Seq<char>) -> Option<int> {
        match find_partition(self@.partitions, name) {
            Some(entry) => Some((entry.ent_end - entry.ent_start + 1) * self.block_size),
            None => None,
        }
    }

    /// returns the offset (in bytes) of the specified partition
    pub fn partition_offset(&self, name: &str) -> (r: Result<u64, ProbeError>)
        requires
            self.offset_of(name@) matches Some(offset) ==> offset <= u64::MAX,
        ensures
            match r {
                Ok(offset) => self.offset_of(name@) == Some(offset as int),
                Err(error) => {
                    &&& self.offset_of(name@) is None
                    &&& error matches ProbeError::MissingPartition { name: missing }
                    &&& missing@ == name@
                },
            },
    {
        match self.get_partition(name) {
            Some(entry) => Ok(entry.ent_start * self.block_size),
            None => Err(ProbeError::MissingPartition { name: name.to_owned() }),
        }
    }

    /// returns the size (in bytes) of the specified partition
    pub fn partition_size(&self, name: &str) -> (r: Result<u64, ProbeError>)
        requires
            self.size_of(name@) matches Some(size) ==> 0 <= size <= u64::MAX,
            find_partition(self@.partitions, name@) matches Some(entry) ==> entry.ent_start
                <= entry.ent_end,
        ensures
            match r {
                Ok(size) => self.size_of(name@) == Some(size as int),
                Err(error) => {
                    &&& self.size_of(name@) is None
                    &&& error matches ProbeError::MissingPartition { name: missing }
                    &&& missing@ == name@
                },
            },
    {
        match self.get_partition(name) {
            Some(entry) => {
                let blocks: u128 = (entry.ent_end - entry.ent_start) as u128 + 1;
                assert(blocks * self.block_size <= 0x1_0000_0000_0000_0000
                    * 0xffff_ffff_ffff_ffff) by (nonlinear_arith)
                    requires
                        0 <= blocks <= 0x1_0000_0000_0000_0000,
                        0 <= self.block_size <= 0xffff_ffff_ffff_ffff,
                ;
                Ok((blocks * (self.block_size as u128)) as u64)
            },
            None => Err(ProbeError::MissingPartition { name: name.to_owned() }),
        }
    }

    /// What `read_mbr` makes of the first block of a device: the MBR
    /// record behind 440 bytes of boot code.
    pub open spec fn read_mbr_spec(block: Seq<u8>) -> Result<Pmbr, ProbeError> {
        if block.len() < 512 {
            Err(ProbeError::DeserializeError)
        } else {
            Pmbr::from_slice_spec(block.subrange(440, 512))
        }
    }

    /// What `read_primary_header` makes of the second block of a device.
    pub open spec fn read_primary_spec(block: Seq<u8>, block_size: u64, num_blocks: u64) -> Result<
        GptHeader,
        ProbeError,
    > {
        match GptHeader::from_slice_spec(block) {
            Ok(header) => match primary_check(header, block_size, num_blocks) {
                Ok(()) => Ok(header),
                Err(error) => Err(error),
            },
            Err(error) => Err(error),
        }
    }

    /// What `read_secondary_header` makes of the last block of a device.
    pub open spec fn read_secondary_spec(
        block: Seq<u8>,
        block_size: u64,
        num_blocks: u64,
    ) -> Result<GptHeader, ProbeError> {
        match GptHeader::from_slice_spec(block) {
            Ok(header) => match secondary_check(header, block_size, num_blocks) {
                Ok(()) => Ok(header),
                Err(error) => Err(error),
            },
            Err(error) => Err(error),
        }
    }

    /// What `read_partitions` makes of the blocks of a partition table.
    pub open spec fn read_partitions_spec(bytes: Seq<u8>, header: GptHeader) -> Result<
        Seq<EntrySpec>,
        ProbeError,
    > {
        match crate::gpt_entry::table_from(bytes, header.num_entries) {
            Ok(entries) => match partitions_check(entries, header) {
                Ok(()) => Ok(entries),
                Err(error) => Err(error),
            },
            Err(error) => Err(error),
        }
    }

    /// construct a Pmbr from raw data
    pub fn read_mbr(buf: &[u8]) -> (r: Result<Pmbr, ProbeError>)
        ensures
            r == Self::read_mbr_spec(buf@),
    {
        if buf.len() < 512 {
            return Err(ProbeError::DeserializeError);
        }
        Pmbr::from_slice(vstd::slice::slice_subrange(buf, 440, 512))
    }

    /// construct a GPT header from raw data
    pub fn read_header(buf: &[u8]) -> (r: Result<GptHeader, ProbeError>)
        ensures
            r == GptHeader::from_slice_spec(buf@),
    {
        GptHeader::from_slice(buf)
    }

    /// construct and validate primary GPT header
    pub fn read_primary_header(buf: &[u8], block_size: u64, num_blocks: u64) -> (r: Result<
        GptHeader,
        ProbeError,
    >)
        requires
            block_size > 0,
        ensures
            r == Self::read_primary_spec(buf@, block_size, num_blocks),
    {
        let header = match NexusLabel::read_header(buf) {
            Ok(header) => header,
            Err(error) => {
                return Err(error);
            },
        };
        match NexusLabel::validate_primary_header(&header, block_size, num_blocks) {
            Ok(()) => Ok(header),
            Err(error) => Err(error),
        }
    }

    /// construct and validate secondary GPT header
    pub fn read_secondary_header(buf: &[u8], block_size: u64, num_blocks: u64) -> (r: Result<
        GptHeader,
        ProbeError,
    >)
        requires
            block_size > 0,
        ensures
            r == Self::read_secondary_spec(buf@, block_size, num_blocks),
    {
        let header = match NexusLabel::read_header(buf) {
            Ok(header) => header,
            Err(error) => {
                return Err(error);
            },
        };
        match NexusLabel::validate_secondary_header(&header, block_size, num_blocks) {
            Ok(()) => Ok(header),
            Err(error) => Err(error),
        }
    }

    /// construct and validate partition table
    pub fn read_partitions(buf: &[u8], header: &GptHeader) -> (r: Result<Vec<GptEntry>, ProbeError>)
        ensures
            match r {
                Ok(partitions) => Ok::<Seq<EntrySpec>, ProbeError>(views(partitions@))
                    == Self::read_partitions_spec(buf@, *header),
                Err(error) => Err::<Seq<EntrySpec>, ProbeError>(error)
                    == Self::read_partitions_spec(buf@, *header),
            },
    {
        let partitions = match GptEntry::from_slice(buf, header.num_entries) {
            Ok(partitions) => partitions,
            Err(error) => {
                return Err(error);
            },
        };
        match NexusLabel::validate_partitions(partitions.as_slice(), header) {
            Ok(()) => Ok(partitions),
            Err(error) => Err(error),
        }
    }
}

impl NexusChild {
    // Check for the presence of "MayaMeta" and "MayaData" partitions
    pub fn check_maya_partitions(label: &NexusLabel) -> (r: bool)
        requires
            label.block_size > 0,
        ensures
            r == maya_layout(label@),
    {
        proof {
            lemma_blocks_for_is_ceiling(GptHeader::DATA_OFFSET as int, label.block_size as int);
            lemma_blocks_for_is_ceiling(
                Nexus::METADATA_PARTITION_SIZE as int,
                label.block_size as int,
            );
        }
        let metadata_start: u64 = <u64 as Aligned>::get_blocks(
            GptHeader::DATA_OFFSET,
            label.block_size,
        );
        if metadata_start != label.primary.lba_start {
            return false;
        }
        let metadata_blocks: u64 = <u64 as Aligned>::get_blocks(
            Nexus::METADATA_PARTITION_SIZE,
            label.block_size,
        );
        let data_start: u64 = metadata_start + metadata_blocks;
        if data_start > label.primary.lba_end {
            return false;
        }
        let ent_type = Nexus::metadata_partition_type();
        match label.get_partition("MayaMeta") {
            Some(entry) => {
                if entry.ent_type != ent_type {
                    return false;
                }
                if entry.ent_start != metadata_start {
                    return false;
                }
                if entry.ent_end as u128 + 1 != data_start as u128 {
                    return false;
                }
            },
            None => {
                return false;
            },
        }
        if let Some(entry) = label.get_partition("MayaData") {
            if entry.ent_type != ent_type {
                return false;
            }
            if entry.ent_start == data_start {
                return true;
            }
        }
        false
    }
}

} // verus!
