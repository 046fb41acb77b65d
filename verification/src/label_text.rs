//! Labels and what is wrong with them, as text for people.
use crate::errors::{LabelError, LabelHalf, LabelPart, ProbeError};
use crate::gpt_entry::{views, EntrySpec};
use crate::guid::uuid_hyphenated;
use crate::nexus_label::{LabelSpec, NexusLabel};
use crate::text::{concat, decimal_text, decimal_u64, hex8, hex8_text};
use vstd::prelude::*;
use vstd::string::StringExecFns;

verus! {

/// A line: the label, the value, and the end of the line.
pub open spec fn line(label: Seq<char>, value: Seq<char>) -> Seq<char> {
    label + value + "\n"@
}

/// The lines that describe the partition `i` of a table.
pub open spec fn partition_text(i: int, entry: EntrySpec) -> Seq<char> {
    line("  Partition "@, decimal_text(i)) + line("    GUID: "@, uuid_hyphenated(entry.ent_guid))
        + line("    Type GUID: "@, uuid_hyphenated(entry.ent_type)) + line(
        "    LBA start: "@,
        decimal_text(entry.ent_start as int),
    ) + line("    LBA end: "@, decimal_text(entry.ent_end as int)) + line(
        "    Name: "@,
        entry.ent_name,
    )
}

/// The lines that describe the first `upto` partitions of a table.
pub open spec fn partitions_text(entries: Seq<EntrySpec>, upto: int) -> Seq<char>
    decreases upto,
{
    if upto <= 0 {
        Seq::empty()
    } else {
        partitions_text(entries, upto - 1) + partition_text(upto - 1, entries[upto - 1])
    }
}

/// The lines that describe the headers of a label.
pub open spec fn headers_text(label: LabelSpec) -> Seq<char> {
    line("GUID: "@, uuid_hyphenated(label.primary.guid)) + line(
        "Primary GPT header crc32: "@,
        hex8_text(label.primary.self_checksum),
    ) + line("LBA primary GPT header: "@, decimal_text(label.primary.lba_self as int)) + line(
        "LBA primary partition table: "@,
        decimal_text(label.primary.lba_table as int),
    ) + line("Secondary GPT header crc32: "@, hex8_text(label.secondary.self_checksum)) + line(
        "LBA secondary GPT header: "@,
        decimal_text(label.secondary.lba_self as int),
    ) + line("LBA secondary partition table: "@, decimal_text(label.secondary.lba_table as int))
        + line("Partition table crc32: "@, hex8_text(label.primary.table_crc)) + line(
        "LBA first usable block: "@,
        decimal_text(label.primary.lba_start as int),
    ) + line("LBA last usable block: "@, decimal_text(label.primary.lba_end as int))
}

/// The text that describes a label: its headers, then its partitions.
pub open spec fn label_text(label: LabelSpec) -> Seq<char> {
    headers_text(label) + partitions_text(label.partitions, label.partitions.len() as int)
}

/// Appends a line to a text.
pub fn put_line(text: &mut String, label: &str, value: &str)
    ensures
        final(text)@ == old(text)@ + line(label@, value@),
{
    text.append(label);
    text.append(value);
    text.append("\n");
    assert(text@ =~= old(text)@ + line(label@, value@));
}

impl NexusLabel {
    /// The label as text for people: the locations and checksums of its
    /// headers, and its partitions.
    pub fn to_string(&self) -> (text: String)
        ensures
            text@ == label_text(self@),
    {
        let mut text = String::new();
        put_line(&mut text, "GUID: ", self.primary.guid.to_string().as_str());
        put_line(&mut text, "Primary GPT header crc32: ", hex8(self.primary.self_checksum).as_str());
        put_line(&mut text, "LBA primary GPT header: ", decimal_u64(self.primary.lba_self).as_str());
        put_line(
            &mut text,
            "LBA primary partition table: ",
            decimal_u64(self.primary.lba_table).as_str(),
        );
        put_line(
            &mut text,
            "Secondary GPT header crc32: ",
            hex8(self.secondary.self_checksum).as_str(),
        );
        put_line(
            &mut text,
            "LBA secondary GPT header: ",
            decimal_u64(self.secondary.lba_self).as_str(),
        );
        put_line(
            &mut text,
            "LBA secondary partition table: ",
            decimal_u64(self.secondary.lba_table).as_str(),
        );
        put_line(&mut text, "Partition table crc32: ", hex8(self.primary.table_crc).as_str());
        put_line(&mut text, "LBA first usable block: ", decimal_u64(self.primary.lba_start).as_str());
        put_line(&mut text, "LBA last usable block: ", decimal_u64(self.primary.lba_end).as_str());
        assert(text@ =~= headers_text(self@));
        let ghost entries = views(self.partitions@);
        let mut i: usize = 0;
        while i < self.partitions.len()
            invariant
                i <= self.partitions@.len(),
                entries == views(self.partitions@),
                text@ == headers_text(self@) + partitions_text(entries, i as int),
            decreases self.partitions@.len() - i,
        {
            let entry = &self.partitions[i];
            let ghost before = text@;
            assert(entry@ == entries[i as int]);
            put_line(&mut text, "  Partition ", decimal_u64(i as u64).as_str());
            put_line(&mut text, "    GUID: ", entry.ent_guid.to_string().as_str());
            put_line(&mut text, "    Type GUID: ", entry.ent_type.to_string().as_str());
            put_line(&mut text, "    LBA start: ", decimal_u64(entry.ent_start).as_str());
            put_line(&mut text, "    LBA end: ", decimal_u64(entry.ent_end).as_str());
            put_line(&mut text, "    Name: ", entry.ent_name.name.as_str());
            assert(text@ =~= before + partition_text(i as int, entries[i as int]));
            assert(text@ =~= headers_text(self@) + partitions_text(entries, i + 1));
            i = i + 1;
        }
        text
    }
}

impl ProbeError {
    /// What is wrong, in words.
    pub open spec fn message(self) -> Seq<char> {
        match self {
            ProbeError::DeserializeError => "Deserialization error"@,
            ProbeError::MbrSignature => "Incorrect MBR signature"@,
            ProbeError::MbrSize => "Disk size in MBR does not match size in GPT header"@,
            ProbeError::GptSignature => "Incorrect GPT header signature"@,
            ProbeError::GptRevision => "Incorrect GPT header revision"@,
            ProbeError::GptHeaderSize { actual_size, expected_size } =>
                "Incorrect GPT header size: actual="@ + decimal_text(actual_size as int)
                    + " expected="@ + decimal_text(expected_size as int),
            ProbeError::GptChecksum => "Incorrect GPT header checksum"@,
            ProbeError::PartitionTableChecksum => "Incorrect GPT partition table checksum"@,
            ProbeError::CompareDiskGuid => "Disk GUIDs differ"@,
            ProbeError::ComparePartitionTableChecksum =>
                "GPT stored partition table checksums differ"@,
            ProbeError::PartitionTableLocation => "GPT partition table location is incorrect"@,
            ProbeError::MissingPartition { name } => "Missing partition: "@ + name@,
            ProbeError::PrimaryLocation => "Primary GTP header location is incorrect"@,
            ProbeError::SecondaryLocation => "Secondary GTP header location is incorrect"@,
            ProbeError::FirstUsableBlock => "Location of first usable block is incorrect"@,
            ProbeError::LastUsableBlock => "Location of last usable block is incorrect"@,
            ProbeError::PartitionTableSize => "Partition table exceeds maximum size"@,
            ProbeError::PartitionTableSpace => "Insufficient space reserved for partition table"@,
            ProbeError::PartitionStart => "Partition starts before first usable block"@,
            ProbeError::PartitionEnd => "Partition ends after last usable block"@,
            ProbeError::NegativePartitionSize => "Partition has negative size"@,
            ProbeError::CompareHeaderLocation => "GPT header locations are inconsistent"@,
            ProbeError::ComparePartitionEntryCount => "Number of partition table entries differ"@,
            ProbeError::ComparePartitionEntrySize => "Partition table entry sizes differ"@,
            ProbeError::IncorrectPartitions => "Incorrect partition layout"@,
            ProbeError::LabelRedundancy => "Label is invalid"@,
        }
    }

    /// What is wrong, in words.
    pub fn to_string(&self) -> (text: String)
        ensures
            text@ == self.message(),
    {
        match self {
            ProbeError::DeserializeError => "Deserialization error".to_owned(),
            ProbeError::MbrSignature => "Incorrect MBR signature".to_owned(),
            ProbeError::MbrSize => "Disk size in MBR does not match size in GPT header".to_owned(),
            ProbeError::GptSignature => "Incorrect GPT header signature".to_owned(),
            ProbeError::GptRevision => "Incorrect GPT header revision".to_owned(),
            ProbeError::GptHeaderSize { actual_size, expected_size } => {
                let mut text = concat(
                    "Incorrect GPT header size: actual=",
                    decimal_u64(*actual_size as u64).as_str(),
                );
                text.append(" expected=");
                text.append(decimal_u64(*expected_size as u64).as_str());
                text
            },
            ProbeError::GptChecksum => "Incorrect GPT header checksum".to_owned(),
            ProbeError::PartitionTableChecksum => "Incorrect GPT partition table checksum".to_owned(),
            ProbeError::CompareDiskGuid => "Disk GUIDs differ".to_owned(),
            ProbeError::ComparePartitionTableChecksum => "GPT stored partition table checksums differ".to_owned(),
            ProbeError::PartitionTableLocation => "GPT partition table location is incorrect".to_owned(),
            ProbeError::MissingPartition { name } => concat("Missing partition: ", name.as_str()),
            ProbeError::PrimaryLocation => "Primary GTP header location is incorrect".to_owned(),
            ProbeError::SecondaryLocation => "Secondary GTP header location is incorrect".to_owned(),
            ProbeError::FirstUsableBlock => "Location of first usable block is incorrect".to_owned(),
            ProbeError::LastUsableBlock => "Location of last usable block is incorrect".to_owned(),
            ProbeError::PartitionTableSize => "Partition table exceeds maximum size".to_owned(),
            ProbeError::PartitionTableSpace => "Insufficient space reserved for partition table".to_owned(),
            ProbeError::PartitionStart => "Partition starts before first usable block".to_owned(),
            ProbeError::PartitionEnd => "Partition ends after last usable block".to_owned(),
            ProbeError::NegativePartitionSize => "Partition has negative size".to_owned(),
            ProbeError::CompareHeaderLocation => "GPT header locations are inconsistent".to_owned(),
            ProbeError::ComparePartitionEntryCount => "Number of partition table entries differ".to_owned(),
            ProbeError::ComparePartitionEntrySize => "Partition table entry sizes differ".to_owned(),
            ProbeError::IncorrectPartitions => "Incorrect partition layout".to_owned(),
            ProbeError::LabelRedundancy => "Label is invalid".to_owned(),
        }
    }
}

impl LabelPart {
    /// The name of the part.
    pub open spec fn name(self) -> Seq<char> {
        match self {
            LabelPart::Mbr => "MBR"@,
            LabelPart::PrimaryHeader => "primary GPT header"@,
            LabelPart::SecondaryHeader => "secondary GPT header"@,
            LabelPart::PartitionTable => "partition table"@,
        }
    }

    /// The name of the part.
    pub fn to_string(&self) -> (text: String)
        ensures
            text@ == self.name(),
    {
        match self {
            LabelPart::Mbr => "MBR".to_owned(),
            LabelPart::PrimaryHeader => "primary GPT header".to_owned(),
            LabelPart::SecondaryHeader => "secondary GPT header".to_owned(),
            LabelPart::PartitionTable => "partition table".to_owned(),
        }
    }
}

impl LabelHalf {
    /// The name of the half.
    pub open spec fn name(self) -> Seq<char> {
        match self {
            LabelHalf::Primary => "primary"@,
            LabelHalf::Secondary => "secondary"@,
        }
    }

    /// The name of the half.
    pub fn to_string(&self) -> (text: String)
        ensures
            text@ == self.name(),
    {
        match self {
            LabelHalf::Primary => "primary".to_owned(),
            LabelHalf::Secondary => "secondary".to_owned(),
        }
    }
}

impl LabelError {
    /// What went wrong, in words.
    pub open spec fn message(self) -> Seq<char> {
        match self {
            LabelError::SerializeError => "Serialization error"@,
            LabelError::WriteAlloc { half } => "Failed to allocate buffer for writing to child "@
                + half.name(),
            LabelError::ReadError { part } => "Error reading from child "@ + part.name(),
            LabelError::HandleError { name } => "Failed to obtain BdevHandle for child "@ + name@,
            LabelError::InvalidLabel { source } => "Label is invalid: "@ + source.message(),
            LabelError::DeviceTooSmall { num_blocks, block_size } =>
                "Device is too small to accomodate Metadata partition: size = "@ + decimal_text(
                    num_blocks as int,
                ) + " x "@ + decimal_text(block_size as int),
            LabelError::DataOffsetMismatch { name } => "Child data offsets differ for nexus "@
                + name@,
            LabelError::ReReadError { name } =>
                "The written label could not be read from disk, likely the child "@ + name@
                    + " is a null device"@,
        }
    }

    /// What went wrong, in words.
    pub fn to_string(&self) -> (text: String)
        ensures
            text@ == self.message(),
    {
        match self {
            LabelError::SerializeError => "Serialization error".to_owned(),
            LabelError::WriteAlloc { half } => concat(
                "Failed to allocate buffer for writing to child ",
                half.to_string().as_str(),
            ),
            LabelError::ReadError { part } => concat(
                "Error reading from child ",
                part.to_string().as_str(),
            ),
            LabelError::HandleError { name } => concat(
                "Failed to obtain BdevHandle for child ",
                name.as_str(),
            ),
            LabelError::InvalidLabel { source } => concat(
                "Label is invalid: ",
                source.to_string().as_str(),
            ),
            LabelError::DeviceTooSmall { num_blocks, block_size } => {
                let mut text = concat(
                    "Device is too small to accomodate Metadata partition: size = ",
                    decimal_u64(*num_blocks).as_str(),
                );
                text.append(" x ");
                text.append(decimal_u64(*block_size as u64).as_str());
                text
            },
            LabelError::DataOffsetMismatch { name } => concat(
                "Child data offsets differ for nexus ",
                name.as_str(),
            ),
            LabelError::ReReadError { name } => {
                let mut text = concat(
                    "The written label could not be read from disk, likely the child ",
                    name.as_str(),
                );
                text.append(" is a null device");
                text
            },
        }
    }
}

} // verus!
