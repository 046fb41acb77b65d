use mayastor::errors::{LabelError, LabelHalf, LabelPart, ProbeError};
use mayastor::gpt_entry::{GptEntry, GptName};
use mayastor::gpt_header::GptHeader;
use mayastor::guid::GptGuid;
use mayastor::label_write::LabelData;
use mayastor::mbr::Pmbr;
use mayastor::nexus_bdev::Nexus;
use mayastor::nexus_child::{Bdev, NexusChild};
use mayastor::nexus_label::{unique, NexusLabel, NexusLabelStatus};

const GIB: u64 = 1024 * 1024 * 1024;

fn disk_guid() -> GptGuid {
    GptGuid::from_str("eab49a2f-efea-45e6-9a1b-61fece3426dd").unwrap()
}

fn child(block_len: u32, num_blocks: u64) -> NexusChild {
    NexusChild::new(
        String::from("aio:///tmp/disk1.img?blk_size=512"),
        String::from("nexus"),
        Some(Bdev {
            name: String::from("/tmp/disk1.img"),
            block_len,
            num_blocks,
            alignment: 9,
            uuid: disk_guid(),
        }),
    )
}

fn apply(disk: &mut [u8], writes: &[LabelData]) {
    for data in writes {
        let at = data.offset as usize;
        disk[at..at + data.buf.len()].copy_from_slice(&data.buf);
    }
}

fn small_label() -> (NexusChild, NexusLabel, Vec<u8>) {
    // 64 MiB device of 512-byte blocks
    let child = child(512, 131072);
    let label = Nexus::generate_label(disk_guid(), 512, 131072, 32 * 1024 * 1024).unwrap();
    let mut disk = vec![0u8; 131072 * 512];
    let writes = child.write_label(&label).unwrap();
    apply(&mut disk, &writes);
    (child, label, disk)
}

#[test]
fn generated_label_has_the_documented_layout() {
    let label = Nexus::generate_label(disk_guid(), 512, 2097152, GIB).unwrap();
    assert_eq!(label.status, NexusLabelStatus::Neither);
    assert_eq!(label.block_size, 512);
    assert_eq!(label.primary.lba_self, 1);
    assert_eq!(label.primary.lba_alt, 2097151);
    assert_eq!(label.primary.lba_table, 2);
    assert_eq!(label.primary.lba_start, 2048);
    assert_eq!(label.primary.lba_end, 2097118);
    assert_eq!(label.primary.num_entries, 2);
    assert_eq!(label.primary.entry_size, 128);
    assert_eq!(label.primary.header_size, 92);
    assert_eq!(label.primary.signature, *b"EFI PART");
    assert_eq!(label.primary.revision, [0, 0, 1, 0]);
    assert_eq!(label.primary.guid, disk_guid());
    assert_eq!(label.secondary.lba_self, 2097151);
    assert_eq!(label.secondary.lba_alt, 1);
    assert_eq!(label.secondary.lba_table, 2097119);
    assert_eq!(label.partitions.len(), 2);
    assert_eq!(label.partitions[0].ent_name.name, "MayaMeta");
    assert_eq!(label.partitions[0].ent_start, 2048);
    assert_eq!(label.partitions[0].ent_end, 10239);
    assert_eq!(label.partitions[1].ent_name.name, "MayaData");
    assert_eq!(label.partitions[1].ent_start, 10240);
    assert_eq!(label.partitions[1].ent_end, 2097118);
    assert_eq!(label.partitions[0].ent_type, Nexus::metadata_partition_type());
    assert_eq!(label.partitions[1].ent_type, Nexus::metadata_partition_type());
    assert_ne!(label.partitions[0].ent_guid, label.partitions[1].ent_guid);
}

#[test]
fn generated_label_mirrors_and_checksums() {
    for &(block_size, num_blocks) in &[(512u32, 2097152u64), (4096, 262144), (512, 20000)] {
        let label = Nexus::generate_label(disk_guid(), block_size, num_blocks, GIB).unwrap();
        assert_eq!(label.primary.lba_alt + 1, num_blocks);
        assert_eq!(label.secondary.lba_self, label.primary.lba_alt);
        let mut zeroed = label.primary;
        zeroed.self_checksum = 0;
        assert_eq!(
            label.primary.self_checksum,
            crc::crc32::checksum_ieee(&zeroed.to_bytes())
        );
        let mut zeroed = label.secondary;
        zeroed.self_checksum = 0;
        assert_eq!(
            label.secondary.self_checksum,
            crc::crc32::checksum_ieee(&zeroed.to_bytes())
        );
        let mut table = Vec::new();
        for entry in &label.partitions {
            table.extend_from_slice(&entry.to_bytes());
        }
        assert_eq!(label.primary.table_crc, crc::crc32::checksum_ieee(&table));
        assert_eq!(label.secondary.table_crc, label.primary.table_crc);
    }
}

#[test]
fn data_partition_is_cut_to_the_size_asked_for() {
    let label = Nexus::generate_label(disk_guid(), 512, 2097152, 64 * 1024 * 1024).unwrap();
    assert_eq!(label.partitions[1].ent_start, 10240);
    assert_eq!(label.partitions[1].ent_end, 10240 + 131072 - 1);
}

#[test]
fn device_too_small_is_refused() {
    // 5 MiB - 1 block: the metadata partition would end behind the last usable block
    assert_eq!(
        Nexus::generate_label(disk_guid(), 512, 10240, GIB),
        Err(LabelError::DeviceTooSmall { num_blocks: 10240, block_size: 512 })
    );
    assert_eq!(
        Nexus::generate_label(disk_guid(), 512, 10, GIB),
        Err(LabelError::DeviceTooSmall { num_blocks: 10, block_size: 512 })
    );
    assert_eq!(
        Nexus::generate_label(disk_guid(), 512, 0, GIB),
        Err(LabelError::DeviceTooSmall { num_blocks: 0, block_size: 512 })
    );
    // the smallest device that will do: 2048 + 8192 + 32 + 2 blocks
    assert!(Nexus::generate_label(disk_guid(), 512, 10274, GIB).is_ok());
    assert_eq!(
        Nexus::generate_label(disk_guid(), 512, 10273, GIB),
        Err(LabelError::DeviceTooSmall { num_blocks: 10273, block_size: 512 })
    );
}

#[test]
fn label_round_trip() {
    let child = child(512, 2097152);
    let label = Nexus::generate_label(disk_guid(), 512, 2097152, GIB).unwrap();
    let mut disk = vec![0u8; GIB as usize];
    let writes = child.write_label(&label).unwrap();
    assert_eq!(writes.len(), 2);
    assert_eq!(writes[0].offset, 0);
    assert_eq!(writes[0].buf.len(), 2048 * 512);
    assert_eq!(writes[1].offset, 2097119 * 512);
    assert_eq!(writes[1].buf.len(), 33 * 512);
    apply(&mut disk, &writes);

    let probed = child.probe_label(&disk).unwrap();
    assert_eq!(probed.status, NexusLabelStatus::Both);
    assert_eq!(probed.partitions.len(), 2);
    assert_eq!(probed.partitions[0].ent_name.name, "MayaMeta");
    assert_eq!(probed.partitions[1].ent_name.name, "MayaData");
    let mut zeroed = probed.primary;
    zeroed.self_checksum = 0;
    assert_eq!(probed.primary.self_checksum, crc::crc32::checksum_ieee(&zeroed.to_bytes()));
    assert_eq!(probed.primary, label.primary);
    assert_eq!(probed.secondary, label.secondary);
    assert_eq!(probed.mbr, label.mbr);
    assert_eq!(probed.partitions, label.partitions);
    assert_eq!(probed.block_size, label.block_size);
    assert!(NexusChild::check_maya_partitions(&probed));
    // nothing is left to write
    assert_eq!(child.write_label(&probed).unwrap().len(), 0);
}

#[test]
fn probe_rebuilds_the_missing_half() {
    let (child, label, disk) = small_label();

    // secondary header destroyed: the primary stands alone
    let mut damaged = disk.clone();
    let last = damaged.len() - 512;
    damaged[last] ^= 0xff;
    let probed = child.probe_label(&damaged).unwrap();
    assert_eq!(probed.status, NexusLabelStatus::Primary);
    assert_eq!(probed.primary, label.primary);
    assert_eq!(probed.secondary, label.secondary);
    let writes = child.write_label(&probed).unwrap();
    assert_eq!(writes.len(), 1);
    assert_eq!(writes[0].offset, label.secondary.lba_table * 512);
    apply(&mut damaged, &writes);
    assert_eq!(damaged, disk);
    assert_eq!(child.probe_label(&damaged).unwrap().status, NexusLabelStatus::Both);

    // primary header destroyed: the secondary stands alone
    let mut damaged = disk.clone();
    damaged[512 + 20] ^= 0xff;
    let probed = child.probe_label(&damaged).unwrap();
    assert_eq!(probed.status, NexusLabelStatus::Secondary);
    assert_eq!(probed.primary, label.primary);
    assert_eq!(probed.partitions, label.partitions);
    let writes = child.write_label(&probed).unwrap();
    assert_eq!(writes.len(), 1);
    assert_eq!(writes[0].offset, 0);
    apply(&mut damaged, &writes);
    assert_eq!(damaged, disk);

    // both destroyed: the fault of the primary header is reported
    let mut damaged = disk.clone();
    damaged[512] = b'X';
    damaged[last + 16] ^= 1;
    assert_eq!(
        child.probe_label(&damaged),
        Err(LabelError::InvalidLabel { source: ProbeError::GptSignature })
    );
}

#[test]
fn probe_reports_what_is_wrong() {
    let (child, _label, disk) = small_label();
    let last = disk.len() - 512;

    let blank = vec![0u8; disk.len()];
    assert_eq!(
        child.probe_label(&blank),
        Err(LabelError::InvalidLabel { source: ProbeError::MbrSignature })
    );

    let mut damaged = disk.clone();
    damaged[510] = 0;
    assert_eq!(
        child.probe_label(&damaged),
        Err(LabelError::InvalidLabel { source: ProbeError::MbrSignature })
    );

    // a wrong size in the MBR
    let mut damaged = disk.clone();
    damaged[440 + 6 + 12] ^= 1;
    assert_eq!(
        child.probe_label(&damaged),
        Err(LabelError::InvalidLabel { source: ProbeError::MbrSize })
    );

    // the partition table no longer matches its checksum
    let mut damaged = disk.clone();
    damaged[2 * 512 + 40] ^= 1;
    assert_eq!(
        child.probe_label(&damaged),
        Err(LabelError::InvalidLabel { source: ProbeError::PartitionTableChecksum })
    );

    // header size field
    let mut damaged = disk.clone();
    damaged[512 + 12] = 93;
    damaged[last + 12] = 93;
    assert_eq!(
        child.probe_label(&damaged),
        Err(LabelError::InvalidLabel {
            source: ProbeError::GptHeaderSize { actual_size: 93, expected_size: 92 }
        })
    );

    // revision
    let mut damaged = disk.clone();
    damaged[512 + 10] = 2;
    damaged[last + 10] = 2;
    assert_eq!(
        child.probe_label(&damaged),
        Err(LabelError::InvalidLabel { source: ProbeError::GptRevision })
    );

    // checksum
    let mut damaged = disk.clone();
    damaged[512 + 16] ^= 1;
    damaged[last + 16] ^= 1;
    assert_eq!(
        child.probe_label(&damaged),
        Err(LabelError::InvalidLabel { source: ProbeError::GptChecksum })
    );

    // an image shorter than the device
    assert_eq!(
        child.probe_label(&disk[..100]),
        Err(LabelError::ReadError { part: LabelPart::Mbr })
    );
    assert_eq!(
        child.probe_label(&disk[..600]),
        Err(LabelError::ReadError { part: LabelPart::PrimaryHeader })
    );
    assert_eq!(
        child.probe_label(&disk[..disk.len() - 1]),
        Err(LabelError::ReadError { part: LabelPart::SecondaryHeader })
    );

    // no device behind the child
    let orphan = NexusChild::new(String::from("bdev:///gone"), String::from("nexus"), None);
    assert_eq!(
        orphan.probe_label(&disk),
        Err(LabelError::HandleError { name: String::from("bdev:///gone") })
    );
}

#[test]
fn header_validation_errors() {
    let label = Nexus::generate_label(disk_guid(), 512, 131072, GIB).unwrap();
    let good = label.primary;
    assert_eq!(NexusLabel::validate_primary_header(&good, 512, 131072), Ok(()));

    let mut h = good;
    h.lba_self = 2;
    assert_eq!(
        NexusLabel::validate_primary_header(&h, 512, 131072),
        Err(ProbeError::PrimaryLocation)
    );
    assert_eq!(
        NexusLabel::validate_primary_header(&good, 512, 131073),
        Err(ProbeError::SecondaryLocation)
    );
    let mut h = good;
    h.lba_alt = u64::MAX;
    assert_eq!(
        NexusLabel::validate_primary_header(&h, 512, 0),
        Err(ProbeError::SecondaryLocation)
    );
    let mut h = good;
    h.lba_end = h.lba_alt;
    assert_eq!(
        NexusLabel::validate_primary_header(&h, 512, 131072),
        Err(ProbeError::LastUsableBlock)
    );
    let mut h = good;
    h.lba_table = 3;
    assert_eq!(
        NexusLabel::validate_primary_header(&h, 512, 131072),
        Err(ProbeError::PartitionTableLocation)
    );
    let mut h = good;
    h.num_entries = 129;
    assert_eq!(
        NexusLabel::validate_primary_header(&h, 512, 131072),
        Err(ProbeError::PartitionTableSize)
    );
    let mut h = good;
    h.num_entries = 0x0100_0000;
    h.entry_size = 0x100;
    assert_eq!(
        NexusLabel::validate_primary_header(&h, 512, 131072),
        Err(ProbeError::PartitionTableSize)
    );
    let mut h = good;
    h.lba_start = 33;
    assert_eq!(
        NexusLabel::validate_primary_header(&h, 512, 131072),
        Err(ProbeError::PartitionTableSpace)
    );
    h.lba_start = 34;
    assert_eq!(NexusLabel::validate_primary_header(&h, 512, 131072), Ok(()));

    let good = label.secondary;
    assert_eq!(NexusLabel::validate_secondary_header(&good, 512, 131072), Ok(()));
    let mut h = good;
    h.lba_alt = 2;
    assert_eq!(
        NexusLabel::validate_secondary_header(&h, 512, 131072),
        Err(ProbeError::PrimaryLocation)
    );
    assert_eq!(
        NexusLabel::validate_secondary_header(&good, 512, 131071),
        Err(ProbeError::SecondaryLocation)
    );
    let mut h = good;
    h.lba_start = 1;
    assert_eq!(
        NexusLabel::validate_secondary_header(&h, 512, 131072),
        Err(ProbeError::FirstUsableBlock)
    );
    let mut h = good;
    h.lba_table += 1;
    assert_eq!(
        NexusLabel::validate_secondary_header(&h, 512, 131072),
        Err(ProbeError::PartitionTableLocation)
    );
    let mut h = good;
    h.entry_size = 8193;
    assert_eq!(
        NexusLabel::validate_secondary_header(&h, 512, 131072),
        Err(ProbeError::PartitionTableSize)
    );
    let mut h = good;
    h.lba_end += 1;
    h.lba_table += 1;
    assert_eq!(
        NexusLabel::validate_secondary_header(&h, 512, 131072),
        Err(ProbeError::PartitionTableSpace)
    );
}

#[test]
fn partition_validation_errors() {
    let label = Nexus::generate_label(disk_guid(), 512, 131072, GIB).unwrap();
    assert_eq!(NexusLabel::validate_partitions(&label.partitions, &label.primary), Ok(()));

    let mut entries = label.partitions.clone();
    entries[1].ent_start = 2047;
    assert_eq!(
        NexusLabel::validate_partitions(&entries, &label.primary),
        Err(ProbeError::PartitionStart)
    );
    let mut entries = label.partitions.clone();
    entries[0].ent_end = 2047;
    assert_eq!(
        NexusLabel::validate_partitions(&entries, &label.primary),
        Err(ProbeError::NegativePartitionSize)
    );
    let mut entries = label.partitions.clone();
    entries[1].ent_end = label.primary.lba_end + 1;
    entries[0].ent_end = 1; // the later fault: the first one is reported
    assert_eq!(
        NexusLabel::validate_partitions(&entries, &label.primary),
        Err(ProbeError::NegativePartitionSize)
    );
    entries[0].ent_end = 10239;
    assert_eq!(
        NexusLabel::validate_partitions(&entries, &label.primary),
        Err(ProbeError::PartitionEnd)
    );
    let mut entries = label.partitions.clone();
    entries[1].ent_attr = 1;
    assert_eq!(
        NexusLabel::validate_partitions(&entries, &label.primary),
        Err(ProbeError::PartitionTableChecksum)
    );
    // an entry that starts at block 0 is not held to the first usable block
    let mut header = label.primary;
    let empty = vec![GptEntry::default(), GptEntry::default()];
    header.table_crc = GptEntry::checksum(&empty, 2);
    assert_eq!(NexusLabel::validate_partitions(&empty, &header), Ok(()));
}

#[test]
fn consistency_check_errors() {
    let label = Nexus::generate_label(disk_guid(), 512, 131072, GIB).unwrap();
    let (p, s) = (label.primary, label.secondary);
    assert_eq!(NexusLabel::consistency_check(&p, &s), Ok(()));
    let mut x = s;
    x.lba_alt = 2;
    assert_eq!(NexusLabel::consistency_check(&p, &x), Err(ProbeError::CompareHeaderLocation));
    let mut x = s;
    x.lba_self = 2;
    assert_eq!(NexusLabel::consistency_check(&p, &x), Err(ProbeError::CompareHeaderLocation));
    let mut x = s;
    x.lba_start += 1;
    assert_eq!(NexusLabel::consistency_check(&p, &x), Err(ProbeError::FirstUsableBlock));
    let mut x = s;
    x.lba_end += 1;
    assert_eq!(NexusLabel::consistency_check(&p, &x), Err(ProbeError::LastUsableBlock));
    let mut x = s;
    x.guid.node[7] ^= 1;
    assert_eq!(NexusLabel::consistency_check(&p, &x), Err(ProbeError::CompareDiskGuid));
    let mut x = s;
    x.num_entries = 3;
    assert_eq!(
        NexusLabel::consistency_check(&p, &x),
        Err(ProbeError::ComparePartitionEntryCount)
    );
    let mut x = s;
    x.entry_size = 64;
    assert_eq!(NexusLabel::consistency_check(&p, &x), Err(ProbeError::ComparePartitionEntrySize));
    let mut x = s;
    x.table_crc ^= 1;
    assert_eq!(
        NexusLabel::consistency_check(&p, &x),
        Err(ProbeError::ComparePartitionTableChecksum)
    );
}

#[test]
fn partitions_by_name() {
    let label = Nexus::generate_label(disk_guid(), 512, 2097152, GIB).unwrap();
    assert_eq!(label.get_partition("MayaMeta").unwrap().ent_start, 2048);
    assert_eq!(label.get_partition("MayaData").unwrap().ent_start, 10240);
    assert!(label.get_partition("mayadata").is_none());
    assert_eq!(label.partition_offset("MayaData"), Ok(10240 * 512));
    assert_eq!(label.partition_offset("MayaMeta"), Ok(2048 * 512));
    // the metadata partition has 4 MiB
    assert_eq!(label.partition_size("MayaMeta"), Ok(4 * 1024 * 1024));
    assert_eq!(label.partition_size("MayaMeta"), Ok((10239 - 2048 + 1) * 512));
    assert_eq!(label.partition_size("MayaData"), Ok((2097118 - 10240 + 1) * 512));
    assert_eq!(
        label.partition_offset("Other"),
        Err(ProbeError::MissingPartition { name: String::from("Other") })
    );
    assert_eq!(
        label.partition_size("Other"),
        Err(ProbeError::MissingPartition { name: String::from("Other") })
    );
}

#[test]
fn maya_partitions_are_recognised() {
    let label = Nexus::generate_label(disk_guid(), 512, 131072, GIB).unwrap();
    assert!(NexusChild::check_maya_partitions(&label));

    let mut other = label.clone();
    other.partitions[0].ent_name = GptName::from("Meta");
    assert!(!NexusChild::check_maya_partitions(&other));
    let mut other = label.clone();
    other.partitions[1].ent_type = GptGuid::default();
    assert!(!NexusChild::check_maya_partitions(&other));
    let mut other = label.clone();
    other.partitions[1].ent_start += 1;
    assert!(!NexusChild::check_maya_partitions(&other));
    let mut other = label.clone();
    other.partitions[0].ent_end += 1;
    assert!(!NexusChild::check_maya_partitions(&other));
    let mut other = label.clone();
    other.primary.lba_start += 1;
    assert!(!NexusChild::check_maya_partitions(&other));
    let mut other = label.clone();
    other.block_size = 4096;
    assert!(!NexusChild::check_maya_partitions(&other));
    let mut other = label.clone();
    other.partitions.truncate(1);
    assert!(!NexusChild::check_maya_partitions(&other));
}

#[test]
fn set_guid_reseals_both_headers() {
    let mut label = Nexus::generate_label(disk_guid(), 512, 131072, GIB).unwrap();
    label.status = NexusLabelStatus::Both;
    let guid = GptGuid::from_str("00112233-4455-6677-8899-aabbccddeeff").unwrap();
    let before = label.primary.self_checksum;
    label.set_guid(guid);
    assert_eq!(label.status, NexusLabelStatus::Neither);
    assert_eq!(label.primary.guid, guid);
    assert_eq!(label.secondary.guid, guid);
    assert_ne!(label.primary.self_checksum, before);
    assert_eq!(GptHeader::from_slice(&label.primary.to_bytes()), Ok(label.primary));
    assert_eq!(GptHeader::from_slice(&label.secondary.to_bytes()), Ok(label.secondary));
    assert_eq!(label.primary.to_secondary(), label.secondary);
    assert_eq!(label.secondary.to_primary(), label.primary);
}

#[test]
fn unique_offsets() {
    assert_eq!(unique(&[]), None);
    assert_eq!(unique(&[7]), Some(7));
    assert_eq!(unique(&[7, 7, 7]), Some(7));
    assert_eq!(unique(&[7, 7, 8]), None);
    assert_eq!(unique(&[8, 7, 7]), None);
}

#[test]
fn header_bytes_are_bit_exact() {
    let label = Nexus::generate_label(disk_guid(), 512, 2097152, GIB).unwrap();
    let h = label.primary;
    let bytes = h.to_bytes();
    assert_eq!(bytes.len(), 92);
    assert_eq!(&bytes[0..8], b"EFI PART");
    assert_eq!(&bytes[8..12], &[0, 0, 1, 0]);
    assert_eq!(&bytes[12..16], &[92, 0, 0, 0]);
    assert_eq!(&bytes[24..32], &[1, 0, 0, 0, 0, 0, 0, 0]);
    assert_eq!(&bytes[32..40], &[0xff, 0xff, 0x1f, 0, 0, 0, 0, 0]);
    assert_eq!(&bytes[40..48], &[0, 8, 0, 0, 0, 0, 0, 0]);
    // the GUID: first three fields little-endian, the rest as it is
    assert_eq!(
        &bytes[56..72],
        &[
            0x2f, 0x9a, 0xb4, 0xea, 0xea, 0xef, 0xe6, 0x45, 0x9a, 0x1b, 0x61, 0xfe, 0xce, 0x34,
            0x26, 0xdd
        ]
    );
    assert_eq!(&bytes[72..80], &[2, 0, 0, 0, 0, 0, 0, 0]);
    assert_eq!(&bytes[80..84], &[2, 0, 0, 0]);
    assert_eq!(&bytes[84..88], &[128, 0, 0, 0]);

    // the same bytes as a generic serializer gives for the fields in order
    let reference = bincode::serialize(&(
        h.signature,
        h.revision,
        h.header_size,
        h.self_checksum,
        h.reserved,
        h.lba_self,
        h.lba_alt,
        h.lba_start,
        h.lba_end,
        (h.guid.time_low, h.guid.time_mid, h.guid.time_high, h.guid.node),
        h.lba_table,
        h.num_entries,
        h.entry_size,
        h.table_crc,
    ))
    .unwrap();
    assert_eq!(bytes, reference);
    assert_eq!(GptHeader::from_slice(&bytes), Ok(h));
    assert_eq!(GptHeader::from_slice(&bytes[..91]), Err(ProbeError::DeserializeError));
}

#[test]
fn mbr_bytes_are_bit_exact() {
    let label = Nexus::generate_label(disk_guid(), 512, 2097152, GIB).unwrap();
    let bytes = label.mbr.to_bytes();
    assert_eq!(bytes.len(), 72);
    let mut expected = vec![0u8; 72];
    expected[6..22].copy_from_slice(&[
        0x00, 0x00, 0x02, 0x00, 0xee, 0xff, 0xff, 0xff, 1, 0, 0, 0, 0xff, 0xff, 0x1f, 0x00,
    ]);
    expected[70] = 0x55;
    expected[71] = 0xaa;
    assert_eq!(bytes, expected);
    assert_eq!(Pmbr::from_slice(&bytes), Ok(label.mbr));
    assert_eq!(Pmbr::from_slice(&bytes[..71]), Err(ProbeError::DeserializeError));
    assert_eq!(Pmbr::default().entries[0].num_sectors, 0);
    assert_eq!(Pmbr::default().signature, [0x55, 0xaa]);

    // a disk of more blocks than 32 bits count
    let large = Nexus::generate_label(disk_guid(), 512, 0x1_0000_0000, GIB).unwrap();
    assert_eq!(large.mbr.entries[0].num_sectors, 0xffff_ffff);
    let edge = Nexus::generate_label(disk_guid(), 512, 0xffff_ffff, GIB).unwrap();
    assert_eq!(edge.mbr.entries[0].num_sectors, 0xffff_fffe);
}

#[test]
fn entry_bytes_are_bit_exact() {
    let label = Nexus::generate_label(disk_guid(), 512, 2097152, GIB).unwrap();
    let entry = &label.partitions[0];
    let bytes = entry.to_bytes();
    assert_eq!(bytes.len(), 128);
    // type GUID 27663382-e5e6-11e9-81b4-ca5ca5ca5ca5
    assert_eq!(
        &bytes[0..16],
        &[
            0x82, 0x33, 0x66, 0x27, 0xe6, 0xe5, 0xe9, 0x11, 0x81, 0xb4, 0xca, 0x5c, 0xa5, 0xca,
            0x5c, 0xa5
        ]
    );
    assert_eq!(&bytes[32..40], &[0, 8, 0, 0, 0, 0, 0, 0]);
    assert_eq!(&bytes[40..48], &[0xff, 0x27, 0, 0, 0, 0, 0, 0]);
    assert_eq!(&bytes[48..56], &[0u8; 8]);
    let mut name = [0u8; 72];
    for (i, c) in "MayaMeta".bytes().enumerate() {
        name[2 * i] = c;
    }
    assert_eq!(&bytes[56..128], &name[..]);
    assert_eq!(GptEntry::default().to_bytes(), vec![0u8; 128]);

    let parsed = GptEntry::from_slice(&bytes, 1).unwrap();
    assert_eq!(parsed.len(), 1);
    assert_eq!(&parsed[0], entry);
    assert_eq!(GptEntry::from_slice(&bytes, 2), Err(ProbeError::DeserializeError));
    assert_eq!(GptEntry::from_slice(&bytes, 0), Ok(vec![]));

    // a name without terminator is refused
    let mut unterminated = bytes.clone();
    for i in 0..36 {
        unterminated[56 + 2 * i] = b'x';
    }
    assert_eq!(GptEntry::from_slice(&unterminated, 1), Err(ProbeError::DeserializeError));
}

#[test]
fn table_checksum_pads_with_empty_entries() {
    let label = Nexus::generate_label(disk_guid(), 512, 2097152, GIB).unwrap();
    let mut table = Vec::new();
    for entry in &label.partitions {
        table.extend_from_slice(&entry.to_bytes());
    }
    assert_eq!(GptEntry::checksum(&label.partitions, 2), crc::crc32::checksum_ieee(&table));
    assert_eq!(GptEntry::checksum(&label.partitions, 1), crc::crc32::checksum_ieee(&table));
    table.resize(128 * 128, 0);
    assert_eq!(GptEntry::checksum(&label.partitions, 128), crc::crc32::checksum_ieee(&table));
    // the check value of CRC-32/ISO-HDLC
    assert_eq!(crc::crc32::checksum_ieee(b"123456789"), 0xcbf4_3926);
    assert_eq!(GptEntry::checksum(&[], 0), 0);
}

#[test]
fn names_in_utf16() {
    let name = GptName::from("Gr\u{fc}\u{df}e \u{1f600}");
    assert!(name.is_storable());
    let mut out = Vec::new();
    name.put(&mut out);
    assert_eq!(out.len(), 72);
    assert_eq!(&out[0..6], &[b'G', 0, b'r', 0, 0xfc, 0]);
    // the surrogate pair of U+1F600
    assert_eq!(&out[12..16], &[0x3d, 0xd8, 0x00, 0xde]);
    assert_eq!(GptName::get(&out, 0), Ok(name));

    // 36 units leave no room for the terminator
    let long = GptName::from("123456789012345678901234567890123456");
    assert!(!long.is_storable());
    assert!(GptName::from("12345678901234567890123456789012345").is_storable());
    assert!(!GptName::from("a\0b").is_storable());
    let mut out = Vec::new();
    long.put(&mut out);
    assert_eq!(out.len(), 72);
    assert_eq!(GptName::get(&out, 0), Err(ProbeError::DeserializeError));

    // what follows the first zero is ignored
    let mut out = Vec::new();
    GptName::from("a\0b").put(&mut out);
    assert_eq!(GptName::get(&out, 0), Ok(GptName::from("a")));

    // an unpaired surrogate reads as the replacement character
    let mut raw = vec![0u8; 72];
    raw[0] = 0x00;
    raw[1] = 0xd8;
    assert_eq!(GptName::get(&raw, 0), Ok(GptName::from("\u{fffd}")));
    assert_eq!(GptName::default().name, "");
    assert_eq!(GptName::from(String::from("x")), GptName::from("x"));
}

#[test]
fn guid_text() {
    let guid = GptGuid::from_str(Nexus::METADATA_PARTITION_TYPE_ID).unwrap();
    assert_eq!(guid, Nexus::metadata_partition_type());
    assert_eq!(guid.time_low, 0x27663382);
    assert_eq!(guid.time_mid, 0xe5e6);
    assert_eq!(guid.time_high, 0x11e9);
    assert_eq!(guid.node, [0x81, 0xb4, 0xca, 0x5c, 0xa5, 0xca, 0x5c, 0xa5]);
    assert_eq!(guid.to_string(), "27663382-e5e6-11e9-81b4-ca5ca5ca5ca5");
    assert_eq!(
        GptGuid::from_str("27663382E5E611E981B4CA5CA5CA5CA5"),
        Ok(Nexus::metadata_partition_type())
    );
    assert!(GptGuid::from_str("27663382-e5e6-11e9-81b4").is_err());
    assert!(GptGuid::from_str("").is_err());
    assert_eq!(GptGuid::default().to_string(), "00000000-0000-0000-0000-000000000000");

    let random = GptGuid::new_random();
    assert_eq!(random.time_high >> 12, 4);
    assert_eq!(random.node[0] >> 6, 2);
    assert_ne!(random, GptGuid::new_random());
    assert_eq!(GptGuid::from_str(&random.to_string()), Ok(random));
}

#[test]
fn name_fields_from_code_units() {
    let units: Vec<u16> = "MayaData".encode_utf16().collect();
    assert!(GptName::fits(&units));
    let mut out = vec![0xaa];
    GptName::put_units(&units, &mut out);
    assert_eq!(out.len(), 73);
    assert_eq!(&out[..5], &[0xaa, b'M', 0, b'a', 0]);
    assert!(out[17..].iter().all(|&b| b == 0));
    assert_eq!(GptName::get_units(&out, 1), Some(units));

    // more units than the field has room for are cut off
    let long = vec![0x41u16; 40];
    assert!(!GptName::fits(&long));
    assert!(!GptName::fits(&long[..36]));
    assert!(GptName::fits(&long[..35]));
    assert!(!GptName::fits(&[0x41, 0, 0x42]));
    assert!(GptName::fits(&[]));
    let mut out = Vec::new();
    GptName::put_units(&long, &mut out);
    assert_eq!(out.len(), 72);
    assert_eq!(GptName::get_units(&out, 0), None);
    let mut out = Vec::new();
    GptName::put_units(&[0x1234, 0xabcd], &mut out);
    assert_eq!(&out[..6], &[0x34, 0x12, 0xcd, 0xab, 0, 0]);
    assert_eq!(GptName::get_units(&out, 0), Some(vec![0x1234, 0xabcd]));
    assert_eq!(GptName::get_units(&[0u8; 72], 0), Some(vec![]));
}

#[test]
fn generated_label_is_well_formed() {
    let label = Nexus::generate_label(disk_guid(), 512, 131072, 32 * 1024 * 1024).unwrap();
    assert!(label.is_well_formed(512, 131072));
    // on another device it is not
    assert!(!label.is_well_formed(512, 131073));
    assert!(!label.is_well_formed(4096, 131072));
    let mut other = label.clone();
    other.primary.table_crc ^= 1;
    assert!(!other.is_well_formed(512, 131072));
    let mut other = label.clone();
    other.partitions[1].ent_name = GptName::from("a name of more than thirty-five units");
    assert!(!other.is_well_formed(512, 131072));
    let mut other = label.clone();
    other.mbr.signature = [0, 0];
    assert!(!other.is_well_formed(512, 131072));
    let mut other = label.clone();
    other.secondary.lba_table += 1;
    assert!(!other.is_well_formed(512, 131072));
    let mut other = label.clone();
    other.partitions.pop();
    assert!(!other.is_well_formed(512, 131072));
    // a nexus of no size has a data partition that ends before it starts
    let empty = Nexus::generate_label(disk_guid(), 512, 131072, 0).unwrap();
    assert!(!empty.is_well_formed(512, 131072));
    assert!(NexusLabel::header_accepted(&label.primary));
    assert!(label.entries_storable());
}

#[test]
fn label_that_does_not_fit_its_buffer() {
    let child = child(512, 131072);
    let label = Nexus::generate_label(disk_guid(), 512, 131072, 32 * 1024 * 1024).unwrap();

    // the first usable block at block 0: there is no room for the MBR
    let mut other = label.clone();
    other.primary.lba_start = 0;
    assert_eq!(child.get_primary_data(&other), Err(LabelError::SerializeError));
    // the header behind the buffer
    let mut other = label.clone();
    other.primary.lba_self = other.primary.lba_start;
    assert_eq!(child.get_primary_data(&other), Err(LabelError::SerializeError));
    // the table behind the buffer
    let mut other = label.clone();
    other.primary.lba_table = other.primary.lba_start;
    assert_eq!(child.write_label(&other), Err(LabelError::SerializeError));
    // without entries nothing is written of the table
    other.partitions.clear();
    assert!(child.get_primary_data(&other).is_ok());

    // the secondary table behind the secondary header
    let mut other = label.clone();
    other.secondary.lba_table = other.secondary.lba_self + 1;
    assert_eq!(
        child.get_secondary_data(&other),
        Err(LabelError::WriteAlloc { half: LabelHalf::Secondary })
    );
    // a secondary half of one block has no room for a table of five entries
    let mut other = label.clone();
    other.secondary.lba_table = other.secondary.lba_self;
    assert!(child.get_secondary_data(&other).is_ok());
    for _ in 0..3 {
        other.partitions.push(GptEntry::default());
    }
    assert_eq!(child.get_secondary_data(&other), Err(LabelError::SerializeError));
    // a primary half that cannot be addressed
    let mut other = label.clone();
    other.primary.lba_start = u64::MAX;
    assert_eq!(
        child.get_primary_data(&other),
        Err(LabelError::WriteAlloc { half: LabelHalf::Primary })
    );

    let data = child.get_secondary_data(&label).unwrap();
    assert_eq!(data.offset, label.secondary.lba_table * 512);
    assert_eq!(data.buf.len(), 33 * 512);
    assert_eq!(&data.buf[..128], &label.partitions[0].to_bytes()[..]);
    assert_eq!(&data.buf[32 * 512..32 * 512 + 92], &label.secondary.to_bytes()[..]);
    let data = child.get_primary_data(&label).unwrap();
    assert_eq!(data.offset, 0);
    assert_eq!(&data.buf[440..512], &label.mbr.to_bytes()[..]);
    assert_eq!(&data.buf[512..604], &label.primary.to_bytes()[..]);
    assert_eq!(&data.buf[1024 + 128..1024 + 256], &label.partitions[1].to_bytes()[..]);
    assert!(data.buf[..440].iter().all(|&b| b == 0));
}

#[test]
fn where_the_headers_lie() {
    let extents = NexusLabel::header_extents(512, 131072);
    assert_eq!(extents.mbr, (0, 512));
    assert_eq!(extents.primary, (512, 512));
    assert_eq!(extents.secondary, Some((131071 * 512, 512)));
    let extents = NexusLabel::header_extents(4096, 1);
    assert_eq!(extents.primary, (4096, 4096));
    assert_eq!(extents.secondary, Some((0, 4096)));
    assert_eq!(NexusLabel::header_extents(4096, 0).secondary, None);
    let extents = NexusLabel::header_extents(u64::MAX, u64::MAX);
    assert_eq!(
        extents.secondary,
        Some(((u64::MAX as u128 - 1) * u64::MAX as u128, u64::MAX as u128))
    );
}
