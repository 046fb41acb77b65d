//! What holds of a label that is written to a device and read back.
use crate::aligned::{blocks_for, lemma_blocks_for_is_ceiling};
use crate::errors::{LabelError, ProbeError};
use crate::gpt_entry::{chunk, table_chunks, table_from, EntrySpec, GptName};
use crate::gpt_header::GptHeader;
use crate::guid::GptGuid;
use crate::label_probe::{
    block_at, extent_at, header_extents_of, in_use, probe_headers_spec, probe_partitions_spec,
    probe_spec, secondary_at, LabelHeaders,
};
use crate::label_write::{
    entries_image, lemma_table_len, placed, primary_data, secondary_data, DataSpec,
};
use crate::mbr::{MbrEntry, Pmbr};
use crate::nexus_label::{
    consistency, partitions_check, primary_check, secondary_check, table_blocks, LabelSpec,
    NexusLabel, NexusLabelStatus,
};
use crate::wire::{lemma_join_chunk, lemma_join_len, lemma_overlay, overlay, zeros};
use vstd::prelude::*;

verus! {

/// Whether a label is one that a device of `num_blocks` blocks of
/// `block_size` bytes can hold and give back: its MBR and both headers
/// pass every check of a probe, its halves do not overlap, and each entry
/// of its table defines a partition with a name that can be stored.
pub open spec fn well_formed(label: LabelSpec, block_size: u64, num_blocks: u64) -> bool {
    &&& block_size >= 512
    &&& num_blocks * block_size <= usize::MAX
    &&& label.block_size == block_size
    &&& label.mbr.signature == Pmbr::PMBR_SIGNATURE
    &&& (label.mbr.entries[0].num_sectors == 0xffff_ffff || label.mbr.entries[0].num_sectors
        == label.primary.lba_alt)
    &&& GptHeader::from_slice_spec(label.primary.bytes()) == Ok::<GptHeader, ProbeError>(
        label.primary,
    )
    &&& GptHeader::from_slice_spec(label.secondary.bytes()) == Ok::<GptHeader, ProbeError>(
        label.secondary,
    )
    &&& primary_check(label.primary, block_size, num_blocks) is Ok
    &&& secondary_check(label.secondary, block_size, num_blocks) is Ok
    &&& consistency(label.primary, label.secondary) is Ok
    &&& label.primary.lba_start <= label.primary.lba_end + 1
    &&& label.primary.entry_size == 128
    &&& label.partitions.len() == label.primary.num_entries
    &&& partitions_check(label.partitions, label.primary) is Ok
    &&& forall|i: int|
        0 <= i < label.partitions.len() ==> in_use(#[trigger] label.partitions[i])
            && GptName::storable(label.partitions[i].ent_name)
}

/// A device after a write.
pub open spec fn written(disk: Seq<u8>, data: DataSpec) -> Seq<u8> {
    overlay(disk, data.offset as int, data.buf)
}

/// More bytes take no fewer blocks.
pub proof fn lemma_blocks_for_monotone(a: int, b: int, block_size: int)
    requires
        0 <= a <= b,
        0 < block_size,
    ensures
        blocks_for(a, block_size) <= blocks_for(b, block_size),
{
    lemma_blocks_for_is_ceiling(a, block_size);
    lemma_blocks_for_is_ceiling(b, block_size);
    let x = blocks_for(a, block_size);
    let y = blocks_for(b, block_size);
    if x > y {
        assert((x - 1) * block_size >= y * block_size) by (nonlinear_arith)
            requires
                x - 1 >= y,
                0 < block_size,
        ;
    }
}

/// The header that a block stands for is decided by its first 92 bytes.
pub proof fn lemma_header_prefix(block: Seq<u8>, header: GptHeader)
    requires
        block.len() >= 92,
        block.subrange(0, 92) == header.bytes(),
    ensures
        GptHeader::from_bytes(block) == header,
        GptHeader::from_slice_spec(block) == GptHeader::from_slice_spec(header.bytes()),
{
    let front = block.subrange(0, 92);
    header.lemma_round_trip();
    assert(block.subrange(0, 8) =~= front.subrange(0, 8));
    assert(block.subrange(8, 12) =~= front.subrange(8, 12));
    assert(block.subrange(12, 16) =~= front.subrange(12, 16));
    assert(block.subrange(16, 20) =~= front.subrange(16, 20));
    assert(block.subrange(20, 24) =~= front.subrange(20, 24));
    assert(block.subrange(24, 32) =~= front.subrange(24, 32));
    assert(block.subrange(32, 40) =~= front.subrange(32, 40));
    assert(block.subrange(40, 48) =~= front.subrange(40, 48));
    assert(block.subrange(48, 56) =~= front.subrange(48, 56));
    assert(block.subrange(56, 72) =~= front.subrange(56, 72));
    assert(block.subrange(72, 80) =~= front.subrange(72, 80));
    assert(block.subrange(80, 84) =~= front.subrange(80, 84));
    assert(block.subrange(84, 88) =~= front.subrange(84, 88));
    assert(block.subrange(88, 92) =~= front.subrange(88, 92));
    assert(GptHeader::from_bytes(block) == GptHeader::from_bytes(front));
}

/// A table whose bytes are those of entries with storable names reads as
/// those entries.
pub proof fn lemma_table_round_trip(bytes: Seq<u8>, entries: Seq<EntrySpec>)
    requires
        entries.len() <= u32::MAX,
        bytes.len() >= 128 * entries.len(),
        bytes.subrange(0, 128 * (entries.len() as int)) == entries_image(entries),
        forall|i: int| 0 <= i < entries.len() ==> GptName::storable((#[trigger] entries[i]).ent_name),
    ensures
        table_from(bytes, entries.len() as u32) == Ok::<Seq<EntrySpec>, ProbeError>(entries),
{
    let chunks = entries.map_values(|entry: EntrySpec| entry.bytes());
    assert(table_chunks(entries, 0) =~= chunks);
    assert forall|k: int| 0 <= k < chunks.len() implies (#[trigger] chunks[k]).len() == 128 by {
        entries[k].lemma_len();
    }
    lemma_join_len(chunks, 128);
    let image = entries_image(entries);
    assert forall|i: int| 0 <= i < entries.len() implies EntrySpec::from_bytes(chunk(bytes, i))
        == Ok::<EntrySpec, ProbeError>(entries[i]) by {
        lemma_join_chunk(chunks, 128, i);
        assert(i * 128 + 128 <= image.len());
        assert(chunk(bytes, i) =~= image.subrange(i * 128, i * 128 + 128));
        entries[i].lemma_round_trip();
    }
    let count = entries.len() as u32;
    let read = Seq::new(count as nat, |i: int| EntrySpec::from_bytes(chunk(bytes, i))->Ok_0);
    assert(read =~= entries);
}

/// A filter that every element passes keeps the sequence.
pub proof fn lemma_filter_all(entries: Seq<EntrySpec>)
    requires
        forall|i: int| 0 <= i < entries.len() ==> in_use(#[trigger] entries[i]),
    ensures
        entries.filter(|entry: EntrySpec| in_use(entry)) == entries,
    decreases entries.len(),
{
    reveal(Seq::filter);
    let keep = |entry: EntrySpec| in_use(entry);
    if entries.len() > 0 {
        lemma_filter_all(entries.drop_last());
        assert(keep(entries.last()));
        assert(entries.drop_last().push(entries.last()) =~= entries);
    }
}

/// The primary half of a well-formed label can be made, and holds the MBR
/// record, the primary header and the partition table where a probe reads
/// them.
#[verifier::rlimit(40)]
pub proof fn lemma_primary_data(label: LabelSpec, block_size: u64, num_blocks: u64)
    requires
        well_formed(label, block_size, num_blocks),
    ensures
        primary_data(label, block_size) matches Ok(data) && {
            &&& data.offset == 0
            &&& data.buf.len() == label.primary.lba_start * block_size
            &&& data.buf.len() >= 2 * block_size + 128 * label.partitions.len()
            &&& data.buf.subrange(440, 512) == label.mbr.bytes()
            &&& data.buf.subrange(block_size as int, block_size + 92) == label.primary.bytes()
            &&& data.buf.subrange(2 * block_size, 2 * block_size + 128 * label.partitions.len())
                == entries_image(label.partitions)
        },
{
    let bs = block_size as int;
    let n = label.partitions.len() as int;
    let len = label.primary.lba_start * block_size;
    let table = entries_image(label.partitions);
    label.mbr.lemma_round_trip();
    label.primary.lemma_round_trip();
    lemma_table_len(label.partitions);
    lemma_blocks_for_is_ceiling(GptHeader::PARTITION_TABLE_SIZE as int, bs);
    let tb = table_blocks(block_size);
    assert(128 * n <= 16384);
    assert(tb * bs >= 16384);
    assert(len >= (2 + tb) * bs) by (nonlinear_arith)
        requires
            len == label.primary.lba_start * bs,
            label.primary.lba_start >= 2 + tb,
            bs > 0,
    ;
    assert((2 + tb) * bs == 2 * bs + tb * bs) by (nonlinear_arith);
    assert(len <= num_blocks * bs) by (nonlinear_arith)
        requires
            len == label.primary.lba_start * bs,
            label.primary.lba_start <= num_blocks,
            bs > 0,
    ;
    assert(label.primary.lba_self * block_size == bs) by (nonlinear_arith)
        requires
            label.primary.lba_self == 1,
            bs == block_size,
    ;
    assert(label.primary.lba_table * block_size == 2 * bs) by (nonlinear_arith)
        requires
            label.primary.lba_table == 2,
            bs == block_size,
    ;
    let zero = zeros(len as nat);
    let first = overlay(zero, 440, label.mbr.bytes());
    let second = overlay(first, bs, label.primary.bytes());
    let third = overlay(second, 2 * bs, table);
    assert(placed(zero, 440, label.mbr.bytes()) == Ok::<Seq<u8>, LabelError>(first));
    assert(placed(first, bs, label.primary.bytes()) == Ok::<Seq<u8>, LabelError>(second));
    lemma_overlay(zero, 440, label.mbr.bytes(), 440, 512);
    lemma_overlay(first, bs, label.primary.bytes(), 440, 512);
    lemma_overlay(first, bs, label.primary.bytes(), bs, bs + 92);
    assert(label.mbr.bytes().subrange(0, 72) =~= label.mbr.bytes());
    assert(label.primary.bytes().subrange(0, 92) =~= label.primary.bytes());
    if n == 0 {
        assert(table.len() == 0);
        assert(second.subrange(2 * bs, 2 * bs + 128 * n) =~= table);
    } else {
        assert(placed(second, 2 * bs, table) == Ok::<Seq<u8>, LabelError>(third));
        lemma_overlay(second, 2 * bs, table, 440, 512);
        lemma_overlay(second, 2 * bs, table, bs, bs + 92);
        lemma_overlay(second, 2 * bs, table, 2 * bs, 2 * bs + 128 * n);
        assert(table.subrange(0, 128 * n) =~= table);
    }
}

/// The secondary half of a well-formed label can be made, ends with the
/// device, and holds the partition table and the secondary header where a
/// probe reads them.
pub proof fn lemma_secondary_data(label: LabelSpec, block_size: u64, num_blocks: u64)
    requires
        well_formed(label, block_size, num_blocks),
    ensures
        secondary_data(label, block_size) matches Ok(data) && {
            &&& data.offset == label.secondary.lba_table * block_size
            &&& data.offset >= label.primary.lba_start * block_size
            &&& data.offset + data.buf.len() == num_blocks * block_size
            &&& data.buf.len() >= block_size
            &&& data.buf.subrange(data.buf.len() - block_size, data.buf.len() - block_size + 92)
                == label.secondary.bytes()
        },
{
    let bs = block_size as int;
    let n = label.partitions.len() as int;
    let s = label.secondary;
    let blocks = s.lba_self - s.lba_table + 1;
    let len = blocks * bs;
    let table = entries_image(label.partitions);
    s.lemma_round_trip();
    lemma_table_len(label.partitions);
    lemma_blocks_for_is_ceiling(GptHeader::PARTITION_TABLE_SIZE as int, bs);
    let tb = table_blocks(block_size);
    assert(blocks >= tb + 1);
    assert(len == (blocks - 1) * bs + bs) by (nonlinear_arith)
        requires
            len == blocks * bs,
    ;
    assert((blocks - 1) * bs >= tb * bs) by (nonlinear_arith)
        requires
            blocks - 1 >= tb,
            bs > 0,
    ;
    assert(s.lba_table * bs + len == num_blocks * bs) by (nonlinear_arith)
        requires
            len == (s.lba_self - s.lba_table + 1) * bs,
            s.lba_self + 1 == num_blocks,
    ;
    assert(s.lba_table * bs >= label.primary.lba_start * bs) by (nonlinear_arith)
        requires
            s.lba_table >= label.primary.lba_start,
            bs > 0,
    ;
    assert(0 <= s.lba_table * bs) by (nonlinear_arith)
        requires
            0 <= s.lba_table,
            0 < bs,
    ;
    let zero = zeros(len as nat);
    let first = overlay(zero, 0, table);
    let second = overlay(first, (blocks - 1) * bs, s.bytes());
    assert(placed(zero, 0, table) == Ok::<Seq<u8>, LabelError>(first));
    assert(placed(first, (blocks - 1) * bs, s.bytes()) == Ok::<Seq<u8>, LabelError>(second));
    lemma_overlay(first, (blocks - 1) * bs, s.bytes(), (blocks - 1) * bs, (blocks - 1) * bs + 92);
    assert(s.bytes().subrange(0, 92) =~= s.bytes());
}

/// Whether a device holds the parts of a label where a probe reads them:
/// the MBR record behind the boot code, the primary header in the second
/// block with the partition table behind it, and the secondary header in
/// the last block.
pub open spec fn holds(disk: Seq<u8>, label: LabelSpec, block_size: u64, num_blocks: u64) -> bool {
    let bs = block_size as int;
    let last = disk.len() - bs;
    &&& disk.len() == num_blocks * block_size
    &&& disk.subrange(440, 512) == label.mbr.bytes()
    &&& disk.subrange(bs, bs + 92) == label.primary.bytes()
    &&& disk.subrange(2 * bs, 2 * bs + 128 * label.partitions.len()) == entries_image(
        label.partitions,
    )
    &&& disk.subrange(last, last + 92) == label.secondary.bytes()
}

/// What two writes leave on a device, the first at its start and the
/// second behind the first: within the first the bytes of the first, within
/// the second those of the second.
pub proof fn lemma_two_writes(
    disk: Seq<u8>,
    first: Seq<u8>,
    second: Seq<u8>,
    at: int,
    from: int,
    to: int,
)
    requires
        first.len() <= at,
        at + second.len() <= disk.len(),
        0 <= from <= to <= disk.len(),
    ensures
        overlay(overlay(disk, 0, first), at, second).len() == disk.len(),
        to <= first.len() ==> overlay(overlay(disk, 0, first), at, second).subrange(from, to)
            == first.subrange(from, to),
        at <= from && to <= at + second.len() ==> overlay(
            overlay(disk, 0, first),
            at,
            second,
        ).subrange(from, to) == second.subrange(from - at, to - at),
{
    let middle = overlay(disk, 0, first);
    lemma_overlay(disk, 0, first, from, to);
    lemma_overlay(middle, at, second, from, to);
}

/// A device to which the two halves of a label were written holds the
/// parts of the label where a probe reads them, given that the halves
/// hold them.
pub proof fn lemma_halves_hold(
    label: LabelSpec,
    disk: Seq<u8>,
    block_size: u64,
    num_blocks: u64,
    p: DataSpec,
    s: DataSpec,
)
    requires
        block_size >= 512,
        disk.len() == num_blocks * block_size,
        p.offset == 0,
        p.buf.len() >= 2 * block_size + 128 * label.partitions.len(),
        p.buf.subrange(440, 512) == label.mbr.bytes(),
        p.buf.subrange(block_size as int, block_size + 92) == label.primary.bytes(),
        p.buf.subrange(2 * block_size, 2 * block_size + 128 * label.partitions.len())
            == entries_image(label.partitions),
        s.offset >= p.buf.len(),
        s.offset + s.buf.len() == num_blocks * block_size,
        s.buf.len() >= block_size,
        s.buf.subrange(s.buf.len() - block_size, s.buf.len() - block_size + 92)
            == label.secondary.bytes(),
    ensures
        holds(written(written(disk, p), s), label, block_size, num_blocks),
{
    let bs = block_size as int;
    let n = label.partitions.len() as int;
    let at = s.offset as int;
    let last = disk.len() - bs;
    lemma_two_writes(disk, p.buf, s.buf, at, 440, 512);
    lemma_two_writes(disk, p.buf, s.buf, at, bs, bs + 92);
    lemma_two_writes(disk, p.buf, s.buf, at, 2 * bs, 2 * bs + 128 * n);
    lemma_two_writes(disk, p.buf, s.buf, at, last, last + 92);
    assert(last - at == s.buf.len() - bs);
}

/// A device to which both halves of a well-formed label were written
/// holds the parts of the label where a probe reads them.
pub proof fn lemma_written_holds(label: LabelSpec, disk: Seq<u8>, block_size: u64, num_blocks: u64)
    requires
        well_formed(label, block_size, num_blocks),
        disk.len() == num_blocks * block_size,
    ensures
        primary_data(label, block_size) is Ok,
        secondary_data(label, block_size) is Ok,
        holds(
            written(
                written(disk, primary_data(label, block_size)->Ok_0),
                secondary_data(label, block_size)->Ok_0,
            ),
            label,
            block_size,
            num_blocks,
        ),
{
    lemma_primary_data(label, block_size, num_blocks);
    lemma_secondary_data(label, block_size, num_blocks);
    lemma_halves_hold(
        label,
        disk,
        block_size,
        num_blocks,
        primary_data(label, block_size)->Ok_0,
        secondary_data(label, block_size)->Ok_0,
    );
}

/// A block that holds the bytes of a header at its start reads as those
/// bytes do.
pub proof fn lemma_read_header_block(disk: Seq<u8>, at: int, block_size: int, header: GptHeader)
    requires
        0 <= at,
        92 <= block_size,
        at + block_size <= disk.len(),
        disk.subrange(at, at + 92) == header.bytes(),
    ensures
        GptHeader::from_slice_spec(disk.subrange(at, at + block_size))
            == GptHeader::from_slice_spec(header.bytes()),
{
    let block = disk.subrange(at, at + block_size);
    assert(block.subrange(0, 92) =~= disk.subrange(at, at + 92));
    lemma_header_prefix(block, header);
}

/// A first block that holds the bytes of an MBR record with the right
/// signature behind the boot code reads as that record.
pub proof fn lemma_read_mbr_block(disk: Seq<u8>, block_size: int, mbr: Pmbr)
    requires
        512 <= block_size <= disk.len(),
        disk.subrange(440, 512) == mbr.bytes(),
        mbr.signature == Pmbr::PMBR_SIGNATURE,
    ensures
        NexusLabel::read_mbr_spec(disk.subrange(0, block_size)) == Ok::<Pmbr, ProbeError>(mbr),
{
    let block = disk.subrange(0, block_size);
    assert(block.subrange(440, 512) =~= disk.subrange(440, 512));
    mbr.lemma_round_trip();
}

/// The headers of a well-formed label are read as they are from a device
/// that holds its parts, and found valid both.
#[verifier::rlimit(40)]
pub proof fn lemma_probe_headers(label: LabelSpec, disk: Seq<u8>, block_size: u64, num_blocks: u64)
    requires
        well_formed(label, block_size, num_blocks),
        holds(disk, label, block_size, num_blocks),
    ensures
        block_at(disk, 0, block_size as int) matches Some(mbr_block) && NexusLabel::read_mbr_spec(
            mbr_block,
        ) == Ok::<Pmbr, ProbeError>(label.mbr),
        block_at(disk, block_size as int, block_size as int) is Some,
        block_at(disk, (num_blocks - 1) * block_size, block_size as int) is Some,
        probe_headers_spec(
            label.mbr,
            block_at(disk, block_size as int, block_size as int)->Some_0,
            block_at(disk, (num_blocks - 1) * block_size, block_size as int)->Some_0,
            block_size,
            num_blocks,
        ) == Ok::<LabelHeaders, LabelError>(
            LabelHeaders {
                status: NexusLabelStatus::Both,
                mbr: label.mbr,
                primary: label.primary,
                secondary: label.secondary,
            },
        ),
{
    let bs = block_size as int;
    assert(num_blocks >= 3) by {
        lemma_blocks_for_is_ceiling(GptHeader::PARTITION_TABLE_SIZE as int, bs);
    }
    assert(disk.len() >= 3 * bs) by (nonlinear_arith)
        requires
            disk.len() == num_blocks * bs,
            num_blocks >= 3,
            bs > 0,
    ;
    assert((num_blocks - 1) * bs == disk.len() - bs) by (nonlinear_arith)
        requires
            disk.len() == num_blocks * bs,
    ;
    let last = disk.len() - bs;
    lemma_read_mbr_block(disk, bs, label.mbr);
    lemma_read_header_block(disk, bs, bs, label.primary);
    lemma_read_header_block(disk, last, bs, label.secondary);
    let primary_block = disk.subrange(bs, bs + bs);
    let secondary_block = disk.subrange(last, last + bs);
    assert(block_at(disk, bs, bs) == Some(primary_block));
    assert(block_at(disk, (num_blocks - 1) * bs, bs) == Some(secondary_block));
    assert(NexusLabel::read_primary_spec(primary_block, block_size, num_blocks) == Ok::<
        GptHeader,
        ProbeError,
    >(label.primary));
    assert(NexusLabel::read_secondary_spec(secondary_block, block_size, num_blocks) == Ok::<
        GptHeader,
        ProbeError,
    >(label.secondary));
}

/// The partition table of a well-formed label is read as it is from a
/// device that holds its parts.
#[verifier::rlimit(40)]
pub proof fn lemma_probe_table(label: LabelSpec, disk: Seq<u8>, block_size: u64, num_blocks: u64)
    requires
        well_formed(label, block_size, num_blocks),
        holds(disk, label, block_size, num_blocks),
    ensures
        ({
            let headers = LabelHeaders {
                status: NexusLabelStatus::Both,
                mbr: label.mbr,
                primary: label.primary,
                secondary: label.secondary,
            };
            block_at(disk, headers.table_offset(block_size), headers.table_len(block_size))
                matches Some(table) && probe_partitions_spec(headers, table, block_size) == Ok::<
                LabelSpec,
                LabelError,
            >(LabelSpec { status: NexusLabelStatus::Both, ..label })
        }),
{
    let bs = block_size as int;
    let n = label.partitions.len() as int;
    let headers = LabelHeaders {
        status: NexusLabelStatus::Both,
        mbr: label.mbr,
        primary: label.primary,
        secondary: label.secondary,
    };
    lemma_blocks_for_is_ceiling(128 * n, bs);
    lemma_blocks_for_is_ceiling(GptHeader::PARTITION_TABLE_SIZE as int, bs);
    lemma_blocks_for_monotone(128 * n, GptHeader::PARTITION_TABLE_SIZE as int, bs);
    let blocks = blocks_for(128 * n, bs);
    assert(headers.active() == label.primary);
    assert(label.primary.entry_size * label.primary.num_entries == 128 * n);
    assert(headers.table_len(block_size) == blocks * bs);
    assert(headers.table_offset(block_size) == 2 * bs) by (nonlinear_arith)
        requires
            headers.table_offset(block_size) == label.primary.lba_table * bs,
            label.primary.lba_table == 2,
    ;
    assert(2 * bs + blocks * bs <= disk.len()) by (nonlinear_arith)
        requires
            disk.len() == num_blocks * bs,
            num_blocks >= label.primary.lba_start,
            label.primary.lba_start >= 2 + table_blocks(block_size),
            blocks <= table_blocks(block_size),
            bs > 0,
    ;
    assert(0 <= blocks * bs) by (nonlinear_arith)
        requires
            0 <= blocks,
            0 < bs,
    ;
    let table = disk.subrange(2 * bs, 2 * bs + blocks * bs);
    assert(table.subrange(0, 128 * n) =~= disk.subrange(2 * bs, 2 * bs + 128 * n));
    lemma_table_round_trip(table, label.partitions);
    lemma_filter_all(label.partitions);
    assert(NexusLabel::read_partitions_spec(table, label.primary) == Ok::<
        Seq<EntrySpec>,
        ProbeError,
    >(label.partitions));
}

/// A probe of a device that holds the parts of a well-formed label gives
/// that label, with the status that both halves are on the device.
pub proof fn lemma_probe_of_held(label: LabelSpec, disk: Seq<u8>, block_size: u64, num_blocks: u64)
    requires
        well_formed(label, block_size, num_blocks),
        holds(disk, label, block_size, num_blocks),
    ensures
        probe_spec(disk, block_size, num_blocks) == Ok::<LabelSpec, LabelError>(
            LabelSpec { status: NexusLabelStatus::Both, ..label },
        ),
{
    lemma_probe_headers(label, disk, block_size, num_blocks);
    lemma_probe_table(label, disk, block_size, num_blocks);
    let last = (num_blocks - 1) * block_size;
    assert(0 <= last <= 0xffff_ffff_ffff_ffff * 0xffff_ffff_ffff_ffff) by (nonlinear_arith)
        requires
            last == (num_blocks - 1) * block_size,
            1 <= num_blocks <= 0xffff_ffff_ffff_ffff,
            0 <= block_size <= 0xffff_ffff_ffff_ffff,
    ;
    let extents = header_extents_of(block_size, num_blocks);
    assert(extent_at(disk, extents.mbr) == block_at(disk, 0, block_size as int));
    assert(extent_at(disk, extents.primary) == block_at(
        disk,
        block_size as int,
        block_size as int,
    ));
    assert(secondary_at(disk, block_size, num_blocks) == block_at(
        disk,
        last,
        block_size as int,
    ));
}

/// A well-formed label that is written to a device in both halves is read
/// back as it is, with the status that both halves are on the device.
pub proof fn lemma_probe_after_write(
    label: LabelSpec,
    disk: Seq<u8>,
    block_size: u64,
    num_blocks: u64,
)
    requires
        well_formed(label, block_size, num_blocks),
        disk.len() == num_blocks * block_size,
    ensures
        primary_data(label, block_size) is Ok,
        secondary_data(label, block_size) is Ok,
        probe_spec(
            written(
                written(disk, primary_data(label, block_size)->Ok_0),
                secondary_data(label, block_size)->Ok_0,
            ),
            block_size,
            num_blocks,
        ) == Ok::<LabelSpec, LabelError>(LabelSpec { status: NexusLabelStatus::Both, ..label }),
{
    lemma_written_holds(label, disk, block_size, num_blocks);
    let after = written(
        written(disk, primary_data(label, block_size)->Ok_0),
        secondary_data(label, block_size)->Ok_0,
    );
    lemma_probe_of_held(label, after, block_size, num_blocks);
}

/// A block size between 512 bytes and 256 KiB leaves room for the
/// largest partition table between the primary header and the first
/// usable block, which lies 1 MiB into the device.
pub proof fn lemma_table_space(block_size: int)
    requires
        512 <= block_size <= 262144,
    ensures
        2 + blocks_for(GptHeader::PARTITION_TABLE_SIZE as int, block_size) <= blocks_for(
            GptHeader::DATA_OFFSET as int,
            block_size,
        ),
        1 <= blocks_for(GptHeader::PARTITION_TABLE_SIZE as int, block_size),
{
    lemma_blocks_for_is_ceiling(GptHeader::PARTITION_TABLE_SIZE as int, block_size);
    lemma_blocks_for_is_ceiling(GptHeader::DATA_OFFSET as int, block_size);
    let tb = blocks_for(GptHeader::PARTITION_TABLE_SIZE as int, block_size);
    let start = blocks_for(GptHeader::DATA_OFFSET as int, block_size);
    assert((2 + tb) * block_size == 2 * block_size + (tb - 1) * block_size + block_size)
        by (nonlinear_arith);
    if 2 + tb > start {
        assert((2 + tb) * block_size >= start * block_size) by (nonlinear_arith)
            requires
                2 + tb >= start,
                block_size > 0,
        ;
    }
    if tb < 1 {
        assert(tb * block_size <= 0) by (nonlinear_arith)
            requires
                tb <= 0,
                block_size > 0,
        ;
    }
}

/// The headers of a label generated for a device with room for it, with
/// a block size between 512 bytes and 256 KiB, pass every check of a
/// probe, and agree with each other.
#[verifier::rlimit(40)]
pub proof fn lemma_generated_headers(
    guid: GptGuid,
    block_size: u32,
    num_blocks: u64,
    size: u64,
    meta_guid: GptGuid,
    data_guid: GptGuid,
)
    requires
        crate::nexus_label::has_room(block_size, num_blocks),
        512 <= block_size <= 262144,
    ensures
        ({
            let label = crate::nexus_label::generated(
                guid,
                block_size,
                num_blocks,
                size,
                meta_guid,
                data_guid,
            );
            &&& GptHeader::from_slice_spec(label.primary.bytes()) == Ok::<GptHeader, ProbeError>(
                label.primary,
            )
            &&& GptHeader::from_slice_spec(label.secondary.bytes()) == Ok::<GptHeader, ProbeError>(
                label.secondary,
            )
            &&& primary_check(label.primary, block_size as u64, num_blocks) is Ok
            &&& secondary_check(label.secondary, block_size as u64, num_blocks) is Ok
            &&& consistency(label.primary, label.secondary) is Ok
            &&& label.primary.lba_start <= label.primary.lba_end + 1
            &&& label.primary.entry_size == 128
            &&& label.primary.num_entries == 2
            &&& label.primary.lba_start == blocks_for(
                GptHeader::DATA_OFFSET as int,
                block_size as int,
            )
            &&& label.primary.lba_end == num_blocks - table_blocks(block_size as u64) - 2
        }),
{
    let bs = block_size as int;
    let label = crate::nexus_label::generated(
        guid,
        block_size,
        num_blocks,
        size,
        meta_guid,
        data_guid,
    );
    lemma_table_space(bs);
    lemma_blocks_for_is_ceiling(crate::nexus_bdev::Nexus::METADATA_PARTITION_SIZE as int, bs);
    lemma_blocks_for_is_ceiling(GptHeader::PARTITION_TABLE_SIZE as int, bs);
    lemma_blocks_for_is_ceiling(GptHeader::DATA_OFFSET as int, bs);
    lemma_header_accepted(label.primary);
    lemma_header_accepted(label.secondary);
}

/// In a label generated for a device of `num_blocks` blocks the primary
/// header lies in block 1 and names the last block as the place of the
/// other; the secondary header lies there and names block 1, with its
/// table right behind the last usable block. In all else but their
/// checksums the two headers are the same. Each holds the checksum of its
/// own bytes, and both hold the checksum of the partition table.
pub proof fn lemma_generated_mirror(
    guid: GptGuid,
    block_size: u32,
    num_blocks: u64,
    size: u64,
    meta_guid: GptGuid,
    data_guid: GptGuid,
)
    requires
        crate::nexus_label::has_room(block_size, num_blocks),
    ensures
        ({
            let label = crate::nexus_label::generated(
                guid,
                block_size,
                num_blocks,
                size,
                meta_guid,
                data_guid,
            );
            &&& label.primary.lba_self == 1
            &&& label.primary.lba_alt + 1 == num_blocks
            &&& label.secondary.lba_self == label.primary.lba_alt
            &&& label.secondary.lba_alt == label.primary.lba_self
            &&& label.primary.lba_table == 2
            &&& label.secondary.lba_table == label.primary.lba_end + 1
            &&& label.secondary == (GptHeader {
                lba_self: label.secondary.lba_self,
                lba_alt: label.secondary.lba_alt,
                lba_table: label.secondary.lba_table,
                self_checksum: label.secondary.self_checksum,
                ..label.primary
            })
            &&& label.primary.checksum_valid()
            &&& label.secondary.checksum_valid()
            &&& label.primary.table_crc == crate::gpt_entry::table_crc(
                label.partitions,
                label.primary.num_entries,
            )
            &&& label.secondary.table_crc == label.primary.table_crc
        }),
{
    lemma_blocks_for_is_ceiling(GptHeader::PARTITION_TABLE_SIZE as int, block_size as int);
}

/// The partitions of a label generated for a device with room for it and
/// for a nexus of some size lie within the usable blocks, and the header
/// holds the checksum of their table.
pub proof fn lemma_generated_partitions(
    guid: GptGuid,
    block_size: u32,
    num_blocks: u64,
    size: u64,
    meta_guid: GptGuid,
    data_guid: GptGuid,
)
    requires
        crate::nexus_label::has_room(block_size, num_blocks),
        size > 0,
    ensures
        ({
            let label = crate::nexus_label::generated(
                guid,
                block_size,
                num_blocks,
                size,
                meta_guid,
                data_guid,
            );
            &&& label.partitions.len() == 2
            &&& partitions_check(label.partitions, label.primary) is Ok
            &&& in_use(label.partitions[0])
            &&& in_use(label.partitions[1])
            &&& label.partitions[0].ent_name == "MayaMeta"@
            &&& label.partitions[1].ent_name == "MayaData"@
        }),
{
    let bs = block_size as int;
    let label = crate::nexus_label::generated(
        guid,
        block_size,
        num_blocks,
        size,
        meta_guid,
        data_guid,
    );
    lemma_blocks_for_is_ceiling(crate::nexus_bdev::Nexus::METADATA_PARTITION_SIZE as int, bs);
    lemma_blocks_for_is_ceiling(size as int, bs);
    lemma_blocks_for_is_ceiling(GptHeader::PARTITION_TABLE_SIZE as int, bs);
    lemma_blocks_for_is_ceiling(GptHeader::DATA_OFFSET as int, bs);
    let mb = crate::nexus_label::metadata_blocks(bs);
    let db = blocks_for(size as int, bs);
    assert(mb >= 1) by {
        if mb < 1 {
            assert(mb * bs <= 0) by (nonlinear_arith)
                requires
                    mb <= 0,
                    bs > 0,
            ;
        }
    }
    assert(db >= 1) by {
        if db < 1 {
            assert(db * bs <= 0) by (nonlinear_arith)
                requires
                    db <= 0,
                    bs > 0,
            ;
        }
    }
    let start = blocks_for(GptHeader::DATA_OFFSET as int, bs);
    assert(start >= 1) by {
        if start < 1 {
            assert(start * bs <= 0) by (nonlinear_arith)
                requires
                    start <= 0,
                    bs > 0,
            ;
        }
    }
    crate::nexus_label::lemma_partitions_check(label.partitions, label.primary);
}

/// A label generated for a device with room for it, with a block size
/// between 512 bytes and 256 KiB and for a nexus of some size, is
/// well-formed, given that the names of its two partitions can be stored.
pub proof fn lemma_generated_well_formed(
    guid: GptGuid,
    block_size: u32,
    num_blocks: u64,
    size: u64,
    meta_guid: GptGuid,
    data_guid: GptGuid,
)
    requires
        crate::nexus_label::has_room(block_size, num_blocks),
        512 <= block_size <= 262144,
        num_blocks * block_size <= usize::MAX,
        size > 0,
        GptName::storable("MayaMeta"@),
        GptName::storable("MayaData"@),
    ensures
        well_formed(
            crate::nexus_label::generated(
                guid,
                block_size,
                num_blocks,
                size,
                meta_guid,
                data_guid,
            ),
            block_size as u64,
            num_blocks,
        ),
{
    let label = crate::nexus_label::generated(
        guid,
        block_size,
        num_blocks,
        size,
        meta_guid,
        data_guid,
    );
    lemma_generated_headers(guid, block_size, num_blocks, size, meta_guid, data_guid);
    lemma_generated_partitions(guid, block_size, num_blocks, size, meta_guid, data_guid);
    assert(label.mbr.entries[0] == MbrEntry::protective(num_blocks));
    assert(label.mbr.signature == Pmbr::PMBR_SIGNATURE);
    assert(label.block_size == block_size);
}

/// A label generated for a device with room for it, with a block size
/// between 512 bytes and 256 KiB and for a nexus of some size, that is
/// written to the device in both halves is read back as it is, with the
/// status that both halves are on the device, given that the names of its
/// two partitions can be stored.
pub proof fn lemma_generated_round_trip(
    guid: GptGuid,
    block_size: u32,
    num_blocks: u64,
    size: u64,
    meta_guid: GptGuid,
    data_guid: GptGuid,
    disk: Seq<u8>,
)
    requires
        crate::nexus_label::has_room(block_size, num_blocks),
        512 <= block_size <= 262144,
        num_blocks * block_size <= usize::MAX,
        size > 0,
        GptName::storable("MayaMeta"@),
        GptName::storable("MayaData"@),
        disk.len() == num_blocks * block_size,
    ensures
        ({
            let label = crate::nexus_label::generated(
                guid,
                block_size,
                num_blocks,
                size,
                meta_guid,
                data_guid,
            );
            &&& primary_data(label, block_size as u64) is Ok
            &&& secondary_data(label, block_size as u64) is Ok
            &&& probe_spec(
                written(
                    written(disk, primary_data(label, block_size as u64)->Ok_0),
                    secondary_data(label, block_size as u64)->Ok_0,
                ),
                block_size as u64,
                num_blocks,
            ) == Ok::<LabelSpec, LabelError>(LabelSpec { status: NexusLabelStatus::Both, ..label })
        }),
{
    let label = crate::nexus_label::generated(
        guid,
        block_size,
        num_blocks,
        size,
        meta_guid,
        data_guid,
    );
    lemma_generated_well_formed(guid, block_size, num_blocks, size, meta_guid, data_guid);
    lemma_probe_after_write(label, disk, block_size as u64, num_blocks);
}

/// A header that reads back as itself from its own bytes has the size,
/// the signature and the revision of a GPT header, and holds its own
/// checksum; and the other way round.
pub proof fn lemma_header_accepted(header: GptHeader)
    ensures
        GptHeader::from_slice_spec(header.bytes()) == Ok::<GptHeader, ProbeError>(header) <==> {
            &&& header.header_size == GptHeader::HEADER_SIZE
            &&& header.signature == GptHeader::HEADER_SIGNATURE
            &&& header.revision == GptHeader::HEADER_REVISION
            &&& header.checksum_valid()
        },
{
    header.lemma_round_trip();
}

impl NexusLabel {
    /// Whether the header has the size, the signature and the revision of
    /// a GPT header, and holds its own checksum.
    pub fn header_accepted(header: &GptHeader) -> (r: bool)
        ensures
            r == (GptHeader::from_slice_spec(header.bytes()) == Ok::<GptHeader, ProbeError>(
                *header,
            )),
    {
        proof {
            header.lemma_round_trip();
        }
        let bytes = header.to_bytes();
        match GptHeader::from_slice(bytes.as_slice()) {
            Ok(_) => true,
            Err(_) => false,
        }
    }

    /// Whether every entry of the table defines a partition and has a name
    /// that can be stored.
    pub fn entries_storable(&self) -> (r: bool)
        ensures
            r == forall|i: int|
                0 <= i < self@.partitions.len() ==> in_use(#[trigger] self@.partitions[i])
                    && GptName::storable(self@.partitions[i].ent_name),
    {
        let ghost entries = self@.partitions;
        let mut i: usize = 0;
        while i < self.partitions.len()
            invariant
                i <= self.partitions@.len(),
                entries == self@.partitions,
                entries.len() == self.partitions@.len(),
                forall|k: int|
                    0 <= k < i ==> in_use(#[trigger] entries[k]) && GptName::storable(
                        entries[k].ent_name,
                    ),
            decreases self.partitions@.len() - i,
        {
            let entry = &self.partitions[i];
            assert(entry@ == entries[i as int]);
            if !(entry.ent_start > 0 && entry.ent_end > 0 && entry.ent_name.is_storable()) {
                return false;
            }
            i = i + 1;
        }
        true
    }

    /// Whether the label is one that a device of `num_blocks` blocks of
    /// `block_size` bytes can hold and give back: a label of which this
    /// holds is read back as it is once both its halves are written.
    pub fn is_well_formed(&self, block_size: u64, num_blocks: u64) -> (r: bool)
        ensures
            r == well_formed(self@, block_size, num_blocks),
    {
        if block_size < 512 || self.block_size != block_size {
            return false;
        }
        proof {
            crate::aligned::lemma_product_fits(num_blocks as int, block_size as int);
        }
        if (num_blocks as u128) * (block_size as u128) > usize::MAX as u128 {
            return false;
        }
        if self.mbr.signature[0] != Pmbr::PMBR_SIGNATURE[0] || self.mbr.signature[1]
            != Pmbr::PMBR_SIGNATURE[1] {
            assert(self.mbr.signature != Pmbr::PMBR_SIGNATURE);
            return false;
        }
        assert(self.mbr.signature =~= Pmbr::PMBR_SIGNATURE);
        if self.mbr.entries[0].num_sectors != 0xffff_ffff && self.mbr.entries[0].num_sectors as u64
            != self.primary.lba_alt {
            return false;
        }
        if !Self::header_accepted(&self.primary) || !Self::header_accepted(&self.secondary) {
            return false;
        }
        if NexusLabel::validate_primary_header(&self.primary, block_size, num_blocks).is_err() {
            return false;
        }
        if NexusLabel::validate_secondary_header(&self.secondary, block_size, num_blocks).is_err() {
            return false;
        }
        if NexusLabel::consistency_check(&self.primary, &self.secondary).is_err() {
            return false;
        }
        if self.primary.lba_start as u128 > self.primary.lba_end as u128 + 1 {
            return false;
        }
        if self.primary.entry_size != 128 {
            return false;
        }
        assert(self@.partitions.len() == self.partitions@.len());
        if self.partitions.len() as u128 != self.primary.num_entries as u128 {
            return false;
        }
        if NexusLabel::validate_partitions(self.partitions.as_slice(), &self.primary).is_err() {
            return false;
        }
        self.entries_storable()
    }
}

} // verus!
