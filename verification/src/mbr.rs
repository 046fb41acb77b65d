//! The protective MBR that precedes a GPT.
use crate::errors::ProbeError;
use crate::wire::{
    array2, array3, get_u16, get_u32, lemma_array2_back, lemma_array3_back, lemma_le_round_trip,
    put_bytes, put_u16, put_u32, take2, take3, u16_at, u32_at,
};
use vstd::bytes::*;
use vstd::prelude::*;

verus! {

/// the MBR partition entry
#[derive(Copy, Clone, Debug, PartialEq, Eq)]
pub struct MbrEntry {
    /// attributes of this MBR partition we set these all to zero, which
    /// includes the boot flag.
    pub attributes: u8,
    /// start in CHS format
    pub chs_start: [u8; 3],
    /// type of partition, in our case always 0xEE
    pub ent_type: u8,
    /// end of the partition
    pub chs_last: [u8; 3],
    /// lba start
    pub lba_start: u32,
    /// last sector of this partition
    pub num_sectors: u32,
}

/// Although we don't use it, we must have a protective MBR to avoid systems
/// to get confused about what's on the disk. Utils like sgdisk work fine
/// without an MBR (but will warn) but as we want to be able to access the
/// partitions with the nexus out of the data path, will create one here.
///
/// The struct should have a 440 byte code section here as well, this is
/// omitted to make serialisation a bit easier.
#[derive(Copy, Clone, Debug, PartialEq, Eq)]
pub struct Pmbr {
    /// signature to uniquely ID the disk we do not use this
    pub disk_signature: u32,
    pub reserved: u16,
    /// number of partition entries
    pub entries: [MbrEntry; 4],
    /// must be set to [0x55, 0xaa]
    pub signature: [u8; 2],
}

impl MbrEntry {
    /// The sixteen bytes that stand for the entry on disk.
    pub open spec fn bytes(self) -> Seq<u8> {
        seq![self.attributes] + self.chs_start@ + seq![self.ent_type] + self.chs_last@
            + spec_u32_to_le_bytes(self.lba_start) + spec_u32_to_le_bytes(self.num_sectors)
    }

    /// The entry that sixteen bytes stand for.
    pub open spec fn from_bytes(bytes: Seq<u8>) -> MbrEntry {
        MbrEntry {
            attributes: bytes[0],
            chs_start: array3(bytes.subrange(1, 4)),
            ent_type: bytes[4],
            chs_last: array3(bytes.subrange(5, 8)),
            lba_start: u32_at(bytes, 8),
            num_sectors: u32_at(bytes, 12),
        }
    }

    /// The entry whose fields are all zero.
    pub open spec fn empty() -> MbrEntry {
        MbrEntry {
            attributes: 0,
            chs_start: [0u8, 0u8, 0u8],
            ent_type: 0,
            chs_last: [0u8, 0u8, 0u8],
            lba_start: 0,
            num_sectors: 0,
        }
    }

    /// The entry of the one partition that covers a whole disk of
    /// `num_blocks` blocks behind the MBR.
    pub open spec fn protective(num_blocks: u64) -> MbrEntry {
        MbrEntry {
            attributes: 0x00,
            chs_start: [0x00u8, 0x02u8, 0x00u8],
            ent_type: 0xee,
            chs_last: [0xffu8, 0xffu8, 0xffu8],
            lba_start: 1,
            num_sectors: if num_blocks - 1 < 0xffff_ffff {
                (num_blocks - 1) as u32
            } else {
                0xffff_ffffu32
            },
        }
    }

    /// An entry survives being written and read back.
    pub proof fn lemma_round_trip(self)
        ensures
            self.bytes().len() == 16,
            Self::from_bytes(self.bytes()) == self,
    {
        lemma_le_round_trip();
        let b = self.bytes();
        assert(b.len() == 16);
        assert(b.subrange(1, 4) =~= self.chs_start@);
        assert(b.subrange(5, 8) =~= self.chs_last@);
        assert(b.subrange(8, 12) =~= spec_u32_to_le_bytes(self.lba_start));
        assert(b.subrange(12, 16) =~= spec_u32_to_le_bytes(self.num_sectors));
        lemma_array3_back(self.chs_start);
        lemma_array3_back(self.chs_last);
    }

    /// Whether two entries are the same.
    pub fn same(&self, other: &MbrEntry) -> (equal: bool)
        ensures
            equal == (*self == *other),
    {
        let equal = self.attributes == other.attributes && self.chs_start[0] == other.chs_start[0]
            && self.chs_start[1] == other.chs_start[1] && self.chs_start[2] == other.chs_start[2]
            && self.ent_type == other.ent_type && self.chs_last[0] == other.chs_last[0]
            && self.chs_last[1] == other.chs_last[1] && self.chs_last[2] == other.chs_last[2]
            && self.lba_start == other.lba_start && self.num_sectors == other.num_sectors;
        proof {
            if equal {
                assert(self.chs_start =~= other.chs_start);
                assert(self.chs_last =~= other.chs_last);
            }
        }
        equal
    }

    /// The entry with all fields zero.
    pub fn new() -> (entry: MbrEntry)
        ensures
            entry == Self::empty(),
    {
        let entry = MbrEntry {
            attributes: 0,
            chs_start: [0u8, 0u8, 0u8],
            ent_type: 0,
            chs_last: [0u8, 0u8, 0u8],
            lba_start: 0,
            num_sectors: 0,
        };
        assert(entry.chs_start =~= Self::empty().chs_start);
        assert(entry.chs_last =~= Self::empty().chs_last);
        entry
    }

    // Set this MBR partition entry to represent
    // a protective MBR partition of given size.
    pub fn protect(&mut self, num_blocks: u64)
        requires
            num_blocks >= 1,
        ensures
            *final(self) == Self::protective(num_blocks),
    {
        self.attributes = 0x00;  // NOT bootable
        self.ent_type = 0xee;  // protective MBR partition
        self.chs_start = [0x00u8, 0x02u8, 0x00u8];  // CHS address 0/0/2
        self.chs_last = [0xffu8, 0xffu8, 0xffu8];  // CHS address 1023/255/63
        // The partition starts immediately after the MBR
        self.lba_start = 1;
        // The partition size must accurately reflect
        // the disk size where possible.
        if num_blocks > 0xffff_ffff {
            // If the size (in blocks) is too large to fit into 32 bits,
            // then set the size to 0xffff_ffff
            self.num_sectors = 0xffff_ffff;
        } else {
            // Do not count the first block that contains the MBR
            self.num_sectors = (num_blocks - 1) as u32;
        }
        assert(self.chs_start =~= Self::protective(num_blocks).chs_start);
        assert(self.chs_last =~= Self::protective(num_blocks).chs_last);
    }

    /// Appends the entry as it stands on disk.
    pub fn put(&self, out: &mut Vec<u8>)
        ensures
            final(out)@ == old(out)@ + self.bytes(),
    {
        out.push(self.attributes);
        put_bytes(out, self.chs_start.as_slice());
        out.push(self.ent_type);
        put_bytes(out, self.chs_last.as_slice());
        put_u32(out, self.lba_start);
        put_u32(out, self.num_sectors);
        assert(out@ =~= old(out)@ + self.bytes());
    }

    /// Reads the entry that stands at `at`.
    pub fn get(bytes: &[u8], at: usize) -> (entry: MbrEntry)
        requires
            at + 16 <= bytes.len(),
        ensures
            entry == Self::from_bytes(bytes@.subrange(at as int, at + 16)),
    {
        let ghost part = bytes@.subrange(at as int, at + 16);
        assert(part.subrange(1, 4) =~= bytes@.subrange(at + 1, at + 4));
        assert(part.subrange(5, 8) =~= bytes@.subrange(at + 5, at + 8));
        assert(part.subrange(8, 12) =~= bytes@.subrange(at + 8, at + 12));
        assert(part.subrange(12, 16) =~= bytes@.subrange(at + 12, at + 16));
        MbrEntry {
            attributes: bytes[at],
            chs_start: take3(bytes, at + 1),
            ent_type: bytes[at + 4],
            chs_last: take3(bytes, at + 5),
            lba_start: get_u32(bytes, at + 8),
            num_sectors: get_u32(bytes, at + 12),
        }
    }
}

impl Pmbr {
    pub const PMBR_SIGNATURE: [u8; 2] = [0x55, 0xaa];

    /// The 72 bytes that stand for the MBR record on disk, behind the 440
    /// bytes of boot code.
    pub open spec fn bytes(self) -> Seq<u8> {
        spec_u32_to_le_bytes(self.disk_signature) + spec_u16_to_le_bytes(self.reserved)
            + self.entries[0].bytes() + self.entries[1].bytes() + self.entries[2].bytes()
            + self.entries[3].bytes() + self.signature@
    }

    /// The MBR record that the first 72 bytes of a sequence stand for.
    pub open spec fn from_bytes(bytes: Seq<u8>) -> Pmbr {
        Pmbr {
            disk_signature: u32_at(bytes, 0),
            reserved: u16_at(bytes, 4),
            entries: [
                MbrEntry::from_bytes(bytes.subrange(6, 22)),
                MbrEntry::from_bytes(bytes.subrange(22, 38)),
                MbrEntry::from_bytes(bytes.subrange(38, 54)),
                MbrEntry::from_bytes(bytes.subrange(54, 70)),
            ],
            signature: array2(bytes.subrange(70, 72)),
        }
    }

    /// The MBR with no partition and the right signature.
    pub open spec fn blank() -> Pmbr {
        Pmbr {
            disk_signature: 0,
            reserved: 0,
            entries: [MbrEntry::empty(), MbrEntry::empty(), MbrEntry::empty(), MbrEntry::empty()],
            signature: Self::PMBR_SIGNATURE,
        }
    }

    /// The protective MBR of a disk of `num_blocks` blocks.
    pub open spec fn protective(num_blocks: u64) -> Pmbr {
        Pmbr {
            disk_signature: 0,
            reserved: 0,
            entries: [
                MbrEntry::protective(num_blocks),
                MbrEntry::empty(),
                MbrEntry::empty(),
                MbrEntry::empty(),
            ],
            signature: Self::PMBR_SIGNATURE,
        }
    }

    /// What `from_slice` makes of the bytes of an MBR record.
    pub open spec fn from_slice_spec(bytes: Seq<u8>) -> Result<Pmbr, ProbeError> {
        let mbr = Self::from_bytes(bytes);
        if bytes.len() < 72 {
            Err(ProbeError::DeserializeError)
        } else if mbr.signature != Self::PMBR_SIGNATURE {
            Err(ProbeError::MbrSignature)
        } else {
            Ok(mbr)
        }
    }

    /// An MBR record survives being written and read back.
    pub proof fn lemma_round_trip(self)
        ensures
            self.bytes().len() == 72,
            Self::from_bytes(self.bytes()) == self,
    {
        lemma_le_round_trip();
        self.entries[0].lemma_round_trip();
        self.entries[1].lemma_round_trip();
        self.entries[2].lemma_round_trip();
        self.entries[3].lemma_round_trip();
        let b = self.bytes();
        assert(b.len() == 72);
        assert(b.subrange(0, 4) =~= spec_u32_to_le_bytes(self.disk_signature));
        assert(b.subrange(4, 6) =~= spec_u16_to_le_bytes(self.reserved));
        assert(b.subrange(6, 22) =~= self.entries[0].bytes());
        assert(b.subrange(22, 38) =~= self.entries[1].bytes());
        assert(b.subrange(38, 54) =~= self.entries[2].bytes());
        assert(b.subrange(54, 70) =~= self.entries[3].bytes());
        assert(b.subrange(70, 72) =~= self.signature@);
        lemma_array2_back(self.signature);
        assert(Self::from_bytes(b).entries =~= self.entries);
    }

    /// Whether two MBR records are the same.
    pub fn same(&self, other: &Pmbr) -> (equal: bool)
        ensures
            equal == (*self == *other),
    {
        let equal = self.disk_signature == other.disk_signature && self.reserved == other.reserved
            && self.entries[0].same(&other.entries[0]) && self.entries[1].same(&other.entries[1])
            && self.entries[2].same(&other.entries[2]) && self.entries[3].same(&other.entries[3])
            && self.signature[0] == other.signature[0] && self.signature[1] == other.signature[1];
        proof {
            if equal {
                assert(self.entries =~= other.entries);
                assert(self.signature =~= other.signature);
            }
        }
        equal
    }

    /// The MBR record as it stands on disk.
    pub fn to_bytes(&self) -> (out: Vec<u8>)
        ensures
            out@ == self.bytes(),
            out@.len() == 72,
    {
        let mut out: Vec<u8> = Vec::new();
        put_u32(&mut out, self.disk_signature);
        put_u16(&mut out, self.reserved);
        self.entries[0].put(&mut out);
        self.entries[1].put(&mut out);
        self.entries[2].put(&mut out);
        self.entries[3].put(&mut out);
        put_bytes(&mut out, self.signature.as_slice());
        proof {
            assert(out@ =~= self.bytes());
            self.lemma_round_trip();
        }
        out
    }

    /// converts a slice into a MBR and validates the signature
    pub fn from_slice(slice: &[u8]) -> (r: Result<Pmbr, ProbeError>)
        ensures
            r == Self::from_slice_spec(slice@),
    {
        if slice.len() < 72 {
            return Err(ProbeError::DeserializeError);
        }
        let mbr = Pmbr {
            disk_signature: get_u32(slice, 0),
            reserved: get_u16(slice, 4),
            entries: [
                MbrEntry::get(slice, 6),
                MbrEntry::get(slice, 22),
                MbrEntry::get(slice, 38),
                MbrEntry::get(slice, 54),
            ],
            signature: take2(slice, 70),
        };
        assert(mbr.entries =~= Self::from_bytes(slice@).entries);
        if mbr.signature[0] != Self::PMBR_SIGNATURE[0] || mbr.signature[1]
            != Self::PMBR_SIGNATURE[1] {
            assert(mbr.signature != Self::PMBR_SIGNATURE);
            return Err(ProbeError::MbrSignature);
        }
        assert(mbr.signature =~= Self::PMBR_SIGNATURE);
        Ok(mbr)
    }
}

impl Default for MbrEntry {
    fn default() -> (entry: MbrEntry)
        ensures
            entry == MbrEntry::empty(),
    {
        MbrEntry::new()
    }
}

impl Default for Pmbr {
    fn default() -> (mbr: Pmbr)
        ensures
            mbr == Pmbr::blank(),
    {
        let mbr = Pmbr {
            disk_signature: 0,
            reserved: 0,
            entries: [MbrEntry::new(), MbrEntry::new(), MbrEntry::new(), MbrEntry::new()],
            signature: Pmbr::PMBR_SIGNATURE,
        };
        assert(mbr.entries =~= Pmbr::blank().entries);
        mbr
    }
}

} // verus!
