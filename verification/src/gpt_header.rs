//! The GPT header: 92 bytes at the start of its block.
use crate::aligned::{blocks_for, lemma_blocks_for_is_ceiling, Aligned};
use crate::checksum::{checksum_ieee, crc32_ieee};
use crate::errors::ProbeError;
use crate::guid::GptGuid;
use crate::wire::{
    array4, array8, get_u32, get_u64, lemma_array4_back, lemma_array8_back, lemma_arrays,
    lemma_le_round_trip, put_bytes, put_u32, put_u64, take4, take8, u32_at, u64_at,
};
use vstd::bytes::*;
use vstd::prelude::*;

verus! {

#[derive(Debug, PartialEq, Eq, Copy, Clone)]
pub struct GptHeader {
    /// GPT signature (must be "EFI PART").
    pub signature: [u8; 8],
    /// 00 00 01 00 up til version 2.17
    pub revision: [u8; 4],
    /// GPT header size (92 bytes)
    pub header_size: u32,
    /// CRC32 of the header.
    pub self_checksum: u32,
    pub reserved: [u8; 4],
    /// primary lba where the header
    pub lba_self: u64,
    /// alternative lba
    pub lba_alt: u64,
    /// first usable lba
    pub lba_start: u64,
    /// last usable lba
    pub lba_end: u64,
    /// 16 bytes representing the GUID of the GPT.
    pub guid: GptGuid,
    /// lba of where to find the partition table
    pub lba_table: u64,
    /// number of partitions, most tools set this to 128
    pub num_entries: u32,
    /// Size of element
    pub entry_size: u32,
    /// CRC32 checksum of the partition array.
    pub table_crc: u32,
}

/// Whether two eight-byte arrays hold the same bytes.
pub fn same8(a: &[u8; 8], b: &[u8; 8]) -> (equal: bool)
    ensures
        equal == (*a == *b),
{
    let equal = a[0] == b[0] && a[1] == b[1] && a[2] == b[2] && a[3] == b[3] && a[4] == b[4]
        && a[5] == b[5] && a[6] == b[6] && a[7] == b[7];
    proof {
        if equal {
            assert(*a =~= *b);
        }
    }
    equal
}

/// Whether two four-byte arrays hold the same bytes.
pub fn same4(a: &[u8; 4], b: &[u8; 4]) -> (equal: bool)
    ensures
        equal == (*a == *b),
{
    let equal = a[0] == b[0] && a[1] == b[1] && a[2] == b[2] && a[3] == b[3];
    proof {
        if equal {
            assert(*a =~= *b);
        }
    }
    equal
}

impl GptHeader {
    pub const PARTITION_TABLE_SIZE: u64 = 128 * 128;

    pub const DATA_OFFSET: u64 = 1024 * 1024;

    pub const HEADER_SIZE: u32 = 92;

    pub const HEADER_REVISION: [u8; 4] = [0x00, 0x00, 0x01, 0x00];

    pub const HEADER_SIGNATURE: [u8; 8] = [0x45, 0x46, 0x49, 0x20, 0x50, 0x41, 0x52, 0x54];

    /// The 92 bytes that stand for the header on disk: the fields in
    /// their order, integers little-endian.
    pub open spec fn bytes(self) -> Seq<u8> {
        self.signature@ + self.revision@ + spec_u32_to_le_bytes(self.header_size)
            + spec_u32_to_le_bytes(self.self_checksum) + self.reserved@ + spec_u64_to_le_bytes(
            self.lba_self,
        ) + spec_u64_to_le_bytes(self.lba_alt) + spec_u64_to_le_bytes(self.lba_start)
            + spec_u64_to_le_bytes(self.lba_end) + self.guid.bytes() + spec_u64_to_le_bytes(
            self.lba_table,
        ) + spec_u32_to_le_bytes(self.num_entries) + spec_u32_to_le_bytes(self.entry_size)
            + spec_u32_to_le_bytes(self.table_crc)
    }

    /// The header that the first 92 bytes of a sequence stand for.
    pub open spec fn from_bytes(bytes: Seq<u8>) -> GptHeader {
        GptHeader {
            signature: array8(bytes.subrange(0, 8)),
            revision: array4(bytes.subrange(8, 12)),
            header_size: u32_at(bytes, 12),
            self_checksum: u32_at(bytes, 16),
            reserved: array4(bytes.subrange(20, 24)),
            lba_self: u64_at(bytes, 24),
            lba_alt: u64_at(bytes, 32),
            lba_start: u64_at(bytes, 40),
            lba_end: u64_at(bytes, 48),
            guid: GptGuid::from_bytes(bytes.subrange(56, 72)),
            lba_table: u64_at(bytes, 72),
            num_entries: u32_at(bytes, 80),
            entry_size: u32_at(bytes, 84),
            table_crc: u32_at(bytes, 88),
        }
    }

    /// The checksum that belongs in the header: the CRC-32 of its 92
    /// bytes, taken with the checksum field at zero.
    pub open spec fn crc(self) -> u32 {
        crc32_ieee(GptHeader { self_checksum: 0, ..self }.bytes())
    }

    /// The header with its own checksum filled in.
    pub open spec fn sealed(self) -> GptHeader {
        GptHeader { self_checksum: self.crc(), ..self }
    }

    /// Whether the stored checksum is the one that belongs in the header.
    pub open spec fn checksum_valid(self) -> bool {
        self.self_checksum == self.crc()
    }

    /// A header survives being written and read back.
    pub proof fn lemma_round_trip(self)
        ensures
            self.bytes().len() == 92,
            Self::from_bytes(self.bytes()) == self,
    {
        lemma_le_round_trip();
        self.guid.lemma_round_trip(Seq::empty());
        let b = self.bytes();
        assert(b.len() == 92);
        assert(b.subrange(0, 8) =~= self.signature@);
        assert(b.subrange(8, 12) =~= self.revision@);
        assert(b.subrange(12, 16) =~= spec_u32_to_le_bytes(self.header_size));
        assert(b.subrange(16, 20) =~= spec_u32_to_le_bytes(self.self_checksum));
        assert(b.subrange(20, 24) =~= self.reserved@);
        assert(b.subrange(24, 32) =~= spec_u64_to_le_bytes(self.lba_self));
        assert(b.subrange(32, 40) =~= spec_u64_to_le_bytes(self.lba_alt));
        assert(b.subrange(40, 48) =~= spec_u64_to_le_bytes(self.lba_start));
        assert(b.subrange(48, 56) =~= spec_u64_to_le_bytes(self.lba_end));
        assert(b.subrange(56, 72) =~= self.guid.bytes());
        assert(b.subrange(72, 80) =~= spec_u64_to_le_bytes(self.lba_table));
        assert(b.subrange(80, 84) =~= spec_u32_to_le_bytes(self.num_entries));
        assert(b.subrange(84, 88) =~= spec_u32_to_le_bytes(self.entry_size));
        assert(b.subrange(88, 92) =~= spec_u32_to_le_bytes(self.table_crc));
        lemma_array8_back(self.signature);
        lemma_array4_back(self.revision);
        lemma_array4_back(self.reserved);
    }

    /// The first 92 bytes of a sequence survive being read and written back.
    pub proof fn lemma_bytes_round_trip(bytes: Seq<u8>)
        requires
            bytes.len() >= 92,
        ensures
            Self::from_bytes(bytes).bytes() == bytes.subrange(0, 92),
    {
        lemma_le_round_trip();
        lemma_arrays(bytes.subrange(0, 8));
        lemma_arrays(bytes.subrange(8, 12));
        lemma_arrays(bytes.subrange(20, 24));
        let g = bytes.subrange(56, 72);
        GptGuid::from_bytes(g).lemma_round_trip(g);
        let h = Self::from_bytes(bytes);
        assert(h.bytes() =~= bytes.subrange(0, 8) + bytes.subrange(8, 12) + bytes.subrange(12, 16)
            + bytes.subrange(16, 20) + bytes.subrange(20, 24) + bytes.subrange(24, 32)
            + bytes.subrange(32, 40) + bytes.subrange(40, 48) + bytes.subrange(48, 56)
            + bytes.subrange(56, 72) + bytes.subrange(72, 80) + bytes.subrange(80, 84)
            + bytes.subrange(84, 88) + bytes.subrange(88, 92));
        assert(h.bytes() =~= bytes.subrange(0, 92));
    }

    /// What the static checks make of the bytes of a header block: the
    /// header that they stand for, or the first check that fails. The
    /// checksum is not looked at.
    pub open spec fn decode_spec(bytes: Seq<u8>) -> Result<GptHeader, ProbeError> {
        let header = Self::from_bytes(bytes);
        if bytes.len() < 92 {
            Err(ProbeError::DeserializeError)
        } else if header.header_size != Self::HEADER_SIZE {
            Err(
                ProbeError::GptHeaderSize {
                    actual_size: header.header_size,
                    expected_size: Self::HEADER_SIZE,
                },
            )
        } else if header.signature != Self::HEADER_SIGNATURE {
            Err(ProbeError::GptSignature)
        } else if header.revision != Self::HEADER_REVISION {
            Err(ProbeError::GptRevision)
        } else {
            Ok(header)
        }
    }

    /// What becomes of a decoded header once its checksum has been
    /// computed: it is accepted if the stored checksum agrees.
    pub open spec fn accept_spec(self, computed: u32) -> Result<GptHeader, ProbeError> {
        if self.self_checksum != computed {
            Err(ProbeError::GptChecksum)
        } else {
            Ok(self)
        }
    }

    /// What `from_slice` makes of the bytes of a header block.
    pub open spec fn from_slice_spec(bytes: Seq<u8>) -> Result<GptHeader, ProbeError> {
        match Self::decode_spec(bytes) {
            Ok(header) => header.accept_spec(header.crc()),
            Err(error) => Err(error),
        }
    }

    /// Reads a header from the start of a block and checks its size field,
    /// its signature and its revision, in this order.
    pub fn decode(slice: &[u8]) -> (r: Result<GptHeader, ProbeError>)
        ensures
            r == Self::decode_spec(slice@),
    {
        if slice.len() < 92 {
            return Err(ProbeError::DeserializeError);
        }
        let ghost b = slice@;
        let header = GptHeader {
            signature: take8(slice, 0),
            revision: take4(slice, 8),
            header_size: get_u32(slice, 12),
            self_checksum: get_u32(slice, 16),
            reserved: take4(slice, 20),
            lba_self: get_u64(slice, 24),
            lba_alt: get_u64(slice, 32),
            lba_start: get_u64(slice, 40),
            lba_end: get_u64(slice, 48),
            guid: GptGuid::get(slice, 56),
            lba_table: get_u64(slice, 72),
            num_entries: get_u32(slice, 80),
            entry_size: get_u32(slice, 84),
            table_crc: get_u32(slice, 88),
        };
        assert(header == Self::from_bytes(b));
        if header.header_size != Self::HEADER_SIZE {
            return Err(
                ProbeError::GptHeaderSize {
                    actual_size: header.header_size,
                    expected_size: Self::HEADER_SIZE,
                },
            );
        }
        if !same8(&header.signature, &Self::HEADER_SIGNATURE) {
            return Err(ProbeError::GptSignature);
        }
        if !same4(&header.revision, &Self::HEADER_REVISION) {
            return Err(ProbeError::GptRevision);
        }
        Ok(header)
    }

    /// Accepts a decoded header if the checksum stored in it is the one
    /// computed for it.
    pub fn accept(self, computed: u32) -> (r: Result<GptHeader, ProbeError>)
        ensures
            r == self.accept_spec(computed),
    {
        if self.self_checksum != computed {
            Err(ProbeError::GptChecksum)
        } else {
            Ok(self)
        }
    }

    /// converts a slice into a GPT header and verifies the validity of the data
    pub fn from_slice(slice: &[u8]) -> (r: Result<GptHeader, ProbeError>)
        ensures
            r == Self::from_slice_spec(slice@),
            r matches Ok(header) ==> header.checksum_valid(),
    {
        match Self::decode(slice) {
            Ok(header) => {
                let mut summed = header;
                let computed = summed.checksum();
                header.accept(computed)
            },
            Err(error) => Err(error),
        }
    }

    /// checksum the header with the checksum field itself set to 0
    pub fn checksum(&mut self) -> (sum: u32)
        ensures
            sum == old(self).crc(),
            *final(self) == old(self).sealed(),
    {
        self.self_checksum = 0;
        let bytes = self.to_bytes();
        let sum = checksum_ieee(bytes.as_slice());
        self.self_checksum = sum;
        sum
    }

    /// The header that `new` makes for a device.
    pub open spec fn new_spec(guid: GptGuid, block_size: u32, num_blocks: u64) -> GptHeader {
        GptHeader {
            signature: Self::HEADER_SIGNATURE,
            revision: Self::HEADER_REVISION,
            header_size: Self::HEADER_SIZE,
            self_checksum: 0,
            reserved: [0u8, 0u8, 0u8, 0u8],
            lba_self: 1,
            lba_alt: (num_blocks - 1) as u64,
            lba_start: blocks_for(Self::DATA_OFFSET as int, block_size as int) as u64,
            lba_end: (num_blocks - blocks_for(Self::PARTITION_TABLE_SIZE as int, block_size as int)
                - 2) as u64,
            guid,
            lba_table: 2,
            num_entries: 2,
            entry_size: 128,
            table_crc: 0,
        }
    }

    /// Whether a device of `num_blocks` blocks has room for both headers
    /// and both partition tables.
    pub open spec fn fits(block_size: u32, num_blocks: u64) -> bool {
        block_size > 0 && num_blocks >= blocks_for(
            Self::PARTITION_TABLE_SIZE as int,
            block_size as int,
        ) + 2
    }

    // Create a new GPT header for a device with specified size
    pub fn new(guid: GptGuid, block_size: u32, num_blocks: u64) -> (header: GptHeader)
        requires
            Self::fits(block_size, num_blocks),
        ensures
            header == Self::new_spec(guid, block_size, num_blocks),
            header.lba_alt + 1 == num_blocks,
            header.lba_end < header.lba_alt,
    {
        proof {
            lemma_blocks_for_is_ceiling(Self::PARTITION_TABLE_SIZE as int, block_size as int);
            lemma_blocks_for_is_ceiling(Self::DATA_OFFSET as int, block_size as int);
        }
        let partition_blocks: u64 = <u64 as Aligned>::get_blocks(
            Self::PARTITION_TABLE_SIZE,
            block_size as u64,
        );
        let data_start: u64 = <u64 as Aligned>::get_blocks(Self::DATA_OFFSET, block_size as u64);
        let header = GptHeader {
            signature: Self::HEADER_SIGNATURE,
            revision: Self::HEADER_REVISION,
            header_size: Self::HEADER_SIZE,
            self_checksum: 0,
            reserved: [0u8, 0u8, 0u8, 0u8],
            lba_self: 1,
            lba_alt: num_blocks - 1,
            lba_start: data_start,
            lba_end: num_blocks - partition_blocks - 2,
            guid,
            lba_table: 2,
            num_entries: 2,
            entry_size: 128,
            table_crc: 0,
        };
        assert(header.reserved =~= Self::new_spec(guid, block_size, num_blocks).reserved);
        header
    }

    /// The secondary header that mirrors this primary one, sealed.
    pub open spec fn to_secondary_spec(self) -> GptHeader {
        GptHeader {
            lba_self: self.lba_alt,
            lba_alt: self.lba_self,
            lba_table: (self.lba_end + 1) as u64,
            ..self
        }.sealed()
    }

    /// The primary header that mirrors this secondary one, sealed.
    pub open spec fn to_primary_spec(self) -> GptHeader {
        GptHeader {
            lba_self: self.lba_alt,
            lba_alt: self.lba_self,
            lba_table: (self.lba_alt + 1) as u64,
            ..self
        }.sealed()
    }

    /// Derives the secondary header: own and alternate location swapped,
    /// the partition table right behind the last usable block.
    pub fn to_secondary(&self) -> (secondary: GptHeader)
        requires
            self.lba_end < u64::MAX,
        ensures
            secondary == self.to_secondary_spec(),
            secondary.checksum_valid(),
    {
        let mut secondary = *self;
        secondary.lba_self = self.lba_alt;
        secondary.lba_alt = self.lba_self;
        secondary.lba_table = self.lba_end + 1;
        secondary.checksum();
        secondary
    }

    /// Derives the primary header: own and alternate location swapped,
    /// the partition table right behind the header.
    pub fn to_primary(&self) -> (primary: GptHeader)
        requires
            self.lba_alt < u64::MAX,
        ensures
            primary == self.to_primary_spec(),
            primary.checksum_valid(),
    {
        let mut primary = *self;
        primary.lba_self = self.lba_alt;
        primary.lba_alt = self.lba_self;
        primary.lba_table = self.lba_alt + 1;
        primary.checksum();
        primary
    }

    /// Whether two headers are the same.
    pub fn same(&self, other: &GptHeader) -> (equal: bool)
        ensures
            equal == (*self == *other),
    {
        same8(&self.signature, &other.signature) && same4(&self.revision, &other.revision)
            && self.header_size == other.header_size && self.self_checksum == other.self_checksum
            && same4(&self.reserved, &other.reserved) && self.lba_self == other.lba_self
            && self.lba_alt == other.lba_alt && self.lba_start == other.lba_start && self.lba_end
            == other.lba_end && self.guid == other.guid && self.lba_table == other.lba_table
            && self.num_entries == other.num_entries && self.entry_size == other.entry_size
            && self.table_crc == other.table_crc
    }

    /// The header as it stands on disk.
    pub fn to_bytes(&self) -> (out: Vec<u8>)
        ensures
            out@ == self.bytes(),
            out@.len() == 92,
    {
        let mut out: Vec<u8> = Vec::new();
        put_bytes(&mut out, self.signature.as_slice());
        put_bytes(&mut out, self.revision.as_slice());
        put_u32(&mut out, self.header_size);
        put_u32(&mut out, self.self_checksum);
        put_bytes(&mut out, self.reserved.as_slice());
        put_u64(&mut out, self.lba_self);
        put_u64(&mut out, self.lba_alt);
        put_u64(&mut out, self.lba_start);
        put_u64(&mut out, self.lba_end);
        self.guid.put(&mut out);
        put_u64(&mut out, self.lba_table);
        put_u32(&mut out, self.num_entries);
        put_u32(&mut out, self.entry_size);
        put_u32(&mut out, self.table_crc);
        proof {
            assert(out@ =~= self.bytes());
            self.lemma_round_trip();
        }
        out
    }
}

} // verus!
