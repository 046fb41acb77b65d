//! Partition table entries: 128 bytes each, the name in UTF-16.
use crate::checksum::{checksum_ieee, crc32_ieee};
use crate::errors::ProbeError;
use crate::guid::GptGuid;
use crate::wire::{
    get_u16, get_u64, join, lemma_join_chunk, lemma_join_len, lemma_le_round_trip, put_bytes,
    put_u16, put_u64, u16_at, u64_at,
};
use vstd::bytes::*;
use vstd::prelude::*;

verus! {

/// The UTF-16 code units that encode a text.
pub uninterp spec fn utf16_units(text: Seq<char>) -> Seq<u16>;

/// The text that a sequence of UTF-16 code units decodes to, with the
/// replacement character in place of what is no valid UTF-16.
pub uninterp spec fn utf16_text(units: Seq<u16>) -> Seq<char>;

/// Encodes a text with `str::encode_utf16`.
///
/// Trusted: the units depend on the text alone, and decoding them gives the
/// text back.
#[verifier::external_body]
fn encode_utf16(text: &str) -> (units: Vec<u16>)
    ensures
        units@ == utf16_units(text@),
        utf16_text(units@) == text@,
{
    text.encode_utf16().collect()
}

/// Decodes code units with `String::from_utf16_lossy`.
///
/// Trusted: the text depends on the units alone.
#[verifier::external_body]
fn from_utf16_lossy(units: &[u16]) -> (text: String)
    ensures
        text@ == utf16_text(units@),
{
    String::from_utf16_lossy(units)
}

/// The name of a partition. On disk it takes 36 UTF-16 code units.
#[derive(Debug, PartialEq, Eq)]
pub struct GptName {
    pub name: String,
}

impl View for GptName {
    type V = Seq<char>;

    open spec fn view(&self) -> Seq<char> {
        self.name@
    }
}

impl GptName {
    /// Code units in the name field of an entry.
    pub const UNITS: usize = 36;

    /// Code units cut off or filled up with zeros to the 36 units of a name
    /// field.
    pub open spec fn padded_units(units: Seq<u16>) -> Seq<u16> {
        Seq::new(
            36,
            |i: int|
                if i < units.len() {
                    units[i]
                } else {
                    0u16
                },
        )
    }

    /// The 36 code units that a text is stored as: its UTF-16 encoding,
    /// cut off or filled up with zeros.
    pub open spec fn padded(text: Seq<char>) -> Seq<u16> {
        Self::padded_units(utf16_units(text))
    }

    /// The 72 bytes that code units are stored as: cut off or filled up
    /// to 36 units, each unit little-endian.
    pub open spec fn bytes_of_units(units: Seq<u16>) -> Seq<u8> {
        join(Self::padded_units(units).map_values(|unit: u16| spec_u16_to_le_bytes(unit)))
    }

    /// Whether code units leave room for the terminating zero and hold no
    /// zero themselves.
    pub open spec fn units_fit(units: Seq<u16>) -> bool {
        units.len() < 36 && forall|i: int| 0 <= i < units.len() ==> units[i] != 0
    }

    /// The 72 bytes that a text is stored as: its 36 code units,
    /// little-endian.
    pub open spec fn bytes_of(text: Seq<char>) -> Seq<u8> {
        Self::bytes_of_units(utf16_units(text))
    }

    /// The 36 code units that the first 72 bytes of a sequence hold.
    pub open spec fn units_at(bytes: Seq<u8>) -> Seq<u16> {
        Seq::new(36, |i: int| u16_at(bytes, 2 * i))
    }

    /// The index of the first zero unit at or behind `from`; the number of
    /// units if there is none.
    pub open spec fn end(units: Seq<u16>, from: int) -> int
        decreases units.len() - from,
    {
        if from >= units.len() {
            units.len() as int
        } else if units[from] == 0 {
            from
        } else {
            Self::end(units, from + 1)
        }
    }

    /// The text that stored code units stand for: what the units before
    /// the first zero decode to. Units without a zero stand for nothing.
    pub open spec fn text_of(units: Seq<u16>) -> Option<Seq<char>> {
        let end = Self::end(units, 0);
        if end >= units.len() {
            None
        } else {
            Some(utf16_text(units.take(end)))
        }
    }

    /// Whether a text can be stored and read back unchanged: its encoding
    /// leaves room for the terminating zero, holds no zero unit itself, and
    /// decodes to the text.
    pub open spec fn storable(text: Seq<char>) -> bool {
        Self::units_fit(utf16_units(text)) && utf16_text(utf16_units(text)) == text
    }

    /// Where no unit in `[from, zero)` is zero and the unit at `zero` is,
    /// the search from `from` ends at `zero`.
    pub proof fn lemma_end(units: Seq<u16>, from: int, zero: int)
        requires
            0 <= from <= zero < units.len(),
            forall|k: int| from <= k < zero ==> units[k] != 0,
            units[zero] == 0,
        ensures
            Self::end(units, from) == zero,
        decreases zero - from,
    {
        if from < zero {
            Self::lemma_end(units, from + 1, zero);
        }
    }

    /// Where no unit at or behind `from` is zero, the search finds none.
    pub proof fn lemma_no_end(units: Seq<u16>, from: int)
        requires
            0 <= from <= units.len(),
            forall|k: int| from <= k < units.len() ==> units[k] != 0,
        ensures
            Self::end(units, from) == units.len(),
        decreases units.len() - from,
    {
        if from < units.len() {
            Self::lemma_no_end(units, from + 1);
        }
    }

    /// The stored form of a text has 72 bytes and holds its 36 code units.
    pub proof fn lemma_bytes_of(text: Seq<char>)
        ensures
            Self::bytes_of(text).len() == 72,
            Self::units_at(Self::bytes_of(text)) == Self::padded(text),
    {
        lemma_le_round_trip();
        let chunks = Self::padded(text).map_values(|unit: u16| spec_u16_to_le_bytes(unit));
        assert forall|k: int| 0 <= k < chunks.len() implies (#[trigger] chunks[k]).len() == 2 by {
            assert(chunks[k] == spec_u16_to_le_bytes(Self::padded(text)[k]));
        }
        lemma_join_len(chunks, 2);
        let bytes = Self::bytes_of(text);
        assert forall|i: int| 0 <= i < 36 implies Self::units_at(bytes)[i] == Self::padded(
            text,
        )[i] by {
            lemma_join_chunk(chunks, 2, i);
            assert(chunks[i] == spec_u16_to_le_bytes(Self::padded(text)[i]));
            assert(bytes.subrange(2 * i, 2 * i + 2) == chunks[i]);
        }
        assert(Self::units_at(Self::bytes_of(text)) =~= Self::padded(text));
    }

    /// A storable text survives being stored and read back.
    pub proof fn lemma_round_trip(text: Seq<char>)
        requires
            Self::storable(text),
        ensures
            Self::text_of(Self::units_at(Self::bytes_of(text))) == Some(text),
    {
        Self::lemma_bytes_of(text);
        let units = utf16_units(text);
        let padded = Self::padded(text);
        Self::lemma_end(padded, 0, units.len() as int);
        assert(padded.take(units.len() as int) =~= units);
    }

    /// Whether code units leave room for the terminating zero and hold no
    /// zero themselves.
    pub fn fits(units: &[u16]) -> (r: bool)
        ensures
            r == Self::units_fit(units@),
    {
        if units.len() >= 36 {
            return false;
        }
        let mut i: usize = 0;
        while i < units.len()
            invariant
                i <= units@.len(),
                forall|k: int| 0 <= k < i ==> units@[k] != 0,
            decreases units@.len() - i,
        {
            if units[i] == 0 {
                return false;
            }
            i = i + 1;
        }
        true
    }

    /// Whether the name can be stored in an entry and read back unchanged.
    pub fn is_storable(&self) -> (r: bool)
        ensures
            r == Self::storable(self@),
    {
        let units = encode_utf16(self.name.as_str());
        Self::fits(units.as_slice())
    }

    /// Appends code units as a name field: the first 36 of them, or all
    /// with zeros behind them, each unit little-endian.
    pub fn put_units(units: &[u16], out: &mut Vec<u8>)
        ensures
            final(out)@ == old(out)@ + Self::bytes_of_units(units@),
    {
        let ghost padded = Self::padded_units(units@);
        let ghost chunks = padded.map_values(|unit: u16| spec_u16_to_le_bytes(unit));
        let mut i: usize = 0;
        assert(join(chunks.take(0)) =~= Seq::<u8>::empty());
        assert(out@ =~= old(out)@ + join(chunks.take(0)));
        while i < 36
            invariant
                i <= 36,
                padded == Self::padded_units(units@),
                chunks == padded.map_values(|unit: u16| spec_u16_to_le_bytes(unit)),
                out@ == old(out)@ + join(chunks.take(i as int)),
            decreases 36 - i,
        {
            let unit: u16 = if i < units.len() {
                units[i]
            } else {
                0
            };
            put_u16(out, unit);
            proof {
                let next = chunks.take(i + 1);
                assert(next.drop_last() =~= chunks.take(i as int));
                assert(next.last() == spec_u16_to_le_bytes(unit));
                assert(out@ =~= old(out)@ + join(next));
            }
            i = i + 1;
        }
        assert(chunks.take(36) =~= chunks);
    }

    /// Appends the name as it stands on disk.
    pub fn put(&self, out: &mut Vec<u8>)
        ensures
            final(out)@ == old(out)@ + Self::bytes_of(self@),
    {
        let units = encode_utf16(self.name.as_str());
        Self::put_units(units.as_slice(), out);
    }

    /// What `get` makes of the 72 bytes of a name field.
    pub open spec fn get_spec(bytes: Seq<u8>) -> Result<Seq<char>, ProbeError> {
        match Self::text_of(Self::units_at(bytes)) {
            Some(text) => Ok(text),
            None => Err(ProbeError::DeserializeError),
        }
    }

    /// Reads the code units of the name that stands at `at`: those before
    /// the first zero. A field without a zero unit gives none.
    pub fn get_units(bytes: &[u8], at: usize) -> (r: Option<Vec<u16>>)
        requires
            at + 72 <= bytes.len(),
        ensures
            ({
                let all = Self::units_at(bytes@.subrange(at as int, at + 72));
                let end = Self::end(all, 0);
                match r {
                    Some(units) => end < 36 && units@ == all.take(end),
                    None => end >= 36,
                }
            }),
    {
        let ghost part = bytes@.subrange(at as int, at + 72);
        let ghost all = Self::units_at(part);
        let mut units: Vec<u16> = Vec::new();
        let mut i: usize = 0;
        while i < 36
            invariant
                i <= 36,
                at + 72 <= bytes.len(),
                part == bytes@.subrange(at as int, at + 72),
                all == Self::units_at(part),
                units@ == all.take(i as int),
                forall|k: int| 0 <= k < i ==> all[k] != 0,
            decreases 36 - i,
        {
            let unit = get_u16(bytes, at + 2 * i);
            proof {
                assert(bytes@.subrange(at + 2 * i, at + 2 * i + 2) =~= part.subrange(
                    2 * i,
                    2 * i + 2,
                ));
                assert(unit == all[i as int]);
            }
            if unit == 0 {
                proof {
                    Self::lemma_end(all, 0, i as int);
                }
                return Some(units);
            }
            units.push(unit);
            assert(units@ =~= all.take(i + 1));
            i = i + 1;
        }
        proof {
            Self::lemma_no_end(all, 0);
        }
        None
    }

    /// Reads the name that stands at `at`: the code units up to the first
    /// zero. A field without a zero unit is refused.
    pub fn get(bytes: &[u8], at: usize) -> (r: Result<GptName, ProbeError>)
        requires
            at + 72 <= bytes.len(),
        ensures
            match r {
                Ok(name) => Ok::<Seq<char>, ProbeError>(name@) == Self::get_spec(
                    bytes@.subrange(at as int, at + 72),
                ),
                Err(error) => Err::<Seq<char>, ProbeError>(error) == Self::get_spec(
                    bytes@.subrange(at as int, at + 72),
                ),
            },
    {
        match Self::get_units(bytes, at) {
            Some(units) => Ok(GptName { name: from_utf16_lossy(units.as_slice()) }),
            None => Err(ProbeError::DeserializeError),
        }
    }
}

impl Clone for GptName {
    fn clone(&self) -> (copy: GptName)
        ensures
            copy@ == self@,
    {
        GptName { name: self.name.clone() }
    }
}

impl Default for GptName {
    fn default() -> (name: GptName)
        ensures
            name@ == Seq::<char>::empty(),
    {
        GptName { name: String::new() }
    }
}

impl From<String> for GptName {
    fn from(name: String) -> (r: GptName) {
        GptName { name }
    }
}

impl vstd::std_specs::convert::FromSpecImpl<String> for GptName {
    open spec fn obeys_from_spec() -> bool {
        true
    }

    open spec fn from_spec(name: String) -> GptName {
        GptName { name }
    }
}

impl vstd::std_specs::convert::FromSpecImpl<&str> for GptName {
    open spec fn obeys_from_spec() -> bool {
        false
    }

    open spec fn from_spec(name: &str) -> GptName {
        arbitrary()
    }
}

impl From<&str> for GptName {
    fn from(name: &str) -> (r: GptName)
        ensures
            r@ == name@,
    {
        GptName { name: name.to_owned() }
    }
}


#[derive(Debug, PartialEq, Eq)]
pub struct GptEntry {
    /// GUID type, some of them are assigned/reserved for example to Linux
    pub ent_type: GptGuid,
    /// entry GUID, can be anything typically random
    pub ent_guid: GptGuid,
    /// start lba for this entry
    pub ent_start: u64,
    /// end lba for this entry
    pub ent_end: u64,
    /// entry attributes, according to do the docs bit 0 MUST be zero
    pub ent_attr: u64,
    /// UTF-16 name of the partition entry,
    /// DO NOT confuse this with filesystem labels!
    pub ent_name: GptName,
}

/// A partition table entry as a mathematical value: the name is its text.
pub struct EntrySpec {
    pub ent_type: GptGuid,
    pub ent_guid: GptGuid,
    pub ent_start: u64,
    pub ent_end: u64,
    pub ent_attr: u64,
    pub ent_name: Seq<char>,
}

impl View for GptEntry {
    type V = EntrySpec;

    open spec fn view(&self) -> EntrySpec {
        EntrySpec {
            ent_type: self.ent_type,
            ent_guid: self.ent_guid,
            ent_start: self.ent_start,
            ent_end: self.ent_end,
            ent_attr: self.ent_attr,
            ent_name: self.ent_name@,
        }
    }
}

/// The entries of a table as mathematical values.
pub open spec fn views(entries: Seq<GptEntry>) -> Seq<EntrySpec> {
    entries.map_values(|entry: GptEntry| entry@)
}

impl EntrySpec {
    /// The 128 bytes that stand for the entry on disk.
    pub open spec fn bytes(self) -> Seq<u8> {
        self.ent_type.bytes() + self.ent_guid.bytes() + spec_u64_to_le_bytes(self.ent_start)
            + spec_u64_to_le_bytes(self.ent_end) + spec_u64_to_le_bytes(self.ent_attr)
            + GptName::bytes_of(self.ent_name)
    }

    /// The entry that the first 128 bytes of a sequence stand for, unless
    /// its name field has no terminator.
    pub open spec fn from_bytes(bytes: Seq<u8>) -> Result<EntrySpec, ProbeError> {
        match GptName::get_spec(bytes.subrange(56, 128)) {
            Ok(text) => Ok(
                EntrySpec {
                    ent_type: GptGuid::from_bytes(bytes.subrange(0, 16)),
                    ent_guid: GptGuid::from_bytes(bytes.subrange(16, 32)),
                    ent_start: u64_at(bytes, 32),
                    ent_end: u64_at(bytes, 40),
                    ent_attr: u64_at(bytes, 48),
                    ent_name: text,
                },
            ),
            Err(error) => Err(error),
        }
    }

    /// The entry that defines no partition: all fields zero, no name.
    pub open spec fn empty() -> EntrySpec {
        EntrySpec {
            ent_type: GptGuid::zero(),
            ent_guid: GptGuid::zero(),
            ent_start: 0,
            ent_end: 0,
            ent_attr: 0,
            ent_name: Seq::empty(),
        }
    }

    /// An entry has 128 bytes on disk.
    pub proof fn lemma_len(self)
        ensures
            self.bytes().len() == 128,
    {
        lemma_le_round_trip();
        self.ent_type.lemma_round_trip(Seq::empty());
        self.ent_guid.lemma_round_trip(Seq::empty());
        GptName::lemma_bytes_of(self.ent_name);
    }

    /// An entry with a storable name survives being written and read back.
    pub proof fn lemma_round_trip(self)
        requires
            GptName::storable(self.ent_name),
        ensures
            self.bytes().len() == 128,
            Self::from_bytes(self.bytes()) == Ok::<EntrySpec, ProbeError>(self),
    {
        lemma_le_round_trip();
        self.lemma_len();
        self.ent_type.lemma_round_trip(Seq::empty());
        self.ent_guid.lemma_round_trip(Seq::empty());
        GptName::lemma_bytes_of(self.ent_name);
        GptName::lemma_round_trip(self.ent_name);
        let b = self.bytes();
        assert(b.subrange(0, 16) =~= self.ent_type.bytes());
        assert(b.subrange(16, 32) =~= self.ent_guid.bytes());
        assert(b.subrange(32, 40) =~= spec_u64_to_le_bytes(self.ent_start));
        assert(b.subrange(40, 48) =~= spec_u64_to_le_bytes(self.ent_end));
        assert(b.subrange(48, 56) =~= spec_u64_to_le_bytes(self.ent_attr));
        assert(b.subrange(56, 128) =~= GptName::bytes_of(self.ent_name));
    }
}

/// The bytes of entry `i` in a table.
pub open spec fn chunk(bytes: Seq<u8>, i: int) -> Seq<u8> {
    bytes.subrange(128 * i, 128 * i + 128)
}

/// What `GptEntry::from_slice` makes of the bytes of a table of `count`
/// entries: the entries, unless the bytes are too few or a name field has
/// no terminator.
pub open spec fn table_from(bytes: Seq<u8>, count: u32) -> Result<Seq<EntrySpec>, ProbeError> {
    if bytes.len() < 128 * count {
        Err(ProbeError::DeserializeError)
    } else if exists|i: int| 0 <= i < count && EntrySpec::from_bytes(chunk(bytes, i)) is Err {
        Err(ProbeError::DeserializeError)
    } else {
        Ok(Seq::new(count as nat, |i: int| EntrySpec::from_bytes(chunk(bytes, i))->Ok_0))
    }
}

/// The byte strings that a table of `size` entries is made of: those of
/// the entries given, then those of as many empty entries as are missing.
pub open spec fn table_chunks(entries: Seq<EntrySpec>, size: u32) -> Seq<Seq<u8>> {
    entries.map_values(|entry: EntrySpec| entry.bytes()) + Seq::new(
        if size > entries.len() {
            (size - entries.len()) as nat
        } else {
            0
        },
        |i: int| EntrySpec::empty().bytes(),
    )
}

/// The bytes over which the checksum of a partition table is taken.
pub open spec fn table_bytes(entries: Seq<EntrySpec>, size: u32) -> Seq<u8> {
    join(table_chunks(entries, size))
}

/// The checksum of a partition table of `size` entries.
pub open spec fn table_crc(entries: Seq<EntrySpec>, size: u32) -> u32 {
    crc32_ieee(table_bytes(entries, size))
}

impl GptEntry {
    /// Bytes of an entry on disk.
    pub const SIZE: usize = 128;

    /// Appends the entry as it stands on disk.
    pub fn put(&self, out: &mut Vec<u8>)
        ensures
            final(out)@ == old(out)@ + self@.bytes(),
    {
        self.ent_type.put(out);
        self.ent_guid.put(out);
        put_u64(out, self.ent_start);
        put_u64(out, self.ent_end);
        put_u64(out, self.ent_attr);
        self.ent_name.put(out);
        assert(out@ =~= old(out)@ + self@.bytes());
    }

    /// Reads the entry that stands at `at`.
    pub fn get(bytes: &[u8], at: usize) -> (r: Result<GptEntry, ProbeError>)
        requires
            at + 128 <= bytes.len(),
        ensures
            match r {
                Ok(entry) => Ok::<EntrySpec, ProbeError>(entry@) == EntrySpec::from_bytes(
                    bytes@.subrange(at as int, at + 128),
                ),
                Err(error) => Err::<EntrySpec, ProbeError>(error) == EntrySpec::from_bytes(
                    bytes@.subrange(at as int, at + 128),
                ),
            },
    {
        let ghost part = bytes@.subrange(at as int, at + 128);
        proof {
            assert(part.subrange(0, 16) =~= bytes@.subrange(at as int, at + 16));
            assert(part.subrange(16, 32) =~= bytes@.subrange(at + 16, at + 16 + 16));
            assert(part.subrange(32, 40) =~= bytes@.subrange(at + 32, at + 32 + 8));
            assert(part.subrange(40, 48) =~= bytes@.subrange(at + 40, at + 40 + 8));
            assert(part.subrange(48, 56) =~= bytes@.subrange(at + 48, at + 48 + 8));
            assert(part.subrange(56, 128) =~= bytes@.subrange(at + 56, at + 56 + 72));
        }
        match GptName::get(bytes, at + 56) {
            Ok(name) => Ok(
                GptEntry {
                    ent_type: GptGuid::get(bytes, at),
                    ent_guid: GptGuid::get(bytes, at + 16),
                    ent_start: get_u64(bytes, at + 32),
                    ent_end: get_u64(bytes, at + 40),
                    ent_attr: get_u64(bytes, at + 48),
                    ent_name: name,
                },
            ),
            Err(error) => Err(error),
        }
    }

    /// converts a slice into a partition table
    pub fn from_slice(slice: &[u8], count: u32) -> (r: Result<Vec<GptEntry>, ProbeError>)
        ensures
            match r {
                Ok(partitions) => Ok::<Seq<EntrySpec>, ProbeError>(views(partitions@))
                    == table_from(slice@, count),
                Err(error) => Err::<Seq<EntrySpec>, ProbeError>(error) == table_from(
                    slice@,
                    count,
                ),
            },
    {
        if (slice.len() as u128) < 128 * (count as u128) {
            return Err(ProbeError::DeserializeError);
        }
        let mut partitions: Vec<GptEntry> = Vec::new();
        let mut i: usize = 0;
        while i < count as usize
            invariant
                i <= count,
                slice.len() >= 128 * count,
                partitions.len() == i,
                forall|k: int|
                    0 <= k < i ==> Ok::<EntrySpec, ProbeError>(#[trigger] partitions@[k]@)
                        == EntrySpec::from_bytes(chunk(slice@, k)),
            decreases count - i,
        {
            match GptEntry::get(slice, 128 * i) {
                Ok(entry) => {
                    partitions.push(entry);
                },
                Err(error) => {
                    assert(EntrySpec::from_bytes(chunk(slice@, i as int)) is Err);
                    return Err(ProbeError::DeserializeError);
                },
            }
            i = i + 1;
        }
        proof {
            let expected = Seq::new(
                count as nat,
                |k: int| EntrySpec::from_bytes(chunk(slice@, k))->Ok_0,
            );
            assert forall|k: int| 0 <= k < count implies EntrySpec::from_bytes(
                chunk(slice@, k),
            ) == Ok::<EntrySpec, ProbeError>(views(partitions@)[k]) by {
                assert(Ok::<EntrySpec, ProbeError>(partitions@[k]@) == EntrySpec::from_bytes(
                    chunk(slice@, k),
                ));
            }
            assert(views(partitions@) =~= expected);
        }
        Ok(partitions)
    }

    /// calculate the checksum over the partition table
    pub fn checksum(partitions: &[GptEntry], size: u32) -> (sum: u32)
        ensures
            sum == table_crc(views(partitions@), size),
    {
        let bytes = Self::table(partitions, size);
        checksum_ieee(bytes.as_slice())
    }

    /// The bytes of a partition table of `size` entries: the entries given,
    /// followed by empty entries where they are fewer than `size`.
    pub fn table(partitions: &[GptEntry], size: u32) -> (bytes: Vec<u8>)
        ensures
            bytes@ == table_bytes(views(partitions@), size),
    {
        let ghost entries = views(partitions@);
        let ghost chunks = table_chunks(entries, size);
        let mut out: Vec<u8> = Vec::new();
        let mut i: usize = 0;
        assert(join(chunks.take(0)) =~= Seq::<u8>::empty());
        while i < partitions.len()
            invariant
                i <= partitions.len(),
                entries == views(partitions@),
                chunks == table_chunks(entries, size),
                out@ == join(chunks.take(i as int)),
            decreases partitions.len() - i,
        {
            partitions[i].put(&mut out);
            proof {
                let next = chunks.take(i + 1);
                assert(next.drop_last() =~= chunks.take(i as int));
                assert(next.last() == partitions@[i as int]@.bytes());
            }
            i = i + 1;
        }
        if partitions.len() < size as usize {
            let pad = GptEntry::default().to_bytes();
            let count: usize = partitions.len();
            while i < size as usize
                invariant
                    count <= i <= size,
                    count == partitions.len(),
                    count == entries.len(),
                    pad@ == EntrySpec::empty().bytes(),
                    chunks == table_chunks(entries, size),
                    chunks.len() == size,
                    out@ == join(chunks.take(i as int)),
                decreases size - i,
            {
                put_bytes(&mut out, pad.as_slice());
                proof {
                    let next = chunks.take(i + 1);
                    assert(next.drop_last() =~= chunks.take(i as int));
                    assert(next.last() == EntrySpec::empty().bytes());
                }
                i = i + 1;
            }
        }
        assert(chunks.take(i as int) =~= chunks);
        out
    }

    /// Whether two entries are the same.
    pub fn same(&self, other: &GptEntry) -> (equal: bool)
        ensures
            equal == (self@ == other@),
    {
        self.ent_type == other.ent_type && self.ent_guid == other.ent_guid && self.ent_start
            == other.ent_start && self.ent_end == other.ent_end && self.ent_attr == other.ent_attr
            && self.ent_name.name == other.ent_name.name
    }

    /// Whether two tables hold the same entries.
    pub fn same_all(these: &[GptEntry], those: &[GptEntry]) -> (equal: bool)
        ensures
            equal == (views(these@) == views(those@)),
    {
        if these.len() != those.len() {
            assert(views(these@).len() != views(those@).len());
            return false;
        }
        let mut i: usize = 0;
        while i < these.len()
            invariant
                i <= these.len(),
                these.len() == those.len(),
                forall|k: int| 0 <= k < i ==> these@[k]@ == those@[k]@,
            decreases these.len() - i,
        {
            if !these[i].same(&those[i]) {
                assert(views(these@)[i as int] != views(those@)[i as int]);
                return false;
            }
            i = i + 1;
        }
        assert(views(these@) =~= views(those@));
        true
    }

    /// The entry as it stands on disk.
    pub fn to_bytes(&self) -> (out: Vec<u8>)
        ensures
            out@ == self@.bytes(),
            out@.len() == 128,
    {
        let mut out: Vec<u8> = Vec::new();
        self.put(&mut out);
        proof {
            self@.lemma_len();
            assert(out@ =~= self@.bytes());
        }
        out
    }
}

impl Clone for GptEntry {
    fn clone(&self) -> (copy: GptEntry)
        ensures
            copy@ == self@,
    {
        GptEntry {
            ent_type: self.ent_type,
            ent_guid: self.ent_guid,
            ent_start: self.ent_start,
            ent_end: self.ent_end,
            ent_attr: self.ent_attr,
            ent_name: self.ent_name.clone(),
        }
    }
}

impl Default for GptEntry {
    fn default() -> (entry: GptEntry)
        ensures
            entry@ == EntrySpec::empty(),
    {
        GptEntry {
            ent_type: GptGuid::default(),
            ent_guid: GptGuid::default(),
            ent_start: 0,
            ent_end: 0,
            ent_attr: 0,
            ent_name: GptName::default(),
        }
    }
}

} // verus!
