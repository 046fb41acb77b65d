//! GUIDs as GPT stores them, after RFC 4122.
use crate::text::hex_digits;
use crate::wire::{
    array8, get_u16, get_u32, lemma_arrays, lemma_array8_back, lemma_le_round_trip, put_bytes,
    put_u16, put_u32, take8, u16_at, u32_at,
};
use vstd::bytes::*;
use vstd::prelude::*;

verus! {

/// The error that `uuid` gives for a text that is no UUID.
#[verifier::external_type_specification]
#[verifier::external_body]
pub struct ExUuidError(::uuid::Error);

/// based on RFC4122
#[derive(Debug, Eq, Clone, Copy)]
pub struct GptGuid {
    pub time_low: u32,
    pub time_mid: u16,
    pub time_high: u16,
    pub node: [u8; 8],
}

/// A text that could not be read as a GUID.
#[derive(Debug, PartialEq, Eq, Structural, Clone, Copy)]
pub struct GuidParseError {}

/// The GUID that a text denotes to `uuid::Uuid::parse_str`, by its fields;
/// `None` for a text that it rejects.
pub uninterp spec fn uuid_text_fields(text: Seq<char>) -> Option<GptGuid>;

/// The hyphenated lower-case text of a GUID: the hexadecimal digits of
/// its first three fields, of the first two bytes of its node and of the
/// other six, in groups of 8, 4, 4, 4 and 12 with hyphens between them.
pub open spec fn uuid_hyphenated(guid: GptGuid) -> Seq<char> {
    hex_digits(guid.time_low as nat, 8) + seq!['-'] + hex_digits(guid.time_mid as nat, 4) + seq![
        '-',
    ] + hex_digits(guid.time_high as nat, 4) + seq!['-'] + hex_digits(guid.node[0] as nat, 2)
        + hex_digits(guid.node[1] as nat, 2) + seq!['-'] + hex_digits(guid.node[2] as nat, 2)
        + hex_digits(guid.node[3] as nat, 2) + hex_digits(guid.node[4] as nat, 2) + hex_digits(
        guid.node[5] as nat,
        2,
    ) + hex_digits(guid.node[6] as nat, 2) + hex_digits(guid.node[7] as nat, 2)
}

/// Parses a text with `uuid::Uuid::parse_str` and splits the result into
/// its fields with `Uuid::as_fields`.
///
/// Trusted: whether the text is accepted, and the fields that come out,
/// depend on the text alone.
#[verifier::external_body]
fn parse_fields(text: &str) -> (r: Result<GptGuid, ::uuid::Error>)
    ensures
        r matches Ok(guid) ==> uuid_text_fields(text@) == Some(guid),
        r is Err ==> uuid_text_fields(text@) is None,
{
    match ::uuid::Uuid::parse_str(text) {
        Ok(uuid) => {
            let fields = uuid.as_fields();
            Ok(GptGuid {
                time_low: fields.0,
                time_mid: fields.1,
                time_high: fields.2,
                node: *fields.3,
            })
        },
        Err(error) => Err(error),
    }
}

/// Draws a random (version 4) UUID with `uuid::Uuid::new_v4`.
///
/// Trusted: every UUID drawn carries version 4 in the top four bits of its
/// third field and the RFC 4122 variant in the top two bits of its fourth;
/// nothing is claimed of the other bits.
#[verifier::external_body]
fn random_fields() -> (guid: GptGuid)
    ensures
        guid.time_high / 0x1000 == 4,
        guid.node[0] / 0x40 == 2,
{
    let uuid = ::uuid::Uuid::new_v4();
    let fields = uuid.as_fields();
    GptGuid { time_low: fields.0, time_mid: fields.1, time_high: fields.2, node: *fields.3 }
}

/// Prints a GUID through `uuid::Uuid::from_fields` and the `Display` of
/// `uuid::Uuid`.
///
/// Trusted: the text is the hyphenated one of the four fields, in lower
/// case.
#[verifier::external_body]
fn hyphenated(guid: &GptGuid) -> (text: String)
    ensures
        text@ == uuid_hyphenated(*guid),
{
    match ::uuid::Uuid::from_fields(guid.time_low, guid.time_mid, guid.time_high, &guid.node) {
        Ok(uuid) => uuid.to_string(),
        Err(_) => String::new(),
    }
}

impl GptGuid {
    /// The sixteen bytes that stand for the GUID on disk: the first three
    /// fields little-endian, the node as it is.
    pub open spec fn bytes(self) -> Seq<u8> {
        spec_u32_to_le_bytes(self.time_low) + spec_u16_to_le_bytes(self.time_mid)
            + spec_u16_to_le_bytes(self.time_high) + self.node@
    }

    /// The GUID that sixteen bytes stand for.
    pub open spec fn from_bytes(bytes: Seq<u8>) -> GptGuid {
        GptGuid {
            time_low: u32_at(bytes, 0),
            time_mid: u16_at(bytes, 4),
            time_high: u16_at(bytes, 6),
            node: array8(bytes.subrange(8, 16)),
        }
    }

    /// Appends the GUID as it stands on disk.
    pub fn put(&self, out: &mut Vec<u8>)
        ensures
            final(out)@ == old(out)@ + self.bytes(),
    {
        put_u32(out, self.time_low);
        put_u16(out, self.time_mid);
        put_u16(out, self.time_high);
        put_bytes(out, self.node.as_slice());
        assert(out@ =~= old(out)@ + self.bytes());
    }

    /// Reads the GUID that stands at `at`.
    pub fn get(bytes: &[u8], at: usize) -> (guid: GptGuid)
        requires
            at + 16 <= bytes.len(),
        ensures
            guid == Self::from_bytes(bytes@.subrange(at as int, at + 16)),
    {
        let ghost part = bytes@.subrange(at as int, at + 16);
        assert(part.subrange(0, 4) =~= bytes@.subrange(at as int, at + 4));
        assert(part.subrange(4, 6) =~= bytes@.subrange(at + 4, at + 6));
        assert(part.subrange(6, 8) =~= bytes@.subrange(at + 6, at + 8));
        assert(part.subrange(8, 16) =~= bytes@.subrange(at + 8, at + 16));
        GptGuid {
            time_low: get_u32(bytes, at),
            time_mid: get_u16(bytes, at + 4),
            time_high: get_u16(bytes, at + 6),
            node: take8(bytes, at + 8),
        }
    }

    /// A GUID survives being written and read back, and sixteen bytes
    /// survive being read and written back.
    pub proof fn lemma_round_trip(self, bytes: Seq<u8>)
        ensures
            self.bytes().len() == 16,
            Self::from_bytes(self.bytes()) == self,
            bytes.len() == 16 ==> Self::from_bytes(bytes).bytes() == bytes,
    {
        lemma_le_round_trip();
        let b = self.bytes();
        assert(b.len() == 16);
        assert(b.subrange(0, 4) =~= spec_u32_to_le_bytes(self.time_low));
        assert(b.subrange(4, 6) =~= spec_u16_to_le_bytes(self.time_mid));
        assert(b.subrange(6, 8) =~= spec_u16_to_le_bytes(self.time_high));
        assert(b.subrange(8, 16) =~= self.node@);
        lemma_array8_back(self.node);
        if bytes.len() == 16 {
            lemma_arrays(bytes.subrange(8, 16));
            assert(Self::from_bytes(bytes).bytes() =~= bytes.subrange(0, 4) + bytes.subrange(4, 6)
                + bytes.subrange(6, 8) + bytes.subrange(8, 16));
            assert(Self::from_bytes(bytes).bytes() =~= bytes);
        }
    }

    /// The GUID whose fields are all zero.
    pub open spec fn zero() -> GptGuid {
        GptGuid {
            time_low: 0,
            time_mid: 0,
            time_high: 0,
            node: [0u8, 0u8, 0u8, 0u8, 0u8, 0u8, 0u8, 0u8],
        }
    }

    /// Reads a GUID from its text.
    ///
    /// Succeeds exactly on the texts that `uuid` accepts, with the fields
    /// that it reads from them.
    pub fn from_str(uuid: &str) -> (r: Result<GptGuid, GuidParseError>)
        ensures
            r == Self::accept(uuid_text_fields(uuid@)),
    {
        match parse_fields(uuid) {
            Ok(guid) => Ok(guid),
            Err(_) => Err(GuidParseError {  }),
        }
    }

    /// What `from_str` returns for a text, given what `uuid` made of it.
    pub open spec fn accept(parsed: Option<GptGuid>) -> Result<GptGuid, GuidParseError> {
        match parsed {
            Some(guid) => Ok(guid),
            None => Err(GuidParseError {  }),
        }
    }

    /// A fresh random GUID: version 4, RFC 4122 variant.
    pub fn new_random() -> (guid: GptGuid)
        ensures
            guid.is_random(),
    {
        random_fields()
    }

    /// The marks of a version 4 GUID of the RFC 4122 variant.
    pub open spec fn is_random(self) -> bool {
        self.time_high / 0x1000 == 4 && self.node[0] / 0x40 == 2
    }

    /// The GUID as hyphenated lower-case text.
    pub fn to_string(&self) -> (text: String)
        ensures
            text@ == uuid_hyphenated(*self),
    {
        hyphenated(self)
    }
}

impl Default for GptGuid {
    fn default() -> (guid: GptGuid)
        ensures
            guid == GptGuid::zero(),
    {
        let guid = GptGuid { time_low: 0, time_mid: 0, time_high: 0, node: [0u8; 8] };
        assert(guid.node =~= GptGuid::zero().node);
        guid
    }
}

impl PartialEq for GptGuid {
    fn eq(&self, other: &GptGuid) -> (equal: bool) {
        let equal = self.time_low == other.time_low && self.time_mid == other.time_mid
            && self.time_high == other.time_high && self.node[0] == other.node[0] && self.node[1]
            == other.node[1] && self.node[2] == other.node[2] && self.node[3] == other.node[3]
            && self.node[4] == other.node[4] && self.node[5] == other.node[5] && self.node[6]
            == other.node[6] && self.node[7] == other.node[7];
        proof {
            if equal {
                assert(self.node@ =~= other.node@);
                assert(self.node == other.node);
            }
        }
        equal
    }
}

impl vstd::std_specs::cmp::PartialEqSpecImpl for GptGuid {
    open spec fn obeys_eq_spec() -> bool {
        true
    }

    open spec fn eq_spec(&self, other: &GptGuid) -> bool {
        *self == *other
    }
}

} // verus!
