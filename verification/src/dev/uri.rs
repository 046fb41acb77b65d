//! What the device factories read of a URI, and what can be wrong with it.
use crate::guid::{uuid_text_fields, GptGuid};
use vstd::prelude::*;
use vstd::string::StrSliceExecFns;

verus! {

/// A URI, as far as the device factories read it.
#[derive(Debug, PartialEq, Eq)]
pub struct Uri {
    /// The URI as text.
    pub text: String,
    /// The path, with its leading slash.
    pub path: String,
    /// The segments of the path that are not empty.
    pub segments: Vec<String>,
    /// The pairs of the query, decoded, in their order.
    pub query: Vec<(String, String)>,
}

/// A URI as a mathematical value.
pub struct UriSpec {
    pub text: Seq<char>,
    pub path: Seq<char>,
    pub segments: Seq<Seq<char>>,
    pub query: Seq<(Seq<char>, Seq<char>)>,
}

/// The pairs of a query as mathematical values.
pub open spec fn pairs(query: Seq<(String, String)>) -> Seq<(Seq<char>, Seq<char>)> {
    query.map_values(|pair: (String, String)| (pair.0@, pair.1@))
}

impl View for Uri {
    type V = UriSpec;

    open spec fn view(&self) -> UriSpec {
        UriSpec {
            text: self.text@,
            path: self.path@,
            segments: self.segments@.map_values(|segment: String| segment@),
            query: pairs(self.query@),
        }
    }
}

/// What is wrong with the URI of a device.
#[derive(Debug, Clone, Copy, PartialEq, Eq, Structural)]
pub enum UriFault {
    /// The path has no segment.
    NoPathSegments,
    /// The value of the integer parameter is no number.
    IntParamParse(IntParam),
    /// The block size is neither 512 nor 4096.
    InvalidBlkSize,
    /// Both `size_mb` and `num_blocks` are given.
    ConflictingSize,
    /// The value of `uuid` is no UUID.
    UuidParamParse,
    /// The query has a parameter that the device does not know.
    UnknownParameters,
}

/// The integer parameters of a device URI.
#[derive(Debug, Clone, Copy, PartialEq, Eq, Structural)]
pub enum IntParam {
    BlkSize,
    SizeMb,
    NumBlocks,
}

/// Errors of the device factories. `source` is an errno.
#[derive(Debug, PartialEq, Eq)]
pub enum NexusBdevError {
    /// Invalid URI
    UriInvalid { uri: String, message: String },
    /// Invalid URI: the value of the parameter is no integer
    IntParamParseError { uri: String, parameter: String },
    /// Invalid URI: the value of `uuid` is no UUID
    UuidParamParseError { uri: String },
    /// The device exists already
    BdevExists { name: String },
    /// The device was not found
    BdevNotFound { name: String },
    /// Failed to create the device
    CreateBdev { source: i32, name: String },
    /// Failed to destroy the device
    DestroyBdev { source: i32, name: String },
    /// The command to destroy the device was cancelled
    CancelBdev { name: String },
}

/// The value of a decimal digit.
pub open spec fn digit(c: char) -> Option<nat> {
    if 48 <= c as u32 <= 57 {
        Some((c as u32 - 48) as nat)
    } else {
        None
    }
}

/// The number that a text of decimal digits spells.
pub open spec fn decimal(text: Seq<char>) -> Option<nat>
    decreases text.len(),
{
    if text.len() == 0 {
        None
    } else if text.len() == 1 {
        digit(text[0])
    } else {
        match (decimal(text.drop_last()), digit(text.last())) {
            (Some(value), Some(last)) => Some(value * 10 + last),
            _ => None,
        }
    }
}

/// The 32-bit number that a text spells: decimal digits, with or
/// without a plus sign before them, that stay within 32 bits.
pub open spec fn decimal_u32(text: Seq<char>) -> Option<u32> {
    let digits = if text.len() > 0 && text[0] == '+' {
        text.drop_first()
    } else {
        text
    };
    match decimal(digits) {
        Some(value) if value <= u32::MAX => Some(value as u32),
        _ => None,
    }
}

/// A text of digits spells at least what its first digits spell; where
/// they spell nothing, it spells nothing.
pub proof fn lemma_decimal_prefix(text: Seq<char>, upto: int)
    requires
        1 <= upto <= text.len(),
    ensures
        decimal(text) matches Some(value) ==> decimal(text.take(upto)) matches Some(part) && part
            <= value,
    decreases text.len(),
{
    if upto < text.len() {
        lemma_decimal_prefix(text.drop_last(), upto);
        assert(text.drop_last().take(upto) =~= text.take(upto));
    } else {
        assert(text.take(upto) =~= text);
    }
}

/// The 32-bit number that a text spells, if it spells one: decimal
/// digits, with or without a plus sign before them, that stay within 32
/// bits.
pub fn parse_u32(text: &str) -> (r: Option<u32>)
    ensures
        r == decimal_u32(text@),
{
    let n = text.unicode_len();
    let start: usize = if n > 0 && text.get_char(0) == '+' {
        1
    } else {
        0
    };
    let ghost digits = text@.subrange(start as int, n as int);
    proof {
        if start == 1 {
            assert(digits =~= text@.drop_first());
        } else {
            assert(digits =~= text@);
        }
    }
    if start == n {
        return None;
    }
    let mut value: u32 = 0;
    let mut i: usize = start;
    while i < n
        invariant
            start <= i <= n,
            n == text@.len(),
            start < n,
            digits == text@.subrange(start as int, n as int),
            digits == if text@.len() > 0 && text@[0] == '+' {
                text@.drop_first()
            } else {
                text@
            },
            i == start ==> value == 0,
            i > start ==> decimal(digits.take(i - start)) == Some(value as nat),
        decreases n - i,
    {
        let c = text.get_char(i);
        let ghost part = digits.take(i - start + 1);
        proof {
            assert(part.last() == c);
            assert(part.drop_last() =~= digits.take(i - start));
            lemma_decimal_prefix(digits, i - start + 1);
        }
        let code: u32 = c as u32;
        if code < 48 || code > 57 {
            assert(digit(c) is None);
            assert(decimal(part) is None);
            return None;
        }
        let next: u64 = (value as u64) * 10 + ((code - 48) as u64);
        assert(decimal(part) == Some(next as nat));
        if next > 0xffff_ffff {
            return None;
        }
        value = next as u32;
        i = i + 1;
    }
    assert(digits.take(n - start) =~= digits);
    Some(value)
}

/// The value of the last pair among the first `upto` that bears `key`.
pub open spec fn last_value(query: Seq<(Seq<char>, Seq<char>)>, key: Seq<char>, upto: int) -> Option<
    Seq<char>,
>
    decreases upto,
{
    if upto <= 0 {
        None
    } else if query[upto - 1].0 == key {
        Some(query[upto - 1].1)
    } else {
        last_value(query, key, upto - 1)
    }
}

/// The value that a query gives for `key`: of several that of the last
/// pair.
pub open spec fn value_of(query: Seq<(Seq<char>, Seq<char>)>, key: Seq<char>) -> Option<Seq<char>> {
    last_value(query, key, query.len() as int)
}

/// Whether all pairs of a query bear one of the `keys`.
pub open spec fn only_keys(query: Seq<(Seq<char>, Seq<char>)>, keys: Seq<Seq<char>>) -> bool {
    forall|i: int| 0 <= i < query.len() ==> keys.contains((#[trigger] query[i]).0)
}

/// What an integer parameter comes to: the number that its value spells,
/// `default` where the query does not give it.
pub open spec fn int_param(
    query: Seq<(Seq<char>, Seq<char>)>,
    key: Seq<char>,
    which: IntParam,
    default: u32,
) -> Result<u32, UriFault> {
    match value_of(query, key) {
        None => Ok(default),
        Some(value) => match decimal_u32(value) {
            Some(number) => Ok(number),
            None => Err(UriFault::IntParamParse(which)),
        },
    }
}

/// What the parameter `uuid` comes to: the UUID that its value spells,
/// none where the query does not give it.
pub open spec fn uuid_param(query: Seq<(Seq<char>, Seq<char>)>) -> Result<
    Option<GptGuid>,
    UriFault,
> {
    match value_of(query, "uuid"@) {
        None => Ok(None),
        Some(value) => match uuid_text_fields(value) {
            Some(guid) => Ok(Some(guid)),
            None => Err(UriFault::UuidParamParse),
        },
    }
}

impl NexusBdevError {
    /// Whether the error says that the device `name` exists already.
    pub open spec fn is_exists(self, name: Seq<char>) -> bool {
        self matches NexusBdevError::BdevExists { name: named } && named@ == name
    }

    /// Whether the error says that the device `name` was not found.
    pub open spec fn is_not_found(self, name: Seq<char>) -> bool {
        self matches NexusBdevError::BdevNotFound { name: named } && named@ == name
    }

    /// Whether the error says that the creation of the device `name`
    /// failed with `errno`.
    pub open spec fn is_create(self, errno: int, name: Seq<char>) -> bool {
        self matches NexusBdevError::CreateBdev { source, name: named } && named@ == name && source
            == errno
    }

    /// Whether the error says that the destruction of the device `name`
    /// failed with `errno`.
    pub open spec fn is_destroy(self, errno: int, name: Seq<char>) -> bool {
        self matches NexusBdevError::DestroyBdev { source, name: named } && named@ == name
            && source == errno
    }

    /// Whether the error says that the destruction of the device `name`
    /// was cancelled.
    pub open spec fn is_cancel(self, name: Seq<char>) -> bool {
        self matches NexusBdevError::CancelBdev { name: named } && named@ == name
    }
}

impl Uri {
    /// The value that the query gives for `key`.
    pub fn value(&self, key: &str) -> (r: Option<&String>)
        ensures
            match r {
                Some(value) => value_of(self@.query, key@) == Some(value@),
                None => value_of(self@.query, key@) is None,
            },
    {
        let wanted = key.to_owned();
        let mut i: usize = self.query.len();
        while i > 0
            invariant
                i <= self.query@.len(),
                wanted@ == key@,
                value_of(self@.query, key@) == last_value(self@.query, key@, i as int),
            decreases i,
        {
            i = i - 1;
            assert(self@.query[i as int] == (self.query@[i as int].0@, self.query@[i as int].1@));
            if self.query[i].0 == wanted {
                return Some(&self.query[i].1);
            }
        }
        None
    }

    /// Whether every parameter of the query is one of `keys`.
    pub fn knows_only(&self, keys: &[&str]) -> (r: bool)
        ensures
            r == only_keys(self@.query, keys@.map_values(|key: &str| key@)),
    {
        let ghost known = keys@.map_values(|key: &str| key@);
        let mut i: usize = 0;
        while i < self.query.len()
            invariant
                i <= self.query@.len(),
                known == keys@.map_values(|key: &str| key@),
                forall|k: int| 0 <= k < i ==> known.contains((#[trigger] self@.query[k]).0),
            decreases self.query@.len() - i,
        {
            assert(self@.query[i as int] == (self.query@[i as int].0@, self.query@[i as int].1@));
            let mut found = false;
            let mut j: usize = 0;
            while j < keys.len() && !found
                invariant
                    j <= keys@.len(),
                    i < self.query@.len(),
                    known == keys@.map_values(|key: &str| key@),
                    found ==> known.contains(self.query@[i as int].0@),
                    !found ==> forall|k: int| 0 <= k < j ==> known[k] != self.query@[i as int].0@,
                decreases keys@.len() - j + if found { 0int } else { 1int },
            {
                let key = keys[j].to_owned();
                assert(known[j as int] == key@);
                if self.query[i].0 == key {
                    found = true;
                } else {
                    j = j + 1;
                }
            }
            if !found {
                assert(!known.contains(self@.query[i as int].0));
                return false;
            }
            i = i + 1;
        }
        true
    }

    /// The integer parameter `key`.
    pub fn int_value(&self, key: &str, which: IntParam, default: u32) -> (r: Result<u32, UriFault>)
        ensures
            r == int_param(self@.query, key@, which, default),
    {
        match self.value(key) {
            None => Ok(default),
            Some(value) => match parse_u32(value.as_str()) {
                Some(number) => Ok(number),
                None => Err(UriFault::IntParamParse(which)),
            },
        }
    }

    /// The parameter `uuid`.
    pub fn uuid_value(&self) -> (r: Result<Option<GptGuid>, UriFault>)
        ensures
            r == uuid_param(self@.query),
    {
        match self.value("uuid") {
            None => Ok(None),
            Some(value) => match GptGuid::from_str(value.as_str()) {
                Ok(guid) => Ok(Some(guid)),
                Err(_) => Err(UriFault::UuidParamParse),
            },
        }
    }

    /// The error that stands for a fault of this URI.
    pub fn error(&self, fault: UriFault) -> (error: NexusBdevError)
        ensures
            error_for(self@.text, fault, error),
    {
        let uri = self.text.clone();
        match fault {
            UriFault::NoPathSegments => NexusBdevError::UriInvalid {
                uri,
                message: "no path segments".to_owned(),
            },
            UriFault::InvalidBlkSize => NexusBdevError::UriInvalid {
                uri,
                message: "invalid blk_size specified must be one of 512 or 4096".to_owned(),
            },
            UriFault::ConflictingSize => NexusBdevError::UriInvalid {
                uri,
                message: "conflicting parameters num_blocks and size_mb are mutually exclusive".to_owned(),
            },
            UriFault::UnknownParameters => NexusBdevError::UriInvalid {
                uri,
                message: "unrecognized parameters".to_owned(),
            },
            UriFault::IntParamParse(IntParam::BlkSize) => NexusBdevError::IntParamParseError {
                uri,
                parameter: "blk_size".to_owned(),
            },
            UriFault::IntParamParse(IntParam::SizeMb) => NexusBdevError::IntParamParseError {
                uri,
                parameter: "size_mb".to_owned(),
            },
            UriFault::IntParamParse(IntParam::NumBlocks) => NexusBdevError::IntParamParseError {
                uri,
                parameter: "num_blocks".to_owned(),
            },
            UriFault::UuidParamParse => NexusBdevError::UuidParamParseError { uri },
        }
    }
}

/// Whether `error` is the error that stands for the `fault` of the URI
/// `uri`: it names the URI, and says what is wrong. A value that is no
/// number is reported under the name of its own parameter.
pub open spec fn error_for(uri: Seq<char>, fault: UriFault, error: NexusBdevError) -> bool {
    match fault {
        UriFault::NoPathSegments => error matches NexusBdevError::UriInvalid { uri: named, message }
            && named@ == uri && message@ == "no path segments"@,
        UriFault::InvalidBlkSize => error matches NexusBdevError::UriInvalid { uri: named, message }
            && named@ == uri && message@
            == "invalid blk_size specified must be one of 512 or 4096"@,
        UriFault::ConflictingSize => error matches NexusBdevError::UriInvalid {
            uri: named,
            message,
        } && named@ == uri && message@
            == "conflicting parameters num_blocks and size_mb are mutually exclusive"@,
        UriFault::UnknownParameters => error matches NexusBdevError::UriInvalid {
            uri: named,
            message,
        } && named@ == uri && message@ == "unrecognized parameters"@,
        UriFault::IntParamParse(IntParam::SizeMb) => error matches NexusBdevError::IntParamParseError {
            uri: named,
            parameter,
        } && named@ == uri && parameter@ == "size_mb"@,
        UriFault::IntParamParse(IntParam::NumBlocks) => error matches NexusBdevError::IntParamParseError {
            uri: named,
            parameter,
        } && named@ == uri && parameter@ == "num_blocks"@,
        UriFault::IntParamParse(IntParam::BlkSize) => error matches NexusBdevError::IntParamParseError {
            uri: named,
            parameter,
        } && named@ == uri && parameter@ == "blk_size"@,
        UriFault::UuidParamParse => error matches NexusBdevError::UuidParamParseError { uri: named }
            && named@ == uri,
    }
}

} // verus!
