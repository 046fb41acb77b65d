//! A device that is there already, under a further name.
use crate::dev::uri::{error_for, only_keys, uuid_param, NexusBdevError, Uri, UriFault, UriSpec};
use crate::guid::GptGuid;
use vstd::prelude::*;
use vstd::string::StringExecFns;

verus! {

#[derive(Debug, PartialEq, Eq)]
pub struct Loopback {
    pub name: String,
    pub alias: String,
    pub uuid: Option<GptGuid>,
}

/// What the URI of a loopback device asks for.
pub struct LoopbackSpec {
    pub name: Seq<char>,
    pub alias: Seq<char>,
    pub uuid: Option<GptGuid>,
}

/// The first `upto` segments, with a slash between each two.
pub open spec fn joined(segments: Seq<Seq<char>>, upto: int) -> Seq<char>
    decreases upto,
{
    if upto <= 0 {
        Seq::empty()
    } else if upto == 1 {
        segments[0]
    } else {
        joined(segments, upto - 1) + seq!['/'] + segments[upto - 1]
    }
}

/// What the URI of a loopback device asks for, or the first thing that
/// is wrong with it.
///
/// The path must have a segment. `uuid` is a UUID; no other parameter is
/// known. The device bears the segments of the path, joined by slashes,
/// as its name, and the URI as its alias.
pub open spec fn loopback_of(uri: UriSpec) -> Result<LoopbackSpec, UriFault> {
    if uri.segments.len() == 0 {
        Err(UriFault::NoPathSegments)
    } else {
        match uuid_param(uri.query) {
            Err(fault) => Err(fault),
            Ok(uuid) => if !only_keys(uri.query, seq!["uuid"@]) {
                Err(UriFault::UnknownParameters)
            } else {
                Ok(
                    LoopbackSpec {
                        name: joined(uri.segments, uri.segments.len() as int),
                        alias: uri.text,
                        uuid,
                    },
                )
            },
        }
    }
}

/// The segments of the path of a URI, joined by slashes.
pub fn join_segments(uri: &Uri) -> (name: String)
    ensures
        name@ == joined(uri@.segments, uri@.segments.len() as int),
{
    let mut name = String::new();
    let mut i: usize = 0;
    let ghost segments = uri@.segments;
    proof {
        reveal_strlit("/");
    }
    while i < uri.segments.len()
        invariant
            i <= uri.segments@.len(),
            segments == uri@.segments,
            segments.len() == uri.segments@.len(),
            name@ == joined(segments, i as int),
            "/"@ == seq!['/'],
        decreases uri.segments@.len() - i,
    {
        if i > 0 {
            name.append("/");
        }
        assert(segments[i as int] == uri.segments@[i as int]@);
        name.append(uri.segments[i].as_str());
        proof {
            if i == 0 {
                assert(name@ =~= segments[0]);
            }
        }
        i = i + 1;
    }
    name
}

impl Loopback {
    /// Reads the device that a URI asks for.
    pub fn try_from(url: &Uri) -> (r: Result<Loopback, NexusBdevError>)
        ensures
            match r {
                Ok(device) => {
                    &&& loopback_of(url@) matches Ok(asked)
                    &&& device.name@ == asked.name
                    &&& device.alias@ == asked.alias
                    &&& device.uuid == asked.uuid
                },
                Err(error) => loopback_of(url@) matches Err(fault) && error_for(
                    url@.text,
                    fault,
                    error,
                ),
            },
    {
        if url.segments.len() == 0 {
            assert(url@.segments.len() == 0);
            return Err(url.error(UriFault::NoPathSegments));
        }
        assert(url@.segments.len() == url.segments@.len());
        let uuid = match url.uuid_value() {
            Ok(uuid) => uuid,
            Err(fault) => {
                return Err(url.error(fault));
            },
        };
        let known: [&str; 1] = ["uuid"];
        proof {
            assert(known@.map_values(|key: &str| key@) =~= seq!["uuid"@]);
        }
        if !url.knows_only(known.as_slice()) {
            return Err(url.error(UriFault::UnknownParameters));
        }
        Ok(Loopback { name: join_segments(url), alias: url.text.clone(), uuid })
    }

    /// The name of the device.
    pub fn get_name(&self) -> (name: String)
        ensures
            name@ == self.name@,
    {
        self.name.clone()
    }

    /// What the creation of the device comes to: the device gets the
    /// alias and, if one is given, the UUID, if it exists. The result is
    /// the name of the device in any case.
    pub fn create(&self, exists: bool) -> (r: (Result<String, NexusBdevError>, bool))
        ensures
            r.0 matches Ok(name) && name@ == self.name@,
            r.1 == exists,
    {
        (Ok(self.get_name()), exists)
    }

    /// What the destruction of the device comes to: the device stays, and
    /// the child of a nexus that bears its name, if there is one, is
    /// removed from its nexus.
    pub fn destroy(&self) -> (r: Result<(), NexusBdevError>)
        ensures
            r is Ok,
    {
        Ok(())
    }
}

} // verus!
