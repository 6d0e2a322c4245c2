//! Protocol versions and the handshake that picks one.

use crate::bytes::{be, be_value, push_be, read_be};
use vstd::prelude::*;

verus! {

/// The four bytes that open every connection.
pub const MAGIC_NUMBER: [u8; 4] = [0x60, 0x60, 0xB0, 0x17];

/// A protocol version; `0.0` stands for an empty proposal.
#[derive(Debug, Clone, Copy, PartialEq, Eq, Structural)]
pub struct Version {
    pub min: u8,
    pub maj: u8,
}

/// The four handshake bytes of a version: `[0, 0, minor, major]`.
pub open spec fn version_bytes(v: Version) -> Seq<u8> {
    seq![0u8, 0u8, v.min, v.maj]
}

impl Version {
    /// The version with the given major and minor numbers.
    pub fn new(maj: u8, min: u8) -> (r: Version)
        ensures
            r.maj == maj,
            r.min == min,
    {
        Version { maj, min }
    }

    /// The empty version `0.0`.
    pub fn empty() -> (r: Version)
        ensures
            r.maj == 0,
            r.min == 0,
    {
        Version::new(0, 0)
    }

    /// Whether this is the empty version.
    pub fn is_empty(&self) -> (r: bool)
        ensures
            r == (self.maj == 0 && self.min == 0),
    {
        self.min == 0 && self.maj == 0
    }

    /// The four handshake bytes of the version.
    pub fn encode(&self) -> (r: [u8; 4])
        ensures
            r@ == version_bytes(*self),
    {
        let r = [0, 0, self.min, self.maj];
        assert(r@ =~= version_bytes(*self));
        r
    }

    /// The version that four handshake bytes give: minor in the third byte,
    /// major in the fourth.
    pub fn decode(bytes: &[u8; 4]) -> (r: Version)
        ensures
            r.min == bytes@[2],
            r.maj == bytes@[3],
    {
        Version { maj: bytes[3], min: bytes[2] }
    }
}

/// Decoding the handshake bytes of a version gives the version back.
pub proof fn lemma_decode_encode_version(v: Version, bytes: [u8; 4])
    requires
        bytes@ == version_bytes(v),
    ensures
        (Version { min: bytes@[2], maj: bytes@[3] }) == v,
{
}

/// The bytes a client sends to open a connection: the magic number, then its
/// four version proposals.
pub open spec fn handshake_bytes(versions: Seq<Version>) -> Seq<u8> {
    seq![0x60u8, 0x60u8, 0xB0u8, 0x17u8] + version_bytes(versions[0]) + version_bytes(versions[1])
        + version_bytes(versions[2]) + version_bytes(versions[3])
}

/// The opening bytes of a connection that proposes `versions`.
pub fn handshake_request(versions: &[Version; 4]) -> (r: Vec<u8>)
    ensures
        r@ == handshake_bytes(versions@),
{
    let mut out: Vec<u8> = Vec::new();
    let magic = MAGIC_NUMBER;
    out.push(magic[0]);
    out.push(magic[1]);
    out.push(magic[2]);
    out.push(magic[3]);
    let mut i: usize = 0;
    while i < 4
        invariant
            i <= 4,
            magic@ == seq![0x60u8, 0x60u8, 0xB0u8, 0x17u8],
            out@ == seq![0x60u8, 0x60u8, 0xB0u8, 0x17u8] + (if i == 0 {
                Seq::<u8>::empty()
            } else if i == 1 {
                version_bytes(versions@[0])
            } else if i == 2 {
                version_bytes(versions@[0]) + version_bytes(versions@[1])
            } else if i == 3 {
                version_bytes(versions@[0]) + version_bytes(versions@[1]) + version_bytes(
                    versions@[2],
                )
            } else {
                version_bytes(versions@[0]) + version_bytes(versions@[1]) + version_bytes(
                    versions@[2],
                ) + version_bytes(versions@[3])
            }),
        decreases 4 - i,
    {
        let v = versions[i];
        let ghost pre = out@;
        out.push(0);
        out.push(0);
        out.push(v.min);
        out.push(v.maj);
        assert(out@ =~= pre + version_bytes(v));
        i = i + 1;
        assert(out@ =~= seq![0x60u8, 0x60u8, 0xB0u8, 0x17u8] + (if i == 1 {
            version_bytes(versions@[0])
        } else if i == 2 {
            version_bytes(versions@[0]) + version_bytes(versions@[1])
        } else if i == 3 {
            version_bytes(versions@[0]) + version_bytes(versions@[1]) + version_bytes(
                versions@[2],
            )
        } else {
            version_bytes(versions@[0]) + version_bytes(versions@[1]) + version_bytes(
                versions@[2],
            ) + version_bytes(versions@[3])
        }));
    }
    assert(out@ =~= handshake_bytes(versions@));
    out
}

/// The proposals a connection makes: 4.1, then 4.0, then two empty ones.
pub fn default_versions() -> (r: [Version; 4])
    ensures
        r@[0] == (Version { maj: 4, min: 1 }),
        r@[1] == (Version { maj: 4, min: 0 }),
        r@[2] == (Version { maj: 0, min: 0 }),
        r@[3] == (Version { maj: 0, min: 0 }),
{
    [Version::new(4, 1), Version::new(4, 0), Version::empty(), Version::empty()]
}

/// Version proposals written as four big-endian `u32`, an absent one as zero.
#[derive(Debug, Clone, Copy, PartialEq, Eq, Structural)]
pub struct VersionHandshake {
    pub version1: Option<u32>,
    pub version2: Option<u32>,
    pub version3: Option<u32>,
    pub version4: Option<u32>,
}

/// A proposal as a number: an absent one is zero.
pub open spec fn proposal(v: Option<u32>) -> nat {
    match v {
        Some(x) => x as nat,
        None => 0,
    }
}

impl VersionHandshake {
    /// No proposal at all.
    pub fn empty() -> (r: VersionHandshake)
        ensures
            r.version1 is None && r.version2 is None && r.version3 is None && r.version4 is None,
    {
        VersionHandshake { version1: None, version2: None, version3: None, version4: None }
    }

    /// A single proposal, in the first slot.
    pub fn just_version(version: u32) -> (r: VersionHandshake)
        ensures
            r.version1 == Some(version),
            r.version2 is None && r.version3 is None && r.version4 is None,
    {
        VersionHandshake { version1: Some(version), version2: None, version3: None, version4: None }
    }

    /// The sixteen bytes of the proposals.
    pub fn to_bytes(&self) -> (r: Vec<u8>)
        ensures
            r@ == be(proposal(self.version1), 4) + be(proposal(self.version2), 4) + be(
                proposal(self.version3),
                4,
            ) + be(proposal(self.version4), 4),
    {
        let mut out: Vec<u8> = Vec::new();
        push_be(&mut out, proposal_value(self.version1), 4);
        push_be(&mut out, proposal_value(self.version2), 4);
        push_be(&mut out, proposal_value(self.version3), 4);
        push_be(&mut out, proposal_value(self.version4), 4);
        assert(out@ =~= be(proposal(self.version1), 4) + be(proposal(self.version2), 4) + be(
            proposal(self.version3),
            4,
        ) + be(proposal(self.version4), 4));
        out
    }
}

/// What the server's four-byte answer to a single proposal means: the
/// proposed version when it is that one, else the version the server named.
pub fn check_server_version(reply: &[u8; 4], wanted: u32) -> (r: Result<u32, u32>)
    ensures
        be_value(reply@) == wanted ==> r == Ok::<u32, u32>(wanted),
        be_value(reply@) != wanted ==> (r matches Err(v) && v as nat == be_value(reply@)),
{
    let b = reply.as_slice();
    proof {
        crate::bytes::lemma_be_value_bound(b@);
        crate::bytes::lemma_pow256_facts();
        assert(b@.subrange(0, 4) =~= b@);
    }
    let v = read_be(b, 0, 4) as u32;
    if v == wanted {
        Ok(wanted)
    } else {
        Err(v)
    }
}

/// A proposal as a number.
fn proposal_value(v: Option<u32>) -> (r: u64)
    ensures
        r as nat == proposal(v),
{
    match v {
        Some(x) => x as u64,
        None => 0,
    }
}

} // verus!
