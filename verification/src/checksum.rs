//! Event information pages: which packages hold them, and the checksums that a
//! downloaded file must match (SHA3-256 digests in lowercase hexadecimal).

use crate::ids::hex_char;
use crate::model::Source;
use crate::requests::copy_source;
use crate::scenario::{Event, Scenario};
use sha3::Digest;
use vstd::prelude::*;

verus! {

/// The SHA3-256 digest of some bytes, as `sha3::Sha3_256` computes it.
pub uninterp spec fn sha3_256(data: Seq<u8>) -> Seq<u8>;

/// Hashes bytes with `sha3::Sha3_256` (one `update`, then `finalize`). The digest
/// is named, not stated; the crate's output size for SHA3-256 is 32 bytes.
#[verifier::external_body]
fn sha3_256_digest(data: &Vec<u8>) -> (digest: Vec<u8>)
    ensures
        digest@ == sha3_256(data@),
        digest@.len() == 32,
{
    let mut hasher = sha3::Sha3_256::new();
    hasher.update(data.as_slice());
    hasher.finalize().to_vec()
}

/// Bytes written in lowercase hexadecimal, two digits per byte, as `{:x}` writes a digest.
pub open spec fn hex_of_bytes(bytes: Seq<u8>) -> Seq<char>
    decreases bytes.len(),
{
    if bytes.len() == 0 {
        Seq::empty()
    } else {
        hex_of_bytes(bytes.drop_last()) + seq![
            hex_char((bytes.last() / 16) as nat),
            hex_char((bytes.last() % 16) as nat),
        ]
    }
}

fn hex_digit(d: u8) -> (c: char)
    requires
        d < 16,
    ensures
        c == hex_char(d as nat),
{
    if d == 0 {
        '0'
    } else if d == 1 {
        '1'
    } else if d == 2 {
        '2'
    } else if d == 3 {
        '3'
    } else if d == 4 {
        '4'
    } else if d == 5 {
        '5'
    } else if d == 6 {
        '6'
    } else if d == 7 {
        '7'
    } else if d == 8 {
        '8'
    } else if d == 9 {
        '9'
    } else if d == 10 {
        'a'
    } else if d == 11 {
        'b'
    } else if d == 12 {
        'c'
    } else if d == 13 {
        'd'
    } else if d == 14 {
        'e'
    } else {
        'f'
    }
}

/// The lowercase hexadecimal digits of some bytes.
pub fn lower_hex(bytes: &Vec<u8>) -> (digits: Vec<char>)
    ensures
        digits@ == hex_of_bytes(bytes@),
{
    let mut digits: Vec<char> = Vec::new();
    let mut i: usize = 0;
    while i < bytes.len()
        invariant
            i <= bytes@.len(),
            digits@ == hex_of_bytes(bytes@.take(i as int)),
        decreases bytes@.len() - i,
    {
        let b = bytes[i];
        digits.push(hex_digit(b / 16));
        digits.push(hex_digit(b % 16));
        proof {
            assert(bytes@.take(i + 1).drop_last() =~= bytes@.take(i as int));
        }
        i = i + 1;
    }
    proof {
        assert(bytes@.take(i as int) =~= bytes@);
    }
    digits
}

/// Whether a downloaded file has the announced checksum: the lowercase
/// hexadecimal SHA3-256 digest of its content equals the checksum's text.
pub fn checksum_matches(content: &Vec<u8>, checksum: &str) -> (b: bool)
    ensures
        b == (hex_of_bytes(sha3_256(content@)) == checksum@),
{
    let digest = sha3_256_digest(content);
    let computed = lower_hex(&digest);
    let expected = crate::text::chars_of(checksum);
    if computed.len() != expected.len() {
        return false;
    }
    let mut i: usize = 0;
    while i < computed.len()
        invariant
            computed@ == hex_of_bytes(sha3_256(content@)),
            expected@ == checksum@,
            computed@.len() == expected@.len(),
            i <= computed@.len(),
            forall|k: int| 0 <= k < i ==> computed@[k] == expected@[k],
        decreases computed@.len() - i,
    {
        if computed[i] != expected[i] {
            return false;
        }
        i = i + 1;
    }
    proof {
        assert(computed@ =~= expected@);
    }
    true
}

/// Why an event information file was refused.
#[derive(PartialEq, Eq, Structural, Clone, Copy, Debug)]
pub enum EventInfoError {
    ChecksumMismatch,
}

/// Accepts a downloaded event information file only when it has the announced checksum.
pub fn verify_event_info(content: &Vec<u8>, checksum: &str) -> (r: Result<(), EventInfoError>)
    ensures
        r is Ok <==> hex_of_bytes(sha3_256(content@)) == checksum@,
        r is Err ==> r == Err::<(), EventInfoError>(EventInfoError::ChecksumMismatch),
{
    if checksum_matches(content, checksum) {
        Ok(())
    } else {
        Err(EventInfoError::ChecksumMismatch)
    }
}

/// The packages of the events that have one, in order, with the events' names.
pub open spec fn event_sources(events: Seq<(String, Event)>) -> Seq<(Seq<char>, Source)>
    decreases events.len(),
{
    if events.len() == 0 {
        Seq::empty()
    } else {
        event_sources(events.drop_last()) + match events.last().1.source {
            Some(s) => seq![(events.last().0@, s)],
            None => Seq::empty(),
        }
    }
}

/// A scenario whose events come with pages of information.
pub trait EventInfoUnpacker {
    spec fn spec_events(&self) -> Seq<(String, Event)>;

    /// The packages that hold the pages of the events, in order, with the events' names.
    fn event_info_sources(&self) -> (r: Vec<(String, Source)>)
        ensures
            r@.map_values(|e: (String, Source)| (e.0@, e.1)) == event_sources(self.spec_events()),
    ;
}

impl EventInfoUnpacker for Scenario {
    open spec fn spec_events(&self) -> Seq<(String, Event)> {
        match self.events {
            Some(m) => m.spec_entries(),
            None => Seq::empty(),
        }
    }

    fn event_info_sources(&self) -> (r: Vec<(String, Source)>) {
        let mut r: Vec<(String, Source)> = Vec::new();
        if let Some(events) = &self.events {
            let entries = events.entries();
            let mut i: usize = 0;
            while i < entries.len()
                invariant
                    entries@ == self.spec_events(),
                    i <= entries@.len(),
                    r@.map_values(|e: (String, Source)| (e.0@, e.1)) == event_sources(entries@.take(i as int)),
                decreases entries@.len() - i,
            {
                let ghost before = r@.map_values(|e: (String, Source)| (e.0@, e.1));
                if let Some(source) = &entries[i].1.source {
                    r.push((entries[i].0.clone(), copy_source(source)));
                }
                proof {
                    assert(entries@.take(i + 1).drop_last() =~= entries@.take(i as int));
                    assert(entries@.take(i + 1).last() == entries@[i as int]);
                    assert(r@.map_values(|e: (String, Source)| (e.0@, e.1)) =~= event_sources(entries@.take(i + 1)));
                }
                i = i + 1;
            }
            proof {
                assert(entries@.take(i as int) =~= entries@);
            }
        } else {
            proof {
                assert(r@.map_values(|e: (String, Source)| (e.0@, e.1)) =~= Seq::<(Seq<char>, Source)>::empty());
            }
        }
        r
    }
}

} // verus!
