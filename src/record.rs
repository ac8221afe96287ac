//! The sidecar record `{"max_frame_no":N}`: how it is written and read.

use vstd::prelude::*;

verus! {

/// ASCII character of the last decimal digit of `d`.
pub open spec fn digit_byte(d: nat) -> u8 {
    (48 + d % 10) as u8
}

/// Shortest decimal text of `n`, most significant digit first.
pub open spec fn decimal(n: nat) -> Seq<u8>
    decreases n,
{
    if n < 10 {
        seq![digit_byte(n)]
    } else {
        decimal(n / 10).push(digit_byte(n))
    }
}

/// Bytes of a text made of ASCII characters.
pub open spec fn ascii_bytes(s: Seq<char>) -> Seq<u8> {
    s.map_values(|c: char| c as u8)
}

/// A member name that JSON writes as it stands: lower-case letters and underscores.
pub open spec fn plain_key(s: Seq<char>) -> bool {
    forall|i: int| 0 <= i < s.len() ==> (('a' <= #[trigger] s[i] && s[i] <= 'z') || s[i] == '_')
}

/// Compact JSON text of an object whose one member `key` holds the integer `n`.
pub open spec fn object_bytes(key: Seq<char>, n: nat) -> Seq<u8> {
    seq![123u8, 34u8] + ascii_bytes(key) + seq![34u8, 58u8] + decimal(n) + seq![125u8]
}

/// Name of the member that holds the durable frame marker.
pub open spec fn marker_key() -> Seq<char> {
    "max_frame_no"@
}

/// The sidecar record for marker `n`.
pub open spec fn record_bytes(n: u32) -> Seq<u8> {
    object_bytes(marker_key(), n as nat)
}

/// What serde_json reads from the JSON text `b` as the member `key` of its
/// top-level object, when that member is an unsigned integer.
pub uninterp spec fn json_u64_member(b: Seq<u8>, key: Seq<char>) -> Option<u64>;

/// Relies on serde_json::to_vec on a `u32`: the integer in decimal, written with
/// itoa into a `Vec`, which cannot fail.
#[verifier::external_body]
fn decimal_text(n: u32) -> (r: Option<Vec<u8>>)
    ensures
        r is Some,
        r->Some_0@ == decimal(n as nat),
{
    serde_json::to_vec(&n).ok()
}

/// Relies on serde_json::from_slice into a `serde_json::Value`, then
/// `Value::get` and `Value::as_u64`: the unsigned integer member `key` of the
/// top-level object of the JSON text `b`, if there is one.
#[verifier::external_body]
fn json_u64_member_of(b: &[u8], key: &str) -> (r: Option<u64>)
    ensures
        r == json_u64_member(b@, key@),
        forall|n: u64|
            plain_key(key@) && b@ == #[trigger] object_bytes(key@, n as nat) ==> r == Some(n),
{
    serde_json::from_slice::<serde_json::Value>(b).ok().and_then(
        |v| v.get(key).and_then(serde_json::Value::as_u64),
    )
}

/// The marker that a member read from the record stands for: only an integer
/// that fits in 32 bits is one.
pub open spec fn marker_of_member(m: Option<u64>) -> Option<u32> {
    match m {
        Some(v) => if v <= u32::MAX {
            Some(v as u32)
        } else {
            None
        },
        None => None,
    }
}

/// The marker that the sidecar text `b` holds, if it is a valid record. A record
/// that this library wrote is read back as the marker it was written for; any
/// other text as serde_json reads it.
pub open spec fn loaded_marker(b: Seq<u8>) -> Option<u32> {
    if exists|n: u32| b == record_bytes(n) {
        Some(choose|n: u32| b == record_bytes(n))
    } else {
        marker_of_member(json_u64_member(b, marker_key()))
    }
}

/// Turns the member read from a record into a marker.
pub fn marker_from_member(member: Option<u64>) -> (r: Option<u32>)
    ensures
        r == marker_of_member(member),
{
    match member {
        Some(v) => if v <= u32::MAX as u64 {
            Some(v as u32)
        } else {
            None
        },
        None => None,
    }
}

/// Reads the marker held by the sidecar text `b`.
pub fn parse_record(b: &[u8]) -> (r: Option<u32>)
    ensures
        r == loaded_marker(b@),
{
    let member = json_u64_member_of(b, "max_frame_no");
    let r = marker_from_member(member);
    proof {
        reveal_strlit("max_frame_no");
        if exists|n: u32| b@ == record_bytes(n) {
            let m = choose|n: u32| b@ == record_bytes(n);
            assert(plain_key(marker_key()));
            assert(b@ == object_bytes(marker_key(), (m as u64) as nat));
        }
    }
    r
}

/// The sidecar record for marker `max_frame_no`.
pub fn encode_record(max_frame_no: u32) -> (r: Vec<u8>)
    ensures
        r@ == record_bytes(max_frame_no),
{
    let mut out: Vec<u8> = vec![123u8, 34u8];
    let key: Vec<u8> = vec![109u8, 97, 120, 95, 102, 114, 97, 109, 101, 95, 110, 111];
    let mut i: usize = 0;
    while i < key.len()
        invariant
            0 <= i <= key.len(),
            out@ == seq![123u8, 34u8] + key@.subrange(0, i as int),
        decreases key.len() - i,
    {
        out.push(key[i]);
        proof {
            assert(key@.subrange(0, i + 1) == key@.subrange(0, i as int).push(key@[i as int]));
        }
        i = i + 1;
    }
    out.push(34u8);
    out.push(58u8);
    let mut digits = match decimal_text(max_frame_no) {
        Some(d) => d,
        None => Vec::new(),
    };
    out.append(&mut digits);
    out.push(125u8);
    proof {
        reveal_strlit("max_frame_no");
        assert(key@.subrange(0, key@.len() as int) == key@);
        assert(ascii_bytes(marker_key()) == key@);
    }
    assert(out@ == record_bytes(max_frame_no));
    out
}

} // verus!
