use crate::profile::ProfileView;
use crate::profile::UserProfile;
use vstd::prelude::*;

verus! {

/// The total persisted size of one record: an 8-byte existence/type marker,
/// then authority (32), username (16), emoji (4), gender (8) and pin (4).
pub const RECORD_BYTES: usize = 72;

/// The 8-byte existence/type marker that opens every persisted record.
pub open spec fn record_marker() -> Seq<u8> {
    seq![32u8, 37u8, 119u8, 205u8, 179u8, 180u8, 13u8, 194u8]
}

/// The persisted form of a record: the marker, then the five fields in
/// declaration order, with no padding.
pub open spec fn spec_encode_record(v: ProfileView) -> Seq<u8> {
    record_marker() + v.authority + v.username + v.emoji + v.gender + v.pin
}

/// What reading a persisted record yields: the five fields cut back out of
/// the bytes, provided the length and the marker are exactly right.
pub open spec fn spec_decode_record(b: Seq<u8>) -> Option<ProfileView> {
    if b.len() == 72 && b.subrange(0, 8) == record_marker() {
        Some(
            ProfileView {
                authority: b.subrange(8, 40),
                username: b.subrange(40, 56),
                emoji: b.subrange(56, 60),
                gender: b.subrange(60, 68),
                pin: b.subrange(68, 72),
            },
        )
    } else {
        None
    }
}

fn push_marker(out: &mut Vec<u8>)
    ensures
        final(out)@ == old(out)@ + record_marker(),
{
    out.push(32u8);
    out.push(37u8);
    out.push(119u8);
    out.push(205u8);
    out.push(179u8);
    out.push(180u8);
    out.push(13u8);
    out.push(194u8);
    proof {
        assert(out@ =~= old(out)@ + record_marker());
    }
}

fn push_bytes(out: &mut Vec<u8>, bytes: &[u8])
    ensures
        final(out)@ == old(out)@ + bytes@,
{
    let n = bytes.len();
    let mut i: usize = 0;
    while i < n
        invariant
            n == bytes@.len(),
            i <= n,
            out@ == old(out)@ + bytes@.subrange(0, i as int),
        decreases n - i,
    {
        out.push(bytes[i]);
        proof {
            assert(out@ =~= old(out)@ + bytes@.subrange(0, i + 1));
        }
        i += 1;
    }
    proof {
        assert(bytes@.subrange(0, n as int) =~= bytes@);
    }
}

/// Serialize a record into its fixed 72-byte persisted form.
pub fn encode_record(p: &UserProfile) -> (r: Vec<u8>)
    ensures
        r@ == spec_encode_record(p@),
        r@.len() == 72,
{
    let mut out: Vec<u8> = Vec::new();
    push_marker(&mut out);
    push_bytes(&mut out, p.authority.as_slice());
    push_bytes(&mut out, p.username.as_slice());
    push_bytes(&mut out, p.emoji.as_slice());
    push_bytes(&mut out, p.gender.as_slice());
    push_bytes(&mut out, p.pin.as_slice());
    proof {
        assert(out@ =~= spec_encode_record(p@));
    }
    out
}

/// Copy the `N` bytes of `b` starting at `start` into a fixed-size array.
fn read_field<const N: usize>(b: &[u8], start: usize) -> (r: [u8; N])
    requires
        start + N <= b@.len(),
    ensures
        r@ == b@.subrange(start as int, start + N),
{
    let n = b.len();
    let mut out: [u8; N] = [0u8; N];
    let mut i: usize = 0;
    while i < N
        invariant
            i <= N,
            n == b@.len(),
            start + N <= n,
            out@.len() == N,
            forall|k: int| 0 <= k < i ==> out@[k] == b@[start + k],
        decreases N - i,
    {
        out[i] = b[start + i];
        i += 1;
    }
    proof {
        assert(out@ =~= b@.subrange(start as int, start + N));
    }
    out
}

/// Deserialize a persisted record: `None` unless the bytes are exactly one
/// record, marker included.
pub fn decode_record(b: &[u8]) -> (r: Option<UserProfile>)
    ensures
        r is Some <==> spec_decode_record(b@) is Some,
        r is Some ==> r.unwrap()@ == spec_decode_record(b@).unwrap(),
{
    if b.len() != 72 {
        return None;
    }
    let mut expected: Vec<u8> = Vec::new();
    push_marker(&mut expected);
    proof {
        assert(expected@ =~= record_marker());
    }
    let mut i: usize = 0;
    while i < 8
        invariant
            i <= 8,
            b@.len() == 72,
            expected@ == record_marker(),
            forall|k: int| 0 <= k < i ==> b@[k] == record_marker()[k],
        decreases 8 - i,
    {
        if b[i] != expected[i] {
            proof {
                assert(b@.subrange(0, 8)[i as int] != record_marker()[i as int]);
            }
            return None;
        }
        i += 1;
    }
    proof {
        assert(b@.subrange(0, 8) =~= record_marker());
    }
    let profile = UserProfile {
        authority: read_field::<32>(b, 8),
        username: read_field::<16>(b, 40),
        emoji: read_field::<4>(b, 56),
        gender: read_field::<8>(b, 60),
        pin: read_field::<4>(b, 68),
    };
    Some(profile)
}

/// Round trip: decoding the persisted form of any well-formed record yields
/// exactly that record.
pub proof fn lemma_record_round_trip(v: ProfileView)
    requires
        v.wf(),
    ensures
        spec_decode_record(spec_encode_record(v)) == Some(v),
{
    let b = spec_encode_record(v);
    assert(b.subrange(0, 8) =~= record_marker());
    assert(b.subrange(8, 40) =~= v.authority);
    assert(b.subrange(40, 56) =~= v.username);
    assert(b.subrange(56, 60) =~= v.emoji);
    assert(b.subrange(60, 68) =~= v.gender);
    assert(b.subrange(68, 72) =~= v.pin);
}

} // verus!
