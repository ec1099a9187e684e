use cadpay::layout::decode_record;
use cadpay::layout::encode_record;
use cadpay::layout::RECORD_BYTES;
use cadpay::profile::UserProfile;

fn sample() -> UserProfile {
    UserProfile::new([1u8; 32], *b"alice___________", [240, 159, 152, 128], *b"female__", *b"1234")
}

#[test]
fn encoded_record_has_the_fixed_layout() {
    let bytes = encode_record(&sample());
    assert_eq!(bytes.len(), RECORD_BYTES);
    assert_eq!(&bytes[8..40], &[1u8; 32]);
    assert_eq!(&bytes[40..56], b"alice___________");
    assert_eq!(&bytes[56..60], &[240, 159, 152, 128]);
    assert_eq!(&bytes[60..68], b"female__");
    assert_eq!(&bytes[68..72], b"1234");
}

#[test]
fn encode_then_decode_round_trips() {
    let p = sample();
    let bytes = encode_record(&p);
    let q = decode_record(&bytes).unwrap();
    assert_eq!(q.authority, p.authority);
    assert_eq!(q.username, p.username);
    assert_eq!(q.emoji, p.emoji);
    assert_eq!(q.gender, p.gender);
    assert_eq!(q.pin, p.pin);
}

#[test]
fn decode_rejects_wrong_length() {
    let mut bytes = encode_record(&sample());
    bytes.pop();
    assert!(decode_record(&bytes).is_none());
    assert!(decode_record(&[]).is_none());
}

#[test]
fn decode_rejects_wrong_marker() {
    let mut bytes = encode_record(&sample());
    bytes[0] = bytes[0].wrapping_add(1);
    assert!(decode_record(&bytes).is_none());
}
