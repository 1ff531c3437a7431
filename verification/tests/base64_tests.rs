use gripe::base64::base64_decode;
use gripe::gh::strip_whitespace;

#[test]
fn test_decode_round_trip_text() {
    assert_eq!(base64_decode("aGVsbG8=").unwrap(), b"hello".to_vec());
    assert_eq!(base64_decode("TWE=").unwrap(), b"Ma".to_vec());
    assert_eq!(base64_decode("TQ==").unwrap(), b"M".to_vec());
    assert_eq!(base64_decode("YXV0b21hdGVkOiBkZW55").unwrap(), b"automated: deny".to_vec());
    assert_eq!(base64_decode("").unwrap(), Vec::<u8>::new());
}

#[test]
fn test_decode_whitespace_stripped_first() {
    let laced = "aGVs\nbG8=\n";
    let cleaned = strip_whitespace(laced);
    assert_eq!(cleaned, "aGVsbG8=");
    assert_eq!(base64_decode(&cleaned).unwrap(), b"hello".to_vec());
}

#[test]
fn test_decode_illegal_character_fails() {
    let err = base64_decode("aGV%bG8=").unwrap_err();
    assert_eq!(err, "Invalid base64 character: %");
}

#[test]
fn test_decode_incomplete_trailing_group_dropped() {
    assert_eq!(base64_decode("aGVsbG8=TWE").unwrap(), b"hello".to_vec());
    assert_eq!(base64_decode("TQ").unwrap(), Vec::<u8>::new());
}
