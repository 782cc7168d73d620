use contract_harness::codec::{
    decode_revert_reason, encode_address, encode_args, encode_call, encode_error_string,
    encode_fixed_bytes, encode_u64, selector, DecodeError, EncodeError, Param,
};
use contract_harness::words::{Address, Word};

fn address_of(first: u8) -> Address {
    let mut bytes = [0u8; 20];
    bytes[0] = first;
    Address { bytes }
}

fn word_of(n: u64) -> Vec<u8> {
    let mut out = vec![0u8; 24];
    out.extend_from_slice(&n.to_be_bytes());
    out
}

#[test]
fn selector_of_set_greeting_is_fixed() {
    assert_eq!(selector("setGreeting(bytes32)"), [0x50, 0x51, 0x3b, 0x4f]);
    assert_eq!(selector("setGreeting(bytes32)"), selector("setGreeting(bytes32)"));
}

#[test]
fn selector_of_known_signatures() {
    assert_eq!(selector("transfer(address,uint256)"), [0xa9, 0x05, 0x9c, 0xbb]);
    assert_eq!(selector("Error(string)"), [0x08, 0xc3, 0x79, 0xa0]);
    assert_eq!(selector("setCalleeTarget(address)"), [0x23, 0xd4, 0xcf, 0xc6]);
}

#[test]
fn address_argument_is_left_padded() {
    let mut bytes = [0u8; 20];
    for (i, b) in bytes.iter_mut().enumerate() {
        *b = (i as u8) + 1;
    }
    let encoded = encode_address(&Address { bytes });
    assert_eq!(encoded.len(), 32);
    assert_eq!(&encoded[..12], &[0u8; 12]);
    assert_eq!(&encoded[12..], &bytes);
}

#[test]
fn fixed_bytes_are_right_padded() {
    let encoded = encode_fixed_bytes(b"hello");
    let mut expected = vec![0x68, 0x65, 0x6c, 0x6c, 0x6f];
    expected.extend_from_slice(&[0u8; 27]);
    assert_eq!(encoded, expected);
    assert_eq!(encode_fixed_bytes(&[0xabu8; 32]), vec![0xabu8; 32]);
}

#[test]
fn u64_word_is_big_endian() {
    let mut expected = vec![0u8; 31];
    expected.push(12);
    assert_eq!(encode_u64(12), expected);
    let encoded = encode_u64(0x0102_0304_0506_0708);
    assert_eq!(&encoded[..24], &[0u8; 24]);
    assert_eq!(&encoded[24..], &[1, 2, 3, 4, 5, 6, 7, 8]);
    assert_eq!(encode_u64(u64::MAX)[24..], [0xffu8; 8]);
}

#[test]
fn call_with_address_argument() {
    let callee = address_of(0x10);
    let data = encode_call("setCalleeTarget(address)", &vec![Param::Address(callee)]).unwrap();
    assert_eq!(data.len(), 36);
    assert_eq!(&data[..4], &[0x23, 0xd4, 0xcf, 0xc6]);
    assert_eq!(&data[4..16], &[0u8; 12]);
    assert_eq!(&data[16..], &callee.bytes);
}

#[test]
fn call_with_fixed_bytes_argument() {
    let data = encode_call("setGreeting(bytes32)", &vec![Param::FixedBytes(b"hello".to_vec())])
        .unwrap();
    let mut expected = vec![0x50, 0x51, 0x3b, 0x4f, 0x68, 0x65, 0x6c, 0x6c, 0x6f];
    expected.extend_from_slice(&[0u8; 27]);
    assert_eq!(data, expected);
}

#[test]
fn call_without_arguments_is_the_selector() {
    assert_eq!(encode_call("setUp()", &Vec::new()).unwrap(), vec![0x0a, 0x92, 0x54, 0xe4]);
}

#[test]
fn call_with_uint_argument() {
    let mut bytes = [0u8; 32];
    bytes[31] = 12;
    let data = encode_call("setVal(uint256)", &vec![Param::Uint(Word { bytes })]).unwrap();
    let mut expected = vec![0x3d, 0x41, 0x97, 0xf0];
    expected.extend_from_slice(&word_of(12));
    assert_eq!(data, expected);
}

#[test]
fn dynamic_string_goes_to_the_tail() {
    let encoded = encode_args(&vec![Param::Text("hi".to_string())]).unwrap();
    let mut expected = word_of(32);
    expected.extend_from_slice(&word_of(2));
    expected.extend_from_slice(b"hi");
    expected.extend_from_slice(&[0u8; 30]);
    assert_eq!(encoded, expected);
}

#[test]
fn offsets_count_heads_and_earlier_tails() {
    let who = address_of(0x42);
    let args = vec![
        Param::Text("abc".to_string()),
        Param::Address(who),
        Param::Bytes(vec![1u8; 33]),
        Param::Uint(Word { bytes: [0xffu8; 32] }),
    ];
    let encoded = encode_args(&args).unwrap();
    let mut expected = word_of(128);
    expected.extend_from_slice(&[0u8; 12]);
    expected.extend_from_slice(&who.bytes);
    expected.extend_from_slice(&word_of(128 + 64));
    expected.extend_from_slice(&[0xffu8; 32]);
    expected.extend_from_slice(&word_of(3));
    expected.extend_from_slice(b"abc");
    expected.extend_from_slice(&[0u8; 29]);
    expected.extend_from_slice(&word_of(33));
    expected.extend_from_slice(&[1u8; 33]);
    expected.extend_from_slice(&[0u8; 31]);
    assert_eq!(encoded, expected);
}

#[test]
fn empty_dynamic_payload_has_only_a_length() {
    let encoded = encode_args(&vec![Param::Bytes(Vec::new())]).unwrap();
    let mut expected = word_of(32);
    expected.extend_from_slice(&word_of(0));
    assert_eq!(encoded, expected);
}

#[test]
fn fixed_bytes_of_wrong_width_are_refused() {
    assert_eq!(
        encode_args(&vec![Param::FixedBytes(vec![0u8; 33])]),
        Err(EncodeError::FixedBytesWidth)
    );
    assert_eq!(
        encode_call("f(bytes32)", &vec![Param::FixedBytes(Vec::new())]),
        Err(EncodeError::FixedBytesWidth)
    );
}

#[test]
fn error_string_layout() {
    let encoded = encode_error_string("boom");
    let mut expected = vec![0x08, 0xc3, 0x79, 0xa0];
    expected.extend_from_slice(&word_of(32));
    expected.extend_from_slice(&word_of(4));
    expected.extend_from_slice(b"boom");
    expected.extend_from_slice(&[0u8; 28]);
    assert_eq!(encoded, expected);
    assert_eq!(encode_error_string("").len(), 68);
}

#[test]
fn revert_reason_round_trip() {
    for reason in ["", "boom", "h\u{e9}llo \u{2713} \u{1f680}", "exactly thirty-two bytes long!!!!"] {
        assert_eq!(decode_revert_reason(&encode_error_string(reason)), Ok(reason.to_string()));
    }
}

#[test]
fn short_output_does_not_decode() {
    assert_eq!(decode_revert_reason(&[]), Err(DecodeError::TooShort));
    assert_eq!(decode_revert_reason(&[0u8; 67]), Err(DecodeError::TooShort));
    assert_eq!(decode_revert_reason(&[0u8; 68]), Ok(String::new()));
}

#[test]
fn wrong_length_does_not_decode() {
    let mut output = encode_error_string("boom");
    output[67] = 33;
    assert_eq!(decode_revert_reason(&output), Err(DecodeError::MalformedLength));
    let mut huge = encode_error_string("boom");
    huge[36] = 1;
    assert_eq!(decode_revert_reason(&huge), Err(DecodeError::MalformedLength));
}

#[test]
fn invalid_utf8_does_not_decode() {
    let mut output = encode_error_string("boom");
    output[68] = 0xff;
    assert_eq!(decode_revert_reason(&output), Err(DecodeError::InvalidUtf8));
}

#[test]
fn length_word_cuts_the_payload() {
    let mut output = encode_error_string("boom");
    output[67] = 2;
    assert_eq!(decode_revert_reason(&output), Ok("bo".to_string()));
}
