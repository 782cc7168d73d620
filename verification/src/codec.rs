//! Call payloads and revert reasons, byte for byte.
use crate::words::{Address, Word};
use vstd::prelude::*;
use vstd::utf8::*;

verus! {

/// The first four bytes of the Keccak-256 hash of a signature's UTF-8 bytes.
pub uninterp spec fn selector_bytes(signature: Seq<char>) -> Seq<u8>;

/// Calls `ethers::utils::id`. The contract only gives the hash a name: the same signature
/// always hashes to the same four bytes.
#[verifier::external_body]
fn keccak_selector(signature: &str) -> (r: [u8; 4])
    ensures
        r@ == selector_bytes(signature@),
{
    ethers::utils::id(signature)
}

/// Calls `String::from_utf8`. The contract says that well-formed UTF-8, and nothing else, is
/// accepted, and that the string then holds the characters that the bytes encode.
#[verifier::external_body]
fn text_from_utf8(bytes: Vec<u8>) -> (r: Option<String>)
    ensures
        r is Some <==> valid_utf8(bytes@),
        r is Some ==> r->0@ == decode_utf8(bytes@),
{
    String::from_utf8(bytes).ok()
}

/// Calls `hex::encode`. The contract says that every byte becomes two lowercase hexadecimal
/// digits, the high four bits first.
#[verifier::external_body]
fn hex_encode(bytes: &[u8]) -> (r: String)
    ensures
        r@ == hex_text(bytes@),
{
    hex::encode(bytes)
}

/// The sixteen hexadecimal digits, lowercase.
pub open spec fn hex_digits() -> Seq<char> {
    seq!['0', '1', '2', '3', '4', '5', '6', '7', '8', '9', 'a', 'b', 'c', 'd', 'e', 'f']
}

/// Bytes as text: two lowercase hexadecimal digits for each byte, the high four bits first.
pub open spec fn hex_text(bytes: Seq<u8>) -> Seq<char> {
    Seq::new(
        2 * bytes.len(),
        |i: int|
            if i % 2 == 0 {
                hex_digits()[bytes[i / 2] as int / 16]
            } else {
                hex_digits()[bytes[i / 2] as int % 16]
            },
    )
}

/// `n` zero bytes.
pub open spec fn zeros(n: nat) -> Seq<u8> {
    Seq::new(n, |i: int| 0u8)
}

/// How many zero bytes bring a length up to the next multiple of 32.
pub open spec fn padding_len(len: nat) -> nat {
    ((32 - len % 32) % 32) as nat
}

/// `bytes` followed by zero bytes up to the next multiple of 32.
pub open spec fn padded_right(bytes: Seq<u8>) -> Seq<u8> {
    bytes + zeros(padding_len(bytes.len()))
}

/// The eight big-endian bytes of a 64-bit number.
pub open spec fn u64_bytes(n: u64) -> Seq<u8> {
    seq![
        ((n >> 56) & 0xff) as u8,
        ((n >> 48) & 0xff) as u8,
        ((n >> 40) & 0xff) as u8,
        ((n >> 32) & 0xff) as u8,
        ((n >> 24) & 0xff) as u8,
        ((n >> 16) & 0xff) as u8,
        ((n >> 8) & 0xff) as u8,
        (n & 0xff) as u8,
    ]
}

/// A 64-bit number as a 32-byte big-endian word.
pub open spec fn u64_word(n: u64) -> Seq<u8> {
    zeros(24) + u64_bytes(n)
}

/// The number that the last eight bytes of a 32-byte word spell, big-endian.
pub open spec fn word_low_u64(word: Seq<u8>) -> u64
    recommends
        word.len() == 32,
{
    (word[24] as u64) << 56 | (word[25] as u64) << 48 | (word[26] as u64) << 40 | (word[27] as u64)
        << 32 | (word[28] as u64) << 24 | (word[29] as u64) << 16 | (word[30] as u64) << 8 | (
    word[31] as u64)
}

/// The word is a number below 2^64: its first 24 bytes are zero.
pub open spec fn word_fits_u64(word: Seq<u8>) -> bool
    recommends
        word.len() == 32,
{
    forall|i: int| 0 <= i < 24 ==> word[i] == 0
}

/// An address as a call argument: twelve zero bytes, then the twenty address bytes.
pub open spec fn address_word(address: Seq<u8>) -> Seq<u8> {
    zeros(12) + address
}

/// The selector of `Error(string)`, under which a revert reason travels.
pub open spec fn error_selector() -> Seq<u8> {
    seq![0x08u8, 0xc3u8, 0x79u8, 0xa0u8]
}

/// The bytes that carry `reason` as a revert reason: the selector, the offset word 32, the
/// length word, and the UTF-8 bytes padded to a multiple of 32.
pub open spec fn error_string_bytes(reason: Seq<char>) -> Seq<u8>
    recommends
        encode_utf8(reason).len() <= u64::MAX,
{
    error_selector() + u64_word(32) + u64_word(encode_utf8(reason).len() as u64) + padded_right(
        encode_utf8(reason),
    )
}

/// Why an output could not be read as a revert reason.
#[derive(Clone, Copy, Debug, PartialEq, Eq, Structural)]
pub enum DecodeError {
    /// Fewer bytes than the selector and the two header words take.
    TooShort,
    /// The length word asks for more bytes than follow it.
    MalformedLength,
    /// The payload is not UTF-8.
    InvalidUtf8,
}

/// The length word of a revert output: bytes 36 to 68.
pub open spec fn reason_length_word(output: Seq<u8>) -> Seq<u8> {
    output.subrange(36, 68)
}

/// The payload of a revert output: as many bytes after the header as the length word says.
pub open spec fn reason_payload(output: Seq<u8>) -> Seq<u8> {
    output.subrange(68, 68 + word_low_u64(reason_length_word(output)))
}

/// What a revert output decodes to. The selector and the offset word are passed over unread.
pub open spec fn revert_reason_of(output: Seq<u8>) -> Result<Seq<char>, DecodeError> {
    if output.len() < 68 {
        Err(DecodeError::TooShort)
    } else if !word_fits_u64(reason_length_word(output)) || word_low_u64(
        reason_length_word(output),
    ) > output.len() - 68 {
        Err(DecodeError::MalformedLength)
    } else if !valid_utf8(reason_payload(output)) {
        Err(DecodeError::InvalidUtf8)
    } else {
        Ok(decode_utf8(reason_payload(output)))
    }
}

/// Code or data as hexadecimal text, for a listing.
pub fn to_hex(bytes: &[u8]) -> (r: String)
    ensures
        r@ == hex_text(bytes@),
        r@.len() == 2 * bytes@.len(),
{
    hex_encode(bytes)
}

/// The four selector bytes of a canonical signature such as `setGreeting(bytes32)`.
pub fn selector(signature: &str) -> (r: [u8; 4])
    ensures
        r@ == selector_bytes(signature@),
{
    keccak_selector(signature)
}

fn push_zeros(out: &mut Vec<u8>, n: usize)
    ensures
        final(out)@ == old(out)@ + zeros(n as nat),
{
    let mut i: usize = 0;
    while i < n
        invariant
            i <= n,
            out@ == old(out)@ + zeros(i as nat),
        decreases n - i,
    {
        out.push(0u8);
        assert(out@ =~= old(out)@ + zeros((i + 1) as nat));
        i += 1;
    }
    assert(old(out)@ + zeros(0) =~= old(out)@);
}

fn push_all(out: &mut Vec<u8>, bytes: &[u8])
    ensures
        final(out)@ == old(out)@ + bytes@,
{
    let mut i: usize = 0;
    while i < bytes.len()
        invariant
            i <= bytes.len(),
            out@ == old(out)@ + bytes@.take(i as int),
        decreases bytes.len() - i,
    {
        out.push(bytes[i]);
        assert(out@ =~= old(out)@ + bytes@.take(i + 1));
        i += 1;
    }
    assert(bytes@.take(i as int) =~= bytes@);
}

fn push_padded(out: &mut Vec<u8>, bytes: &[u8])
    ensures
        final(out)@ == old(out)@ + padded_right(bytes@),
{
    push_all(out, bytes);
    let rest: usize = bytes.len() % 32;
    let pad: usize = (32 - rest) % 32;
    push_zeros(out, pad);
    assert(out@ =~= old(out)@ + padded_right(bytes@));
}

fn push_u64_word(out: &mut Vec<u8>, n: u64)
    ensures
        final(out)@ == old(out)@ + u64_word(n),
{
    push_zeros(out, 24);
    assert((n >> 56) & 0xff <= 255 && (n >> 48) & 0xff <= 255 && (n >> 40) & 0xff <= 255 && (n
        >> 32) & 0xff <= 255) by (bit_vector);
    assert((n >> 24) & 0xff <= 255 && (n >> 16) & 0xff <= 255 && (n >> 8) & 0xff <= 255 && n
        & 0xff <= 255) by (bit_vector);
    out.push(((n >> 56) & 0xff) as u8);
    out.push(((n >> 48) & 0xff) as u8);
    out.push(((n >> 40) & 0xff) as u8);
    out.push(((n >> 32) & 0xff) as u8);
    out.push(((n >> 24) & 0xff) as u8);
    out.push(((n >> 16) & 0xff) as u8);
    out.push(((n >> 8) & 0xff) as u8);
    out.push((n & 0xff) as u8);
    assert(out@ =~= old(out)@ + u64_word(n));
}

/// Encodes an address argument: 32 bytes, the address in the last twenty.
pub fn encode_address(address: &Address) -> (r: Vec<u8>)
    ensures
        r@ == address_word(address@),
        r@.len() == 32,
        forall|i: int| 0 <= i < 12 ==> r@[i] == 0,
        forall|i: int| 0 <= i < 20 ==> r@[12 + i] == address@[i],
{
    let mut out: Vec<u8> = Vec::new();
    push_zeros(&mut out, 12);
    push_all(&mut out, address.bytes.as_slice());
    assert(out@ =~= address_word(address@));
    out
}

/// Encodes a fixed-size byte string (`bytes1` to `bytes32`): the bytes first, then zeros up
/// to 32 bytes.
pub fn encode_fixed_bytes(bytes: &[u8]) -> (r: Vec<u8>)
    ensures
        r@ == padded_right(bytes@),
        1 <= bytes@.len() <= 32 ==> r@.len() == 32,
{
    let mut out: Vec<u8> = Vec::new();
    push_padded(&mut out, bytes);
    assert(out@ =~= padded_right(bytes@));
    out
}

/// Encodes a number below 2^64 as a 32-byte big-endian word.
pub fn encode_u64(n: u64) -> (r: Vec<u8>)
    ensures
        r@ == u64_word(n),
        r@.len() == 32,
{
    let mut out: Vec<u8> = Vec::new();
    push_u64_word(&mut out, n);
    assert(out@ =~= u64_word(n));
    out
}

/// Encodes `reason` the way reverting code reports it.
pub fn encode_error_string(reason: &str) -> (r: Vec<u8>)
    ensures
        r@ == error_string_bytes(reason@),
{
    let payload = reason.as_bytes();
    let mut out: Vec<u8> = Vec::new();
    out.push(0x08u8);
    out.push(0xc3u8);
    out.push(0x79u8);
    out.push(0xa0u8);
    assert(out@ =~= error_selector());
    push_u64_word(&mut out, 32);
    push_u64_word(&mut out, payload.len() as u64);
    push_padded(&mut out, payload);
    out
}

/// Reads the reason out of a revert output laid out as `Error(string)`: four selector bytes,
/// an offset word, a length word, then the UTF-8 payload.
pub fn decode_revert_reason(output: &[u8]) -> (r: Result<String, DecodeError>)
    ensures
        match r {
            Ok(text) => revert_reason_of(output@) == Ok::<Seq<char>, DecodeError>(text@),
            Err(e) => revert_reason_of(output@) == Err::<Seq<char>, DecodeError>(e),
        },
{
    if output.len() < 68 {
        return Err(DecodeError::TooShort);
    }
    let ghost word = reason_length_word(output@);
    let mut i: usize = 36;
    while i < 60
        invariant
            36 <= i <= 60,
            output@.len() >= 68,
            word == reason_length_word(output@),
            forall|j: int| 0 <= j < i - 36 ==> word[j] == 0,
        decreases 60 - i,
    {
        if output[i] != 0 {
            assert(word[i - 36] == output@[i as int]);
            return Err(DecodeError::MalformedLength);
        }
        assert(word[i - 36] == output@[i as int]);
        i += 1;
    }
    let n: u64 = (output[60] as u64) << 56 | (output[61] as u64) << 48 | (output[62] as u64) << 40
        | (output[63] as u64) << 32 | (output[64] as u64) << 24 | (output[65] as u64) << 16 | (
    output[66] as u64) << 8 | (output[67] as u64);
    assert(n == word_low_u64(word));
    let available: usize = output.len() - 68;
    if n > available as u64 {
        return Err(DecodeError::MalformedLength);
    }
    let len: usize = n as usize;
    let mut payload: Vec<u8> = Vec::new();
    push_all(&mut payload, vstd::slice::slice_subrange(output, 68, 68 + len));
    assert(payload@ =~= reason_payload(output@));
    match text_from_utf8(payload) {
        Some(text) => Ok(text),
        None => Err(DecodeError::InvalidUtf8),
    }
}

/// Reading back the low eight bytes of a number's word gives the number.
pub proof fn lemma_u64_word_value(n: u64)
    ensures
        u64_word(n).len() == 32,
        word_fits_u64(u64_word(n)),
        word_low_u64(u64_word(n)) == n,
{
    let b0 = (n >> 56) & 0xff;
    let b1 = (n >> 48) & 0xff;
    let b2 = (n >> 40) & 0xff;
    let b3 = (n >> 32) & 0xff;
    let b4 = (n >> 24) & 0xff;
    let b5 = (n >> 16) & 0xff;
    let b6 = (n >> 8) & 0xff;
    let b7 = n & 0xff;
    assert(b0 <= 255 && b1 <= 255 && b2 <= 255 && b3 <= 255) by (bit_vector)
        requires
            b0 == (n >> 56) & 0xff,
            b1 == (n >> 48) & 0xff,
            b2 == (n >> 40) & 0xff,
            b3 == (n >> 32) & 0xff,
    ;
    assert(b4 <= 255 && b5 <= 255 && b6 <= 255 && b7 <= 255) by (bit_vector)
        requires
            b4 == (n >> 24) & 0xff,
            b5 == (n >> 16) & 0xff,
            b6 == (n >> 8) & 0xff,
            b7 == n & 0xff,
    ;
    assert(b0 << 56 | b1 << 48 | b2 << 40 | b3 << 32 | b4 << 24 | b5 << 16 | b6 << 8 | b7 == n)
        by (bit_vector)
        requires
            b0 == (n >> 56) & 0xff,
            b1 == (n >> 48) & 0xff,
            b2 == (n >> 40) & 0xff,
            b3 == (n >> 32) & 0xff,
            b4 == (n >> 24) & 0xff,
            b5 == (n >> 16) & 0xff,
            b6 == (n >> 8) & 0xff,
            b7 == n & 0xff,
    ;
    let w = u64_word(n);
    assert(w[24] == b0 as u8 && w[25] == b1 as u8 && w[26] == b2 as u8 && w[27] == b3 as u8);
    assert(w[28] == b4 as u8 && w[29] == b5 as u8 && w[30] == b6 as u8 && w[31] == b7 as u8);
}

/// Whatever text is encoded as a revert reason decodes to that same text, the empty text and
/// text of multi-byte characters included.
pub proof fn lemma_revert_reason_round_trip(reason: Seq<char>)
    requires
        encode_utf8(reason).len() <= u64::MAX,
    ensures
        revert_reason_of(error_string_bytes(reason)) == Ok::<Seq<char>, DecodeError>(reason),
{
    let payload = encode_utf8(reason);
    let n = payload.len() as u64;
    let output = error_string_bytes(reason);
    lemma_u64_word_value(n);
    lemma_u64_word_value(32);
    assert(output.len() == 68 + payload.len() + padding_len(payload.len()));
    assert(reason_length_word(output) =~= u64_word(n));
    assert(reason_payload(output) =~= payload);
    encode_utf8_valid_utf8(reason);
    encode_utf8_decode_utf8(reason);
}

/// One argument of a call, by the category that decides how it is laid out.
#[derive(Debug)]
pub enum Param {
    /// `address`: padded on the left.
    Address(Address),
    /// `bytes1` to `bytes32`: padded on the right.
    FixedBytes(Vec<u8>),
    /// `uint256` and the other one-word scalars, already big-endian.
    Uint(Word),
    /// `string`: in the tail, as UTF-8, behind its length.
    Text(String),
    /// `bytes`: in the tail, behind its length.
    Bytes(Vec<u8>),
}

/// Why arguments could not be encoded.
#[derive(Clone, Copy, Debug, PartialEq, Eq, Structural)]
pub enum EncodeError {
    /// A fixed-size byte string is empty or longer than 32 bytes.
    FixedBytesWidth,
}

impl Param {
    /// The argument goes to the tail, and the head holds its offset.
    pub open spec fn is_dynamic(self) -> bool {
        self is Text || self is Bytes
    }

    /// A fixed-size byte string has between 1 and 32 bytes; every other argument is in order.
    pub open spec fn width_ok(self) -> bool {
        match self {
            Param::FixedBytes(b) => 1 <= b@.len() <= 32,
            _ => true,
        }
    }

    /// The bytes of a dynamic argument; nothing for a static one.
    pub open spec fn payload(self) -> Seq<u8> {
        match self {
            Param::Text(t) => encode_utf8(t@),
            Param::Bytes(b) => b@,
            _ => Seq::empty(),
        }
    }

    /// What the argument adds to the tail: for a dynamic one the length word and the padded
    /// payload, for a static one nothing.
    pub open spec fn tail(self) -> Seq<u8> {
        if self.is_dynamic() {
            u64_word(self.payload().len() as u64) + padded_right(self.payload())
        } else {
            Seq::empty()
        }
    }

    /// What the argument adds to the head, given the offset at which its tail would start.
    pub open spec fn head(self, offset: nat) -> Seq<u8> {
        match self {
            Param::Address(a) => address_word(a@),
            Param::FixedBytes(b) => padded_right(b@),
            Param::Uint(w) => w@,
            _ => u64_word(offset as u64),
        }
    }
}

/// The tails of the first `n` arguments, in order.
pub open spec fn tails(args: Seq<Param>, n: nat) -> Seq<u8>
    recommends
        n <= args.len(),
    decreases n,
{
    if n == 0 {
        Seq::empty()
    } else {
        tails(args, (n - 1) as nat) + args[n - 1].tail()
    }
}

/// The heads of the first `n` arguments, in order. A dynamic argument's offset counts from
/// the start of the heads: all the heads, then the tails before its own.
pub open spec fn heads(args: Seq<Param>, n: nat) -> Seq<u8>
    recommends
        n <= args.len(),
    decreases n,
{
    if n == 0 {
        Seq::empty()
    } else {
        heads(args, (n - 1) as nat) + args[n - 1].head(
            32 * args.len() + tails(args, (n - 1) as nat).len(),
        )
    }
}

/// The encoded arguments: every head, then every tail.
pub open spec fn args_bytes(args: Seq<Param>) -> Seq<u8> {
    heads(args, args.len()) + tails(args, args.len())
}

/// Every offset of the encoding can be written as a 64-bit number.
pub open spec fn args_fit(args: Seq<Param>) -> bool {
    32 * args.len() + tails(args, args.len()).len() <= u64::MAX
}

/// Every fixed-size byte string among the arguments has a width from 1 to 32.
pub open spec fn widths_ok(args: Seq<Param>) -> bool {
    forall|i: int| 0 <= i < args.len() ==> (#[trigger] args[i]).width_ok()
}

/// The tails only grow as more arguments are taken.
pub proof fn lemma_tails_grow(args: Seq<Param>, i: nat, n: nat)
    requires
        i <= n,
    ensures
        tails(args, i).len() <= tails(args, n).len(),
    decreases n,
{
    if i < n {
        lemma_tails_grow(args, i, (n - 1) as nat);
    }
}

/// Encodes the arguments of a call: one head word per argument, then the tails of the
/// dynamic ones. Fails exactly when a fixed-size byte string has no width from 1 to 32.
pub fn encode_args(args: &Vec<Param>) -> (r: Result<Vec<u8>, EncodeError>)
    requires
        args_fit(args@),
    ensures
        widths_ok(args@) ==> r is Ok && r->Ok_0@ == args_bytes(args@),
        !widths_ok(args@) ==> r == Err::<Vec<u8>, EncodeError>(EncodeError::FixedBytesWidth),
{
    let mut head: Vec<u8> = Vec::new();
    let mut tail: Vec<u8> = Vec::new();
    let count: usize = args.len();
    let mut i: usize = 0;
    while i < count
        invariant
            i <= count,
            count == args@.len(),
            args_fit(args@),
            head@ == heads(args@, i as nat),
            tail@ == tails(args@, i as nat),
            forall|j: int| 0 <= j < i ==> (#[trigger] args@[j]).width_ok(),
        decreases count - i,
    {
        proof {
            lemma_tails_grow(args@, i as nat, args@.len());
        }
        let offset: u64 = 32 * (count as u64) + tail.len() as u64;
        match &args[i] {
            Param::Address(a) => {
                push_zeros(&mut head, 12);
                push_all(&mut head, a.bytes.as_slice());
                assert(head@ =~= heads(args@, i as nat) + address_word(a@));
                assert(tail@ =~= tail@ + args@[i as int].tail());
            },
            Param::FixedBytes(b) => {
                if b.len() < 1 || b.len() > 32 {
                    assert(!args@[i as int].width_ok());
                    return Err(EncodeError::FixedBytesWidth);
                }
                push_padded(&mut head, b.as_slice());
                assert(tail@ =~= tail@ + args@[i as int].tail());
            },
            Param::Uint(w) => {
                push_all(&mut head, w.bytes.as_slice());
                assert(tail@ =~= tail@ + args@[i as int].tail());
            },
            Param::Text(t) => {
                let payload = t.as_str().as_bytes();
                push_u64_word(&mut head, offset);
                let ghost before = tail@;
                push_u64_word(&mut tail, payload.len() as u64);
                push_padded(&mut tail, payload);
                assert(tail@ =~= before + args@[i as int].tail());
            },
            Param::Bytes(b) => {
                push_u64_word(&mut head, offset);
                let ghost before = tail@;
                push_u64_word(&mut tail, b.len() as u64);
                push_padded(&mut tail, b.as_slice());
                assert(tail@ =~= before + args@[i as int].tail());
            },
        }
        i += 1;
    }
    let mut out: Vec<u8> = head;
    push_all(&mut out, tail.as_slice());
    Ok(out)
}

/// The payload of a call: the selector of the signature, then the encoded arguments.
pub open spec fn call_bytes(signature: Seq<char>, args: Seq<Param>) -> Seq<u8> {
    selector_bytes(signature) + args_bytes(args)
}

/// Builds the payload of a call from the selector and the arguments.
pub fn call_with_selector(selector: &[u8; 4], args: &Vec<Param>) -> (r: Result<Vec<u8>, EncodeError>)
    requires
        args_fit(args@),
    ensures
        widths_ok(args@) ==> r is Ok && r->Ok_0@ == selector@ + args_bytes(args@),
        !widths_ok(args@) ==> r == Err::<Vec<u8>, EncodeError>(EncodeError::FixedBytesWidth),
{
    match encode_args(args) {
        Ok(encoded) => {
            let mut out: Vec<u8> = Vec::new();
            push_all(&mut out, selector.as_slice());
            push_all(&mut out, encoded.as_slice());
            assert(out@ =~= selector@ + args_bytes(args@));
            Ok(out)
        },
        Err(e) => Err(e),
    }
}

/// Builds the payload of a call of `signature` with `args`.
pub fn encode_call(signature: &str, args: &Vec<Param>) -> (r: Result<Vec<u8>, EncodeError>)
    requires
        args_fit(args@),
    ensures
        widths_ok(args@) ==> r is Ok && r->Ok_0@ == call_bytes(signature@, args@),
        !widths_ok(args@) ==> r == Err::<Vec<u8>, EncodeError>(EncodeError::FixedBytesWidth),
{
    let selector = keccak_selector(signature);
    call_with_selector(&selector, args)
}

} // verus!
