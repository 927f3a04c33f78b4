use crate::component::is_hex_uid;
use crate::component::UID;
use crate::component::UID_SIZE;
use nanoserde::DeBin;
use nanoserde::SerBin;
use vstd::bytes::lemma_auto_spec_u64_to_from_le_bytes;
use vstd::bytes::spec_u64_from_le_bytes;
use vstd::bytes::spec_u64_to_le_bytes;
use vstd::bytes::u64_from_le_bytes;
use vstd::prelude::*;
use vstd::slice::slice_subrange;
use vstd::utf8::decode_utf8;
use vstd::utf8::encode_utf8;
use vstd::utf8::encode_utf8_decode_utf8;
use vstd::utf8::encode_utf8_valid_utf8;
use vstd::utf8::is_ascii_chars;
use vstd::utf8::is_ascii_chars_encode_utf8;
use vstd::utf8::valid_utf8;

verus! {

/// The texts of a list of strings, in order.
pub open spec fn spec_texts(items: Seq<String>) -> Seq<Seq<char>> {
    items.map_values(|s: String| s@)
}

/// One string on the wire: the length of its UTF-8 form as eight bytes,
/// least significant first, then the UTF-8 form itself.
pub open spec fn spec_wire_string(text: Seq<char>) -> Seq<u8> {
    spec_u64_to_le_bytes(encode_utf8(text).len() as u64) + encode_utf8(text)
}

/// Strings on the wire, one after the other.
pub open spec fn spec_wire_items(items: Seq<Seq<char>>) -> Seq<u8>
    decreases items.len(),
{
    if items.len() == 0 {
        Seq::<u8>::empty()
    } else {
        spec_wire_string(items[0]) + spec_wire_items(items.skip(1))
    }
}

/// A list of strings on the wire: the number of strings as eight bytes,
/// least significant first, then the strings.
pub open spec fn spec_wire_list(items: Seq<Seq<char>>) -> Seq<u8> {
    spec_u64_to_le_bytes(items.len() as u64) + spec_wire_items(items)
}

/// A datagram: the identifier of the sender, then the payload as a list of
/// strings.
pub open spec fn spec_datagram(sender: Seq<u8>, payload: Seq<Seq<char>>) -> Seq<u8> {
    sender + spec_wire_list(payload)
}

/// The eight-byte number that stands at `at`, if eight bytes are there.
pub open spec fn spec_read_u64(bytes: Seq<u8>, at: int) -> Option<u64> {
    if 0 <= at && at + 8 <= bytes.len() {
        Some(spec_u64_from_le_bytes(bytes.subrange(at, at + 8)))
    } else {
        None
    }
}

/// The string that stands at `at`, and where it ends: a length, then as many
/// bytes of well-formed UTF-8, all within `bytes`.
pub open spec fn spec_read_string(bytes: Seq<u8>, at: int) -> Option<(Seq<char>, int)> {
    match spec_read_u64(bytes, at) {
        None => None,
        Some(n) => {
            let start = at + 8;
            let end = start + n;
            if end <= bytes.len() && valid_utf8(bytes.subrange(start, end)) {
                Some((decode_utf8(bytes.subrange(start, end)), end))
            } else {
                None
            }
        },
    }
}

/// The `count` strings that stand one after the other from `at` on, and
/// where the last one ends.
pub open spec fn spec_read_items(bytes: Seq<u8>, at: int, count: nat) -> Option<
    (Seq<Seq<char>>, int),
>
    decreases count,
{
    if count == 0 {
        Some((Seq::<Seq<char>>::empty(), at))
    } else {
        match spec_read_string(bytes, at) {
            None => None,
            Some((text, next)) => match spec_read_items(bytes, next, (count - 1) as nat) {
                None => None,
                Some((rest, end)) => Some((seq![text] + rest, end)),
            },
        }
    }
}

/// The list of strings that stands at `at`, and where it ends. Bytes behind
/// the list are not looked at.
pub open spec fn spec_read_list(bytes: Seq<u8>, at: int) -> Option<(Seq<Seq<char>>, int)> {
    match spec_read_u64(bytes, at) {
        None => None,
        Some(count) => spec_read_items(bytes, at + 8, count as nat),
    }
}

/// Where the string at `at` ends, where one stands there.
pub open spec fn spec_string_end(bytes: Seq<u8>, at: int) -> int {
    match spec_read_string(bytes, at) {
        Some((_, end)) => end,
        None => at,
    }
}

/// The strings of the list at `at`, where one stands there.
pub open spec fn spec_list_items(bytes: Seq<u8>, at: int) -> Seq<Seq<char>> {
    match spec_read_list(bytes, at) {
        Some((items, _)) => items,
        None => Seq::<Seq<char>>::empty(),
    }
}

/// Where the list at `at` ends, where one stands there.
pub open spec fn spec_list_end(bytes: Seq<u8>, at: int) -> int {
    match spec_read_list(bytes, at) {
        Some((_, end)) => end,
        None => at,
    }
}

/// Why a datagram was not understood.
#[derive(Debug, Clone, Copy, PartialEq, Eq)]
pub enum DecodeError {
    /// The datagram is shorter than an identifier.
    Truncated,
    /// The identifier of the sender is not text.
    Sender,
    /// The payload is not a well-formed list of strings.
    Payload,
}

/// What a datagram says: the sender's identifier as text, and the payload.
pub open spec fn spec_decode(bytes: Seq<u8>) -> Result<(Seq<char>, Seq<Seq<char>>), DecodeError> {
    if bytes.len() < UID_SIZE {
        Err(DecodeError::Truncated)
    } else if !valid_utf8(bytes.subrange(0, UID_SIZE as int)) {
        Err(DecodeError::Sender)
    } else {
        match spec_read_list(bytes, UID_SIZE as int) {
            None => Err(DecodeError::Payload),
            Some((items, end)) => Ok((decode_utf8(bytes.subrange(0, UID_SIZE as int)), items)),
        }
    }
}

#[verifier::external_type_specification]
#[verifier::external_body]
pub struct ExDeBinErr(nanoserde::DeBinErr);

/// `SerBin::ser_bin` of `nanoserde` on a `Vec<String>`: appends to `out` the
/// number of strings as a little-endian `u64`, then for each string its
/// length in bytes as a little-endian `u64` and its bytes.
#[verifier::external_body]
fn ser_bin_strings(data: &Vec<String>, out: &mut Vec<u8>)
    ensures
        final(out)@ == old(out)@ + spec_wire_list(spec_texts(data@)),
{
    data.ser_bin(out)
}

/// `DeBin::de_bin` of `nanoserde` for a `Vec<String>`, on a list that is
/// well formed: it yields the strings of the list and moves `offset` behind
/// it. On other input `nanoserde` may panic (on a string that is not UTF-8,
/// or a count too large to allocate for), so such input is left out.
#[verifier::external_body]
fn de_bin_strings(offset: &mut usize, bytes: &[u8]) -> (r: Result<Vec<String>, nanoserde::DeBinErr>)
    requires
        spec_read_list(bytes@, *old(offset) as int) is Some,
    ensures
        r is Ok,
        r matches Ok(items) ==> spec_texts(items@) == spec_list_items(bytes@, *old(offset) as int),
        *final(offset) == spec_list_end(bytes@, *old(offset) as int),
{
    DeBin::de_bin(offset, bytes)
}

/// `core::str::from_utf8`: the text that `bytes` encode, if they are
/// well-formed UTF-8.
#[verifier::external_body]
fn utf8_text(bytes: &[u8]) -> (r: Option<&str>)
    ensures
        r is Some <==> valid_utf8(bytes@),
        r matches Some(text) ==> text@ == decode_utf8(bytes@),
{
    core::str::from_utf8(bytes).ok()
}

fn read_u64(bytes: &[u8], at: usize) -> (r: Option<u64>)
    ensures
        r == spec_read_u64(bytes@, at as int),
        r is Some ==> at + 8 <= bytes@.len() <= usize::MAX,
{
    if at > bytes.len() || bytes.len() - at < 8 {
        None
    } else {
        Some(u64_from_le_bytes(slice_subrange(bytes, at, at + 8)))
    }
}

/// Where the string at `at` ends, if a well-formed one stands there.
fn check_string(bytes: &[u8], at: usize) -> (r: Option<usize>)
    ensures
        r is Some <==> spec_read_string(bytes@, at as int) is Some,
        r matches Some(end) ==> end == spec_string_end(bytes@, at as int),
{
    match read_u64(bytes, at) {
        None => None,
        Some(n) => {
            let start = at + 8;
            let room = bytes.len() - start;
            if n > room as u64 {
                None
            } else {
                let end = start + n as usize;
                if utf8_text(slice_subrange(bytes, start, end)).is_some() {
                    Some(end)
                } else {
                    None
                }
            }
        },
    }
}

/// Whether a well-formed list of strings stands at `at`.
fn check_list(bytes: &[u8], at: usize) -> (ok: bool)
    ensures
        ok == spec_read_list(bytes@, at as int) is Some,
{
    match read_u64(bytes, at) {
        None => false,
        Some(count) => {
            let mut next: usize = at + 8;
            let mut left: u64 = count;
            while left > 0
                invariant
                    spec_read_list(bytes@, at as int) is Some <==> spec_read_items(
                        bytes@,
                        next as int,
                        left as nat,
                    ) is Some,
                decreases left,
            {
                match check_string(bytes, next) {
                    None => {
                        return false;
                    },
                    Some(end) => {
                        next = end;
                        left -= 1;
                    },
                }
            }
            true
        },
    }
}

/// The datagram that carries `data` from `sender`.
pub fn encode_datagram(sender: &UID, data: &Vec<String>) -> (bytes: Vec<u8>)
    ensures
        bytes@ == spec_datagram(sender@, spec_texts(data@)),
{
    let mut bytes: Vec<u8> = Vec::new();
    bytes.extend_from_slice(sender.as_slice());
    ser_bin_strings(data, &mut bytes);
    bytes
}

/// Takes a datagram apart: the sender's identifier as text, and the payload.
/// A datagram that is too short, whose identifier is not text or whose
/// payload is malformed is reported, never a reason to stop.
pub fn decode_datagram(bytes: &[u8]) -> (r: Result<(String, Vec<String>), DecodeError>)
    ensures
        match spec_decode(bytes@) {
            Ok((sender, payload)) => r matches Ok(got) && got.0@ == sender && spec_texts(got.1@)
                == payload,
            Err(e) => r == Err::<(String, Vec<String>), DecodeError>(e),
        },
{
    if bytes.len() < UID_SIZE {
        return Err(DecodeError::Truncated);
    }
    let sender = match utf8_text(slice_subrange(bytes, 0, UID_SIZE)) {
        None => {
            return Err(DecodeError::Sender);
        },
        Some(text) => text.to_owned(),
    };
    if !check_list(bytes, UID_SIZE) {
        return Err(DecodeError::Payload);
    }
    let mut offset: usize = UID_SIZE;
    match de_bin_strings(&mut offset, bytes) {
        Ok(payload) => Ok((sender, payload)),
        Err(_) => Err(DecodeError::Payload),
    }
}

/// Whether a payload can be written: the number of its strings and the
/// length of each in bytes fit the eight bytes that the wire gives them.
pub open spec fn spec_fits_wire(payload: Seq<Seq<char>>) -> bool {
    &&& payload.len() <= u64::MAX
    &&& forall|i: int|
        0 <= i < payload.len() ==> (#[trigger] encode_utf8(payload[i])).len() <= u64::MAX
}

/// A number that was written is read back, whatever stands around it.
pub proof fn lemma_read_written_u64(head: Seq<u8>, x: u64, tail: Seq<u8>)
    ensures
        spec_read_u64(head + spec_u64_to_le_bytes(x) + tail, head.len() as int) == Some(x),
{
    lemma_auto_spec_u64_to_from_le_bytes();
    let bytes = head + spec_u64_to_le_bytes(x) + tail;
    assert(bytes.subrange(head.len() as int, head.len() as int + 8) =~= spec_u64_to_le_bytes(x));
}

/// A string that was written is read back, whatever stands around it.
pub proof fn lemma_read_written_string(head: Seq<u8>, text: Seq<char>, tail: Seq<u8>)
    requires
        encode_utf8(text).len() <= u64::MAX,
    ensures
        spec_read_string(head + spec_wire_string(text) + tail, head.len() as int) == Some(
            (text, (head.len() + spec_wire_string(text).len()) as int),
        ),
{
    lemma_auto_spec_u64_to_from_le_bytes();
    let body = encode_utf8(text);
    let n = body.len() as u64;
    let bytes = head + spec_wire_string(text) + tail;
    assert(bytes =~= head + spec_u64_to_le_bytes(n) + (body + tail));
    lemma_read_written_u64(head, n, body + tail);
    assert(bytes.subrange(head.len() as int + 8, head.len() as int + 8 + n) =~= body);
    encode_utf8_valid_utf8(text);
    encode_utf8_decode_utf8(text);
}

/// Strings that were written one after the other are read back in order.
pub proof fn lemma_read_written_items(head: Seq<u8>, items: Seq<Seq<char>>, tail: Seq<u8>)
    requires
        forall|i: int|
            0 <= i < items.len() ==> (#[trigger] encode_utf8(items[i])).len() <= u64::MAX,
    ensures
        spec_read_items(head + spec_wire_items(items) + tail, head.len() as int, items.len())
            == Some((items, (head.len() + spec_wire_items(items).len()) as int)),
    decreases items.len(),
{
    let bytes = head + spec_wire_items(items) + tail;
    if items.len() == 0 {
        assert(items =~= Seq::<Seq<char>>::empty());
    } else {
        let first = spec_wire_string(items[0]);
        let rest = spec_wire_items(items.skip(1));
        assert(encode_utf8(items[0]).len() <= u64::MAX);
        assert(bytes =~= head + first + (rest + tail));
        lemma_read_written_string(head, items[0], rest + tail);
        assert forall|i: int| 0 <= i < items.skip(1).len() implies (#[trigger] encode_utf8(
            items.skip(1)[i],
        )).len() <= u64::MAX by {
            assert(items.skip(1)[i] == items[i + 1]);
        }
        assert(bytes =~= (head + first) + rest + tail);
        lemma_read_written_items(head + first, items.skip(1), tail);
        assert(seq![items[0]] + items.skip(1) =~= items);
    }
}

/// A datagram that was written for a sender and a payload is taken apart
/// into that sender and that payload, whatever bytes follow it.
pub proof fn lemma_datagram_round_trip(sender: Seq<u8>, payload: Seq<Seq<char>>, tail: Seq<u8>)
    requires
        sender.len() == UID_SIZE,
        valid_utf8(sender),
        spec_fits_wire(payload),
    ensures
        spec_decode(spec_datagram(sender, payload) + tail) == Ok::<
            (Seq<char>, Seq<Seq<char>>),
            DecodeError,
        >((decode_utf8(sender), payload)),
{
    lemma_auto_spec_u64_to_from_le_bytes();
    let count = payload.len() as u64;
    let bytes = spec_datagram(sender, payload) + tail;
    assert(bytes.subrange(0, UID_SIZE as int) =~= sender);
    assert(bytes =~= sender + spec_u64_to_le_bytes(count) + (spec_wire_items(payload) + tail));
    lemma_read_written_u64(sender, count, spec_wire_items(payload) + tail);
    let head = sender + spec_u64_to_le_bytes(count);
    assert(bytes =~= head + spec_wire_items(payload) + tail);
    lemma_read_written_items(head, payload, tail);
}

/// An identifier as text: each of its bytes as one character.
pub open spec fn spec_uid_text(id: UID) -> Seq<char> {
    Seq::new(id@.len(), |i: int| id@[i] as char)
}

/// An identifier made of hexadecimal digits is text, and its text has the
/// digits as its characters.
pub proof fn lemma_hex_uid_is_text(id: UID)
    requires
        is_hex_uid(id),
    ensures
        valid_utf8(id@),
        decode_utf8(id@) == spec_uid_text(id),
{
    let text = spec_uid_text(id);
    assert(is_ascii_chars(text)) by {
        assert forall|i: int| 0 <= i < text.len() implies '\0' <= #[trigger] text[i] <= '\u{7f}' by {
            assert(crate::component::is_hex_digit(id@[i]));
        }
    }
    is_ascii_chars_encode_utf8(text);
    assert(encode_utf8(text) =~= id@) by {
        assert forall|i: int| 0 <= i < text.len() implies encode_utf8(text)[i] == id@[i] by {
            assert(text[i] as u8 == encode_utf8(text)[i]);
            assert(crate::component::is_hex_digit(id@[i]));
        }
    }
    encode_utf8_valid_utf8(text);
    encode_utf8_decode_utf8(text);
}

/// What is sent arrives: the datagram that a sender with a generated
/// identifier makes of a payload is taken apart into the text of that
/// identifier and that payload.
pub proof fn lemma_sent_is_received(sender: UID, payload: Seq<Seq<char>>, tail: Seq<u8>)
    requires
        is_hex_uid(sender),
        spec_fits_wire(payload),
    ensures
        spec_decode(spec_datagram(sender@, payload) + tail) == Ok::<
            (Seq<char>, Seq<Seq<char>>),
            DecodeError,
        >((spec_uid_text(sender), payload)),
{
    lemma_hex_uid_is_text(sender);
    lemma_datagram_round_trip(sender@, payload, tail);
}

} // verus!
