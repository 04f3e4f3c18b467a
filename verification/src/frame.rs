//! The frames in which the relay carries datagrams: the length of a client's
//! address in two bytes, the higher first, then the address, then the datagram.

use vstd::prelude::*;
use vstd::slice::slice_subrange;
use vstd::utf8::*;

use crate::text::join;

verus! {

/// The largest UDP datagram.
pub fn max_datagram_size() -> (size: usize)
    ensures
        size == 65_535,
{
    65_535
}

/// The text with which std describes why `bytes` are not UTF-8.
pub uninterp spec fn utf8_error_text(bytes: Seq<u8>) -> Seq<char>;

/// Calls `std::str::from_utf8`. It gives the text that the bytes encode if they
/// are UTF-8, and else an error, of which only the wording is kept.
#[verifier::external_body]
fn utf8_text(bytes: &[u8]) -> (read: Result<&str, String>)
    ensures
        match read {
            Ok(text) => valid_utf8(bytes@) && text@ == decode_utf8(bytes@),
            Err(error) => !valid_utf8(bytes@) && error@ == utf8_error_text(bytes@),
        },
{
    std::str::from_utf8(bytes).map_err(|error| error.to_string())
}

/// `n` in two bytes, the higher first; what exceeds them is cut off.
pub open spec fn be16(n: nat) -> Seq<u8> {
    seq![((n % 65536) / 256) as u8, (n % 256) as u8]
}

/// The frame that carries `payload` for the client at `address`.
pub open spec fn encoded_frame(address: Seq<char>, payload: Seq<u8>) -> Seq<u8> {
    be16(encode_utf8(address).len()) + encode_utf8(address) + payload
}

/// The length that the first two bytes of `frame` announce.
pub open spec fn announced_length(frame: Seq<u8>) -> int {
    frame[0] * 256 + frame[1]
}

/// Where the address of `frame` ends and its payload begins, or why there is no
/// such place.
pub open spec fn address_end(frame: Seq<u8>) -> Result<int, Seq<char>> {
    if frame.len() < 2 {
        Err("中継フレームが短すぎます"@)
    } else if announced_length(frame) == 0 || frame.len() < 2 + announced_length(frame) {
        Err("中継フレームのアドレス長が不正です"@)
    } else {
        Ok(2 + announced_length(frame))
    }
}

/// The address and the payload of `frame`, or why it has none.
pub open spec fn decoded_frame(frame: Seq<u8>) -> Result<(Seq<char>, Seq<u8>), Seq<char>> {
    match address_end(frame) {
        Ok(end) => {
            let address = frame.subrange(2, end);
            if valid_utf8(address) {
                Ok((decode_utf8(address), frame.skip(end)))
            } else {
                Err("中継アドレスが不正です: "@ + utf8_error_text(address))
            }
        },
        Err(fault) => Err(fault),
    }
}

/// Frames `payload` for the client at `address`.
pub fn encode_relay_frame(address: &str, payload: &[u8]) -> (frame: Vec<u8>)
    ensures
        frame@ == encoded_frame(address@, payload@),
{
    let address: &[u8] = address.as_bytes();
    let length: usize = address.len();
    let mut frame: Vec<u8> = Vec::new();
    frame.push(((length % 65536) / 256) as u8);
    frame.push((length % 256) as u8);
    frame.extend_from_slice(address);
    frame.extend_from_slice(payload);
    frame
}

/// The bytes of the address and of the payload of `frame`.
pub fn split_relay_frame(frame: &[u8]) -> (parts: Result<(&[u8], &[u8]), String>)
    ensures
        match parts {
            Ok((address, payload)) => {
                &&& address_end(frame@) is Ok
                &&& address@ == frame@.subrange(2, address_end(frame@)->Ok_0)
                &&& payload@ == frame@.skip(address_end(frame@)->Ok_0)
            },
            Err(message) => address_end(frame@) == Err::<int, Seq<char>>(message@),
        },
{
    if frame.len() < 2 {
        return Err("中継フレームが短すぎます".to_owned());
    }
    let length: usize = frame[0] as usize * 256 + frame[1] as usize;
    if length == 0 || frame.len() - 2 < length {
        return Err("中継フレームのアドレス長が不正です".to_owned());
    }
    Ok((slice_subrange(frame, 2, 2 + length), slice_subrange(frame, 2 + length, frame.len())))
}

/// The address and the payload of `frame`.
pub fn decode_relay_frame(frame: &[u8]) -> (decoded: Result<(String, &[u8]), String>)
    ensures
        match decoded {
            Ok((address, payload)) => decoded_frame(frame@) == Ok::<(Seq<char>, Seq<u8>), Seq<char>>(
                (address@, payload@),
            ),
            Err(message) => decoded_frame(frame@) == Err::<(Seq<char>, Seq<u8>), Seq<char>>(
                message@,
            ),
        },
{
    match split_relay_frame(frame) {
        Ok((address, payload)) => match utf8_text(address) {
            Ok(text) => Ok((text.to_owned(), payload)),
            Err(error) => Err(join("中継アドレスが不正です: ", error.as_str())),
        },
        Err(message) => Err(message),
    }
}

/// What a frame was made from is what is read from it, for every payload and
/// every address whose length is not zero and fits in the two length bytes.
pub proof fn relay_frame_round_trips(address: Seq<char>, payload: Seq<u8>)
    requires
        1 <= encode_utf8(address).len() <= 65535,
    ensures
        decoded_frame(encoded_frame(address, payload)) == Ok::<(Seq<char>, Seq<u8>), Seq<char>>(
            (address, payload),
        ),
{
    let bytes = encode_utf8(address);
    let frame = encoded_frame(address, payload);
    assert(announced_length(frame) == bytes.len());
    assert(frame.subrange(2, 2 + bytes.len() as int) =~= bytes);
    assert(frame.skip(2 + bytes.len() as int) =~= payload);
    encode_utf8_valid_utf8(address);
    encode_utf8_decode_utf8(address);
}

/// A frame that can be read is the very frame that its address and payload make.
pub proof fn relay_frame_is_unique(frame: Seq<u8>)
    requires
        decoded_frame(frame) is Ok,
    ensures
        ({
            let (address, payload) = decoded_frame(frame)->Ok_0;
            encoded_frame(address, payload) == frame
        }),
{
    let end = address_end(frame)->Ok_0;
    let bytes = frame.subrange(2, end);
    decode_utf8_encode_utf8(bytes);
    assert(be16(bytes.len()) =~= frame.take(2));
    assert(frame.take(2) + bytes + frame.skip(end) =~= frame);
}

/// No frame carries an empty address.
pub proof fn empty_address_is_refused(payload: Seq<u8>)
    ensures
        decoded_frame(encoded_frame(Seq::empty(), payload)) == Err::<
            (Seq<char>, Seq<u8>),
            Seq<char>,
        >("中継フレームのアドレス長が不正です"@),
{
    assert(encode_utf8(Seq::<char>::empty()).len() == 0);
}

/// A frame begins with the length of its address in two bytes, the higher first, goes on
/// with the bytes of the address, and ends with the payload.
pub proof fn frames_are_length_address_and_payload(address: Seq<char>, payload: Seq<u8>)
    requires
        encode_utf8(address).len() <= 65535,
    ensures
        ({
            let frame = encoded_frame(address, payload);
            let length = encode_utf8(address).len();
            &&& frame.len() == 2 + length + payload.len()
            &&& frame[0] * 256 + frame[1] == length
            &&& frame.subrange(2, 2 + length as int) == encode_utf8(address)
            &&& frame.subrange(2 + length as int, frame.len() as int) == payload
        }),
{
    let frame = encoded_frame(address, payload);
    let length = encode_utf8(address).len();
    assert(frame.subrange(2, 2 + length as int) =~= encode_utf8(address));
    assert(frame.subrange(2 + length as int, frame.len() as int) =~= payload);
}

/// A frame is refused exactly if it is shorter than two bytes, or the length that these
/// give is nought or exceeds what follows, or that many bytes after them are no text. What
/// is read from any other is that text and all bytes behind it.
pub proof fn frames_are_read_as_they_are_made(frame: Seq<u8>)
    ensures
        ({
            let length = frame[0] * 256 + frame[1];
            let address = frame.subrange(2, 2 + length);
            if frame.len() < 2 {
                decoded_frame(frame) == Err::<(Seq<char>, Seq<u8>), Seq<char>>(
                    "中継フレームが短すぎます"@,
                )
            } else if length == 0 || frame.len() < 2 + length {
                decoded_frame(frame) == Err::<(Seq<char>, Seq<u8>), Seq<char>>(
                    "中継フレームのアドレス長が不正です"@,
                )
            } else if !valid_utf8(address) {
                decoded_frame(frame) == Err::<(Seq<char>, Seq<u8>), Seq<char>>(
                    "中継アドレスが不正です: "@ + utf8_error_text(address),
                )
            } else {
                decoded_frame(frame) == Ok::<(Seq<char>, Seq<u8>), Seq<char>>(
                    (decode_utf8(address), frame.subrange(2 + length, frame.len() as int)),
                )
            }
        }),
{
    let length = frame[0] * 256 + frame[1];
    if frame.len() >= 2 + length {
        assert(frame.skip(2 + length) =~= frame.subrange(2 + length, frame.len() as int));
    }
}

} // verus!
