use crate::bytes::{put_slice, ByteReader};
use crate::mc_types::varint::{lemma_varint_round_trip, VarInt, VarIntError};
use vstd::prelude::*;
use vstd::utf8::{
    decode_utf8, encode_utf8, encode_utf8_decode_utf8, encode_utf8_valid_utf8, valid_utf8,
};

verus! {

/// A string carried on the wire as a [`VarInt`] byte length followed by that
/// many bytes of UTF-8.
pub struct McString(pub String);

/// Why a [`McString`] could not be decoded or encoded.
#[derive(Debug, Clone, Copy, PartialEq, Eq, Structural)]
pub enum McStringError {
    /// The length prefix could not be decoded.
    VarIntError(VarIntError),
    /// The bytes after the prefix are not valid UTF-8.
    Utf8,
    /// The length is negative or larger than the number of bytes at hand, or,
    /// when encoding, too large for the prefix.
    LengthMismatch,
}

impl From<VarIntError> for McStringError {
    fn from(vie: VarIntError) -> (error: Self) {
        McStringError::VarIntError(vie)
    }
}

impl vstd::std_specs::convert::FromSpecImpl<VarIntError> for McStringError {
    open spec fn obeys_from_spec() -> bool {
        true
    }

    open spec fn from_spec(vie: VarIntError) -> Self {
        McStringError::VarIntError(vie)
    }
}

/// The largest byte length that the prefix can announce.
pub const MAX_STRING_LEN: usize = 0x7fff_ffff;

/// `std::str::from_utf8`: the bytes as a string slice when they are valid
/// UTF-8, nothing otherwise. The slice, where there is one, is made of
/// exactly the bytes given.
#[verifier::external_body]
fn str_from_utf8(bytes: &[u8]) -> (text: Option<&str>)
    ensures
        text is Some <==> valid_utf8(bytes@),
        text matches Some(s) ==> encode_utf8(s@) == bytes@,
{
    std::str::from_utf8(bytes).ok()
}

impl McString {
    /// The wire form of the string `chars`.
    pub open spec fn spec_encode(chars: Seq<char>) -> Seq<u8> {
        VarInt::spec_encode(encode_utf8(chars).len() as i32) + encode_utf8(chars)
    }

    /// What decoding makes of the bytes `s`: the string and the number of
    /// bytes it took, or the reason for failing.
    pub open spec fn spec_decode(s: Seq<u8>) -> Result<(Seq<char>, nat), McStringError> {
        match VarInt::spec_decode(s) {
            Err(e) => Err(McStringError::VarIntError(e)),
            Ok((length, prefix)) => {
                if length < 0 || prefix + length > s.len() {
                    Err(McStringError::LengthMismatch)
                } else {
                    let body = s.subrange(prefix as int, prefix + length);
                    if valid_utf8(body) {
                        Ok((decode_utf8(body), (prefix + length) as nat))
                    } else {
                        Err(McStringError::Utf8)
                    }
                }
            },
        }
    }

    /// Decodes one string from the front of `reader`.
    ///
    /// On success the reader has moved past the prefix and the bytes of the
    /// string; on failure it is left where it was. No byte is allocated for
    /// a length that the reader cannot satisfy.
    pub fn read_from(reader: &mut ByteReader) -> (r: Result<String, McStringError>)
        ensures
            match McString::spec_decode(old(reader)@) {
                Ok((chars, len)) => r is Ok && r->Ok_0@ == chars
                    && final(reader)@ == old(reader)@.skip(len as int),
                Err(e) => r == Err::<String, McStringError>(e) && final(reader)@ == old(reader)@,
            },
    {
        let rest = reader.peek();
        let mut probe = ByteReader::new(rest);
        let length = match VarInt::read_from(&mut probe) {
            Ok(v) => v,
            Err(e) => {
                return Err(McStringError::from(e));
            },
        };
        let available = probe.remaining();
        let ghost prefix = VarInt::spec_decode(rest@)->Ok_0.1;
        assert(available == rest@.len() - prefix);
        if length < 0 || length as usize > available {
            return Err(McStringError::LengthMismatch);
        }
        let body = match probe.read_exact(length as usize) {
            Ok(b) => b,
            Err(_) => {
                return Err(McStringError::LengthMismatch);
            },
        };
        assert(body@ =~= rest@.subrange(prefix as int, prefix + length));
        match str_from_utf8(body) {
            Some(s) => {
                proof {
                    encode_utf8_decode_utf8(s@);
                }
                reader.advance(rest.len() - available + length as usize);
                Ok(s.to_owned())
            },
            None => Err(McStringError::Utf8),
        }
    }

    /// How many bytes more a reader has to wait for when it holds `bytes`
    /// from the start of a string: none when the string is whole, one while
    /// the length prefix goes on, and the rest of the string once the prefix
    /// is known.
    pub open spec fn spec_demand(bytes: Seq<u8>) -> Result<nat, McStringError> {
        match VarInt::spec_decode(bytes) {
            Err(VarIntError::Io(_)) => Ok(1),
            Err(e) => Err(McStringError::VarIntError(e)),
            Ok((length, prefix)) => {
                if length < 0 {
                    Err(McStringError::LengthMismatch)
                } else if prefix + length <= bytes.len() {
                    Ok(0)
                } else {
                    Ok((prefix + length - bytes.len()) as nat)
                }
            },
        }
    }

    /// Says how many bytes more to wait for, given the bytes held from the
    /// start of a string.
    pub fn demand(bytes: &[u8]) -> (r: Result<usize, McStringError>)
        ensures
            match McString::spec_demand(bytes@) {
                Ok(n) => r == Ok::<usize, McStringError>(n as usize),
                Err(e) => r == Err::<usize, McStringError>(e),
            },
    {
        let mut probe = ByteReader::new(bytes);
        let length = match VarInt::read_from(&mut probe) {
            Ok(v) => v,
            Err(VarIntError::Io(_)) => {
                return Ok(1);
            },
            Err(e) => {
                return Err(McStringError::from(e));
            },
        };
        if length < 0 {
            return Err(McStringError::LengthMismatch);
        }
        let available = probe.remaining();
        if length as usize <= available {
            Ok(0)
        } else {
            Ok(length as usize - available)
        }
    }

    /// Appends the wire form of `string` to `writer` and returns the number
    /// of bytes written.
    ///
    /// A string longer than [`MAX_STRING_LEN`] bytes has no wire form: it is
    /// refused and nothing is written.
    pub fn write_to(writer: &mut Vec<u8>, string: &str) -> (r: Result<usize, McStringError>)
        ensures
            encode_utf8(string@).len() <= MAX_STRING_LEN ==> r == Ok::<usize, McStringError>(
                McString::spec_encode(string@).len() as usize,
            ) && final(writer)@ == old(writer)@ + McString::spec_encode(string@),
            encode_utf8(string@).len() > MAX_STRING_LEN ==> r == Err::<usize, McStringError>(
                McStringError::LengthMismatch,
            ) && final(writer)@ == old(writer)@,
    {
        let bytes = string.as_bytes();
        let length = bytes.len();
        if length > MAX_STRING_LEN {
            return Err(McStringError::LengthMismatch);
        }
        proof {
            lemma_varint_round_trip(length as i32, Seq::empty());
        }
        let mut count: usize = 0;
        count = count + VarInt::write_to(writer, length as i32);
        put_slice(writer, bytes);
        count = count + length;
        assert(writer@ =~= old(writer)@ + McString::spec_encode(string@));
        Ok(count)
    }
}

/// A length prefix that announces more bytes than follow it is refused, and
/// so is a negative one.
pub proof fn lemma_string_length_mismatch(s: Seq<u8>)
    requires
        VarInt::spec_decode(s) matches Ok((length, prefix)) && (length < 0 || length > s.len()
            - prefix),
    ensures
        McString::spec_decode(s) == Err::<(Seq<char>, nat), McStringError>(
            McStringError::LengthMismatch,
        ),
{
}

/// Decoding gives back the string that was encoded, whatever bytes follow,
/// and takes exactly the bytes of the encoding. This holds of every string
/// that has a wire form, that is, of at most [`MAX_STRING_LEN`] bytes.
pub proof fn lemma_string_round_trip(chars: Seq<char>, rest: Seq<u8>)
    requires
        encode_utf8(chars).len() <= MAX_STRING_LEN,
    ensures
        McString::spec_decode(McString::spec_encode(chars) + rest)
            == Ok::<(Seq<char>, nat), McStringError>(
            (chars, McString::spec_encode(chars).len()),
        ),
{
    let body = encode_utf8(chars);
    let length = body.len() as i32;
    let prefix = VarInt::spec_encode(length);
    let s = McString::spec_encode(chars) + rest;
    lemma_varint_round_trip(length, body + rest);
    assert(s =~= prefix + (body + rest));
    assert(s.subrange(prefix.len() as int, prefix.len() + length) =~= body);
    encode_utf8_valid_utf8(chars);
    encode_utf8_decode_utf8(chars);
}

} // verus!
