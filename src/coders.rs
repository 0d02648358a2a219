//! The standard element coders: byte strings, UTF-8 strings, variable-length
//! integers and nullable values, each with its exact wire format.

use vstd::prelude::*;
use vstd::string::*;
use vstd::utf8::*;

use bytes::Bytes;

use crate::varint::{
    decode_varint, encode_varint, lemma_varint_round_trip, varint_bytes, varint_decoding, U64_LIMIT,
};

verus! {

/// How an encoded element is framed.
#[derive(Clone, Copy, Debug, PartialEq, Eq, Structural)]
pub enum Context {
    /// The encoding must delimit itself, by a length prefix or by its format.
    Delimited,
    /// The encoding may run to the end of the input.
    WholeStream,
}

/// Why bytes could not be decoded.
#[derive(Clone, Copy, Debug, PartialEq, Eq, Structural)]
pub enum DecodeError {
    /// The input ended before the element did.
    Truncated,
    /// The bytes are not valid UTF-8.
    InvalidUtf8,
    /// A varint runs past ten bytes or past 64 bits.
    VarIntOverflow,
    /// A presence byte is neither 0 nor 1.
    InvalidPresenceByte,
}


pub const BYTES_CODER_URN: &'static str = "beam:coder:bytes:v1";
pub const STR_UTF8_CODER_URN: &'static str = "beam:coder:string_utf8:v1";
pub const VARINT_CODER_URN: &'static str = "beam:coder:varint:v1";
pub const NULLABLE_CODER_URN: &'static str = "beam:coder:nullable:v1";

#[verifier::external_type_specification]
#[verifier::external_body]
pub struct ExBytes(Bytes);

/// The bytes that a `Bytes` buffer holds.
pub uninterp spec fn bytes_content(b: Bytes) -> Seq<u8>;

/// Relies on `<Bytes as From<Vec<u8>>>::from`: the buffer takes over the
/// vector's bytes.
#[verifier::external_body]
pub(crate) fn bytes_from_vec(v: Vec<u8>) -> (r: Bytes)
    ensures
        bytes_content(r) == v@,
{
    Bytes::from(v)
}

/// Relies on `<Bytes as AsRef<[u8]>>::as_ref`: the slice is the buffer's bytes.
#[verifier::external_body]
pub(crate) fn bytes_as_slice(b: &Bytes) -> (r: &[u8])
    ensures
        r@ == bytes_content(*b),
{
    b.as_ref()
}

/// Relies on `std::str::from_utf8`: it succeeds exactly on valid UTF-8 and
/// then yields the characters that the bytes spell.
#[verifier::external_body]
fn str_from_utf8(b: &[u8]) -> (r: Option<&str>)
    ensures
        r is Some <==> valid_utf8(b@),
        r matches Some(s) ==> s@ == decode_utf8(b@),
{
    std::str::from_utf8(b).ok()
}

/// The byte-string encoding: a varint length prefix when delimited, the raw
/// bytes alone for the whole stream.
pub open spec fn bytes_encoding(b: Seq<u8>, context: Context) -> Seq<u8> {
    match context {
        Context::Delimited => varint_bytes(b.len()) + b,
        Context::WholeStream => b,
    }
}

/// What reading a byte string from the start of `s` gives: the bytes and how
/// many input bytes were consumed.
pub open spec fn bytes_decoding(s: Seq<u8>, context: Context) -> Result<(Seq<u8>, nat), DecodeError> {
    match context {
        Context::WholeStream => Ok((s, s.len())),
        Context::Delimited => match varint_decoding(s) {
            Err(e) => Err(e),
            Ok((len, k)) => if k + len <= s.len() {
                Ok((s.subrange(k as int, k + len), (k + len) as nat))
            } else {
                Err(DecodeError::Truncated)
            },
        },
    }
}

/// What reading a UTF-8 string from the start of `s` gives.
pub open spec fn str_decoding(s: Seq<u8>, context: Context) -> Result<(Seq<char>, nat), DecodeError> {
    match bytes_decoding(s, context) {
        Err(e) => Err(e),
        Ok((b, n)) => if valid_utf8(b) {
            Ok((decode_utf8(b), n))
        } else {
            Err(DecodeError::InvalidUtf8)
        },
    }
}

/// A byte string read back from its encoding is the same byte string, and
/// the reader consumes exactly the encoding: in a delimited context any bytes
/// that follow are left for the next reader.
pub proof fn lemma_bytes_round_trip(b: Seq<u8>, context: Context, rest: Seq<u8>)
    requires
        b.len() < U64_LIMIT,
        context == Context::WholeStream ==> rest.len() == 0,
    ensures
        bytes_decoding(bytes_encoding(b, context) + rest, context) == Ok::<(Seq<u8>, nat), DecodeError>(
            (b, bytes_encoding(b, context).len()),
        ),
        (bytes_encoding(b, context) + rest).subrange(
            bytes_encoding(b, context).len() as int,
            (bytes_encoding(b, context) + rest).len() as int,
        ) == rest,
{
    let enc = bytes_encoding(b, context);
    let s = enc + rest;
    assert(s.subrange(enc.len() as int, s.len() as int) =~= rest);
    match context {
        Context::WholeStream => {
            assert(s =~= b);
        },
        Context::Delimited => {
            let prefix = varint_bytes(b.len());
            lemma_varint_round_trip(b.len() as u64, b + rest);
            assert(s =~= prefix + (b + rest));
            assert(s.subrange(prefix.len() as int, (prefix.len() + b.len()) as int) =~= b);

        },
    }
}

/// A string read back from its encoding is the same string.
pub proof fn lemma_str_round_trip(t: Seq<char>, context: Context, rest: Seq<u8>)
    requires
        encode_utf8(t).len() < U64_LIMIT,
        context == Context::WholeStream ==> rest.len() == 0,
    ensures
        str_decoding(bytes_encoding(encode_utf8(t), context) + rest, context) == Ok::<
            (Seq<char>, nat),
            DecodeError,
        >((t, bytes_encoding(encode_utf8(t), context).len())),
{
    lemma_bytes_round_trip(encode_utf8(t), context, rest);
    encode_utf8_valid_utf8(t);
    encode_utf8_decode_utf8(t);
}

/// Bytes that are not UTF-8 never read as a string: the reader reports
/// invalid UTF-8.
pub proof fn lemma_invalid_utf8_rejected(b: Seq<u8>, context: Context, rest: Seq<u8>)
    requires
        b.len() < U64_LIMIT,
        !valid_utf8(b),
        context == Context::WholeStream ==> rest.len() == 0,
    ensures
        str_decoding(bytes_encoding(b, context) + rest, context) == Err::<(Seq<char>, nat), DecodeError>(
            DecodeError::InvalidUtf8,
        ),
{
    lemma_bytes_round_trip(b, context, rest);
}

/// Appends `b` to `out` as a byte string; returns the number of bytes written.
fn encode_byte_slice(b: &[u8], out: &mut Vec<u8>, context: Context) -> (r: usize)
    ensures
        final(out)@ == old(out)@ + bytes_encoding(b@, context),
        r == bytes_encoding(b@, context).len(),
{
    let start = out.len();
    if context == Context::Delimited {
        encode_varint(b.len() as u64, out);
    }
    let ghost mid = out@;
    let mut i: usize = 0;
    while i < b.len()
        invariant
            i <= b@.len(),
            out@ == mid + b@.take(i as int),
        decreases b@.len() - i,
    {
        out.push(b[i]);
        i = i + 1;
        proof {
            assert(b@.take(i as int) =~= b@.take(i - 1) + seq![b@[i - 1]]);
        }
    }
    assert(b@.take(i as int) =~= b@);
    assert(out@ =~= old(out)@ + bytes_encoding(b@, context));
    out.len() - start
}

/// Reads a byte string from the start of `input` into a new vector.
fn decode_byte_vec(input: &[u8], context: Context) -> (r: Result<(Vec<u8>, usize), DecodeError>)
    ensures
        match bytes_decoding(input@, context) {
            Ok((b, n)) => r matches Ok((v, m)) && v@ == b && m == n,
            Err(e) => r == Err::<(Vec<u8>, usize), DecodeError>(e),
        },
{
    let (start, end): (usize, usize) = match context {
        Context::WholeStream => (0, input.len()),
        Context::Delimited => {
            match decode_varint(input) {
                Err(e) => {
                    return Err(e);
                },
                Ok((len, k)) => {
                    if len > (input.len() - k) as u64 {
                        return Err(DecodeError::Truncated);
                    }
                    (k, k + len as usize)
                },
            }
        },
    };
    let mut v: Vec<u8> = Vec::new();
    let mut i: usize = start;
    while i < end
        invariant
            start <= i <= end <= input@.len(),
            v@ == input@.subrange(start as int, i as int),
        decreases end - i,
    {
        v.push(input[i]);
        i = i + 1;
        proof {
            assert(v@ =~= input@.subrange(start as int, i as int));
        }
    }
    proof {
        if context == Context::WholeStream {
            assert(input@.subrange(0, input@.len() as int) =~= input@);
        }
    }
    Ok((v, end))
}

/// The coder for raw byte strings.
#[derive(Clone, Copy, Debug, Default)]
pub struct BytesCoder {}

impl BytesCoder {
    /// Appends the encoding of `element` to `writer`; returns the number of
    /// bytes written.
    pub fn encode(&self, element: &Bytes, writer: &mut Vec<u8>, context: Context) -> (r: usize)
        ensures
            final(writer)@ == old(writer)@ + bytes_encoding(bytes_content(*element), context),
            r == bytes_encoding(bytes_content(*element), context).len(),
    {
        encode_byte_slice(bytes_as_slice(element), writer, context)
    }

    /// Reads one byte string from the start of `input`; returns it with the
    /// number of bytes consumed.
    pub fn decode(&self, input: &[u8], context: Context) -> (r: Result<(Bytes, usize), DecodeError>)
        ensures
            match bytes_decoding(input@, context) {
                Ok((b, n)) => r matches Ok((v, m)) && bytes_content(v) == b && m == n,
                Err(e) => r == Err::<(Bytes, usize), DecodeError>(e),
            },
    {
        match decode_byte_vec(input, context) {
            Ok((v, n)) => Ok((bytes_from_vec(v), n)),
            Err(e) => Err(e),
        }
    }

    pub fn urn(&self) -> (r: &'static str)
        ensures
            r == BYTES_CODER_URN,
    {
        BYTES_CODER_URN
    }

    /// A leaf coder is built from no other coder.
    pub fn component_coder_urns(&self) -> (r: Vec<&'static str>)
        ensures
            r@.len() == 0,
    {
        Vec::new()
    }
}

/// The coder for strings: a byte string holding the UTF-8 encoding.
#[derive(Clone, Copy, Debug, Default)]
pub struct StrUtf8Coder {}

impl StrUtf8Coder {
    /// Appends the encoding of `element` to `writer`; returns the number of
    /// bytes written.
    pub fn encode(&self, element: &String, writer: &mut Vec<u8>, context: Context) -> (r: usize)
        ensures
            final(writer)@ == old(writer)@ + bytes_encoding(encode_utf8(element@), context),
            r == bytes_encoding(encode_utf8(element@), context).len(),
    {
        encode_byte_slice(element.as_str().as_bytes(), writer, context)
    }

    /// Reads one string from the start of `input`; returns it with the number
    /// of bytes consumed. Bytes that are not UTF-8 are an error.
    pub fn decode(&self, input: &[u8], context: Context) -> (r: Result<(String, usize), DecodeError>)
        ensures
            match str_decoding(input@, context) {
                Ok((s, n)) => r matches Ok((v, m)) && v@ == s && m == n,
                Err(e) => r == Err::<(String, usize), DecodeError>(e),
            },
    {
        match decode_byte_vec(input, context) {
            Err(e) => Err(e),
            Ok((v, n)) => match str_from_utf8(v.as_slice()) {
                Some(s) => Ok((s.to_owned(), n)),
                None => Err(DecodeError::InvalidUtf8),
            },
        }
    }

    pub fn urn(&self) -> (r: &'static str)
        ensures
            r == STR_UTF8_CODER_URN,
    {
        STR_UTF8_CODER_URN
    }

    /// A leaf coder is built from no other coder.
    pub fn component_coder_urns(&self) -> (r: Vec<&'static str>)
        ensures
            r@.len() == 0,
    {
        Vec::new()
    }
}

/// The coder for 64-bit integers as varints. A signed value is written as
/// the unsigned value with the same two's-complement bits, so `-1` and
/// `u64::MAX` share their ten-byte encoding.
#[derive(Clone, Copy, Debug, Default)]
pub struct VarIntCoder {}

impl VarIntCoder {
    /// Appends the varint of `element` to `writer`; returns the number of
    /// bytes written. The encoding is self-delimiting in every context.
    pub fn encode(&self, element: u64, writer: &mut Vec<u8>, context: Context) -> (r: usize)
        ensures
            final(writer)@ == old(writer)@ + varint_bytes(element as nat),
            r == varint_bytes(element as nat).len(),
    {
        encode_varint(element, writer)
    }

    /// Reads one varint from the start of `input`.
    pub fn decode(&self, input: &[u8], context: Context) -> (r: Result<(u64, usize), DecodeError>)
        ensures
            r == varint_decoding(input@),
    {
        decode_varint(input)
    }

    /// Appends the varint of `element`'s two's-complement bits.
    pub fn encode_signed(&self, element: i64, writer: &mut Vec<u8>, context: Context) -> (r: usize)
        ensures
            final(writer)@ == old(writer)@ + varint_bytes((element as u64) as nat),
            r == varint_bytes((element as u64) as nat).len(),
    {
        encode_varint(element as u64, writer)
    }

    /// Reads one varint and takes its 64 bits as a two's-complement value.
    pub fn decode_signed(&self, input: &[u8], context: Context) -> (r: Result<(i64, usize), DecodeError>)
        ensures
            match varint_decoding(input@) {
                Ok((v, n)) => r == Ok::<(i64, usize), DecodeError>((v as i64, n)),
                Err(e) => r == Err::<(i64, usize), DecodeError>(e),
            },
    {
        match decode_varint(input) {
            Ok((v, n)) => Ok((v as i64, n)),
            Err(e) => Err(e),
        }
    }

    /// Appends the varint of a 32-bit value.
    pub fn encode_u32(&self, element: u32, writer: &mut Vec<u8>, context: Context) -> (r: usize)
        ensures
            final(writer)@ == old(writer)@ + varint_bytes(element as nat),
            r == varint_bytes(element as nat).len(),
    {
        encode_varint(element as u64, writer)
    }

    /// Reads one varint that must fit in 32 bits.
    pub fn decode_u32(&self, input: &[u8], context: Context) -> (r: Result<(u32, usize), DecodeError>)
        ensures
            match varint_decoding(input@) {
                Ok((v, n)) => if v <= u32::MAX {
                    r == Ok::<(u32, usize), DecodeError>((v as u32, n))
                } else {
                    r == Err::<(u32, usize), DecodeError>(DecodeError::VarIntOverflow)
                },
                Err(e) => r == Err::<(u32, usize), DecodeError>(e),
            },
    {
        match decode_varint(input) {
            Ok((v, n)) => if v <= u32::MAX as u64 {
                Ok((v as u32, n))
            } else {
                Err(DecodeError::VarIntOverflow)
            },
            Err(e) => Err(e),
        }
    }

    /// Appends the varint of a 32-bit signed value's two's-complement bits,
    /// so `-1` takes five bytes, as `u32::MAX` does.
    pub fn encode_i32(&self, element: i32, writer: &mut Vec<u8>, context: Context) -> (r: usize)
        ensures
            final(writer)@ == old(writer)@ + varint_bytes((element as u32) as nat),
            r == varint_bytes((element as u32) as nat).len(),
    {
        encode_varint((element as u32) as u64, writer)
    }

    /// Reads one varint that must fit in 32 bits and takes them as a
    /// two's-complement value.
    pub fn decode_i32(&self, input: &[u8], context: Context) -> (r: Result<(i32, usize), DecodeError>)
        ensures
            match varint_decoding(input@) {
                Ok((v, n)) => if v <= u32::MAX {
                    r == Ok::<(i32, usize), DecodeError>(((v as u32) as i32, n))
                } else {
                    r == Err::<(i32, usize), DecodeError>(DecodeError::VarIntOverflow)
                },
                Err(e) => r == Err::<(i32, usize), DecodeError>(e),
            },
    {
        match self.decode_u32(input, context) {
            Ok((v, n)) => Ok((v as i32, n)),
            Err(e) => Err(e),
        }
    }

    pub fn urn(&self) -> (r: &'static str)
        ensures
            r == VARINT_CODER_URN,
    {
        VARINT_CODER_URN
    }

    /// A leaf coder is built from no other coder.
    pub fn component_coder_urns(&self) -> (r: Vec<&'static str>)
        ensures
            r@.len() == 0,
    {
        Vec::new()
    }
}

} // verus!
