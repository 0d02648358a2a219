//! Dynamically typed elements and the standard coder family that the wire
//! protocol names by URN, including the nullable coder that wraps another.

use vstd::prelude::*;
use vstd::slice::slice_subrange;
use vstd::string::*;
use vstd::utf8::*;

use bytes::Bytes;

use crate::coders::{
    bytes_content, bytes_decoding, lemma_bytes_round_trip, lemma_str_round_trip, bytes_encoding, str_decoding, BytesCoder, Context, DecodeError,
    StrUtf8Coder, VarIntCoder, BYTES_CODER_URN, NULLABLE_CODER_URN, STR_UTF8_CODER_URN,
    VARINT_CODER_URN,
};
use crate::varint::{lemma_varint_round_trip, varint_bytes, varint_decoding, U64_LIMIT};

verus! {

/// One element flowing through a stage.
#[derive(Debug)]
pub enum Element {
    Bytes(Bytes),
    Str(String),
    VarInt(u64),
    /// An absent nullable value.
    Null,
    /// A present nullable value.
    Present(Box<Element>),
}

/// The mathematical value of an element.
pub enum ElemValue {
    Bytes(Seq<u8>),
    Str(Seq<char>),
    VarInt(u64),
    Null,
    Present(Box<ElemValue>),
}

pub open spec fn elem_value(e: Element) -> ElemValue
    decreases e,
{
    match e {
        Element::Bytes(b) => ElemValue::Bytes(bytes_content(b)),
        Element::Str(s) => ElemValue::Str(s@),
        Element::VarInt(v) => ElemValue::VarInt(v),
        Element::Null => ElemValue::Null,
        Element::Present(x) => ElemValue::Present(Box::new(elem_value(*x))),
    }
}

impl View for Element {
    type V = ElemValue;

    open spec fn view(&self) -> ElemValue {
        elem_value(*self)
    }
}

/// The standard coders, a nullable coder holding the coder of its component.
#[derive(Debug)]
pub enum StandardCoder {
    Bytes,
    StrUtf8,
    VarInt,
    Nullable(Box<StandardCoder>),
}

/// `v` is of the kind that coder `c` encodes.
pub open spec fn has_kind(c: StandardCoder, v: ElemValue) -> bool
    decreases c,
{
    match c {
        StandardCoder::Bytes => v is Bytes,
        StandardCoder::StrUtf8 => v is Str,
        StandardCoder::VarInt => v is VarInt,
        StandardCoder::Nullable(inner) => match v {
            ElemValue::Null => true,
            ElemValue::Present(x) => has_kind(*inner, *x),
            _ => false,
        },
    }
}

/// Every byte string inside `v` has a length that a 64-bit varint can carry.
pub open spec fn lengths_fit(v: ElemValue) -> bool
    decreases v,
{
    match v {
        ElemValue::Bytes(b) => b.len() < U64_LIMIT,
        ElemValue::Str(s) => encode_utf8(s).len() < U64_LIMIT,
        ElemValue::Present(x) => lengths_fit(*x),
        _ => true,
    }
}

/// The bytes that coder `c` writes for `v`. A nullable value is one presence
/// byte, 0 when absent and 1 when present, then the component's encoding.
pub open spec fn element_encoding(c: StandardCoder, v: ElemValue, context: Context) -> Seq<u8>
    decreases c,
{
    match c {
        StandardCoder::Bytes => match v {
            ElemValue::Bytes(b) => bytes_encoding(b, context),
            _ => Seq::empty(),
        },
        StandardCoder::StrUtf8 => match v {
            ElemValue::Str(s) => bytes_encoding(encode_utf8(s), context),
            _ => Seq::empty(),
        },
        StandardCoder::VarInt => match v {
            ElemValue::VarInt(n) => varint_bytes(n as nat),
            _ => Seq::empty(),
        },
        StandardCoder::Nullable(inner) => match v {
            ElemValue::Null => seq![0u8],
            ElemValue::Present(x) => seq![1u8] + element_encoding(*inner, *x, context),
            _ => Seq::empty(),
        },
    }
}

/// What coder `c` reads from the start of `s`: the value and the number of
/// bytes consumed, or why nothing can be read.
pub open spec fn element_decoding(c: StandardCoder, s: Seq<u8>, context: Context) -> Result<
    (ElemValue, nat),
    DecodeError,
>
    decreases c,
{
    match c {
        StandardCoder::Bytes => match bytes_decoding(s, context) {
            Ok((b, n)) => Ok((ElemValue::Bytes(b), n)),
            Err(e) => Err(e),
        },
        StandardCoder::StrUtf8 => match str_decoding(s, context) {
            Ok((t, n)) => Ok((ElemValue::Str(t), n)),
            Err(e) => Err(e),
        },
        StandardCoder::VarInt => match varint_decoding(s) {
            Ok((v, n)) => Ok((ElemValue::VarInt(v), n as nat)),
            Err(e) => Err(e),
        },
        StandardCoder::Nullable(inner) => if s.len() == 0 {
            Err(DecodeError::Truncated)
        } else if s[0] == 0 {
            Ok((ElemValue::Null, 1))
        } else if s[0] == 1 {
            match element_decoding(*inner, s.drop_first(), context) {
                Ok((x, n)) => Ok((ElemValue::Present(Box::new(x)), n + 1)),
                Err(e) => Err(e),
            }
        } else {
            Err(DecodeError::InvalidPresenceByte)
        },
    }
}

/// Every standard coder reads back what it wrote: decoding the encoding of
/// `v` gives `v` and consumes exactly the encoding, whatever follows it in a
/// delimited context.
#[verifier::rlimit(40)]
pub proof fn lemma_element_round_trip(c: StandardCoder, v: ElemValue, context: Context, rest: Seq<u8>)
    requires
        has_kind(c, v),
        lengths_fit(v),
        context == Context::WholeStream ==> rest.len() == 0,
    ensures
        element_decoding(c, element_encoding(c, v, context) + rest, context) == Ok::<
            (ElemValue, nat),
            DecodeError,
        >((v, element_encoding(c, v, context).len())),
    decreases c,
{
    match c {
        StandardCoder::Bytes => {
            lemma_bytes_round_trip(v->Bytes_0, context, rest);
        },
        StandardCoder::StrUtf8 => {
            lemma_str_round_trip(v->Str_0, context, rest);
        },
        StandardCoder::VarInt => {
            lemma_varint_round_trip(v->VarInt_0, rest);
        },
        StandardCoder::Nullable(inner) => {
            let s = element_encoding(c, v, context) + rest;
            match v {
                ElemValue::Null => {},
                ElemValue::Present(x) => {
                    let ienc = element_encoding(*inner, *x, context);
                    lemma_element_round_trip(*inner, *x, context, rest);
                    assert(s =~= seq![1u8] + (ienc + rest));
                    assert(s.drop_first() =~= ienc + rest);
                    assert(s[0] == 1u8);
                },
                _ => {},
            }
        },
    }
}

/// A successful delimited read consumes at least one byte and no more than
/// the input holds.
pub proof fn lemma_decoding_consumes(c: StandardCoder, s: Seq<u8>, context: Context)
    requires
        context == Context::Delimited,
    ensures
        element_decoding(c, s, context) matches Ok((_, n)) ==> 1 <= n <= s.len(),
    decreases c,
{
    match c {
        StandardCoder::Nullable(inner) => {
            if s.len() > 0 && s[0] == 1 {
                lemma_decoding_consumes(*inner, s.drop_first(), context);
            }
        },
        _ => {},
    }
}

/// Appends the encoding of `element` under coder `c` to `writer`; returns the
/// number of bytes written.
pub fn encode_element(c: &StandardCoder, element: &Element, writer: &mut Vec<u8>, context: Context) -> (r: usize)
    requires
        has_kind(*c, element@),
    ensures
        final(writer)@ == old(writer)@ + element_encoding(*c, element@, context),
        r == element_encoding(*c, element@, context).len(),
    decreases c, 0int,
{
    match c {
        StandardCoder::Bytes => match element {
            Element::Bytes(b) => BytesCoder {}.encode(b, writer, context),
            _ => 0,
        },
        StandardCoder::StrUtf8 => match element {
            Element::Str(s) => StrUtf8Coder {}.encode(s, writer, context),
            _ => 0,
        },
        StandardCoder::VarInt => match element {
            Element::VarInt(v) => VarIntCoder {}.encode(*v, writer, context),
            _ => 0,
        },
        StandardCoder::Nullable(inner) => encode_nullable(inner, element, writer, context),
    }
}

/// Appends a nullable element whose component coder is `component`.
fn encode_nullable(component: &StandardCoder, element: &Element, writer: &mut Vec<u8>, context: Context) -> (r: usize)
    requires
        has_kind(StandardCoder::Nullable(Box::new(*component)), element@),
    ensures
        final(writer)@ == old(writer)@ + element_encoding(
            StandardCoder::Nullable(Box::new(*component)),
            element@,
            context,
        ),
        r == element_encoding(StandardCoder::Nullable(Box::new(*component)), element@, context).len(),
    decreases component, 1int,
{
    let start = writer.len();
    match element {
        Element::Null => {
            writer.push(0u8);
        },
        Element::Present(x) => {
            writer.push(1u8);
            encode_element(component, x, writer, context);
            assert(final(writer)@ =~= old(writer)@ + element_encoding(
                StandardCoder::Nullable(Box::new(*component)),
                element@,
                context,
            ));
        },
        _ => {},
    }
    writer.len() - start
}

/// Reads one element under coder `c` from the start of `input`; returns it
/// with the number of bytes consumed.
pub fn decode_element(c: &StandardCoder, input: &[u8], context: Context) -> (r: Result<(Element, usize), DecodeError>)
    ensures
        match element_decoding(*c, input@, context) {
            Ok((v, n)) => r matches Ok((e, m)) && e@ == v && m == n,
            Err(err) => r matches Err(f) && f == err,
        },
        r matches Ok((_, m)) ==> m <= input@.len(),
    decreases c, 0int,
{
    match c {
        StandardCoder::Bytes => match (BytesCoder {}).decode(input, context) {
            Ok((b, n)) => Ok((Element::Bytes(b), n)),
            Err(e) => Err(e),
        },
        StandardCoder::StrUtf8 => match (StrUtf8Coder {}).decode(input, context) {
            Ok((s, n)) => Ok((Element::Str(s), n)),
            Err(e) => Err(e),
        },
        StandardCoder::VarInt => match (VarIntCoder {}).decode(input, context) {
            Ok((v, n)) => Ok((Element::VarInt(v), n)),
            Err(e) => Err(e),
        },
        StandardCoder::Nullable(inner) => decode_nullable(inner, input, context),
    }
}

/// Reads a nullable element whose component coder is `component`.
fn decode_nullable(component: &StandardCoder, input: &[u8], context: Context) -> (r: Result<(Element, usize), DecodeError>)
    ensures
        match element_decoding(StandardCoder::Nullable(Box::new(*component)), input@, context) {
            Ok((v, n)) => r matches Ok((e, m)) && e@ == v && m == n,
            Err(err) => r matches Err(f) && f == err,
        },
        r matches Ok((_, m)) ==> m <= input@.len(),
    decreases component, 1int,
{
    if input.len() == 0 {
        Err(DecodeError::Truncated)
    } else if input[0] == 0 {
        Ok((Element::Null, 1))
    } else if input[0] == 1 {
        let rest = slice_subrange(input, 1, input.len());
        assert(rest@ =~= input@.drop_first());
        match decode_element(component, rest, context) {
            Ok((x, n)) => Ok((Element::Present(Box::new(x)), n + 1)),
            Err(e) => Err(e),
        }
    } else {
        Err(DecodeError::InvalidPresenceByte)
    }
}

/// The URN that names coder `c` on the wire.
pub open spec fn coder_urn(c: StandardCoder) -> &'static str {
    match c {
        StandardCoder::Bytes => BYTES_CODER_URN,
        StandardCoder::StrUtf8 => STR_UTF8_CODER_URN,
        StandardCoder::VarInt => VARINT_CODER_URN,
        StandardCoder::Nullable(_) => NULLABLE_CODER_URN,
    }
}

impl StandardCoder {
    pub fn urn(&self) -> (r: &'static str)
        ensures
            r == coder_urn(*self),
    {
        match self {
            StandardCoder::Bytes => BYTES_CODER_URN,
            StandardCoder::StrUtf8 => STR_UTF8_CODER_URN,
            StandardCoder::VarInt => VARINT_CODER_URN,
            StandardCoder::Nullable(_) => NULLABLE_CODER_URN,
        }
    }

    /// The URNs of the coders this one is built from, in order: the
    /// component of a nullable coder, none for the others.
    pub fn component_coder_urns(&self) -> (r: Vec<&'static str>)
        ensures
            r@ == match *self {
                StandardCoder::Nullable(inner) => seq![coder_urn(*inner)],
                _ => Seq::<&'static str>::empty(),
            },
    {
        let mut r: Vec<&'static str> = Vec::new();
        match self {
            StandardCoder::Nullable(inner) => {
                r.push(inner.urn());
            },
            _ => {},
        }
        r
    }
}

/// The coder for values that may be absent: one presence byte, then the
/// component's encoding when present.
#[derive(Debug)]
pub struct NullableCoder {
    pub component: StandardCoder,
}

impl NullableCoder {
    pub open spec fn coder(&self) -> StandardCoder {
        StandardCoder::Nullable(Box::new(self.component))
    }

    pub fn new(component: StandardCoder) -> (r: NullableCoder)
        ensures
            r.component == component,
    {
        NullableCoder { component }
    }

    /// Appends the encoding of `element`, `Element::Null` or
    /// `Element::Present`, to `writer`; returns the number of bytes written.
    pub fn encode(&self, element: &Element, writer: &mut Vec<u8>, context: Context) -> (r: usize)
        requires
            has_kind(self.coder(), element@),
        ensures
            final(writer)@ == old(writer)@ + element_encoding(self.coder(), element@, context),
            r == element_encoding(self.coder(), element@, context).len(),
    {
        encode_nullable(&self.component, element, writer, context)
    }

    /// Reads one nullable element from the start of `input`; returns it with
    /// the number of bytes consumed.
    pub fn decode(&self, input: &[u8], context: Context) -> (r: Result<(Element, usize), DecodeError>)
        ensures
            match element_decoding(self.coder(), input@, context) {
                Ok((v, n)) => r matches Ok((e, m)) && e@ == v && m == n,
                Err(err) => r matches Err(f) && f == err,
            },
    {
        decode_nullable(&self.component, input, context)
    }

    pub fn urn(&self) -> (r: &'static str)
        ensures
            r == NULLABLE_CODER_URN,
    {
        NULLABLE_CODER_URN
    }

    pub fn component_coder_urns(&self) -> (r: Vec<&'static str>)
        ensures
            r@ == seq![coder_urn(self.component)],
    {
        let mut r: Vec<&'static str> = Vec::new();
        r.push(self.component.urn());
        r
    }
}


/// Whether two strings hold the same characters.
pub(crate) fn same_str(a: &str, b: &str) -> (r: bool)
    ensures
        r == (a@ == b@),
{
    let x = a.as_bytes();
    let y = b.as_bytes();
    proof {
        encode_utf8_decode_utf8(a@);
        encode_utf8_decode_utf8(b@);
    }
    if x.len() != y.len() {
        return false;
    }
    let mut i: usize = 0;
    while i < x.len()
        invariant
            x@.len() == y@.len(),
            x@ == encode_utf8(a@),
            y@ == encode_utf8(b@),
            i <= x@.len(),
            forall|j: int| 0 <= j < i ==> x@[j] == y@[j],
        decreases x@.len() - i,
    {
        if x[i] != y[i] {
            return false;
        }
        i = i + 1;
    }
    assert(x@ =~= y@);
    true
}

/// The standard coder that `urn` names, built from `components`: the leaf
/// coders take none, the nullable coder exactly one.
pub open spec fn coder_for_urn(urn: Seq<char>, components: Seq<StandardCoder>) -> Option<StandardCoder> {
    if urn == BYTES_CODER_URN@ && components.len() == 0 {
        Some(StandardCoder::Bytes)
    } else if urn == STR_UTF8_CODER_URN@ && components.len() == 0 {
        Some(StandardCoder::StrUtf8)
    } else if urn == VARINT_CODER_URN@ && components.len() == 0 {
        Some(StandardCoder::VarInt)
    } else if urn == NULLABLE_CODER_URN@ && components.len() == 1 {
        Some(StandardCoder::Nullable(Box::new(components[0])))
    } else {
        None
    }
}

/// Resolves a coder URN and its component coders, in order, to a standard
/// coder; `None` for an unknown URN or a wrong number of components.
pub fn coder_from_urn(urn: &str, components: Vec<StandardCoder>) -> (r: Option<StandardCoder>)
    ensures
        r == coder_for_urn(urn@, components@),
{
    let mut components = components;
    if same_str(urn, BYTES_CODER_URN) && components.len() == 0 {
        Some(StandardCoder::Bytes)
    } else if same_str(urn, STR_UTF8_CODER_URN) && components.len() == 0 {
        Some(StandardCoder::StrUtf8)
    } else if same_str(urn, VARINT_CODER_URN) && components.len() == 0 {
        Some(StandardCoder::VarInt)
    } else if same_str(urn, NULLABLE_CODER_URN) && components.len() == 1 {
        match components.pop() {
            Some(c) => Some(StandardCoder::Nullable(Box::new(c))),
            None => None,
        }
    } else {
        None
    }
}

} // verus!
