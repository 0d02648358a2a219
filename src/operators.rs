//! The primitive operators that a stage is built from, each as a function
//! from the elements it receives to the elements it emits, and a runner for
//! a stage seeded by an impulse.

use vstd::prelude::*;
use vstd::slice::slice_subrange;

use crate::coders::{bytes_from_vec, Context, DecodeError};
use crate::data::{DataChannel, StreamKey};
use crate::element::{
    decode_element, element_decoding, element_encoding, encode_element, has_kind,
    lemma_decoding_consumes, lemma_element_round_trip, lengths_fit, ElemValue, Element,
    StandardCoder,
};

verus! {

/// The bytes of the synthetic element that an impulse emits.
pub open spec fn impulse_bytes() -> Seq<u8> {
    seq![105u8, 109u8, 112u8, 117u8, 108u8, 115u8, 101u8]
}

/// The outputs of every input, one after the other.
pub open spec fn concat_vecs<T>(s: Seq<Vec<T>>) -> Seq<T>
    decreases s.len(),
{
    if s.len() == 0 {
        Seq::empty()
    } else {
        s[0]@ + concat_vecs(s.drop_first())
    }
}

proof fn lemma_concat_vecs_single<T>(v: Vec<T>)
    ensures
        concat_vecs(seq![v]) == v@,
{
    let s = seq![v];
    assert(s.drop_first() =~= Seq::<Vec<T>>::empty());
    assert(concat_vecs(s.drop_first()) == Seq::<T>::empty());
    assert(s[0] == v);
    assert(v@ + Seq::<T>::empty() =~= v@);
}

proof fn lemma_concat_vecs_push<T>(s: Seq<Vec<T>>, v: Vec<T>)
    ensures
        concat_vecs(s.push(v)) == concat_vecs(s) + v@,
    decreases s.len(),
{
    if s.len() == 0 {
        assert(s.push(v) =~= seq![v]);
        lemma_concat_vecs_single(v);
        assert(concat_vecs(s.push(v)) =~= concat_vecs(s) + v@);
    } else {
        assert(s.push(v).drop_first() =~= s.drop_first().push(v));
        lemma_concat_vecs_push(s.drop_first(), v);
        assert(concat_vecs(s.push(v)) =~= concat_vecs(s) + v@);
    }
}

/// Emits the one synthetic element that seeds a bundle with no input.
pub fn impulse() -> (r: Vec<Element>)
    ensures
        r@.len() == 1,
        r@[0]@ == ElemValue::Bytes(impulse_bytes()),
{
    let mut b: Vec<u8> = Vec::new();
    b.push(105u8);
    b.push(109u8);
    b.push(112u8);
    b.push(117u8);
    b.push(108u8);
    b.push(115u8);
    b.push(101u8);
    assert(b@ =~= impulse_bytes());
    let mut r: Vec<Element> = Vec::new();
    r.push(Element::Bytes(bytes_from_vec(b)));
    r
}

/// `outs` are the outputs that `f` gave for each of `inputs`, and `r` is
/// all of them in input order.
pub open spec fn par_do_outputs<F: Fn(&Element) -> Vec<Element>>(
    inputs: Seq<Element>,
    f: F,
    outs: Seq<Vec<Element>>,
    r: Seq<Element>,
) -> bool {
    &&& outs.len() == inputs.len()
    &&& forall|i: int| 0 <= i < outs.len() ==> f.ensures((&inputs[i],), #[trigger] outs[i])
    &&& r == concat_vecs(outs)
}

/// Invokes the element function `f` once per input, in order, and forwards
/// every output it gives.
pub fn par_do<F: Fn(&Element) -> Vec<Element>>(inputs: &Vec<Element>, f: F) -> (r: Vec<Element>)
    requires
        forall|x: &Element| f.requires((x,)),
    ensures
        exists|outs: Seq<Vec<Element>>| par_do_outputs(inputs@, f, outs, r@),
{
    let mut r: Vec<Element> = Vec::new();
    let ghost mut outs: Seq<Vec<Element>> = Seq::empty();
    let mut i: usize = 0;
    while i < inputs.len()
        invariant
            i <= inputs@.len(),
            forall|x: &Element| f.requires((x,)),
            outs.len() == i,
            forall|j: int| 0 <= j < i ==> f.ensures((&inputs@[j],), #[trigger] outs[j]),
            r@ == concat_vecs(outs),
        decreases inputs@.len() - i,
    {
        let mut out = f(&inputs[i]);
        proof {
            lemma_concat_vecs_push(outs, out);
            outs = outs.push(out);
        }
        r.append(&mut out);
        i = i + 1;
    }
    assert(par_do_outputs(inputs@, f, outs, r@));
    r
}

/// The element function failed: `index` is the input it failed on, and
/// `message` what it reported.
#[derive(Debug)]
pub struct ElementFailure {
    pub index: usize,
    pub message: String,
}

/// The fallible element function `f` can succeed on `x`.
pub open spec fn succeeds_on<F: Fn(&Element) -> Result<Vec<Element>, String>>(f: F, x: Element) -> bool {
    exists|v: Vec<Element>| f.ensures((&x,), Ok::<Vec<Element>, String>(v))
}

/// Invokes the fallible element function `f` once per input, in order. The
/// first failure aborts the rest of the inputs and is returned; otherwise
/// every output is forwarded, as `par_do` does.
pub fn try_par_do<F: Fn(&Element) -> Result<Vec<Element>, String>>(inputs: &Vec<Element>, f: F) -> (r: Result<
    Vec<Element>,
    ElementFailure,
>)
    requires
        forall|x: &Element| f.requires((x,)),
    ensures
        r matches Ok(out) ==> exists|outs: Seq<Vec<Element>>|
            {
                &&& outs.len() == inputs@.len()
                &&& forall|i: int|
                    0 <= i < outs.len() ==> f.ensures(
                        (&inputs@[i],),
                        Ok::<Vec<Element>, String>(#[trigger] outs[i]),
                    )
                &&& out@ == concat_vecs(outs)
            },
        r is Err ==> ({
            let fail = r->Err_0;
            &&& fail.index < inputs@.len()
            &&& f.ensures((&inputs@[fail.index as int],), Err::<Vec<Element>, String>(fail.message))
            &&& forall|i: int| 0 <= i < fail.index ==> succeeds_on(f, #[trigger] inputs@[i])
        }),
{
    let mut r: Vec<Element> = Vec::new();
    let ghost mut outs: Seq<Vec<Element>> = Seq::empty();
    let mut i: usize = 0;
    while i < inputs.len()
        invariant
            i <= inputs@.len(),
            forall|x: &Element| f.requires((x,)),
            outs.len() == i,
            forall|j: int|
                0 <= j < i ==> f.ensures((&inputs@[j],), Ok::<Vec<Element>, String>(#[trigger] outs[j])),
            r@ == concat_vecs(outs),
        decreases inputs@.len() - i,
    {
        let res = f(&inputs[i]);
        let ghost res_view = res;
        match res {
            Ok(out) => {
                let mut out = out;
                proof {
                    lemma_concat_vecs_push(outs, out);
                    outs = outs.push(out);
                }
                r.append(&mut out);
                i = i + 1;
            },
            Err(message) => {
                let fail = ElementFailure { index: i, message };
                proof {
                    assert(res_view == Err::<Vec<Element>, String>(fail.message));
                    assert forall|j: int| 0 <= j < fail.index implies succeeds_on(f, #[trigger] inputs@[j]) by {
                        assert(f.ensures((&inputs@[j],), Ok::<Vec<Element>, String>(outs[j])));
                    }
                }
                return Err(fail);
            },
        }
    }
    Ok(r)
}

/// Merges the inputs into one stream: every element of every input, once.
pub fn flatten(inputs: Vec<Vec<Element>>) -> (r: Vec<Element>)
    ensures
        r@ == concat_vecs(inputs@),
{
    let ghost all = inputs@;
    let mut inputs = inputs;
    let mut r: Vec<Element> = Vec::new();
    while inputs.len() > 0
        invariant
            concat_vecs(all) == r@ + concat_vecs(inputs@),
        decreases inputs@.len(),
    {
        let ghost before = inputs@;
        let mut v = inputs.remove(0);
        assert(inputs@ =~= before.drop_first());
        r.append(&mut v);
        assert(concat_vecs(all) =~= r@ + concat_vecs(inputs@));
    }
    assert(r@ =~= r@ + concat_vecs(inputs@));
    r
}

/// Flatten over two inputs of sizes `m` and `n` emits exactly `m + n`
/// elements: the first input's, then the second's, none lost or repeated.
pub proof fn lemma_flatten_two<T>(a: Vec<T>, b: Vec<T>)
    ensures
        concat_vecs(seq![a, b]) == a@ + b@,
        concat_vecs(seq![a, b]).len() == a@.len() + b@.len(),
{
    let s = seq![a, b];
    assert(s.drop_first() =~= seq![b]);
    assert(s.drop_first().drop_first() =~= Seq::<Vec<T>>::empty());
    lemma_concat_vecs_single(b);
    assert(concat_vecs(s) =~= a@ + b@);
}

/// The values paired with key `k` in `pairs`, in order.
pub open spec fn values_for<V>(pairs: Seq<(u64, V)>, k: u64) -> Seq<V>
    decreases pairs.len(),
{
    if pairs.len() == 0 {
        Seq::empty()
    } else if pairs.last().0 == k {
        values_for(pairs.drop_last(), k).push(pairs.last().1)
    } else {
        values_for(pairs.drop_last(), k)
    }
}

/// Groups key-value pairs by key: returns the distinct keys and, for each,
/// every value seen with it, in order. A key that is not returned has no
/// value.
pub fn group_by_key<V: Copy>(pairs: &Vec<(u64, V)>) -> (r: (Vec<u64>, Vec<Vec<V>>))
    ensures
        r.0@.len() == r.1@.len(),
        r.0@.no_duplicates(),
        forall|j: int| 0 <= j < r.1@.len() ==> #[trigger] r.1@[j]@ == values_for(pairs@, r.0@[j]),
        forall|j: int| 0 <= j < r.1@.len() ==> #[trigger] r.1@[j]@.len() > 0,
        forall|k: u64| !r.0@.contains(k) ==> values_for(pairs@, k).len() == 0,
{
    let mut keys: Vec<u64> = Vec::new();
    let mut groups: Vec<Vec<V>> = Vec::new();
    let mut i: usize = 0;
    while i < pairs.len()
        invariant
            i <= pairs@.len(),
            keys@.len() == groups@.len(),
            keys@.no_duplicates(),
            forall|j: int| 0 <= j < groups@.len() ==> #[trigger] groups@[j]@ == values_for(pairs@.take(i as int), keys@[j]),
            forall|j: int| 0 <= j < groups@.len() ==> #[trigger] groups@[j]@.len() > 0,
            forall|k: u64| !keys@.contains(k) ==> values_for(pairs@.take(i as int), k).len() == 0,
        decreases pairs@.len() - i,
    {
        let (k, v) = pairs[i];
        let ghost prev = pairs@.take(i as int);
        let ghost next = pairs@.take(i + 1);
        proof {
            assert(next.drop_last() =~= prev);
            assert(next.last() == (k, v));
        }
        let mut j: usize = 0;
        while j < keys.len() && keys[j] != k
            invariant
                j <= keys@.len(),
                forall|m: int| 0 <= m < j ==> keys@[m] != k,
            decreases keys@.len() - j,
        {
            j = j + 1;
        }
        if j < keys.len() {
            let ghost old_groups = groups@;
            let mut g = groups.remove(j);
            g.push(v);
            groups.insert(j, g);
            proof {
                assert forall|m: int| 0 <= m < groups@.len() implies #[trigger] groups@[m]@ == values_for(next, keys@[m]) by {
                    if m != j {
                        assert(groups@[m] == old_groups[m]);
                    }
                }
            }
        } else {
            proof {
                assert(!keys@.contains(k));
            }
            let ghost old_keys = keys@;
            let mut g: Vec<V> = Vec::new();
            g.push(v);
            keys.push(k);
            groups.push(g);
            proof {
                assert(g@ =~= values_for(prev, k).push(v));
                assert forall|a: int, b: int| 0 <= a < b < keys@.len() implies keys@[a] != keys@[b] by {
                    if b == keys@.len() - 1 {
                        assert(keys@[b] == k);
                        assert(keys@.drop_last().contains(keys@[a]) || keys@[a] != k);
                    }
                }
                assert forall|kk: u64| !keys@.contains(kk) implies values_for(next, kk).len() == 0 by {
                    if old_keys.contains(kk) {
                        let w = choose|w: int| 0 <= w < old_keys.len() && old_keys[w] == kk;
                        assert(keys@[w] == kk);
                    }
                    assert(keys@[keys@.len() - 1] == k);
                    assert(values_for(next, kk) == values_for(prev, kk));
                }
            }
        }
        i = i + 1;
    }
    assert(pairs@.take(i as int) =~= pairs@);
    (keys, groups)
}

/// The messages that a data output writes for `elements`: one per element,
/// in order, each holding the element's delimited encoding under `key`.
pub open spec fn output_messages(elements: Seq<Element>, coder: StandardCoder, key: StreamKey) -> Seq<
    (StreamKey, Option<Seq<u8>>),
> {
    Seq::new(
        elements.len(),
        |i: int| (key, Some(element_encoding(coder, elements[i]@, Context::Delimited))),
    )
}

/// Encodes each element with `coder` and writes it to the channel under
/// `key`.
pub fn data_output(elements: &Vec<Element>, coder: &StandardCoder, key: StreamKey, channel: &mut DataChannel)
    requires
        forall|i: int| 0 <= i < elements@.len() ==> has_kind(*coder, #[trigger] elements@[i]@),
    ensures
        final(channel)@ == old(channel)@ + output_messages(elements@, *coder, key),
{
    let mut i: usize = 0;
    while i < elements.len()
        invariant
            i <= elements@.len(),
            forall|i: int| 0 <= i < elements@.len() ==> has_kind(*coder, #[trigger] elements@[i]@),
            channel@ == old(channel)@ + output_messages(elements@.take(i as int), *coder, key),
        decreases elements@.len() - i,
    {
        let mut bytes: Vec<u8> = Vec::new();
        encode_element(coder, &elements[i], &mut bytes, Context::Delimited);
        assert(bytes@ =~= element_encoding(*coder, elements@[i as int]@, Context::Delimited));
        channel.write(key, bytes);
        i = i + 1;
        assert(output_messages(elements@.take(i as int), *coder, key) =~= output_messages(
            elements@.take(i - 1),
            *coder,
            key,
        ).push((key, Some(element_encoding(*coder, elements@[i - 1]@, Context::Delimited)))));
    }
    assert(elements@.take(i as int) =~= elements@);
}

/// Runs the stage Impulse, then a ParDo with element function `f`, then a
/// DataOutput under `key`: the channel receives exactly the outputs that `f`
/// gave for the impulse, one encoded message each, under `key`.
pub fn run_impulse_stage<F: Fn(&Element) -> Vec<Element>>(
    f: F,
    coder: &StandardCoder,
    key: StreamKey,
    channel: &mut DataChannel,
)
    requires
        forall|x: &Element| f.requires((x,)),
        forall|x: &Element, out: Vec<Element>| #[trigger]
            f.ensures((x,), out) ==> forall|i: int|
                0 <= i < out@.len() ==> has_kind(*coder, #[trigger] out@[i]@),
    ensures
        exists|seed: Element, out: Vec<Element>|
            seed@ == ElemValue::Bytes(impulse_bytes()) && #[trigger] f.ensures((&seed,), out)
                && final(channel)@ == old(channel)@ + output_messages(out@, *coder, key),
{
    let seeds = impulse();
    let outs = par_do(&seeds, f);
    proof {
        let w = choose|w: Seq<Vec<Element>>| par_do_outputs(seeds@, f, w, outs@);
        assert(w.len() == 1);
        assert(f.ensures((&seeds@[0],), w[0]));
        assert(w.drop_first() =~= Seq::<Vec<Element>>::empty());
        assert(w =~= seq![w[0]]);
        lemma_concat_vecs_single(w[0]);
    }
    data_output(&outs, coder, key, channel);
    proof {
        let w = choose|w: Seq<Vec<Element>>| par_do_outputs(seeds@, f, w, outs@);
        assert(f.ensures((&seeds@[0],), w[0]));
        assert(output_messages(outs@, *coder, key) == output_messages(w[0]@, *coder, key));
    }
}


/// What a data input reads from one stream's bytes: delimited elements, one
/// after another, up to the end of the bytes.
pub open spec fn stream_decoding(c: StandardCoder, s: Seq<u8>) -> Result<Seq<ElemValue>, DecodeError>
    decreases s.len(),
{
    if s.len() == 0 {
        Ok(Seq::empty())
    } else {
        match element_decoding(c, s, Context::Delimited) {
            Err(e) => Err(e),
            Ok((v, n)) => if 0 < n <= s.len() {
                prepend_values(seq![v], stream_decoding(c, s.subrange(n as int, s.len() as int)))
            } else {
                Err(DecodeError::Truncated)
            },
        }
    }
}

/// `r` with `vs` in front of its values.
pub open spec fn prepend_values(vs: Seq<ElemValue>, r: Result<Seq<ElemValue>, DecodeError>) -> Result<
    Seq<ElemValue>,
    DecodeError,
> {
    match r {
        Ok(ws) => Ok(vs + ws),
        Err(e) => Err(e),
    }
}

/// The delimited encodings of `vs`, one after another.
pub open spec fn stream_encoding(c: StandardCoder, vs: Seq<ElemValue>) -> Seq<u8>
    decreases vs.len(),
{
    if vs.len() == 0 {
        Seq::empty()
    } else {
        element_encoding(c, vs[0], Context::Delimited) + stream_encoding(c, vs.drop_first())
    }
}

pub open spec fn values_of(es: Seq<Element>) -> Seq<ElemValue> {
    es.map_values(|e: Element| e@)
}

/// Reads every element of one inbound stream, decoding each with `coder`.
pub fn data_input(coder: &StandardCoder, input: &[u8]) -> (r: Result<Vec<Element>, DecodeError>)
    ensures
        match stream_decoding(*coder, input@) {
            Ok(vs) => r matches Ok(es) && values_of(es@) == vs,
            Err(e) => r matches Err(f) && f == e,
        },
{
    let mut out: Vec<Element> = Vec::new();
    let mut pos: usize = 0;
    proof {
        assert(input@.subrange(0, input@.len() as int) =~= input@);
        assert(values_of(out@) =~= Seq::<ElemValue>::empty());
        match stream_decoding(*coder, input@) {
            Ok(ws) => {
                assert(Seq::<ElemValue>::empty() + ws =~= ws);
            },
            Err(_) => {},
        }
    }
    while pos < input.len()
        invariant
            pos <= input@.len(),
            stream_decoding(*coder, input@) == prepend_values(
                values_of(out@),
                stream_decoding(*coder, input@.subrange(pos as int, input@.len() as int)),
            ),
        decreases input@.len() - pos,
    {
        let rest = slice_subrange(input, pos, input.len());
        match decode_element(coder, rest, Context::Delimited) {
            Err(e) => {
                return Err(e);
            },
            Ok((e, n)) => {
                proof {
                    lemma_decoding_consumes(*coder, rest@, Context::Delimited);
                    assert(rest@.subrange(n as int, rest@.len() as int) =~= input@.subrange(
                        pos + n,
                        input@.len() as int,
                    ));
                    assert(values_of(out@.push(e)) =~= values_of(out@) + seq![e@]);
                    assert(values_of(out@) + (seq![e@] + Seq::<ElemValue>::empty()) =~= values_of(out@) + seq![e@]);
                    match stream_decoding(*coder, input@.subrange(pos + n, input@.len() as int)) {
                        Ok(ws) => {
                            assert(values_of(out@) + (seq![e@] + ws) =~= values_of(out@.push(e)) + ws);
                        },
                        Err(_) => {},
                    }
                }
                out.push(e);
                pos = pos + n;
            },
        }
    }
    proof {
        assert(input@.subrange(pos as int, input@.len() as int) =~= Seq::<u8>::empty());
        assert(values_of(out@) + Seq::<ElemValue>::empty() =~= values_of(out@));
    }
    Ok(out)
}

/// Elements written one after another with their delimited encodings read
/// back, in order, as the same elements.
pub proof fn lemma_stream_round_trip(c: StandardCoder, vs: Seq<ElemValue>)
    requires
        forall|i: int| 0 <= i < vs.len() ==> has_kind(c, #[trigger] vs[i]) && lengths_fit(vs[i]),
    ensures
        stream_decoding(c, stream_encoding(c, vs)) == Ok::<Seq<ElemValue>, DecodeError>(vs),
    decreases vs.len(),
{
    if vs.len() == 0 {
        assert(vs =~= Seq::<ElemValue>::empty());
        assert(stream_encoding(c, vs) =~= Seq::<u8>::empty());
    } else {
        let first = element_encoding(c, vs[0], Context::Delimited);
        let tail = stream_encoding(c, vs.drop_first());
        let s = first + tail;
        assert(has_kind(c, vs[0]) && lengths_fit(vs[0]));
        lemma_element_round_trip(c, vs[0], Context::Delimited, tail);
        lemma_decoding_consumes(c, s, Context::Delimited);
        lemma_stream_round_trip(c, vs.drop_first());
        assert(s.subrange(first.len() as int, s.len() as int) =~= tail);
        assert(seq![vs[0]] + vs.drop_first() =~= vs);
        assert(stream_encoding(c, vs) == s);
        assert(element_decoding(c, s, Context::Delimited) == Ok::<(ElemValue, nat), DecodeError>((vs[0], first.len())));
        assert(s.len() > 0);
        assert(stream_decoding(c, s) == prepend_values(seq![vs[0]], stream_decoding(c, tail)));
    }
}

} // verus!
