//! A self-describing binary encoding of [`SourceData`] for the on-disk cache.
//!
//! The format is length-prefixed throughout: a `u64` little-endian byte count
//! before every string, and a `u64` element count before every list. The
//! decoder inverts the encoder exactly; [`lemma_codec_round_trip`] states the
//! round trip for every bounded value.

use vstd::prelude::*;

verus! {

use vstd::bytes::{
    spec_u64_to_le_bytes,
    spec_u64_from_le_bytes,
    lemma_auto_spec_u64_to_from_le_bytes,
    u64_to_le_bytes,
    u64_from_le_bytes,
};
use vstd::utf8::{valid_utf8, decode_utf8, encode_utf8};
use vstd::string::StringSliceAdditionalSpecFns;
use crate::parsing::{OptText, OptTextModel};
use crate::source::{Source, SourceConfig, SourceConfigModel, SourceData, SourceDataModel};
use crate::text::utf8_to_string;

/// `n` is representable as a `u64` length prefix.
pub open spec fn fits_u64(n: nat) -> bool {
    n < 0x1_0000_0000_0000_0000
}

pub open spec fn enc_u64(x: u64) -> Seq<u8> {
    spec_u64_to_le_bytes(x)
}

pub open spec fn enc_bytes(v: Seq<u8>) -> Seq<u8> {
    enc_u64(v.len() as u64) + v
}

pub open spec fn enc_str(s: Seq<char>) -> Seq<u8> {
    enc_bytes(encode_utf8(s))
}

pub open spec fn enc_opt_str(s: Option<Seq<char>>) -> Seq<u8> {
    match s {
        None => seq![0u8],
        Some(v) => seq![1u8] + enc_str(v),
    }
}

/// The concatenated encodings of the strings of `l`, first string first.
pub open spec fn enc_str_items(l: Seq<Seq<char>>) -> Seq<u8>
    decreases l.len(),
{
    if l.len() == 0 {
        Seq::empty()
    } else {
        enc_str(l.first()) + enc_str_items(l.drop_first())
    }
}

pub open spec fn enc_str_list(l: Seq<Seq<char>>) -> Seq<u8> {
    enc_u64(l.len() as u64) + enc_str_items(l)
}

pub open spec fn enc_record(m: OptTextModel) -> Seq<u8> {
    enc_str(m.id) + (enc_str(m.name) + (enc_str(m.description) + (enc_str(m.var_type) + (enc_str(
        m.default,
    ) + (enc_str(m.example) + (enc_str(m.declared_by) + enc_str_list(m.declared_by_urls)))))))
}

/// The concatenated encodings of the records of `l`, first record first.
pub open spec fn enc_record_items(l: Seq<OptTextModel>) -> Seq<u8>
    decreases l.len(),
{
    if l.len() == 0 {
        Seq::empty()
    } else {
        enc_record(l.first()) + enc_record_items(l.drop_first())
    }
}

pub open spec fn enc_record_list(l: Seq<OptTextModel>) -> Seq<u8> {
    enc_u64(l.len() as u64) + enc_record_items(l)
}

pub open spec fn enc_config(c: SourceConfigModel) -> Seq<u8> {
    enc_str(c.name) + (enc_str(c.url) + enc_opt_str(c.version_url))
}

pub open spec fn enc_source_data(m: SourceDataModel) -> Seq<u8> {
    enc_config(m.source) + (enc_record_list(m.opts) + enc_str(m.version))
}

/// Every length that the encoding writes fits its `u64` prefix.
pub open spec fn record_bounded(m: OptTextModel) -> bool {
    &&& fits_u64(encode_utf8(m.id).len())
    &&& fits_u64(encode_utf8(m.name).len())
    &&& fits_u64(encode_utf8(m.description).len())
    &&& fits_u64(encode_utf8(m.var_type).len())
    &&& fits_u64(encode_utf8(m.default).len())
    &&& fits_u64(encode_utf8(m.example).len())
    &&& fits_u64(encode_utf8(m.declared_by).len())
    &&& fits_u64(m.declared_by_urls.len())
    &&& forall|i: int|
        0 <= i < m.declared_by_urls.len() ==> fits_u64(
            encode_utf8(#[trigger] m.declared_by_urls[i]).len(),
        )
}

pub open spec fn config_bounded(c: SourceConfigModel) -> bool {
    &&& fits_u64(encode_utf8(c.name).len())
    &&& fits_u64(encode_utf8(c.url).len())
    &&& match c.version_url {
        Some(v) => fits_u64(encode_utf8(v).len()),
        None => true,
    }
}

pub open spec fn model_bounded(m: SourceDataModel) -> bool {
    &&& config_bounded(m.source)
    &&& fits_u64(m.opts.len())
    &&& forall|i: int| 0 <= i < m.opts.len() ==> record_bounded(#[trigger] m.opts[i])
    &&& fits_u64(encode_utf8(m.version).len())
}

pub open spec fn dec_u64(b: Seq<u8>, i: int) -> Option<(u64, int)> {
    if 0 <= i && i + 8 <= b.len() {
        Some((spec_u64_from_le_bytes(b.subrange(i, i + 8)), i + 8))
    } else {
        None
    }
}

pub open spec fn dec_bytes(b: Seq<u8>, i: int) -> Option<(Seq<u8>, int)> {
    match dec_u64(b, i) {
        None => None,
        Some((n, j)) => if j + n <= b.len() {
            Some((b.subrange(j, j + n), j + n))
        } else {
            None
        },
    }
}

pub open spec fn dec_str(b: Seq<u8>, i: int) -> Option<(Seq<char>, int)> {
    match dec_bytes(b, i) {
        None => None,
        Some((v, j)) => if valid_utf8(v) {
            Some((decode_utf8(v), j))
        } else {
            None
        },
    }
}

pub open spec fn dec_opt_str(b: Seq<u8>, i: int) -> Option<(Option<Seq<char>>, int)> {
    if 0 <= i && i < b.len() {
        if b[i] == 0 {
            Some((None, i + 1))
        } else if b[i] == 1 {
            match dec_str(b, i + 1) {
                None => None,
                Some((s, j)) => Some((Some(s), j)),
            }
        } else {
            None
        }
    } else {
        None
    }
}

pub open spec fn dec_str_items(b: Seq<u8>, i: int, n: nat) -> Option<(Seq<Seq<char>>, int)>
    decreases n,
{
    if n == 0 {
        Some((Seq::empty(), i))
    } else {
        match dec_str(b, i) {
            None => None,
            Some((s, j)) => match dec_str_items(b, j, (n - 1) as nat) {
                None => None,
                Some((l, k)) => Some((seq![s] + l, k)),
            },
        }
    }
}

pub open spec fn dec_str_list(b: Seq<u8>, i: int) -> Option<(Seq<Seq<char>>, int)> {
    match dec_u64(b, i) {
        None => None,
        Some((n, j)) => dec_str_items(b, j, n as nat),
    }
}

pub open spec fn dec_record(b: Seq<u8>, i: int) -> Option<(OptTextModel, int)> {
    match dec_str(b, i) {
        None => None,
        Some((id, i1)) => match dec_str(b, i1) {
            None => None,
            Some((name, i2)) => match dec_str(b, i2) {
                None => None,
                Some((description, i3)) => match dec_str(b, i3) {
                    None => None,
                    Some((var_type, i4)) => match dec_str(b, i4) {
                        None => None,
                        Some((default, i5)) => match dec_str(b, i5) {
                            None => None,
                            Some((example, i6)) => match dec_str(b, i6) {
                                None => None,
                                Some((declared_by, i7)) => match dec_str_list(b, i7) {
                                    None => None,
                                    Some((urls, i8)) => Some(
                                        (
                                            OptTextModel {
                                                id,
                                                name,
                                                description,
                                                var_type,
                                                default,
                                                example,
                                                declared_by,
                                                declared_by_urls: urls,
                                            },
                                            i8,
                                        ),
                                    ),
                                },
                            },
                        },
                    },
                },
            },
        },
    }
}

pub open spec fn dec_record_items(b: Seq<u8>, i: int, n: nat) -> Option<(Seq<OptTextModel>, int)>
    decreases n,
{
    if n == 0 {
        Some((Seq::empty(), i))
    } else {
        match dec_record(b, i) {
            None => None,
            Some((m, j)) => match dec_record_items(b, j, (n - 1) as nat) {
                None => None,
                Some((l, k)) => Some((seq![m] + l, k)),
            },
        }
    }
}

pub open spec fn dec_record_list(b: Seq<u8>, i: int) -> Option<(Seq<OptTextModel>, int)> {
    match dec_u64(b, i) {
        None => None,
        Some((n, j)) => dec_record_items(b, j, n as nat),
    }
}

pub open spec fn dec_config(b: Seq<u8>, i: int) -> Option<(SourceConfigModel, int)> {
    match dec_str(b, i) {
        None => None,
        Some((name, i1)) => match dec_str(b, i1) {
            None => None,
            Some((url, i2)) => match dec_opt_str(b, i2) {
                None => None,
                Some((version_url, i3)) => Some((SourceConfigModel { name, url, version_url }, i3)),
            },
        },
    }
}

pub open spec fn dec_source_data(b: Seq<u8>, i: int) -> Option<(SourceDataModel, int)> {
    match dec_config(b, i) {
        None => None,
        Some((source, i1)) => match dec_record_list(b, i1) {
            None => None,
            Some((opts, i2)) => match dec_str(b, i2) {
                None => None,
                Some((version, i3)) => Some((SourceDataModel { source, opts, version }, i3)),
            },
        },
    }
}

proof fn lemma_subrange_split(b: Seq<u8>, i: int, x: Seq<u8>, y: Seq<u8>)
    requires
        0 <= i,
        i + x.len() + y.len() <= b.len(),
        b.subrange(i, i + x.len() + y.len()) == x + y,
    ensures
        b.subrange(i, i + x.len()) == x,
        b.subrange(i + x.len(), i + x.len() + y.len()) == y,
{
    let whole = b.subrange(i, i + x.len() + y.len());
    assert(b.subrange(i, i + x.len()) =~= x) by {
        assert(forall|k: int|
            0 <= k < x.len() ==> b.subrange(i, i + x.len())[k] == whole[k] && whole[k] == (x + y)[k]
                && (x + y)[k] == x[k]);
    }
    assert(b.subrange(i + x.len(), i + x.len() + y.len()) =~= y) by {
        assert(forall|k: int|
            0 <= k < y.len() ==> b.subrange(i + x.len(), i + x.len() + y.len())[k] == whole[x.len()
                + k] && whole[x.len() + k] == (x + y)[x.len() + k] && (x + y)[x.len() + k] == y[k]);
    }
}

proof fn lemma_dec_u64_enc(b: Seq<u8>, i: int, x: u64)
    requires
        0 <= i,
        i + 8 <= b.len(),
        b.subrange(i, i + 8) == enc_u64(x),
    ensures
        dec_u64(b, i) == Some((x, i + 8)),
{
    lemma_auto_spec_u64_to_from_le_bytes();
}

proof fn lemma_enc_u64_len(x: u64)
    ensures
        enc_u64(x).len() == 8,
{
    lemma_auto_spec_u64_to_from_le_bytes();
}

proof fn lemma_dec_bytes_enc(b: Seq<u8>, i: int, v: Seq<u8>)
    requires
        0 <= i,
        fits_u64(v.len()),
        i + enc_bytes(v).len() <= b.len(),
        b.subrange(i, i + enc_bytes(v).len()) == enc_bytes(v),
    ensures
        dec_bytes(b, i) == Some((v, i + enc_bytes(v).len())),
        enc_bytes(v).len() == 8 + v.len(),
{
    lemma_enc_u64_len(v.len() as u64);
    lemma_subrange_split(b, i, enc_u64(v.len() as u64), v);
    lemma_dec_u64_enc(b, i, v.len() as u64);
    assert(v.len() as u64 as int == v.len() as int);
    assert(b.subrange(i + 8, i + 8 + v.len()) == v);
}

proof fn lemma_dec_str_enc(b: Seq<u8>, i: int, s: Seq<char>)
    requires
        0 <= i,
        fits_u64(encode_utf8(s).len()),
        i + enc_str(s).len() <= b.len(),
        b.subrange(i, i + enc_str(s).len()) == enc_str(s),
    ensures
        dec_str(b, i) == Some((s, i + enc_str(s).len())),
        enc_str(s).len() == 8 + encode_utf8(s).len(),
{
    broadcast use vstd::utf8::encode_utf8_valid_utf8, vstd::utf8::encode_utf8_decode_utf8;

    lemma_dec_bytes_enc(b, i, encode_utf8(s));
}

proof fn lemma_dec_opt_str_enc(b: Seq<u8>, i: int, s: Option<Seq<char>>)
    requires
        0 <= i,
        (s matches Some(v) ==> fits_u64(encode_utf8(v).len())),
        i + enc_opt_str(s).len() <= b.len(),
        b.subrange(i, i + enc_opt_str(s).len()) == enc_opt_str(s),
    ensures
        dec_opt_str(b, i) == Some((s, i + enc_opt_str(s).len())),
{
    match s {
        None => {
            assert(b[i] == enc_opt_str(s)[0]);
        },
        Some(v) => {
            lemma_subrange_split(b, i, seq![1u8], enc_str(v));
            assert(b[i] == b.subrange(i, i + 1)[0]);
            lemma_dec_str_enc(b, i + 1, v);
        },
    }
}

proof fn lemma_dec_str_items_enc(b: Seq<u8>, i: int, l: Seq<Seq<char>>)
    requires
        0 <= i,
        forall|k: int| 0 <= k < l.len() ==> fits_u64(encode_utf8(#[trigger] l[k]).len()),
        i + enc_str_items(l).len() <= b.len(),
        b.subrange(i, i + enc_str_items(l).len()) == enc_str_items(l),
    ensures
        dec_str_items(b, i, l.len()) == Some((l, i + enc_str_items(l).len())),
    decreases l.len(),
{
    if l.len() == 0 {
        assert(dec_str_items(b, i, 0) == Some((Seq::<Seq<char>>::empty(), i)));
        assert(l =~= Seq::<Seq<char>>::empty());
    } else {
        let x = enc_str(l.first());
        let y = enc_str_items(l.drop_first());
        lemma_subrange_split(b, i, x, y);
        lemma_dec_str_enc(b, i, l.first());
        lemma_dec_str_items_enc(b, i + x.len(), l.drop_first());
        assert(seq![l.first()] + l.drop_first() =~= l);
    }
}

proof fn lemma_dec_str_list_enc(b: Seq<u8>, i: int, l: Seq<Seq<char>>)
    requires
        0 <= i,
        fits_u64(l.len()),
        forall|k: int| 0 <= k < l.len() ==> fits_u64(encode_utf8(#[trigger] l[k]).len()),
        i + enc_str_list(l).len() <= b.len(),
        b.subrange(i, i + enc_str_list(l).len()) == enc_str_list(l),
    ensures
        dec_str_list(b, i) == Some((l, i + enc_str_list(l).len())),
{
    lemma_enc_u64_len(l.len() as u64);
    lemma_subrange_split(b, i, enc_u64(l.len() as u64), enc_str_items(l));
    lemma_dec_u64_enc(b, i, l.len() as u64);
    assert(l.len() as u64 as nat == l.len());
    lemma_dec_str_items_enc(b, i + 8, l);
}

proof fn lemma_dec_record_enc(b: Seq<u8>, i: int, m: OptTextModel)
    requires
        0 <= i,
        record_bounded(m),
        i + enc_record(m).len() <= b.len(),
        b.subrange(i, i + enc_record(m).len()) == enc_record(m),
    ensures
        dec_record(b, i) == Some((m, i + enc_record(m).len())),
{
    let e1 = enc_str(m.id);
    let e2 = enc_str(m.name);
    let e3 = enc_str(m.description);
    let e4 = enc_str(m.var_type);
    let e5 = enc_str(m.default);
    let e6 = enc_str(m.example);
    let e7 = enc_str(m.declared_by);
    let e8 = enc_str_list(m.declared_by_urls);
    let i0 = i;
    lemma_subrange_split(b, i0, e1, e2 + (e3 + (e4 + (e5 + (e6 + (e7 + e8))))));
    lemma_dec_str_enc(b, i0, m.id);
    let i1 = i0 + e1.len();
    lemma_subrange_split(b, i1, e2, e3 + (e4 + (e5 + (e6 + (e7 + e8)))));
    lemma_dec_str_enc(b, i1, m.name);
    let i2 = i1 + e2.len();
    lemma_subrange_split(b, i2, e3, e4 + (e5 + (e6 + (e7 + e8))));
    lemma_dec_str_enc(b, i2, m.description);
    let i3 = i2 + e3.len();
    lemma_subrange_split(b, i3, e4, e5 + (e6 + (e7 + e8)));
    lemma_dec_str_enc(b, i3, m.var_type);
    let i4 = i3 + e4.len();
    lemma_subrange_split(b, i4, e5, e6 + (e7 + e8));
    lemma_dec_str_enc(b, i4, m.default);
    let i5 = i4 + e5.len();
    lemma_subrange_split(b, i5, e6, e7 + e8);
    lemma_dec_str_enc(b, i5, m.example);
    let i6 = i5 + e6.len();
    lemma_subrange_split(b, i6, e7, e8);
    lemma_dec_str_enc(b, i6, m.declared_by);
    let i7 = i6 + e7.len();
    lemma_dec_str_list_enc(b, i7, m.declared_by_urls);
}

proof fn lemma_dec_record_items_enc(b: Seq<u8>, i: int, l: Seq<OptTextModel>)
    requires
        0 <= i,
        forall|k: int| 0 <= k < l.len() ==> record_bounded(#[trigger] l[k]),
        i + enc_record_items(l).len() <= b.len(),
        b.subrange(i, i + enc_record_items(l).len()) == enc_record_items(l),
    ensures
        dec_record_items(b, i, l.len()) == Some((l, i + enc_record_items(l).len())),
    decreases l.len(),
{
    if l.len() == 0 {
        assert(l =~= Seq::<OptTextModel>::empty());
    } else {
        let x = enc_record(l.first());
        let y = enc_record_items(l.drop_first());
        lemma_subrange_split(b, i, x, y);
        lemma_dec_record_enc(b, i, l.first());
        lemma_dec_record_items_enc(b, i + x.len(), l.drop_first());
        assert(seq![l.first()] + l.drop_first() =~= l);
    }
}

proof fn lemma_dec_record_list_enc(b: Seq<u8>, i: int, l: Seq<OptTextModel>)
    requires
        0 <= i,
        fits_u64(l.len()),
        forall|k: int| 0 <= k < l.len() ==> record_bounded(#[trigger] l[k]),
        i + enc_record_list(l).len() <= b.len(),
        b.subrange(i, i + enc_record_list(l).len()) == enc_record_list(l),
    ensures
        dec_record_list(b, i) == Some((l, i + enc_record_list(l).len())),
{
    lemma_enc_u64_len(l.len() as u64);
    lemma_subrange_split(b, i, enc_u64(l.len() as u64), enc_record_items(l));
    lemma_dec_u64_enc(b, i, l.len() as u64);
    assert(l.len() as u64 as nat == l.len());
    lemma_dec_record_items_enc(b, i + 8, l);
}

proof fn lemma_dec_config_enc(b: Seq<u8>, i: int, c: SourceConfigModel)
    requires
        0 <= i,
        config_bounded(c),
        i + enc_config(c).len() <= b.len(),
        b.subrange(i, i + enc_config(c).len()) == enc_config(c),
    ensures
        dec_config(b, i) == Some((c, i + enc_config(c).len())),
{
    let e1 = enc_str(c.name);
    let e2 = enc_str(c.url);
    let e3 = enc_opt_str(c.version_url);
    lemma_subrange_split(b, i, e1, e2 + e3);
    lemma_dec_str_enc(b, i, c.name);
    let i1 = i + e1.len();
    lemma_subrange_split(b, i1, e2, e3);
    lemma_dec_str_enc(b, i1, c.url);
    let i2 = i1 + e2.len();
    lemma_dec_opt_str_enc(b, i2, c.version_url);
}

/// Decoding inverts encoding: the decoder applied to the encoding of any
/// bounded value yields that value back, consuming the whole encoding.
pub proof fn lemma_codec_round_trip(m: SourceDataModel)
    requires
        model_bounded(m),
    ensures
        dec_source_data(enc_source_data(m), 0) == Some((m, enc_source_data(m).len() as int)),
{
    let b = enc_source_data(m);
    let e1 = enc_config(m.source);
    let e2 = enc_record_list(m.opts);
    let e3 = enc_str(m.version);
    assert(b.subrange(0, b.len() as int) =~= b);
    lemma_subrange_split(b, 0, e1, e2 + e3);
    lemma_dec_config_enc(b, 0, m.source);
    let i1 = e1.len() as int;
    lemma_subrange_split(b, i1, e2, e3);
    lemma_dec_record_list_enc(b, i1, m.opts);
    let i2 = i1 + e2.len();
    lemma_dec_str_enc(b, i2, m.version);
}

fn push_u64(out: &mut Vec<u8>, x: u64)
    ensures
        final(out)@ == old(out)@ + enc_u64(x),
{
    proof {
        lemma_auto_spec_u64_to_from_le_bytes();
    }
    let mut b = u64_to_le_bytes(x);
    out.append(&mut b);
}

fn push_str(out: &mut Vec<u8>, s: &str)
    ensures
        final(out)@ == old(out)@ + enc_str(s@),
        fits_u64(encode_utf8(s@).len()),
{
    let bytes = s.as_bytes();
    let n: usize = bytes.len();
    push_u64(out, n as u64);
    let mut copy = vstd::slice::slice_to_vec(bytes);
    out.append(&mut copy);
    assert(out@ =~= old(out)@ + enc_str(s@));
}

fn push_opt_str(out: &mut Vec<u8>, s: &Option<String>)
    ensures
        final(out)@ == old(out)@ + enc_opt_str(
            match s {
                Some(v) => Some(v@),
                None => None,
            },
        ),
        (s matches Some(v) ==> fits_u64(encode_utf8(v@).len())),
{
    match s {
        None => {
            out.push(0u8);
            assert(out@ =~= old(out)@ + seq![0u8]);
        },
        Some(v) => {
            out.push(1u8);
            assert(out@ =~= old(out)@ + seq![1u8]);
            push_str(out, v.as_str());
            assert(out@ =~= old(out)@ + enc_opt_str(Some(v@)));
        },
    }
}

proof fn lemma_enc_str_items_snoc(l: Seq<Seq<char>>, x: Seq<char>)
    ensures
        enc_str_items(l.push(x)) == enc_str_items(l) + enc_str(x),
    decreases l.len(),
{
    if l.len() == 0 {
        assert(l.push(x).first() == x);
        assert(l.push(x).drop_first() =~= Seq::<Seq<char>>::empty());
        assert(enc_str_items(Seq::<Seq<char>>::empty()) == Seq::<u8>::empty());
        assert(enc_str_items(l) + enc_str(x) =~= enc_str(x) + Seq::<u8>::empty());
        assert(enc_str(x) + Seq::<u8>::empty() =~= enc_str(x));
    } else {
        assert(l.push(x).first() == l.first());
        assert(l.push(x).drop_first() =~= l.drop_first().push(x));
        lemma_enc_str_items_snoc(l.drop_first(), x);
        assert(enc_str(l.first()) + (enc_str_items(l.drop_first()) + enc_str(x)) =~= (enc_str(
            l.first(),
        ) + enc_str_items(l.drop_first())) + enc_str(x));
    }
    assert(enc_str_items(l.push(x)) =~= enc_str_items(l) + enc_str(x));
}

proof fn lemma_enc_record_items_snoc(l: Seq<OptTextModel>, x: OptTextModel)
    ensures
        enc_record_items(l.push(x)) == enc_record_items(l) + enc_record(x),
    decreases l.len(),
{
    if l.len() == 0 {
        assert(l.push(x).first() == x);
        assert(l.push(x).drop_first() =~= Seq::<OptTextModel>::empty());
        assert(enc_record_items(Seq::<OptTextModel>::empty()) == Seq::<u8>::empty());
        assert(enc_record_items(l) + enc_record(x) =~= enc_record(x) + Seq::<u8>::empty());
        assert(enc_record(x) + Seq::<u8>::empty() =~= enc_record(x));
    } else {
        assert(l.push(x).first() == l.first());
        assert(l.push(x).drop_first() =~= l.drop_first().push(x));
        lemma_enc_record_items_snoc(l.drop_first(), x);
        assert(enc_record(l.first()) + (enc_record_items(l.drop_first()) + enc_record(x)) =~= (
        enc_record(l.first()) + enc_record_items(l.drop_first())) + enc_record(x));
    }
    assert(enc_record_items(l.push(x)) =~= enc_record_items(l) + enc_record(x));
}

fn push_str_list(out: &mut Vec<u8>, l: &Vec<String>)
    ensures
        final(out)@ == old(out)@ + enc_str_list(l.deep_view()),
        fits_u64(l.deep_view().len()),
        forall|k: int|
            0 <= k < l.deep_view().len() ==> fits_u64(
                encode_utf8(#[trigger] l.deep_view()[k]).len(),
            ),
{
    let ghost dl = l.deep_view();
    let n: usize = l.len();
    push_u64(out, n as u64);
    let ghost base = out@;
    let mut i: usize = 0;
    while i < n
        invariant
            0 <= i <= n,
            n == l@.len(),
            dl == l.deep_view(),
            dl.len() == n,
            out@ == base + enc_str_items(dl.take(i as int)),
            forall|k: int| 0 <= k < i ==> fits_u64(encode_utf8(#[trigger] dl[k]).len()),
        decreases n - i,
    {
        push_str(out, l[i].as_str());
        proof {
            assert(dl[i as int] == l@[i as int]@);
            assert(dl.take(i + 1) =~= dl.take(i as int).push(dl[i as int]));
            lemma_enc_str_items_snoc(dl.take(i as int), dl[i as int]);
            assert(out@ =~= base + enc_str_items(dl.take(i + 1)));
        }
        i = i + 1;
    }
    proof {
        assert(dl.take(n as int) =~= dl);
        assert(out@ =~= old(out)@ + enc_str_list(dl));
    }
}

fn push_record(out: &mut Vec<u8>, o: &OptText)
    ensures
        final(out)@ == old(out)@ + enc_record(o.model()),
        record_bounded(o.model()),
{
    push_str(out, o.id.as_str());
    push_str(out, o.name.as_str());
    push_str(out, o.description.as_str());
    push_str(out, o.var_type.as_str());
    push_str(out, o.default.as_str());
    push_str(out, o.example.as_str());
    push_str(out, o.declared_by.as_str());
    push_str_list(out, &o.declared_by_urls);
    assert(out@ =~= old(out)@ + enc_record(o.model()));
}

/// Encodes a [`SourceData`] to its binary cache form.
pub fn encode_source_data(d: &SourceData) -> (r: Vec<u8>)
    ensures
        r@ == enc_source_data(d.model()),
        model_bounded(d.model()),
{
    let mut out: Vec<u8> = Vec::new();
    push_str(&mut out, d.source.inner.name.as_str());
    push_str(&mut out, d.source.inner.url.as_str());
    push_opt_str(&mut out, &d.source.inner.version_url);
    let ghost after_config = out@;
    assert(after_config =~= enc_config(d.model().source));
    let ghost om = d.opts@.map_values(|o: OptText| o.model());
    let n: usize = d.opts.len();
    push_u64(&mut out, n as u64);
    let ghost base = out@;
    let mut i: usize = 0;
    while i < n
        invariant
            0 <= i <= n,
            n == d.opts@.len(),
            om == d.opts@.map_values(|o: OptText| o.model()),
            om.len() == n,
            out@ == base + enc_record_items(om.take(i as int)),
            forall|k: int| 0 <= k < i ==> record_bounded(#[trigger] om[k]),
        decreases n - i,
    {
        push_record(&mut out, &d.opts[i]);
        proof {
            assert(om[i as int] == d.opts@[i as int].model());
            assert(om.take(i + 1) =~= om.take(i as int).push(om[i as int]));
            lemma_enc_record_items_snoc(om.take(i as int), om[i as int]);
            assert(out@ =~= base + enc_record_items(om.take(i + 1)));
        }
        i = i + 1;
    }
    proof {
        assert(om.take(n as int) =~= om);
    }
    push_str(&mut out, d.version.as_str());
    assert(out@ =~= enc_source_data(d.model()));
    out
}

fn read_u64(b: &[u8], i: usize) -> (r: Option<(u64, usize)>)
    requires
        i <= b@.len(),
    ensures
        match r {
            Some((x, j)) => dec_u64(b@, i as int) == Some((x, j as int)) && i < j <= b@.len(),
            None => dec_u64(b@, i as int) is None,
        },
{
    let n: usize = b.len();
    if n - i < 8 {
        return None;
    }
    let slice = vstd::slice::slice_subrange(b, i, i + 8);
    let x = u64_from_le_bytes(slice);
    Some((x, i + 8))
}

fn read_bytes(b: &[u8], i: usize) -> (r: Option<(Vec<u8>, usize)>)
    requires
        i <= b@.len(),
    ensures
        match r {
            Some((v, j)) => dec_bytes(b@, i as int) == Some((v@, j as int)) && i < j <= b@.len(),
            None => dec_bytes(b@, i as int) is None,
        },
{
    let n: usize = b.len();
    let Some((len64, j)) = read_u64(b, i) else { return None };
    if len64 > (n - j) as u64 {
        return None;
    }
    let len: usize = len64 as usize;
    let v = crate::text::subrange_vec(b, j, j + len);
    Some((v, j + len))
}

fn read_string(b: &[u8], i: usize) -> (r: Option<(String, usize)>)
    requires
        i <= b@.len(),
    ensures
        match r {
            Some((s, j)) => dec_str(b@, i as int) == Some((s@, j as int)) && i < j <= b@.len(),
            None => dec_str(b@, i as int) is None,
        },
{
    let Some((v, j)) = read_bytes(b, i) else { return None };
    match utf8_to_string(v) {
        Some(s) => Some((s, j)),
        None => None,
    }
}

fn read_opt_string(b: &[u8], i: usize) -> (r: Option<(Option<String>, usize)>)
    requires
        i <= b@.len(),
    ensures
        match r {
            Some((s, j)) => dec_opt_str(b@, i as int) == Some(
                (
                    match s {
                        Some(v) => Some(v@),
                        None => None,
                    },
                    j as int,
                ),
            ) && i < j <= b@.len(),
            None => dec_opt_str(b@, i as int) is None,
        },
{
    let n: usize = b.len();
    if i >= n {
        return None;
    }
    let tag = b[i];
    if tag == 0 {
        Some((None, i + 1))
    } else if tag == 1 {
        let Some((s, j)) = read_string(b, i + 1) else { return None };
        Some((Some(s), j))
    } else {
        None
    }
}

fn read_string_list(b: &[u8], i: usize) -> (r: Option<(Vec<String>, usize)>)
    requires
        i <= b@.len(),
    ensures
        match r {
            Some((l, j)) => dec_str_list(b@, i as int) == Some((l.deep_view(), j as int)) && i < j
                <= b@.len(),
            None => dec_str_list(b@, i as int) is None,
        },
{
    let Some((n64, j0)) = read_u64(b, i) else { return None };
    let mut out: Vec<String> = Vec::new();
    let mut j: usize = j0;
    let mut remaining: u64 = n64;
    proof {
        assert(out.deep_view() =~= Seq::<Seq<char>>::empty());
        match dec_str_items(b@, j0 as int, n64 as nat) {
            Some((l2, e)) => {
                assert(out.deep_view() + l2 =~= l2);
            },
            None => {},
        }
    }
    loop
        invariant
            j0 <= j <= b@.len(),
            i < j0,
            i <= b@.len(),
            remaining <= n64,
            dec_u64(b@, i as int) == Some((n64, j0 as int)),
            out@.len() == n64 - remaining,
            dec_str_items(b@, j0 as int, n64 as nat) == match dec_str_items(
                b@,
                j as int,
                remaining as nat,
            ) {
                Some((l2, e)) => Some((out.deep_view() + l2, e)),
                None => None,
            },
        decreases remaining,
    {
        if remaining == 0 {
            proof {
                assert(dec_str_items(b@, j as int, 0) == Some((Seq::<Seq<char>>::empty(), j as int)));
                assert(out.deep_view() + Seq::<Seq<char>>::empty() =~= out.deep_view());
            }
            return Some((out, j));
        }
        let ghost out0 = out.deep_view();
        let Some((s, j2)) = read_string(b, j) else {
            proof {
                assert(dec_str_items(b@, j as int, remaining as nat) is None);
            }
            return None;
        };
        out.push(s);
        proof {
            assert(out.deep_view() =~= out0.push(s@));
            assert forall|l2: Seq<Seq<char>>| true implies out0 + (seq![s@] + l2) =~= out0.push(s@)
                + l2 by {}
        }
        j = j2;
        remaining = remaining - 1;
    }
}

fn read_record(b: &[u8], i: usize) -> (r: Option<(OptText, usize)>)
    requires
        i <= b@.len(),
    ensures
        match r {
            Some((o, j)) => dec_record(b@, i as int) == Some((o.model(), j as int)) && i < j
                <= b@.len(),
            None => dec_record(b@, i as int) is None,
        },
{
    let Some((id, i1)) = read_string(b, i) else { return None };
    let Some((name, i2)) = read_string(b, i1) else { return None };
    let Some((description, i3)) = read_string(b, i2) else { return None };
    let Some((var_type, i4)) = read_string(b, i3) else { return None };
    let Some((default, i5)) = read_string(b, i4) else { return None };
    let Some((example, i6)) = read_string(b, i5) else { return None };
    let Some((declared_by, i7)) = read_string(b, i6) else { return None };
    let Some((declared_by_urls, i8)) = read_string_list(b, i7) else { return None };
    let o = OptText {
        id,
        name,
        description,
        var_type,
        default,
        example,
        declared_by,
        declared_by_urls,
    };
    Some((o, i8))
}

fn read_record_list(b: &[u8], i: usize) -> (r: Option<(Vec<OptText>, usize)>)
    requires
        i <= b@.len(),
    ensures
        match r {
            Some((l, j)) => dec_record_list(b@, i as int) == Some(
                (l@.map_values(|o: OptText| o.model()), j as int),
            ) && i < j <= b@.len(),
            None => dec_record_list(b@, i as int) is None,
        },
{
    let Some((n64, j0)) = read_u64(b, i) else { return None };
    let mut out: Vec<OptText> = Vec::new();
    let mut j: usize = j0;
    let mut remaining: u64 = n64;
    proof {
        assert(out@.map_values(|o: OptText| o.model()) =~= Seq::<OptTextModel>::empty());
        match dec_record_items(b@, j0 as int, n64 as nat) {
            Some((l2, e)) => {
                assert(out@.map_values(|o: OptText| o.model()) + l2 =~= l2);
            },
            None => {},
        }
    }
    loop
        invariant
            j0 <= j <= b@.len(),
            i < j0,
            i <= b@.len(),
            remaining <= n64,
            dec_u64(b@, i as int) == Some((n64, j0 as int)),
            dec_record_items(b@, j0 as int, n64 as nat) == match dec_record_items(
                b@,
                j as int,
                remaining as nat,
            ) {
                Some((l2, e)) => Some((out@.map_values(|o: OptText| o.model()) + l2, e)),
                None => None,
            },
        decreases remaining,
    {
        if remaining == 0 {
            proof {
                assert(dec_record_items(b@, j as int, 0) == Some(
                    (Seq::<OptTextModel>::empty(), j as int),
                ));
                assert(out@.map_values(|o: OptText| o.model()) + Seq::<OptTextModel>::empty()
                    =~= out@.map_values(|o: OptText| o.model()));
            }
            return Some((out, j));
        }
        let ghost out0 = out@.map_values(|o: OptText| o.model());
        let Some((o, j2)) = read_record(b, j) else {
            proof {
                assert(dec_record_items(b@, j as int, remaining as nat) is None);
            }
            return None;
        };
        let ghost omod = o.model();
        out.push(o);
        proof {
            assert(out@.map_values(|o: OptText| o.model()) =~= out0.push(omod));
            assert forall|l2: Seq<OptTextModel>| true implies out0 + (seq![omod] + l2)
                =~= out0.push(omod) + l2 by {}
        }
        j = j2;
        remaining = remaining - 1;
    }
}

/// Decodes a [`SourceData`] from its binary cache form. Succeeds exactly when
/// the bytes are a complete encoding, and in particular on the encoder's
/// output, which it inverts.
pub fn decode_source_data(b: &[u8]) -> (r: Option<SourceData>)
    ensures
        match r {
            Some(d) => dec_source_data(b@, 0) == Some((d.model(), b@.len() as int)),
            None => !(dec_source_data(b@, 0) matches Some((m, e)) && e == b@.len()),
        },
        forall|m: SourceDataModel|
            (model_bounded(m) && b@ == enc_source_data(m)) ==> (r matches Some(d) && d.model()
                == m),
{
    let res = decode_source_data_inner(b);
    proof {
        assert forall|m: SourceDataModel|
            (model_bounded(m) && b@ == enc_source_data(m)) implies (res matches Some(d)
            && d.model() == m) by {
            lemma_codec_round_trip(m);
        }
    }
    res
}

fn decode_source_data_inner(b: &[u8]) -> (r: Option<SourceData>)
    ensures
        match r {
            Some(d) => dec_source_data(b@, 0) == Some((d.model(), b@.len() as int)),
            None => !(dec_source_data(b@, 0) matches Some((m, e)) && e == b@.len()),
        },
{
    let Some((name, i1)) = read_string(b, 0) else { return None };
    let Some((url, i2)) = read_string(b, i1) else { return None };
    let Some((version_url, i3)) = read_opt_string(b, i2) else { return None };
    let Some((opts, i4)) = read_record_list(b, i3) else { return None };
    let Some((version, i5)) = read_string(b, i4) else { return None };
    if i5 != b.len() {
        return None;
    }
    let d = SourceData {
        source: Source { inner: SourceConfig { name, url, version_url } },
        opts,
        version,
    };
    Some(d)
}

} // verus!
