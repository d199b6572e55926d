//! Byte-level text utilities.
//!
//! All of the document processing in this crate works on UTF-8 byte
//! sequences; the functions here give exact, executable counterparts to the
//! spec-level sequence operations they are specified against.

use vstd::prelude::*;

verus! {

use vstd::utf8::{valid_utf8, decode_utf8};
use vstd::string::StringSliceAdditionalSpecFns;

/// ASCII whitespace: the one-byte whitespace characters.
pub open spec fn is_ws(b: u8) -> bool {
    b == 32 || b == 9 || b == 10 || b == 13 || b == 11 || b == 12
}

/// The length of the whitespace character beginning at `i`, or zero when
/// none does. The byte forms listed are exactly the UTF-8 encodings of the
/// characters Rust's `char::is_whitespace` accepts: the ASCII set, then
/// NEL and no-break space, the Ogham space mark, the typographic spaces,
/// the line and paragraph separators, and the ideographic space.
pub open spec fn ws_len_at(s: Seq<u8>, i: int) -> int {
    if !(0 <= i && i < s.len()) {
        0
    } else if is_ws(s[i]) {
        1
    } else if s[i] == 0xC2 && i + 2 <= s.len() && (s[i + 1] == 0x85 || s[i + 1] == 0xA0) {
        2
    } else if i + 3 <= s.len() && s[i] == 0xE1 && s[i + 1] == 0x9A && s[i + 2] == 0x80 {
        3
    } else if i + 3 <= s.len() && s[i] == 0xE2 && s[i + 1] == 0x80 && ((0x80 <= s[i + 2] && s[i + 2]
        <= 0x8A) || s[i + 2] == 0xA8 || s[i + 2] == 0xA9 || s[i + 2] == 0xAF) {
        3
    } else if i + 3 <= s.len() && s[i] == 0xE2 && s[i + 1] == 0x81 && s[i + 2] == 0x9F {
        3
    } else if i + 3 <= s.len() && s[i] == 0xE3 && s[i + 1] == 0x80 && s[i + 2] == 0x80 {
        3
    } else {
        0
    }
}

/// The length of the whitespace character that `s` ends with, or zero.
pub open spec fn ws_len_end(s: Seq<u8>) -> int {
    let n = s.len() as int;
    if n >= 3 && ws_len_at(s, n - 3) == 3 {
        3
    } else if n >= 2 && ws_len_at(s, n - 2) == 2 {
        2
    } else if n >= 1 && ws_len_at(s, n - 1) == 1 {
        1
    } else {
        0
    }
}

proof fn lemma_ws_len_at_bounds(s: Seq<u8>, i: int)
    ensures
        0 <= ws_len_at(s, i),
        0 <= i <= s.len() ==> i + ws_len_at(s, i) <= s.len(),
{
}

proof fn lemma_ws_len_end_bounds(s: Seq<u8>)
    ensures
        0 <= ws_len_end(s) <= s.len(),
{
}

/// The suffix of `s` that remains after dropping leading whitespace.
pub open spec fn trim_start_spec(s: Seq<u8>) -> Seq<u8>
    decreases s.len(),
    via trim_start_decreases
{
    let w = ws_len_at(s, 0);
    if w > 0 {
        trim_start_spec(s.skip(w))
    } else {
        s
    }
}

#[via_fn]
proof fn trim_start_decreases(s: Seq<u8>) {
    lemma_ws_len_at_bounds(s, 0);
}

/// The prefix of `s` that remains after dropping trailing whitespace.
pub open spec fn trim_end_spec(s: Seq<u8>) -> Seq<u8>
    decreases s.len(),
    via trim_end_decreases
{
    let w = ws_len_end(s);
    if w > 0 {
        trim_end_spec(s.take(s.len() - w))
    } else {
        s
    }
}

#[via_fn]
proof fn trim_end_decreases(s: Seq<u8>) {
    lemma_ws_len_end_bounds(s);
}

/// `s` with whitespace removed from both ends, the behaviour of
/// `str::trim` read on the bytes.
pub open spec fn trim_spec(s: Seq<u8>) -> Seq<u8> {
    trim_end_spec(trim_start_spec(s))
}

/// Copies `v[from..to]` into a fresh vector.
pub fn subrange_vec(v: &[u8], from: usize, to: usize) -> (r: Vec<u8>)
    requires
        from <= to <= v@.len(),
    ensures
        r@ == v@.subrange(from as int, to as int),
{
    let mut out: Vec<u8> = Vec::new();
    let mut i: usize = from;
    while i < to
        invariant
            from <= i <= to <= v@.len(),
            out@ == v@.subrange(from as int, i as int),
        decreases to - i,
    {
        out.push(v[i]);
        assert(v@.subrange(from as int, (i + 1) as int) =~= v@.subrange(from as int, i as int).push(
            v@[i as int],
        ));
        i = i + 1;
    }
    out
}

/// [`ws_len_at`] of `v[start..end]` at position `j`, read off the slice.
fn ws_len_at_in(v: &[u8], start: usize, end: usize, j: usize) -> (w: usize)
    requires
        start <= end <= v@.len(),
        j <= end - start,
    ensures
        w as int == ws_len_at(v@.subrange(start as int, end as int), j as int),
{
    let n: usize = end - start;
    if j >= n {
        return 0;
    }
    let b0 = v[start + j];
    if is_ws_byte(b0) {
        return 1;
    }
    if b0 == 0xC2 && n - j >= 2 && (v[start + j + 1] == 0x85 || v[start + j + 1] == 0xA0) {
        return 2;
    }
    if n - j >= 3 {
        let b1 = v[start + j + 1];
        let b2 = v[start + j + 2];
        if b0 == 0xE1 && b1 == 0x9A && b2 == 0x80 {
            return 3;
        }
        if b0 == 0xE2 && b1 == 0x80 && ((0x80 <= b2 && b2 <= 0x8A) || b2 == 0xA8 || b2 == 0xA9
            || b2 == 0xAF) {
            return 3;
        }
        if b0 == 0xE2 && b1 == 0x81 && b2 == 0x9F {
            return 3;
        }
        if b0 == 0xE3 && b1 == 0x80 && b2 == 0x80 {
            return 3;
        }
    }
    0
}

/// [`ws_len_end`] of `v[start..end]`, read off the slice.
fn ws_len_end_in(v: &[u8], start: usize, end: usize) -> (w: usize)
    requires
        start <= end <= v@.len(),
    ensures
        w as int == ws_len_end(v@.subrange(start as int, end as int)),
{
    let n: usize = end - start;
    if n >= 3 && ws_len_at_in(v, start, end, n - 3) == 3 {
        return 3;
    }
    if n >= 2 && ws_len_at_in(v, start, end, n - 2) == 2 {
        return 2;
    }
    if n >= 1 && ws_len_at_in(v, start, end, n - 1) == 1 {
        return 1;
    }
    0
}

/// Exact executable counterpart of [`trim_spec`].
pub fn trim_bytes(v: &[u8]) -> (r: Vec<u8>)
    ensures
        r@ == trim_spec(v@),
{
    let len: usize = v.len();
    proof {
        assert(v@.subrange(0, len as int) =~= v@);
    }
    let mut start: usize = 0;
    let mut w: usize = ws_len_at_in(v, start, len, 0);
    while w > 0
        invariant
            0 <= start <= len,
            len == v@.len(),
            w as int == ws_len_at(v@.subrange(start as int, len as int), 0),
            trim_start_spec(v@) == trim_start_spec(v@.subrange(start as int, len as int)),
        decreases len - start,
    {
        proof {
            let sub = v@.subrange(start as int, len as int);
            lemma_ws_len_at_bounds(sub, 0);
            assert(sub.skip(w as int) =~= v@.subrange(start + w, len as int));
        }
        start = start + w;
        w = ws_len_at_in(v, start, len, 0);
    }
    proof {
        assert(trim_start_spec(v@) == v@.subrange(start as int, len as int));
    }
    let mut end: usize = len;
    let mut we: usize = ws_len_end_in(v, start, end);
    while we > 0
        invariant
            start <= end <= len,
            len == v@.len(),
            we as int == ws_len_end(v@.subrange(start as int, end as int)),
            trim_end_spec(v@.subrange(start as int, len as int)) == trim_end_spec(
                v@.subrange(start as int, end as int),
            ),
        decreases end,
    {
        proof {
            let sub = v@.subrange(start as int, end as int);
            lemma_ws_len_end_bounds(sub);
            assert(sub.take(sub.len() - we) =~= v@.subrange(start as int, end - we));
        }
        end = end - we;
        we = ws_len_end_in(v, start, end);
    }
    proof {
        assert(trim_end_spec(v@.subrange(start as int, end as int)) == v@.subrange(
            start as int,
            end as int,
        ));
    }
    subrange_vec(v, start, end)
}

/// Executable test for [`is_ws`].
fn is_ws_byte(b: u8) -> (r: bool)
    ensures
        r == is_ws(b),
{
    b == 32 || b == 9 || b == 10 || b == 13 || b == 11 || b == 12
}

/// `pat` occurs in `s` starting at index `i`.
pub open spec fn occurs_at(s: Seq<u8>, pat: Seq<u8>, i: int) -> bool {
    &&& 0 <= i
    &&& i + pat.len() <= s.len()
    &&& s.subrange(i, i + pat.len()) == pat
}

/// `pat` occurs somewhere in `s`.
pub open spec fn contains_seq(s: Seq<u8>, pat: Seq<u8>) -> bool {
    exists|i: int| occurs_at(s, pat, i)
}

/// Whether `pat` occurs at index `i` of `hay`, checked byte by byte.
pub fn occurs_at_exec(hay: &[u8], pat: &[u8], i: usize) -> (r: bool)
    requires
        i + pat@.len() <= hay@.len(),
    ensures
        r == occurs_at(hay@, pat@, i as int),
{
    let n: usize = hay.len();
    let m: usize = pat.len();
    let mut k: usize = 0;
    while k < m
        invariant
            0 <= k <= m,
            m == pat@.len(),
            n == hay@.len(),
            i + m <= n,
            forall|j: int| 0 <= j < k ==> hay@[i + j] == pat@[j],
        decreases m - k,
    {
        if hay[i + k] != pat[k] {
            assert(hay@.subrange(i as int, i + m) != pat@) by {
                assert(hay@.subrange(i as int, i + m)[k as int] != pat@[k as int]);
            }
            return false;
        }
        k = k + 1;
    }
    assert(hay@.subrange(i as int, i + m) =~= pat@);
    true
}

/// Exact executable counterpart of [`contains_seq`].
pub fn contains_bytes(hay: &[u8], pat: &[u8]) -> (r: bool)
    ensures
        r == contains_seq(hay@, pat@),
{
    let n: usize = hay.len();
    let m: usize = pat.len();
    if m > n {
        assert(forall|i: int| !occurs_at(hay@, pat@, i));
        return false;
    }
    if m == 0 {
        assert(occurs_at(hay@, pat@, 0)) by {
            assert(hay@.subrange(0, 0) =~= pat@);
        }
        return true;
    }
    let mut i: usize = 0;
    while i <= n - m
        invariant
            1 <= m <= n,
            n == hay@.len(),
            m == pat@.len(),
            0 <= i <= n - m + 1,
            forall|j: int| 0 <= j < i ==> !occurs_at(hay@, pat@, j),
        decreases n - i,
    {
        if occurs_at_exec(hay, pat, i) {
            return true;
        }
        i = i + 1;
    }
    assert(forall|j: int| occurs_at(hay@, pat@, j) ==> 0 <= j <= n - m);
    false
}

/// `s` with every complete leading copy of `pat` removed, the behaviour of
/// `str::trim_start_matches` for a non-empty pattern.
pub open spec fn strip_prefix_rep(s: Seq<u8>, pat: Seq<u8>) -> Seq<u8>
    decreases s.len(),
{
    if pat.len() > 0 && occurs_at(s, pat, 0) {
        strip_prefix_rep(s.skip(pat.len() as int), pat)
    } else {
        s
    }
}

/// Exact executable counterpart of [`strip_prefix_rep`].
pub fn strip_prefix_bytes(v: Vec<u8>, pat: &[u8]) -> (r: Vec<u8>)
    ensures
        r@ == strip_prefix_rep(v@, pat@),
    decreases v@.len(),
{
    let m: usize = pat.len();
    if m == 0 || m > v.len() {
        return v;
    }
    if occurs_at_exec(v.as_slice(), pat, 0) {
        let rest = subrange_vec(v.as_slice(), m, v.len());
        assert(rest@ =~= v@.skip(m as int));
        strip_prefix_bytes(rest, pat)
    } else {
        v
    }
}

/// The fold `acc = acc + "\n" + item` over `items`, starting from empty:
/// every item is preceded by one newline byte.
pub open spec fn joined_with_newlines(items: Seq<Seq<u8>>) -> Seq<u8>
    decreases items.len(),
{
    if items.len() == 0 {
        Seq::empty()
    } else {
        joined_with_newlines(items.drop_last()) + seq![10u8] + items.last()
    }
}

/// Exact executable counterpart of [`joined_with_newlines`].
pub fn join_with_newlines(items: &Vec<Vec<u8>>) -> (r: Vec<u8>)
    ensures
        r@ == joined_with_newlines(items@.map_values(|v: Vec<u8>| v@)),
{
    let mut out: Vec<u8> = Vec::new();
    let mut i: usize = 0;
    while i < items.len()
        invariant
            0 <= i <= items@.len(),
            out@ == joined_with_newlines(items@.map_values(|v: Vec<u8>| v@).take(i as int)),
        decreases items@.len() - i,
    {
        out.push(10u8);
        let mut j: usize = 0;
        let item = &items[i];
        while j < item.len()
            invariant
                0 <= j <= item@.len(),
                item == items@[i as int],
                0 <= i < items@.len(),
                out@ == joined_with_newlines(
                    items@.map_values(|v: Vec<u8>| v@).take(i as int),
                ) + seq![10u8] + item@.take(j as int),
            decreases item@.len() - j,
        {
            out.push(item[j]);
            assert(item@.take(j + 1) =~= item@.take(j as int).push(item@[j as int]));
            j = j + 1;
        }
        proof {
            let ms = items@.map_values(|v: Vec<u8>| v@);
            assert(item@.take(item@.len() as int) =~= item@);
            assert(ms.take(i + 1).drop_last() =~= ms.take(i as int));
            assert(ms.take(i + 1).last() == ms[i as int]);
        }
        i = i + 1;
    }
    proof {
        let ms = items@.map_values(|v: Vec<u8>| v@);
        assert(ms.take(ms.len() as int) =~= ms);
    }
    out
}

/// String-slice equality, decided on the UTF-8 bytes.
pub fn str_eq(a: &str, b: &str) -> (r: bool)
    ensures
        r == (a@ == b@),
{
    let ab = a.as_bytes();
    let bb = b.as_bytes();
    proof {
        vstd::utf8::encode_utf8_decode_utf8(a@);
        vstd::utf8::encode_utf8_decode_utf8(b@);
    }
    if ab.len() != bb.len() {
        return false;
    }
    let n: usize = ab.len();
    let mut i: usize = 0;
    while i < n
        invariant
            0 <= i <= n,
            n == ab@.len() == bb@.len(),
            ab@ == a.spec_bytes(),
            bb@ == b.spec_bytes(),
            forall|j: int| 0 <= j < i ==> ab@[j] == bb@[j],
        decreases n - i,
    {
        if ab[i] != bb[i] {
            assert(a.spec_bytes() != b.spec_bytes()) by {
                assert(a.spec_bytes()[i as int] != b.spec_bytes()[i as int]);
            }
            return false;
        }
        i = i + 1;
    }
    assert(a.spec_bytes() =~= b.spec_bytes());
    assert(a@ == vstd::utf8::decode_utf8(a.spec_bytes()));
    true
}

/// What `String::from_utf8_lossy` yields for an arbitrary byte sequence.
pub uninterp spec fn lossy_text(b: Seq<u8>) -> Seq<char>;

/// Relies on `String::from_utf8_lossy`: the result is a function of the bytes
/// alone, and valid UTF-8 input decodes exactly.
#[verifier::external_body]
pub fn bytes_to_string(b: &[u8]) -> (r: String)
    ensures
        r@ == lossy_text(b@),
        valid_utf8(b@) ==> r@ == decode_utf8(b@),
{
    String::from_utf8_lossy(b).into_owned()
}

/// Relies on `String::from_utf8`: it succeeds exactly on valid UTF-8 and
/// decodes it, the reading that vstd's UTF-8 specification models.
#[verifier::external_body]
pub fn utf8_to_string(b: Vec<u8>) -> (r: Option<String>)
    ensures
        r matches Some(s) ==> valid_utf8(b@) && s@ == decode_utf8(b@),
        r is None ==> !valid_utf8(b@),
{
    String::from_utf8(b).ok()
}

/// Copies a string slice into an owned string, characters unchanged.
pub fn str_to_string(s: &str) -> (r: String)
    ensures
        r@ == s@,
{
    <String as vstd::string::StringExecFns>::from_str(s)
}

/// Concatenation of two string slices, with the vstd specification of
/// `String::append`.
pub fn concat_str(a: &str, b: &str) -> (r: String)
    ensures
        r@ == a@ + b@,
{
    let mut s = str_to_string(a);
    <String as vstd::string::StringExecFns>::append(&mut s, b);
    s
}

} // verus!
