//! Recognition of semantic-version substrings.
//!
//! Some documentation pages carry the source's version only inside the page
//! title, as a semantic-version string such as `2.28.1` or `1.0.0-rc.1+build`.
//! This module finds the first such substring, following the usual grammar:
//! three dot-separated numeric fields without leading zeroes, an optional
//! pre-release list after `-`, and an optional build list after `+`, where
//! match candidates are tried left to right and each optional part is taken
//! greedily when it fits.

use vstd::prelude::*;

verus! {

pub open spec fn is_digit(b: u8) -> bool {
    48 <= b <= 57
}

pub open spec fn is_alpha(b: u8) -> bool {
    (65 <= b <= 90) || (97 <= b <= 122)
}

/// A byte allowed inside a pre-release or build identifier.
pub open spec fn is_id_byte(b: u8) -> bool {
    is_digit(b) || is_alpha(b) || b == 45
}

/// End of the maximal run of decimal digits starting at `i`.
pub open spec fn digit_run_end(s: Seq<u8>, i: int) -> int
    decreases s.len() - i,
{
    if 0 <= i && i < s.len() && is_digit(s[i]) {
        digit_run_end(s, i + 1)
    } else {
        i
    }
}

/// End of the maximal run of identifier bytes starting at `i`.
pub open spec fn id_run_end(s: Seq<u8>, i: int) -> int
    decreases s.len() - i,
{
    if 0 <= i && i < s.len() && is_id_byte(s[i]) {
        id_run_end(s, i + 1)
    } else {
        i
    }
}

proof fn lemma_digit_run_end(s: Seq<u8>, i: int)
    requires
        0 <= i <= s.len(),
    ensures
        i <= digit_run_end(s, i) <= s.len(),
        forall|j: int| i <= j < digit_run_end(s, i) ==> is_digit(s[j]),
        digit_run_end(s, i) < s.len() ==> !is_digit(s[digit_run_end(s, i)]),
    decreases s.len() - i,
{
    if i < s.len() && is_digit(s[i]) {
        lemma_digit_run_end(s, i + 1);
    }
}

proof fn lemma_id_run_end(s: Seq<u8>, i: int)
    requires
        0 <= i <= s.len(),
    ensures
        i <= id_run_end(s, i) <= s.len(),
        i < s.len() && is_id_byte(s[i]) ==> i + 1 <= id_run_end(s, i),
    decreases s.len() - i,
{
    if i < s.len() && is_id_byte(s[i]) {
        lemma_id_run_end(s, i + 1);
    }
}

/// A numeric field (major or minor): a digit run that is either the single
/// digit `0` or starts with a nonzero digit. The run `0` followed by more
/// digits cannot begin a match here, because the field must be followed
/// immediately by a dot.
pub open spec fn num_field_end(s: Seq<u8>, i: int) -> Option<int> {
    if !(0 <= i && i < s.len() && is_digit(s[i])) {
        None
    } else if s[i] == 48 && i + 1 < s.len() && is_digit(s[i + 1]) {
        None
    } else if s[i] == 48 {
        Some(i + 1)
    } else {
        Some(digit_run_end(s, i))
    }
}

/// The patch field: with nothing required after it, a leading `0` ends the
/// field at once, and any other digit run is taken whole.
pub open spec fn patch_field_end(s: Seq<u8>, i: int) -> Option<int> {
    if !(0 <= i && i < s.len() && is_digit(s[i])) {
        None
    } else if s[i] == 48 {
        Some(i + 1)
    } else {
        Some(digit_run_end(s, i))
    }
}

/// One pre-release identifier, with the first fitting form winning: the
/// single digit `0`, a digit run starting with a nonzero digit, or a run of
/// identifier bytes starting with a letter or hyphen.
pub open spec fn pre_ident_end(s: Seq<u8>, i: int) -> Option<int> {
    if !(0 <= i && i < s.len()) {
        None
    } else if s[i] == 48 {
        Some(i + 1)
    } else if is_digit(s[i]) {
        Some(digit_run_end(s, i))
    } else if is_alpha(s[i]) || s[i] == 45 {
        Some(id_run_end(s, i))
    } else {
        None
    }
}

/// One build identifier: a nonempty run of identifier bytes.
pub open spec fn build_ident_end(s: Seq<u8>, i: int) -> Option<int> {
    if 0 <= i && i < s.len() && is_id_byte(s[i]) {
        Some(id_run_end(s, i))
    } else {
        None
    }
}

proof fn lemma_pre_ident_end(s: Seq<u8>, i: int)
    ensures
        pre_ident_end(s, i) matches Some(e) ==> i < e <= s.len(),
{
    if 0 <= i && i < s.len() {
        lemma_digit_run_end(s, i);
        lemma_id_run_end(s, i);
        if is_digit(s[i]) {
            assert(digit_run_end(s, i) != i);
        }
        if is_alpha(s[i]) || s[i] == 45 {
            assert(is_id_byte(s[i]));
            assert(id_run_end(s, i) != i);
        }
    }
}

proof fn lemma_build_ident_end(s: Seq<u8>, i: int)
    ensures
        build_ident_end(s, i) matches Some(e) ==> i < e <= s.len(),
{
    if 0 <= i && i < s.len() && is_id_byte(s[i]) {
        lemma_id_run_end(s, i);
        assert(id_run_end(s, i) != i);
    }
}

/// End of a dot-separated list of pre-release identifiers starting at `i`:
/// the list keeps absorbing `.` followed by a further identifier.
pub open spec fn pre_list_end(s: Seq<u8>, i: int) -> Option<int>
    decreases s.len() - i,
    via pre_list_decreases
{
    match pre_ident_end(s, i) {
        None => None,
        Some(e) => if e < s.len() && s[e] == 46 && pre_ident_end(s, e + 1) is Some {
            pre_list_end(s, e + 1)
        } else {
            Some(e)
        },
    }
}

#[via_fn]
proof fn pre_list_decreases(s: Seq<u8>, i: int) {
    lemma_pre_ident_end(s, i);
}

/// End of a dot-separated list of build identifiers starting at `i`.
pub open spec fn build_list_end(s: Seq<u8>, i: int) -> Option<int>
    decreases s.len() - i,
    via build_list_decreases
{
    match build_ident_end(s, i) {
        None => None,
        Some(e) => if e < s.len() && s[e] == 46 && build_ident_end(s, e + 1) is Some {
            build_list_end(s, e + 1)
        } else {
            Some(e)
        },
    }
}

#[via_fn]
proof fn build_list_decreases(s: Seq<u8>, i: int) {
    lemma_build_ident_end(s, i);
}

/// End of the semantic-version match starting at position `i`, if one starts
/// there: `major . minor . patch`, then an optional `-` pre-release list and
/// an optional `+` build list, each taken only when it fits whole.
pub open spec fn semver_end(s: Seq<u8>, i: int) -> Option<int> {
    match num_field_end(s, i) {
        None => None,
        Some(a) => if !(a < s.len() && s[a] == 46) {
            None
        } else {
            match num_field_end(s, a + 1) {
                None => None,
                Some(b) => if !(b < s.len() && s[b] == 46) {
                    None
                } else {
                    match patch_field_end(s, b + 1) {
                        None => None,
                        Some(c) => {
                            let d = if c < s.len() && s[c] == 45 && pre_list_end(s, c + 1) is Some {
                                pre_list_end(s, c + 1)->Some_0
                            } else {
                                c
                            };
                            let e = if d < s.len() && s[d] == 43 && build_list_end(
                                s,
                                d + 1,
                            ) is Some {
                                build_list_end(s, d + 1)->Some_0
                            } else {
                                d
                            };
                            Some(e)
                        },
                    }
                },
            }
        },
    }
}

/// The first semantic-version substring at or after position `i`: the scan
/// stops at the least position where a match begins.
pub open spec fn semver_from(s: Seq<u8>, i: int) -> Option<Seq<u8>>
    decreases s.len() - i,
{
    if !(0 <= i && i < s.len()) {
        None
    } else {
        match semver_end(s, i) {
            Some(e) => Some(s.subrange(i, e)),
            None => semver_from(s, i + 1),
        }
    }
}

/// The first semantic-version substring of `s`, if any.
pub open spec fn first_semver(s: Seq<u8>) -> Option<Seq<u8>> {
    semver_from(s, 0)
}

fn digit_run_end_exec(s: &[u8], i: usize) -> (r: usize)
    requires
        i <= s@.len(),
    ensures
        r == digit_run_end(s@, i as int),
        i <= r <= s@.len(),
{
    let n: usize = s.len();
    let mut j: usize = i;
    while j < n && is_digit_byte(s[j])
        invariant
            i <= j <= n,
            n == s@.len(),
            digit_run_end(s@, i as int) == digit_run_end(s@, j as int),
        decreases n - j,
    {
        j = j + 1;
    }
    j
}

fn id_run_end_exec(s: &[u8], i: usize) -> (r: usize)
    requires
        i <= s@.len(),
    ensures
        r == id_run_end(s@, i as int),
        i <= r <= s@.len(),
    decreases s@.len() - i,
{
    let n: usize = s.len();
    let mut j: usize = i;
    while j < n && is_id_byte_exec(s[j])
        invariant
            i <= j <= n,
            n == s@.len(),
            id_run_end(s@, i as int) == id_run_end(s@, j as int),
        decreases n - j,
    {
        j = j + 1;
    }
    j
}

fn is_digit_byte(b: u8) -> (r: bool)
    ensures
        r == is_digit(b),
{
    48 <= b && b <= 57
}

fn is_id_byte_exec(b: u8) -> (r: bool)
    ensures
        r == is_id_byte(b),
{
    (48 <= b && b <= 57) || (65 <= b && b <= 90) || (97 <= b && b <= 122) || b == 45
}

fn num_field_end_exec(s: &[u8], i: usize) -> (r: Option<usize>)
    requires
        i <= s@.len(),
    ensures
        match r {
            Some(e) => num_field_end(s@, i as int) == Some(e as int) && i < e <= s@.len(),
            None => num_field_end(s@, i as int) is None,
        },
{
    let n: usize = s.len();
    if !(i < n && is_digit_byte(s[i])) {
        return None;
    }
    if s[i] == 48 && i + 1 < n && is_digit_byte(s[i + 1]) {
        return None;
    }
    if s[i] == 48 {
        return Some(i + 1);
    }
    proof {
        lemma_digit_run_end(s@, i as int);
        assert(digit_run_end(s@, i as int) != i);
    }
    Some(digit_run_end_exec(s, i))
}

fn patch_field_end_exec(s: &[u8], i: usize) -> (r: Option<usize>)
    requires
        i <= s@.len(),
    ensures
        match r {
            Some(e) => patch_field_end(s@, i as int) == Some(e as int) && i < e <= s@.len(),
            None => patch_field_end(s@, i as int) is None,
        },
{
    let n: usize = s.len();
    if !(i < n && is_digit_byte(s[i])) {
        return None;
    }
    if s[i] == 48 {
        return Some(i + 1);
    }
    proof {
        lemma_digit_run_end(s@, i as int);
        assert(digit_run_end(s@, i as int) != i);
    }
    Some(digit_run_end_exec(s, i))
}

fn pre_ident_end_exec(s: &[u8], i: usize) -> (r: Option<usize>)
    requires
        i <= s@.len(),
    ensures
        match r {
            Some(e) => pre_ident_end(s@, i as int) == Some(e as int) && i < e <= s@.len(),
            None => pre_ident_end(s@, i as int) is None,
        },
{
    proof {
        lemma_pre_ident_end(s@, i as int);
    }
    let n: usize = s.len();
    if !(i < n) {
        return None;
    }
    if s[i] == 48 {
        return Some(i + 1);
    }
    if is_digit_byte(s[i]) {
        return Some(digit_run_end_exec(s, i));
    }
    if is_id_byte_exec(s[i]) {
        return Some(id_run_end_exec(s, i));
    }
    None
}

fn build_ident_end_exec(s: &[u8], i: usize) -> (r: Option<usize>)
    requires
        i <= s@.len(),
    ensures
        match r {
            Some(e) => build_ident_end(s@, i as int) == Some(e as int) && i < e <= s@.len(),
            None => build_ident_end(s@, i as int) is None,
        },
{
    proof {
        lemma_build_ident_end(s@, i as int);
    }
    let n: usize = s.len();
    if i < n && is_id_byte_exec(s[i]) {
        Some(id_run_end_exec(s, i))
    } else {
        None
    }
}

fn pre_list_end_exec(s: &[u8], i: usize) -> (r: Option<usize>)
    requires
        i <= s@.len(),
    ensures
        match r {
            Some(e) => pre_list_end(s@, i as int) == Some(e as int) && i < e <= s@.len(),
            None => pre_list_end(s@, i as int) is None,
        },
    decreases s@.len() - i,
{
    match pre_ident_end_exec(s, i) {
        None => None,
        Some(e) => {
            if e < s.len() && s[e] == 46 {
                match pre_ident_end_exec(s, e + 1) {
                    Some(_) => pre_list_end_exec(s, e + 1),
                    None => Some(e),
                }
            } else {
                Some(e)
            }
        },
    }
}

fn build_list_end_exec(s: &[u8], i: usize) -> (r: Option<usize>)
    requires
        i <= s@.len(),
    ensures
        match r {
            Some(e) => build_list_end(s@, i as int) == Some(e as int) && i < e <= s@.len(),
            None => build_list_end(s@, i as int) is None,
        },
    decreases s@.len() - i,
{
    match build_ident_end_exec(s, i) {
        None => None,
        Some(e) => {
            if e < s.len() && s[e] == 46 {
                match build_ident_end_exec(s, e + 1) {
                    Some(_) => build_list_end_exec(s, e + 1),
                    None => Some(e),
                }
            } else {
                Some(e)
            }
        },
    }
}

fn semver_end_exec(s: &[u8], i: usize) -> (r: Option<usize>)
    requires
        i <= s@.len(),
    ensures
        match r {
            Some(e) => semver_end(s@, i as int) == Some(e as int) && i <= e <= s@.len(),
            None => semver_end(s@, i as int) is None,
        },
{
    let n: usize = s.len();
    let Some(a) = num_field_end_exec(s, i) else { return None };
    if !(a < n && s[a] == 46) {
        return None;
    }
    let Some(b) = num_field_end_exec(s, a + 1) else { return None };
    if !(b < n && s[b] == 46) {
        return None;
    }
    let Some(c) = patch_field_end_exec(s, b + 1) else { return None };
    let mut d: usize = c;
    if c < n && s[c] == 45 {
        if let Some(e) = pre_list_end_exec(s, c + 1) {
            d = e;
        }
    }
    let mut e: usize = d;
    if d < n && s[d] == 43 {
        if let Some(f) = build_list_end_exec(s, d + 1) {
            e = f;
        }
    }
    Some(e)
}

/// Finds the first semantic-version substring of `s`: the match begins at the
/// least position where one begins, and extends as far as the grammar allows.
pub fn find_semver(s: &[u8]) -> (r: Option<Vec<u8>>)
    ensures
        (match r {
            Some(v) => Some(v@),
            None => None::<Seq<u8>>,
        }) == first_semver(s@),
{
    let n: usize = s.len();
    let mut i: usize = 0;
    while i < n
        invariant
            0 <= i <= n,
            n == s@.len(),
            first_semver(s@) == semver_from(s@, i as int),
        decreases n - i,
    {
        if let Some(e) = semver_end_exec(s, i) {
            let v = crate::text::subrange_vec(s, i, e);
            assert(semver_from(s@, i as int) == Some(s@.subrange(i as int, e as int)));
            return Some(v);
        }
        i = i + 1;
    }
    assert(semver_from(s@, n as int) is None);
    None
}

} // verus!
