//! Per-source rewriting of declared-by link targets.
//!
//! In the weeks before a stable release, one documentation source links each
//! option's defining file on a release branch that does not exist yet. The
//! rewrite rule here replaces every occurrence of such a release-branch name
//! (`release-` followed by a two-digit year, a dot and a two-digit month)
//! with the floating branch name `nixos-unstable`.

use vstd::prelude::*;

verus! {

use crate::semver::is_digit;
use crate::text::lossy_text;
use vstd::utf8::encode_utf8;

/// A release-branch name (`release-NN.NN`) occurs at index `i` of `s`.
/// The pattern is 13 bytes long.
pub open spec fn release_match_at(s: Seq<u8>, i: int) -> bool {
    &&& 0 <= i
    &&& i + 13 <= s.len()
    &&& s[i] == 114
    &&& s[i + 1] == 101
    &&& s[i + 2] == 108
    &&& s[i + 3] == 101
    &&& s[i + 4] == 97
    &&& s[i + 5] == 115
    &&& s[i + 6] == 101
    &&& s[i + 7] == 45
    &&& is_digit(s[i + 8])
    &&& is_digit(s[i + 9])
    &&& s[i + 10] == 46
    &&& is_digit(s[i + 11])
    &&& is_digit(s[i + 12])
}

/// The UTF-8 bytes of `nixos-unstable`.
pub open spec fn unstable_branch() -> Seq<u8> {
    seq![110u8, 105u8, 120u8, 111u8, 115u8, 45u8, 117u8, 110u8, 115u8, 116u8, 97u8, 98u8, 108u8, 101u8]
}

/// `s` with every release-branch occurrence replaced by `nixos-unstable`,
/// scanning left to right and resuming after each replacement.
pub open spec fn rewritten(s: Seq<u8>) -> Seq<u8>
    decreases s.len(),
{
    if s.len() == 0 {
        Seq::empty()
    } else if release_match_at(s, 0) {
        unstable_branch() + rewritten(s.skip(13))
    } else {
        seq![s[0]] + rewritten(s.skip(1))
    }
}

fn release_match_at_exec(s: &[u8], i: usize) -> (r: bool)
    requires
        i <= s@.len(),
    ensures
        r == release_match_at(s@, i as int),
{
    let n: usize = s.len();
    if n - i < 13 {
        return false;
    }
    s[i] == 114 && s[i + 1] == 101 && s[i + 2] == 108 && s[i + 3] == 101 && s[i + 4] == 97 && s[i
        + 5] == 115 && s[i + 6] == 101 && s[i + 7] == 45 && 48 <= s[i + 8] && s[i + 8] <= 57 && 48
        <= s[i + 9] && s[i + 9] <= 57 && s[i + 10] == 46 && 48 <= s[i + 11] && s[i + 11] <= 57 && 48
        <= s[i + 12] && s[i + 12] <= 57
}

proof fn lemma_rewritten_step(s: Seq<u8>, i: int)
    requires
        0 <= i <= s.len(),
    ensures
        i < s.len() && release_match_at(s, i) && i + 13 <= s.len() ==> rewritten(s.skip(i))
            == unstable_branch() + rewritten(s.skip(i + 13)),
        i < s.len() && !release_match_at(s, i) ==> rewritten(s.skip(i)) == seq![s[i]] + rewritten(
            s.skip(i + 1),
        ),
{
    let t = s.skip(i);
    if i < s.len() {
        assert(t.len() > 0);
        assert(t[0] == s[i]);
        if release_match_at(s, i) {
            assert(release_match_at(t, 0)) by {
                assert(forall|k: int| 0 <= k < 13 ==> t[k] == s[i + k]);
            }
            assert(t.skip(13) =~= s.skip(i + 13));
        } else {
            assert(!release_match_at(t, 0)) by {
                if release_match_at(t, 0) {
                    assert(forall|k: int| 0 <= k < 13 ==> s[i + k] == t[k]);
                }
            }
            assert(t.skip(1) =~= s.skip(i + 1));
        }
    }
}

/// Replaces every release-branch occurrence in the bytes of `s`, exactly as
/// [`rewritten`] describes, and re-reads the result as text.
pub fn rewrite_release_branches(s: &str) -> (r: String)
    ensures
        r@ == lossy_text(rewritten(encode_utf8(s@))),
{
    let b = s.as_bytes();
    let n: usize = b.len();
    let mut out: Vec<u8> = Vec::new();
    let mut i: usize = 0;
    proof {
        assert(b@.skip(0) =~= b@);
        assert(out@ + rewritten(b@) =~= rewritten(b@));
    }
    while i < n
        invariant
            0 <= i <= n,
            n == b@.len(),
            rewritten(b@) == out@ + rewritten(b@.skip(i as int)),
        decreases n - i,
    {
        proof {
            lemma_rewritten_step(b@, i as int);
        }
        let ghost out0 = out@;
        if release_match_at_exec(b, i) {
            out.push(110);
            out.push(105);
            out.push(120);
            out.push(111);
            out.push(115);
            out.push(45);
            out.push(117);
            out.push(110);
            out.push(115);
            out.push(116);
            out.push(97);
            out.push(98);
            out.push(108);
            out.push(101);
            assert(out@ =~= out0 + unstable_branch());
            i = i + 13;
        } else {
            out.push(b[i]);
            i = i + 1;
        }
    }
    proof {
        assert(b@.skip(n as int) =~= Seq::<u8>::empty());
        assert(out@ =~= rewritten(b@));
    }
    crate::text::bytes_to_string(out.as_slice())
}

} // verus!
