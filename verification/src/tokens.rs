//! Cutting ASCII text into lines, words and fields.

use vstd::prelude::*;
use crate::text::{byte_is_space, is_space};

verus! {

/// Line feed.
pub const LF: u8 = 10;

/// Comma.
pub const COMMA: u8 = 44;

/// The words completed within the first `n` bytes of `s`, and the word that
/// is still open there. A word is a longest run of bytes that are no white
/// space.
pub open spec fn words_upto(s: Seq<u8>, n: int) -> (Seq<Seq<u8>>, Seq<u8>)
    decreases n,
{
    if n <= 0 {
        (Seq::empty(), Seq::empty())
    } else {
        let (done, open) = words_upto(s, n - 1);
        let b = s[n - 1];
        if is_space(b) {
            if open.len() > 0 {
                (done.push(open), Seq::empty())
            } else {
                (done, open)
            }
        } else {
            (done, open.push(b))
        }
    }
}

/// The words of `s`, in order.
pub open spec fn words(s: Seq<u8>) -> Seq<Seq<u8>> {
    let (done, open) = words_upto(s, s.len() as int);
    if open.len() > 0 {
        done.push(open)
    } else {
        done
    }
}

/// The fields closed by a separator within the first `n` bytes of `s`, and
/// the field that is still open there.
pub open spec fn fields_upto(s: Seq<u8>, sep: u8, n: int) -> (Seq<Seq<u8>>, Seq<u8>)
    decreases n,
{
    if n <= 0 {
        (Seq::empty(), Seq::empty())
    } else {
        let (done, open) = fields_upto(s, sep, n - 1);
        let b = s[n - 1];
        if b == sep {
            (done.push(open), Seq::empty())
        } else {
            (done, open.push(b))
        }
    }
}

/// The fields of `s`: what lies between separators, empty fields included;
/// always one more than there are separators.
pub open spec fn fields(s: Seq<u8>, sep: u8) -> Seq<Seq<u8>> {
    let (done, open) = fields_upto(s, sep, s.len() as int);
    done.push(open)
}

/// The lines of `s`: what lies between line feeds, without a last line that
/// is empty.
pub open spec fn lines(s: Seq<u8>) -> Seq<Seq<u8>> {
    let (done, open) = fields_upto(s, LF, s.len() as int);
    if open.len() > 0 {
        done.push(open)
    } else {
        done
    }
}

/// Index of the first byte at or after `i` that is no white space, or the
/// length of `s`.
pub open spec fn first_non_space(s: Seq<u8>, i: int) -> int
    decreases s.len() - i,
{
    if 0 <= i < s.len() && is_space(s[i]) {
        first_non_space(s, i + 1)
    } else {
        i
    }
}

/// End of the last byte before `j` that is no white space, or zero.
pub open spec fn last_non_space_end(s: Seq<u8>, j: int) -> int
    decreases j,
{
    if 0 < j <= s.len() && is_space(s[j - 1]) {
        last_non_space_end(s, j - 1)
    } else {
        j
    }
}

/// `s` without the white space at its two ends.
pub open spec fn trimmed(s: Seq<u8>) -> Seq<u8> {
    let a = first_non_space(s, 0);
    let b = last_non_space_end(s, s.len() as int);
    if a >= b {
        Seq::empty()
    } else {
        s.subrange(a, b)
    }
}

/// Whether `s` begins with `prefix`.
pub open spec fn starts_with(s: Seq<u8>, prefix: Seq<u8>) -> bool {
    s.len() >= prefix.len() && s.subrange(0, prefix.len() as int) == prefix
}

/// What a sequence of byte vectors holds.
pub open spec fn pieces_view(v: Seq<Vec<u8>>) -> Seq<Seq<u8>> {
    Seq::new(v.len(), |i: int| v[i]@)
}

/// The words of `s`.
pub fn split_words(s: &[u8]) -> (r: Vec<Vec<u8>>)
    ensures
        pieces_view(r@) == words(s@),
{
    let mut done: Vec<Vec<u8>> = Vec::new();
    let mut open: Vec<u8> = Vec::new();
    let mut i: usize = 0;
    assert(pieces_view(done@) =~= Seq::<Seq<u8>>::empty());
    while i < s.len()
        invariant
            i <= s@.len(),
            (pieces_view(done@), open@) == words_upto(s@, i as int),
        decreases s@.len() - i,
    {
        let b: u8 = s[i];
        let ghost before = pieces_view(done@);
        if byte_is_space(b) {
            if open.len() > 0 {
                let ghost word = open@;
                done.push(open);
                open = Vec::new();
                assert(pieces_view(done@) =~= before.push(word));
            }
        } else {
            open.push(b);
        }
        i = i + 1;
    }
    if open.len() > 0 {
        let ghost before = pieces_view(done@);
        done.push(open);
        assert(pieces_view(done@) =~= before.push(open@));
    }
    done
}

/// The fields of `s` between the separators `sep`.
pub fn split_fields(s: &[u8], sep: u8) -> (r: Vec<Vec<u8>>)
    ensures
        pieces_view(r@) == fields(s@, sep),
        r@.len() >= 1,
{
    let mut done: Vec<Vec<u8>> = Vec::new();
    let mut open: Vec<u8> = Vec::new();
    let mut i: usize = 0;
    assert(pieces_view(done@) =~= Seq::<Seq<u8>>::empty());
    while i < s.len()
        invariant
            i <= s@.len(),
            (pieces_view(done@), open@) == fields_upto(s@, sep, i as int),
        decreases s@.len() - i,
    {
        let b: u8 = s[i];
        let ghost before = pieces_view(done@);
        if b == sep {
            let ghost field = open@;
            done.push(open);
            open = Vec::new();
            assert(pieces_view(done@) =~= before.push(field));
        } else {
            open.push(b);
        }
        i = i + 1;
    }
    let ghost before = pieces_view(done@);
    done.push(open);
    assert(pieces_view(done@) =~= before.push(open@));
    done
}

/// The lines of `s`.
pub fn split_lines(s: &[u8]) -> (r: Vec<Vec<u8>>)
    ensures
        pieces_view(r@) == lines(s@),
{
    let mut all: Vec<Vec<u8>> = split_fields(s, LF);
    let n: usize = all.len();
    let ghost whole = pieces_view(all@);
    let ghost parts = fields_upto(s@, LF, s@.len() as int);
    assert(whole == parts.0.push(parts.1));
    assert(all@[n - 1]@ == whole[n - 1]);
    if all[n - 1].len() == 0 {
        all.pop();
        assert(pieces_view(all@) =~= whole.drop_last());
        assert(whole.drop_last() =~= parts.0);
    }
    all
}

/// `s` without the white space at its two ends.
pub fn trim(s: &[u8]) -> (r: Vec<u8>)
    ensures
        r@ == trimmed(s@),
{
    let mut a: usize = 0;
    while a < s.len() && byte_is_space(s[a])
        invariant
            a <= s@.len(),
            first_non_space(s@, 0) == first_non_space(s@, a as int),
        decreases s@.len() - a,
    {
        a = a + 1;
    }
    let mut b: usize = s.len();
    while b > 0 && byte_is_space(s[b - 1])
        invariant
            b <= s@.len(),
            last_non_space_end(s@, s@.len() as int) == last_non_space_end(s@, b as int),
        decreases b,
    {
        b = b - 1;
    }
    let mut out: Vec<u8> = Vec::new();
    if a >= b {
        return out;
    }
    let mut i: usize = a;
    while i < b
        invariant
            a <= i <= b <= s@.len(),
            out@ == s@.subrange(a as int, i as int),
        decreases b - i,
    {
        out.push(s[i]);
        assert(s@.subrange(a as int, i + 1) =~= s@.subrange(a as int, i as int).push(s@[i as int]));
        i = i + 1;
    }
    out
}

/// Whether `s` begins with `prefix`.
pub fn has_prefix(s: &[u8], prefix: &[u8]) -> (r: bool)
    ensures
        r == starts_with(s@, prefix@),
{
    if s.len() < prefix.len() {
        return false;
    }
    let mut i: usize = 0;
    while i < prefix.len()
        invariant
            i <= prefix@.len() <= s@.len(),
            s@.subrange(0, i as int) == prefix@.subrange(0, i as int),
        decreases prefix@.len() - i,
    {
        if s[i] != prefix[i] {
            assert(s@.subrange(0, prefix@.len() as int)[i as int] != prefix@[i as int]);
            return false;
        }
        assert(s@.subrange(0, i + 1) =~= s@.subrange(0, i as int).push(s@[i as int]));
        assert(prefix@.subrange(0, i + 1) =~= prefix@.subrange(0, i as int).push(
            prefix@[i as int],
        ));
        i = i + 1;
    }
    assert(prefix@.subrange(0, prefix@.len() as int) =~= prefix@);
    true
}

} // verus!
