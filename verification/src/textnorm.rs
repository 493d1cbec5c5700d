//! Text normalization: collapses every run of whitespace (space, tab,
//! newline, carriage return) to a single space and trims the ends.

use vstd::prelude::*;
use vstd::string::StringExecFns;
use vstd::string::StrSliceExecFns;

verus! {

/// The characters the normalizer collapses.
pub open spec fn is_collapsible(c: char) -> bool {
    c == ' ' || c == '\t' || c == '\n' || c == '\r'
}

/// Normalized tail when the previous kept character belongs to a word.
pub open spec fn norm_in_word(s: Seq<char>, i: int) -> Seq<char>
    decreases s.len() - i, 0int,
{
    if i < 0 || i >= s.len() {
        Seq::empty()
    } else if is_collapsible(s[i]) {
        norm_after_word(s, i + 1)
    } else {
        seq![s[i]] + norm_in_word(s, i + 1)
    }
}

/// Normalized tail between words: one space is owed before the next word.
pub open spec fn norm_after_word(s: Seq<char>, i: int) -> Seq<char>
    decreases s.len() - i, 1int,
{
    if i < 0 || i >= s.len() {
        Seq::empty()
    } else if is_collapsible(s[i]) {
        norm_after_word(s, i + 1)
    } else {
        seq![' ', s[i]] + norm_in_word(s, i + 1)
    }
}

/// Normalized tail before the first word: leading whitespace is dropped.
pub open spec fn norm_start(s: Seq<char>, i: int) -> Seq<char>
    decreases s.len() - i, 1int,
{
    if i < 0 || i >= s.len() {
        Seq::empty()
    } else if is_collapsible(s[i]) {
        norm_start(s, i + 1)
    } else {
        seq![s[i]] + norm_in_word(s, i + 1)
    }
}

/// The normalized form of a string: its whitespace-separated words joined
/// by single spaces.
pub open spec fn spec_normalize(s: Seq<char>) -> Seq<char> {
    norm_start(s, 0)
}

/// No tab, newline or carriage return occurs in `r`.
pub open spec fn no_forbidden_whitespace(r: Seq<char>) -> bool {
    forall|j: int| 0 <= j < r.len() ==> r[j] != '\t' && r[j] != '\n' && r[j] != '\r'
}

/// No two adjacent spaces occur in `r`.
pub open spec fn no_double_space(r: Seq<char>) -> bool {
    forall|j: int| 0 <= j < r.len() - 1 ==> !(#[trigger] r[j] == ' ' && r[j + 1] == ' ')
}

/// The shape every normalized tail has: clean of forbidden whitespace and
/// double spaces, and never ending in a space.
pub open spec fn clean(r: Seq<char>) -> bool {
    &&& no_forbidden_whitespace(r)
    &&& no_double_space(r)
    &&& (r.len() > 0 ==> r[r.len() - 1] != ' ')
}

proof fn lemma_norm_clean(s: Seq<char>, i: int)
    ensures
        clean(norm_in_word(s, i)),
        clean(norm_after_word(s, i)),
        clean(norm_start(s, i)),
        norm_in_word(s, i).len() > 0 ==> norm_in_word(s, i)[0] == ' '
            || !is_collapsible(norm_in_word(s, i)[0]),
        norm_after_word(s, i).len() > 0 ==> norm_after_word(s, i)[0] == ' ',
        norm_start(s, i).len() > 0 ==> !is_collapsible(norm_start(s, i)[0]),
    decreases s.len() - i, 2int,
{
    if i < 0 || i >= s.len() {
    } else {
        lemma_norm_clean(s, i + 1);
        if is_collapsible(s[i]) {
        } else {
            let tail = norm_in_word(s, i + 1);
            assert(clean(seq![s[i]] + tail)) by {
                assert(forall|j: int|
                    1 <= j < (seq![s[i]] + tail).len() ==> (seq![s[i]] + tail)[j] == tail[j - 1]);
            }
            assert(clean(seq![' ', s[i]] + tail)) by {
                assert(forall|j: int|
                    2 <= j < (seq![' ', s[i]] + tail).len()
                        ==> (seq![' ', s[i]] + tail)[j] == tail[j - 2]);
            }
        }
    }
}

/// Law: the normalized form of any string holds no tab, newline or carriage
/// return, no run of two or more spaces, and no leading or trailing space.
pub proof fn lemma_normalize_clean(s: Seq<char>)
    ensures
        no_forbidden_whitespace(spec_normalize(s)),
        no_double_space(spec_normalize(s)),
        spec_normalize(s).len() > 0 ==> spec_normalize(s)[0] != ' '
            && spec_normalize(s)[spec_normalize(s).len() - 1] != ' ',
{
    lemma_norm_clean(s, 0);
}

/// Collapses every whitespace run to a single space and trims the ends.
pub fn normalize(s: &str) -> (r: String)
    ensures
        r@ == spec_normalize(s@),
        no_forbidden_whitespace(r@),
        no_double_space(r@),
        r@.len() > 0 ==> r@[0] != ' ' && r@[r@.len() - 1] != ' ',
{
    let len: usize = s.unicode_len();
    let mut out = String::new();
    let mut i: usize = 0;
    // 0: before the first word, 1: inside a word, 2: between words
    let mut mode: u8 = 0;
    while i < len
        invariant
            len == s@.len(),
            i <= len,
            mode <= 2,
            spec_normalize(s@) == out@ + (if mode == 0 {
                norm_start(s@, i as int)
            } else if mode == 1 {
                norm_in_word(s@, i as int)
            } else {
                norm_after_word(s@, i as int)
            }),
        decreases len - i,
    {
        let ghost out0 = out@;
        let c = s.get_char(i);
        if c == ' ' || c == '\t' || c == '\n' || c == '\r' {
            if mode == 1 {
                mode = 2;
            }
        } else {
            if mode == 2 {
                out.append(" ");
            }
            let piece = s.substring_char(i, i + 1);
            out.append(piece);
            proof {
                reveal_strlit(" ");
                if mode == 2 {
                    assert(out@ =~= out0 + seq![' ', s@[i as int]]);
                    assert(out0 + (seq![' ', s@[i as int]] + norm_in_word(s@, i + 1))
                        =~= out@ + norm_in_word(s@, i + 1));
                } else {
                    assert(out@ =~= out0 + seq![s@[i as int]]);
                    assert(out0 + (seq![s@[i as int]] + norm_in_word(s@, i + 1))
                        =~= out@ + norm_in_word(s@, i + 1));
                }
            }
            mode = 1;
        }
        i = i + 1;
    }
    proof {
        assert(spec_normalize(s@) == out@ + Seq::<char>::empty());
        assert(out@ + Seq::<char>::empty() =~= out@);
        lemma_normalize_clean(s@);
    }
    out
}

} // verus!
