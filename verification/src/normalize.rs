//! Text normalization: noise characters are folded into single spaces before
//! the text is handed to the morphological analyzer.
//!
//! Noise is what the analyzer's dictionary has no use for: Latin letters,
//! white space, and the punctuation and symbols of ASCII. Digits and every
//! other character pass through.

use vstd::prelude::*;
use crate::text::{chars_of, string_of};

verus! {

/// Latin letters, `A` to `Z` and `a` to `z`.
pub open spec fn is_latin_letter(c: char) -> bool {
    ('a' <= c && c <= 'z') || ('A' <= c && c <= 'Z')
}

/// The characters with the Unicode property `White_Space`.
pub open spec fn is_white_space(c: char) -> bool {
    ||| ('\u{9}' <= c && c <= '\u{D}')
    ||| c == ' '
    ||| c == '\u{85}'
    ||| c == '\u{A0}'
    ||| c == '\u{1680}'
    ||| ('\u{2000}' <= c && c <= '\u{200A}')
    ||| c == '\u{2028}'
    ||| c == '\u{2029}'
    ||| c == '\u{202F}'
    ||| c == '\u{205F}'
    ||| c == '\u{3000}'
}

/// The punctuation and symbols of ASCII, backtick and tilde among them:
/// everything printable in ASCII that is neither a letter, a digit nor the
/// space.
pub open spec fn is_ascii_symbol(c: char) -> bool {
    ||| ('!' <= c && c <= '/')
    ||| (':' <= c && c <= '@')
    ||| ('[' <= c && c <= '`')
    ||| ('{' <= c && c <= '~')
}

/// A character that normalization folds away.
pub open spec fn is_noise(c: char) -> bool {
    is_latin_letter(c) || is_white_space(c) || is_ascii_symbol(c)
}

/// `s` with every maximal run of noise characters replaced by one space.
///
/// Read from the back: a character that is no noise stays; a noise character
/// that opens a run becomes the run's space; one that continues a run adds
/// nothing.
pub open spec fn stripped(s: Seq<char>) -> Seq<char>
    decreases s.len(),
{
    if s.len() == 0 {
        Seq::empty()
    } else {
        let before = stripped(s.drop_last());
        if !is_noise(s.last()) {
            before.push(s.last())
        } else if s.len() >= 2 && is_noise(s[s.len() - 2]) {
            before
        } else {
            before.push(' ')
        }
    }
}

/// A text in normal form: its only noise characters are spaces, and no space
/// follows another noise character.
pub open spec fn is_normal_form(s: Seq<char>) -> bool {
    forall|i: int|
        0 <= i < s.len() && is_noise(#[trigger] s[i]) ==> s[i] == ' ' && (i == 0 || !is_noise(
            s[i - 1],
        ))
}

/// Whether `c` is a noise character.
pub fn is_noise_char(c: char) -> (b: bool)
    ensures
        b == is_noise(c),
{
    let letter = ('a' <= c && c <= 'z') || ('A' <= c && c <= 'Z');
    let symbol = ('!' <= c && c <= '/') || (':' <= c && c <= '@') || ('[' <= c && c <= '`') || ('{'
        <= c && c <= '~');
    let space = ('\u{9}' <= c && c <= '\u{D}') || c == ' ' || c == '\u{85}' || c == '\u{A0}' || c
        == '\u{1680}' || ('\u{2000}' <= c && c <= '\u{200A}') || c == '\u{2028}' || c == '\u{2029}'
        || c == '\u{202F}' || c == '\u{205F}' || c == '\u{3000}';
    letter || symbol || space
}

/// Replaces every maximal run of noise characters in `s` by a single space.
/// Never fails; the empty text stays empty.
pub fn strip_symbols(s: &str) -> (out: String)
    ensures
        out@ == stripped(s@),
        is_normal_form(out@),
{
    let v = chars_of(s);
    let mut kept: Vec<char> = Vec::new();
    let mut in_run = false;
    let mut i: usize = 0;
    while i < v.len()
        invariant
            i <= v.len(),
            kept@ == stripped(v@.take(i as int)),
            in_run == (i > 0 && is_noise(v@[i - 1])),
        decreases v.len() - i,
    {
        let c = v[i];
        let noise = is_noise_char(c);
        proof {
            let next = v@.take(i + 1);
            assert(next.drop_last() == v@.take(i as int));
            assert(next.last() == c);
            if i > 0 {
                assert(next[next.len() - 2] == v@[i - 1]);
            }
        }
        if !noise {
            kept.push(c);
        } else if !in_run {
            kept.push(' ');
        }
        in_run = noise;
        i += 1;
    }
    proof {
        assert(v@.take(v.len() as int) == v@);
        lemma_stripped_is_normal_form(s@);
    }
    let n = kept.len();
    let out = string_of(&kept, 0, n);
    assert(kept@.subrange(0, n as int) == kept@);
    out
}

/// What normalization does at the end of a text: the result is empty exactly
/// when the text is, and it ends in noise exactly when the text does.
pub proof fn lemma_stripped_last(s: Seq<char>)
    ensures
        (stripped(s).len() == 0) == (s.len() == 0),
        s.len() > 0 ==> is_noise(stripped(s).last()) == is_noise(s.last()),
        s.len() > 0 && !is_noise(s.last()) ==> stripped(s).last() == s.last(),
    decreases s.len(),
{
    if s.len() > 0 {
        lemma_stripped_last(s.drop_last());
    }
}

/// The result of normalization is in normal form.
pub proof fn lemma_stripped_is_normal_form(s: Seq<char>)
    ensures
        is_normal_form(stripped(s)),
    decreases s.len(),
{
    if s.len() > 0 {
        let p = s.drop_last();
        lemma_stripped_is_normal_form(p);
        lemma_stripped_last(p);
        let before = stripped(p);
        let out = stripped(s);
        assert forall|i: int| 0 <= i < out.len() && is_noise(#[trigger] out[i]) implies out[i]
            == ' ' && (i == 0 || !is_noise(out[i - 1])) by {
            if i < before.len() {
                assert(out[i] == before[i]);
                if i > 0 {
                    assert(out[i - 1] == before[i - 1]);
                }
            } else {
                if p.len() > 0 {
                    assert(p.last() == s[s.len() - 2]);
                }
            }
        }
    }
}

/// Normalization leaves a text in normal form as it is.
pub proof fn lemma_normal_form_is_fixed(s: Seq<char>)
    requires
        is_normal_form(s),
    ensures
        stripped(s) == s,
    decreases s.len(),
{
    if s.len() > 0 {
        let p = s.drop_last();
        assert forall|i: int| 0 <= i < p.len() && is_noise(#[trigger] p[i]) implies p[i] == ' '
            && (i == 0 || !is_noise(p[i - 1])) by {
            assert(p[i] == s[i]);
        }
        lemma_normal_form_is_fixed(p);
        let last = s.len() - 1;
        assert(s[last] == s.last());
        assert(p.push(s.last()) == s);
    } else {
        assert(s == Seq::<char>::empty());
    }
}

/// Normalizing twice gives what normalizing once gives.
pub proof fn lemma_stripped_idempotent(s: Seq<char>)
    ensures
        stripped(stripped(s)) == stripped(s),
{
    lemma_stripped_is_normal_form(s);
    lemma_normal_form_is_fixed(stripped(s));
}

/// A text without noise characters is left as it is.
pub proof fn lemma_stripped_without_noise(s: Seq<char>)
    requires
        forall|i: int| 0 <= i < s.len() ==> !is_noise(#[trigger] s[i]),
    ensures
        stripped(s) == s,
{
    lemma_normal_form_is_fixed(s);
}

/// Normalization keeps every character that is no noise, in its place among
/// the others: digits and the characters of other scripts pass through.
pub proof fn lemma_stripped_keeps_the_rest(s: Seq<char>)
    ensures
        stripped(s).filter(|c: char| !is_noise(c)) == s.filter(|c: char| !is_noise(c)),
    decreases s.len(),
{
    reveal(Seq::filter);
    let rest = |c: char| !is_noise(c);
    if s.len() > 0 {
        let before = stripped(s.drop_last());
        lemma_stripped_keeps_the_rest(s.drop_last());
        if !is_noise(s.last()) {
            assert(before.push(s.last()).drop_last() == before);
        } else if !(s.len() >= 2 && is_noise(s[s.len() - 2])) {
            assert(before.push(' ').drop_last() == before);
        }
    }
}

} // verus!
