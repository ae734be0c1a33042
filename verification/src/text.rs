//! Text handling shared by the broker and the client: lenient decoding of
//! received bytes and splitting a line into whitespace-delimited words.

use vstd::prelude::*;
use vstd::string::*;

verus! {

/// Whether `c` is whitespace as Unicode defines it (`White_Space`), which is
/// what `char::is_whitespace` tells.
pub open spec fn is_whitespace(c: char) -> bool {
    ||| '\u{9}' <= c <= '\u{d}'
    ||| c == ' '
    ||| c == '\u{85}'
    ||| c == '\u{a0}'
    ||| c == '\u{1680}'
    ||| '\u{2000}' <= c <= '\u{200a}'
    ||| c == '\u{2028}'
    ||| c == '\u{2029}'
    ||| c == '\u{202f}'
    ||| c == '\u{205f}'
    ||| c == '\u{3000}'
}

/// Whether `w` can stand as one word of a line: it is not empty and holds no
/// whitespace.
pub open spec fn is_word(w: Seq<char>) -> bool {
    w.len() > 0 && forall|k: int| 0 <= k < w.len() ==> !is_whitespace(#[trigger] w[k])
}

/// Length of the longest prefix of `s` that holds no whitespace.
pub open spec fn word_len(s: Seq<char>) -> nat
    decreases s.len(),
{
    if s.len() == 0 || is_whitespace(s[0]) {
        0
    } else {
        1 + word_len(s.drop_first())
    }
}

/// The words of `s`: its maximal runs of characters that are not whitespace,
/// from left to right.
pub open spec fn split_whitespace(s: Seq<char>) -> Seq<Seq<char>>
    decreases s.len(),
{
    if s.len() == 0 {
        Seq::empty()
    } else if is_whitespace(s[0]) {
        split_whitespace(s.drop_first())
    } else {
        let n = word_len(s) as int;
        proof {
            lemma_word_len_bounds(s);
        }
        seq![s.take(n)] + split_whitespace(s.skip(n))
    }
}

/// A word is no longer than the text it starts, and is not empty where the
/// text starts with a character that is not whitespace.
pub proof fn lemma_word_len_bounds(s: Seq<char>)
    ensures
        word_len(s) <= s.len(),
        s.len() > 0 && !is_whitespace(s[0]) ==> word_len(s) > 0,
    decreases s.len(),
{
    if s.len() > 0 && !is_whitespace(s[0]) {
        lemma_word_len_bounds(s.drop_first());
    }
}

/// The length of a run that is known to end where the word does.
proof fn lemma_word_len_is(s: Seq<char>, n: int)
    requires
        0 <= n <= s.len(),
        forall|k: int| 0 <= k < n ==> !is_whitespace(s[k]),
        n == s.len() || is_whitespace(s[n]),
    ensures
        word_len(s) == n,
    decreases n,
{
    if n > 0 {
        let rest = s.drop_first();
        assert forall|k: int| 0 <= k < n - 1 implies !is_whitespace(rest[k]) by {
            assert(rest[k] == s[k + 1]);
        }
        lemma_word_len_is(rest, n - 1);
    }
}

/// The word at the front of a text holds no whitespace.
pub proof fn lemma_word_holds_no_whitespace(s: Seq<char>)
    ensures
        forall|k: int| 0 <= k < word_len(s) ==> !is_whitespace(#[trigger] s[k]),
    decreases s.len(),
{
    lemma_word_len_bounds(s);
    if s.len() > 0 && !is_whitespace(s[0]) {
        let rest = s.drop_first();
        lemma_word_holds_no_whitespace(rest);
        assert forall|k: int| 0 <= k < word_len(s) implies !is_whitespace(#[trigger] s[k]) by {
            if k > 0 {
                lemma_word_len_bounds(rest);
                assert(s[k] == rest[k - 1]);
            }
        }
    }
}

/// Every word that `split_whitespace` yields is a word: none is empty and
/// none holds whitespace.
pub proof fn lemma_split_yields_words(s: Seq<char>)
    ensures
        forall|i: int|
            0 <= i < split_whitespace(s).len() ==> is_word(#[trigger] split_whitespace(s)[i]),
    decreases s.len(),
{
    if s.len() == 0 {
        assert(split_whitespace(s).len() == 0);
    } else if is_whitespace(s[0]) {
        lemma_split_yields_words(s.drop_first());
        assert(split_whitespace(s) == split_whitespace(s.drop_first()));
    } else {
        let n = word_len(s) as int;
        lemma_word_len_bounds(s);
        lemma_word_holds_no_whitespace(s);
        lemma_split_yields_words(s.skip(n));
        let first = s.take(n);
        let others = split_whitespace(s.skip(n));
        assert(split_whitespace(s) == seq![first] + others);
        assert forall|k: int| 0 <= k < first.len() implies !is_whitespace(#[trigger] first[k]) by {
            assert(first[k] == s[k]);
        }
        assert forall|i: int| 0 <= i < split_whitespace(s).len() implies is_word(
            #[trigger] split_whitespace(s)[i],
        ) by {
            if i > 0 {
                assert(split_whitespace(s)[i] == others[i - 1]);
            }
        }
    }
}

/// A word alone splits into itself.
pub proof fn lemma_split_single_word(w: Seq<char>)
    requires
        is_word(w),
    ensures
        split_whitespace(w) == seq![w],
{
    let n = w.len() as int;
    lemma_word_len_is(w, n);
    assert(w.take(n) =~= w);
    assert(w.skip(n) =~= Seq::<char>::empty());
    assert(split_whitespace(w.skip(n)) == Seq::<Seq<char>>::empty());
    assert(split_whitespace(w) == seq![w.take(n)] + split_whitespace(w.skip(n)));
    assert(seq![w] + Seq::<Seq<char>>::empty() =~= seq![w]);
}

/// A word followed by a space and more text splits into that word and the
/// words of the rest.
pub proof fn lemma_split_word_then_space(w: Seq<char>, rest: Seq<char>)
    requires
        is_word(w),
    ensures
        split_whitespace(w + seq![' '] + rest) == seq![w] + split_whitespace(rest),
{
    let s = w + seq![' '] + rest;
    let n = w.len() as int;
    assert(s[0] == w[0]);
    assert forall|k: int| 0 <= k < n implies !is_whitespace(s[k]) by {
        assert(s[k] == w[k]);
    }
    assert(s[n] == ' ');
    lemma_word_len_is(s, n);
    assert(s.take(n) =~= w);
    let tail = s.skip(n);
    assert(tail[0] == ' ');
    assert(tail.drop_first() =~= rest);
    assert(split_whitespace(tail) == split_whitespace(rest));
    assert(split_whitespace(s) == seq![s.take(n)] + split_whitespace(tail));
}

/// The text that `String::from_utf8_lossy` makes of `bytes`: the decoded
/// characters, with U+FFFD standing in for each ill-formed sequence.
pub uninterp spec fn lossy_text(bytes: Seq<u8>) -> Seq<char>;

/// Decodes received bytes leniently by calling `String::from_utf8_lossy`.
///
/// Not proved: that the returned text is the one that function yields for
/// these bytes, which depends on the bytes alone.
#[verifier::external_body]
pub(crate) fn decode_lossy(bytes: &[u8]) -> (text: String)
    ensures
        text@ == lossy_text(bytes@),
{
    String::from_utf8_lossy(bytes).into_owned()
}

/// The text that `str::to_lowercase` makes of `text`: each character
/// replaced by its lower-case mapping in Unicode.
pub uninterp spec fn lowercase(text: Seq<char>) -> Seq<char>;

/// Puts `text` in lower case by calling `str::to_lowercase`.
///
/// Not proved: that the returned text is the one that function yields for
/// this text, which depends on the text alone.
#[verifier::external_body]
pub(crate) fn to_lowercase(text: &str) -> (lowered: String)
    ensures
        lowered@ == lowercase(text@),
{
    text.to_lowercase()
}

/// Whether two texts hold the same characters.
pub fn same_text(a: &str, b: &str) -> (r: bool)
    ensures
        r == (a@ == b@),
{
    let left = a.to_owned();
    let right = b.to_owned();
    left == right
}

/// Decides whether `c` is whitespace.
pub fn is_whitespace_char(c: char) -> (r: bool)
    ensures
        r == is_whitespace(c),
{
    ('\u{9}' <= c && c <= '\u{d}') || c == ' ' || c == '\u{85}' || c == '\u{a0}' || c == '\u{1680}'
        || ('\u{2000}' <= c && c <= '\u{200a}') || c == '\u{2028}' || c == '\u{2029}' || c
        == '\u{202f}' || c == '\u{205f}' || c == '\u{3000}'
}

/// The characters of `text`, one by one.
pub(crate) fn chars_of(text: &str) -> (chars: Vec<char>)
    ensures
        chars@ == text@,
{
    let mut chars: Vec<char> = Vec::new();
    for c in it: text.chars()
        invariant
            it.seq() == text@,
            chars@ == it.seq().take(it.index()),
    {
        chars.push(c);
    }
    chars
}

/// Splits `text` into its words, as `str::split_whitespace` does.
pub fn words(text: &str) -> (out: Vec<String>)
    ensures
        out.deep_view() == split_whitespace(text@),
{
    let chars = chars_of(text);
    let n: usize = chars.len();
    let mut out: Vec<String> = Vec::new();
    let mut i: usize = 0;
    proof {
        assert(text@.skip(0) =~= text@);
        assert(out.deep_view() + split_whitespace(text@) =~= split_whitespace(text@));
    }
    while i < n
        invariant
            n == chars@.len(),
            chars@ == text@,
            i <= n,
            out.deep_view() + split_whitespace(text@.skip(i as int)) == split_whitespace(text@),
        decreases n - i,
    {
        let ghost rest = text@.skip(i as int);
        if is_whitespace_char(chars[i]) {
            proof {
                assert(rest.drop_first() =~= text@.skip(i + 1));
            }
            i = i + 1;
        } else {
            let mut j: usize = i + 1;
            while j < n && !is_whitespace_char(chars[j])
                invariant
                    n == chars@.len(),
                    chars@ == text@,
                    i < j <= n,
                    forall|k: int| i <= k < j ==> !is_whitespace(text@[k]),
                decreases n - j,
            {
                j = j + 1;
            }
            let word = text.substring_char(i, j).to_owned();
            proof {
                lemma_word_len_is(rest, j - i);
                assert(rest.take(j - i) =~= text@.subrange(i as int, j as int));
                assert(rest.skip(j - i) =~= text@.skip(j as int));
                assert(out.deep_view().push(word@) =~= out.deep_view() + seq![word@]);
            }
            let ghost before = out.deep_view();
            out.push(word);
            proof {
                assert(out.deep_view() =~= before.push(word@));
            }
            i = j;
        }
    }
    proof {
        assert(text@.skip(n as int) =~= Seq::<char>::empty());
    }
    out
}

} // verus!
