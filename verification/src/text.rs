use vstd::prelude::*;
use vstd::std_specs::iter::IteratorSpec;
use vstd::string::*;

verus! {

/// Whether `c` is whitespace: a character with the Unicode property
/// `White_Space`.
pub open spec fn is_space(c: char) -> bool {
    let code = c as u32;
    ||| 0x09 <= code <= 0x0D
    ||| code == 0x20
    ||| code == 0x85
    ||| code == 0xA0
    ||| code == 0x1680
    ||| 0x2000 <= code <= 0x200A
    ||| code == 0x2028
    ||| code == 0x2029
    ||| code == 0x202F
    ||| code == 0x205F
    ||| code == 0x3000
}

/// The number of characters of `s` before its first whitespace; all of them
/// if it has none.
pub open spec fn word_len(s: Seq<char>) -> nat
    decreases s.len(),
{
    if s.len() == 0 || is_space(s[0]) {
        0
    } else {
        1 + word_len(s.drop_first())
    }
}

/// Whether `word` is a text without whitespace that is not empty.
pub open spec fn is_word(word: Seq<char>) -> bool {
    word.len() > 0 && forall|i: int| 0 <= i < word.len() ==> !is_space(#[trigger] word[i])
}

/// The tokens of `s`: its maximal runs of characters that are not whitespace,
/// from left to right.
pub open spec fn tokens(s: Seq<char>) -> Seq<Seq<char>>
    decreases s.len(),
    via tokens_terminates
{
    if s.len() == 0 {
        Seq::empty()
    } else if is_space(s[0]) {
        tokens(s.drop_first())
    } else {
        seq![s.take(word_len(s) as int)] + tokens(s.skip(word_len(s) as int))
    }
}

#[via_fn]
proof fn tokens_terminates(s: Seq<char>) {
    lemma_word_len_bounds(s);
}

/// A word is no longer than the text it starts, not empty where the text
/// starts with a character that is not whitespace, and holds no whitespace.
pub proof fn lemma_word_len_bounds(s: Seq<char>)
    ensures
        word_len(s) <= s.len(),
        s.len() > 0 && !is_space(s[0]) ==> word_len(s) >= 1,
        forall|i: int| 0 <= i < word_len(s) ==> !is_space(#[trigger] s[i]),
    decreases s.len(),
{
    if s.len() > 0 && !is_space(s[0]) {
        let rest = s.drop_first();
        lemma_word_len_bounds(rest);
        assert forall|i: int| 0 <= i < word_len(s) implies !is_space(#[trigger] s[i]) by {
            if i > 0 {
                assert(s[i] == rest[i - 1]);
            }
        }
    }
}

/// Every token is a word: it is not empty and holds no whitespace.
pub proof fn lemma_tokens_are_words(s: Seq<char>, k: int)
    requires
        0 <= k < tokens(s).len(),
    ensures
        is_word(tokens(s)[k]),
    decreases s.len(),
{
    if is_space(s[0]) {
        lemma_tokens_are_words(s.drop_first(), k);
    } else {
        lemma_word_len_bounds(s);
        if k > 0 {
            lemma_tokens_are_words(s.skip(word_len(s) as int), k - 1);
        }
    }
}

/// Whether `c` is whitespace.
pub fn is_whitespace(c: char) -> (space: bool)
    ensures
        space == is_space(c),
{
    let code: u32 = c as u32;
    (0x09 <= code && code <= 0x0D) || code == 0x20 || code == 0x85 || code == 0xA0 || code
        == 0x1680 || (0x2000 <= code && code <= 0x200A) || code == 0x2028 || code == 0x2029
        || code == 0x202F || code == 0x205F || code == 0x3000
}

/// The characters of `s`, in order.
pub fn chars_of(s: &str) -> (chars: Vec<char>)
    ensures
        chars@ == s@,
{
    let mut chars: Vec<char> = Vec::new();
    for c in rest: s.chars()
        invariant
            rest.seq() == s@,
            chars@ == s@.take(rest.index() as int),
    {
        chars.push(c);
    }
    chars
}

/// The pieces of `s` that `spans` marks, each span a pair of a start and an
/// end.
pub open spec fn pieces(s: Seq<char>, spans: Seq<(usize, usize)>) -> Seq<Seq<char>> {
    Seq::new(spans.len(), |k: int| s.subrange(spans[k].0 as int, spans[k].1 as int))
}

/// A word that starts at `j` goes on from the next character where the
/// character at `j` is not whitespace, and ends at once where it is.
proof fn lemma_word_len_step(s: Seq<char>, j: int)
    requires
        0 <= j <= s.len(),
    ensures
        j < s.len() && !is_space(s[j]) ==> word_len(s.skip(j)) == 1 + word_len(s.skip(j + 1)),
        j == s.len() || is_space(s[j]) ==> word_len(s.skip(j)) == 0,
{
    if j < s.len() {
        assert(s.skip(j).drop_first() =~= s.skip(j + 1));
    }
}

/// A run of characters that are not whitespace, followed by whitespace or by
/// the end of the text, is a word.
proof fn lemma_word_len_of_run(s: Seq<char>, from: int, to: int)
    requires
        0 <= from <= to <= s.len(),
        forall|i: int| from <= i < to ==> !is_space(#[trigger] s[i]),
        to == s.len() || is_space(s[to]),
    ensures
        word_len(s.skip(from)) == to - from,
    decreases to - from,
{
    lemma_word_len_step(s, from);
    if from < to {
        lemma_word_len_of_run(s, from + 1, to);
    }
}

/// A text that starts with a word, followed by whitespace or by nothing, has
/// that word as its first token; the other tokens are those of what follows.
pub proof fn lemma_tokens_of_word_then(word: Seq<char>, rest: Seq<char>)
    requires
        word.len() > 0,
        forall|i: int| 0 <= i < word.len() ==> !is_space(#[trigger] word[i]),
        rest.len() == 0 || is_space(rest[0]),
    ensures
        tokens(word + rest) == seq![word] + tokens(rest),
{
    let s = word + rest;
    lemma_word_len_of_run(s, 0, word.len() as int);
    assert(s.skip(0) =~= s);
    assert(s.take(word.len() as int) =~= word);
    assert(s.skip(word.len() as int) =~= rest);
}

/// Whitespace at the start of a text adds no token.
pub proof fn lemma_tokens_after_space(space: char, rest: Seq<char>)
    requires
        is_space(space),
    ensures
        tokens(seq![space] + rest) == tokens(rest),
{
    assert((seq![space] + rest).drop_first() =~= rest);
}

/// Where the tokens of `chars` lie: one span for each token, from left to
/// right. No span is empty, and whitespace lies between any two.
pub fn token_spans(chars: &Vec<char>) -> (spans: Vec<(usize, usize)>)
    ensures
        pieces(chars@, spans@) == tokens(chars@),
        forall|k: int|
            0 <= k < spans.len() ==> (#[trigger] spans[k]).0 < spans[k].1 <= chars.len(),
        forall|k: int| 0 <= k < spans.len() - 1 ==> (#[trigger] spans[k]).1 < spans[k + 1].0,
{
    let ghost s = chars@;
    let n: usize = chars.len();
    let mut spans: Vec<(usize, usize)> = Vec::new();
    let mut i: usize = 0;
    assert(s.skip(0) =~= s);
    assert(pieces(s, spans@) + tokens(s) =~= tokens(s));
    while i < n
        invariant
            s == chars@,
            n == s.len(),
            i <= n,
            forall|k: int| 0 <= k < spans.len() ==> (#[trigger] spans[k]).0 < spans[k].1 <= i,
            forall|k: int| 0 <= k < spans.len() - 1 ==> (#[trigger] spans[k]).1 < spans[k + 1].0,
            spans.len() > 0 && spans[spans.len() - 1].1 == i ==> i == n || is_space(s[i as int]),
            pieces(s, spans@) + tokens(s.skip(i as int)) == tokens(s),
        decreases n - i,
    {
        let ghost rest = s.skip(i as int);
        if is_whitespace(chars[i]) {
            assert(rest.drop_first() =~= s.skip(i + 1));
            i += 1;
        } else {
            let start: usize = i;
            let mut j: usize = i + 1;
            proof {
                lemma_word_len_step(s, start as int);
            }
            while j < n && !is_whitespace(chars[j])
                invariant
                    s == chars@,
                    n == s.len(),
                    start < j <= n,
                    word_len(s.skip(start as int)) == (j - start) + word_len(s.skip(j as int)),
                decreases n - j,
            {
                proof {
                    lemma_word_len_step(s, j as int);
                }
                j += 1;
            }
            proof {
                lemma_word_len_step(s, j as int);
                let ghost before = spans@;
                let ghost after = before.push((start, j));
                assert(rest.take(j - start) =~= s.subrange(start as int, j as int));
                assert(rest.skip(j - start) =~= s.skip(j as int));
                assert(pieces(s, after) =~= pieces(s, before) + seq![
                    s.subrange(start as int, j as int),
                ]);
                assert(pieces(s, after) + tokens(s.skip(j as int)) =~= pieces(s, before) + tokens(
                    rest,
                ));
            }
            spans.push((start, j));
            i = j;
        }
    }
    assert(pieces(s, spans@) + tokens(s.skip(n as int)) =~= pieces(s, spans@));
    spans
}

} // verus!
