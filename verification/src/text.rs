//! Character classes and whitespace splitting of command-line argument strings.

use vstd::prelude::*;

verus! {

/// The characters that carry the Unicode `White_Space` property.
pub open spec fn is_whitespace_char(c: char) -> bool {
    let u = c as u32;
    ||| 0x09 <= u <= 0x0d
    ||| u == 0x20
    ||| u == 0x85
    ||| u == 0xa0
    ||| u == 0x1680
    ||| 0x2000 <= u <= 0x200a
    ||| u == 0x2028
    ||| u == 0x2029
    ||| u == 0x202f
    ||| u == 0x205f
    ||| u == 0x3000
}

/// Calls `char::is_whitespace`, documented as true exactly for the characters
/// with the Unicode `White_Space` property.
#[verifier::external_body]
fn char_is_whitespace(c: char) -> (r: bool)
    ensures
        r == is_whitespace_char(c),
{
    c.is_whitespace()
}

/// The maximal runs of non-whitespace characters of `s`, in order: what
/// `str::split_whitespace` yields.
pub open spec fn split_ws(s: Seq<char>) -> Seq<Seq<char>>
    decreases s.len(),
{
    if s.len() == 0 {
        Seq::empty()
    } else {
        let prev = split_ws(s.drop_last());
        let c = s.last();
        if is_whitespace_char(c) {
            prev
        } else if s.len() >= 2 && !is_whitespace_char(s[s.len() - 2]) {
            prev.update(prev.len() - 1, prev.last().push(c))
        } else {
            prev.push(seq![c])
        }
    }
}

/// The views of a vector of strings.
pub open spec fn strings_view(v: Seq<String>) -> Seq<Seq<char>> {
    v.map_values(|t: String| t@)
}

/// A string that ends in a non-whitespace character has at least one token.
proof fn lemma_split_ws_nonempty(s: Seq<char>)
    requires
        s.len() > 0,
        !is_whitespace_char(s.last()),
    ensures
        split_ws(s).len() > 0,
    decreases s.len(),
{
    let t = s.drop_last();
    if s.len() >= 2 && !is_whitespace_char(s[s.len() - 2]) {
        assert(t.last() == s[s.len() - 2]);
        lemma_split_ws_nonempty(t);
    }
}

/// Every token is non-empty and holds no whitespace.
pub proof fn lemma_split_ws_tokens(s: Seq<char>)
    ensures
        forall|k: int|
            0 <= k < split_ws(s).len() ==> #[trigger] split_ws(s)[k].len() > 0 && forall|j: int|
                0 <= j < split_ws(s)[k].len() ==> !is_whitespace_char(split_ws(s)[k][j]),
    decreases s.len(),
{
    if s.len() > 0 {
        let t = s.drop_last();
        lemma_split_ws_tokens(t);
        if !is_whitespace_char(s.last()) && s.len() >= 2 && !is_whitespace_char(s[s.len() - 2]) {
            assert(t.last() == s[s.len() - 2]);
            lemma_split_ws_nonempty(t);
        }
    }
}

/// Whether a word begins at position `i` of `s`: a non-whitespace character
/// at the start or after whitespace.
pub open spec fn starts_word(s: Seq<char>, i: int) -> bool {
    !is_whitespace_char(s[i]) && (i == 0 || is_whitespace_char(s[i - 1]))
}

/// The number of positions below `n` where a word begins.
pub open spec fn count_word_starts(s: Seq<char>, n: nat) -> nat
    decreases n,
{
    if n == 0 {
        0
    } else {
        count_word_starts(s, (n - 1) as nat) + if starts_word(s, n - 1) {
            1nat
        } else {
            0nat
        }
    }
}

/// Counting word starts below `n` looks only at the first `n` characters.
proof fn lemma_count_word_starts_prefix(s: Seq<char>, t: Seq<char>, n: nat)
    requires
        n <= s.len(),
        n <= t.len(),
        forall|i: int| 0 <= i < n ==> s[i] == t[i],
    ensures
        count_word_starts(s, n) == count_word_starts(t, n),
    decreases n,
{
    if n > 0 {
        lemma_count_word_starts_prefix(s, t, (n - 1) as nat);
    }
}

/// The words of `s`, put back together, are the non-whitespace characters of
/// `s` in order, and there is one word per position where a word begins.
pub proof fn lemma_split_ws_words(s: Seq<char>)
    ensures
        split_ws(s).flatten() == s.filter(|c: char| !is_whitespace_char(c)),
        split_ws(s).len() == count_word_starts(s, s.len()),
    decreases s.len(),
{
    let pred = |c: char| !is_whitespace_char(c);
    reveal(Seq::filter);
    split_ws(s).lemma_flatten_and_flatten_alt_are_equivalent();
    if s.len() > 0 {
        let t = s.drop_last();
        lemma_split_ws_words(t);
        let prev = split_ws(t);
        prev.lemma_flatten_and_flatten_alt_are_equivalent();
        let c = s.last();
        lemma_count_word_starts_prefix(s, t, t.len());
        if is_whitespace_char(c) {
        } else if s.len() >= 2 && !is_whitespace_char(s[s.len() - 2]) {
            assert(t.last() == s[s.len() - 2]);
            lemma_split_ws_nonempty(t);
            let q = split_ws(s);
            assert(q.drop_last() =~= prev.drop_last());
            assert(prev =~= prev.drop_last().push(prev.last()));
            assert(q.flatten_alt() =~= prev.flatten_alt().push(c));
        } else {
            let q = split_ws(s);
            assert(q.drop_last() =~= prev);
            assert(seq![c] =~= Seq::<char>::empty().push(c));
            assert(q.flatten_alt() =~= prev.flatten_alt().push(c));
        }
    }
}

/// Splits `s` at runs of whitespace, as `str::split_whitespace` does.
pub fn split_whitespace(s: &str) -> (tokens: Vec<String>)
    ensures
        strings_view(tokens@) == split_ws(s@),
{
    let n = s.unicode_len();
    let mut tokens: Vec<String> = Vec::new();
    let mut start: usize = 0;
    let mut in_token = false;
    let mut i: usize = 0;
    while i < n
        invariant
            n == s@.len(),
            i <= n,
            in_token <==> (i > 0 && !is_whitespace_char(s@[i - 1])),
            in_token ==> start < i,
            !in_token ==> start <= i,
            in_token ==> (start == 0 || is_whitespace_char(s@[start - 1])),
            in_token ==> forall|k: int| start <= k < i ==> !is_whitespace_char(#[trigger] s@[k]),
            split_ws(s@.take(i as int)) == (if in_token {
                strings_view(tokens@).push(s@.subrange(start as int, i as int))
            } else {
                strings_view(tokens@)
            }),
        decreases n - i,
    {
        let c = s.get_char(i);
        let ws = char_is_whitespace(c);
        let ghost prev = s@.take(i as int);
        let ghost next = s@.take(i + 1);
        assert(next.drop_last() =~= prev);
        assert(next.last() == c);
        if ws {
            if in_token {
                let tok = s.substring_char(start, i).to_owned();
                let ghost old_view = strings_view(tokens@);
                tokens.push(tok);
                assert(strings_view(tokens@) =~= old_view.push(tok@));
            }
            in_token = false;
        } else {
            if in_token {
                assert(next.len() >= 2 && next[next.len() - 2] == s@[i - 1]);
                assert(s@.subrange(start as int, i + 1) =~= s@.subrange(start as int, i as int).push(c));
                assert(split_ws(next) =~= strings_view(tokens@).push(s@.subrange(start as int, i + 1)));
            } else {
                assert(i == 0 || next[next.len() - 2] == s@[i - 1]);
                assert(s@.subrange(i as int, i + 1) =~= seq![c]);
                start = i;
            }
            in_token = true;
        }
        i = i + 1;
    }
    assert(s@.take(n as int) =~= s@);
    if in_token {
        let tok = s.substring_char(start, n).to_owned();
        let ghost old_view = strings_view(tokens@);
        tokens.push(tok);
        assert(strings_view(tokens@) =~= old_view.push(tok@));
    }
    tokens
}

} // verus!
