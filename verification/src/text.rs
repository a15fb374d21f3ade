//! Verified text primitives for the renderer: splitting on whitespace runs,
//! expanding raw (code-block) text, splitting on newlines, and writing
//! ordinals in decimal.
use vstd::prelude::*;

verus! {

/// The Unicode `White_Space` code points, as `char::is_whitespace` lists them.
pub open spec fn is_ws(c: char) -> bool {
    c == ' ' || ('\u{9}' <= c && c <= '\u{d}') || c == '\u{85}' || c == '\u{a0}'
        || c == '\u{1680}' || ('\u{2000}' <= c && c <= '\u{200a}') || c == '\u{2028}'
        || c == '\u{2029}' || c == '\u{202f}' || c == '\u{205f}' || c == '\u{3000}'
}

pub fn is_whitespace_char(c: char) -> (r: bool)
    ensures
        r == is_ws(c),
{
    c == ' ' || ('\u{9}' <= c && c <= '\u{d}') || c == '\u{85}' || c == '\u{a0}'
        || c == '\u{1680}' || ('\u{2000}' <= c && c <= '\u{200a}') || c == '\u{2028}'
        || c == '\u{2029}' || c == '\u{202f}' || c == '\u{205f}' || c == '\u{3000}'
}

/// The index just past the whitespace-free run that starts at `i`.
pub open spec fn token_end(s: Seq<char>, i: int) -> int
    decreases s.len() - i,
{
    if i < 0 || i >= s.len() || is_ws(s[i]) {
        i
    } else {
        token_end(s, i + 1)
    }
}

pub proof fn lemma_token_end(s: Seq<char>, i: int)
    requires
        0 <= i <= s.len(),
    ensures
        i <= token_end(s, i) <= s.len(),
        forall|k: int| i <= k < token_end(s, i) ==> !is_ws(s[k]),
        token_end(s, i) == s.len() || is_ws(s[token_end(s, i)]),
    decreases s.len() - i,
{
    if i < s.len() && !is_ws(s[i]) {
        lemma_token_end(s, i + 1);
    }
}

/// The maximal whitespace-free runs of `s`, from position `i` on: what
/// splitting on whitespace runs yields.
pub open spec fn tokens_from(s: Seq<char>, i: int) -> Seq<Seq<char>>
    decreases s.len() - i,
        when 0 <= i
        via tokens_from_decreases
{
    if i >= s.len() {
        Seq::empty()
    } else if is_ws(s[i]) {
        tokens_from(s, i + 1)
    } else {
        seq![s.subrange(i, token_end(s, i))] + tokens_from(s, token_end(s, i))
    }
}

#[via_fn]
proof fn tokens_from_decreases(s: Seq<char>, i: int) {
    if 0 <= i < s.len() && !is_ws(s[i]) {
        lemma_token_end(s, i);
    }
}

pub open spec fn tokens(s: Seq<char>) -> Seq<Seq<char>> {
    tokens_from(s, 0)
}

pub proof fn lemma_tokens_from_nonempty(s: Seq<char>, i: int)
    requires
        0 <= i <= s.len(),
    ensures
        forall|k: int|
            0 <= k < tokens_from(s, i).len() ==> (#[trigger] tokens_from(s, i)[k]).len() > 0,
    decreases s.len() - i,
{
    if i >= s.len() {
    } else if is_ws(s[i]) {
        lemma_tokens_from_nonempty(s, i + 1);
        assert(tokens_from(s, i) == tokens_from(s, i + 1));
        assert forall|k: int|
            0 <= k < tokens_from(s, i).len() implies (#[trigger] tokens_from(s, i)[k]).len()
            > 0 by {
            assert(tokens_from(s, i)[k] == tokens_from(s, i + 1)[k]);
        }
    } else {
        lemma_token_end(s, i);
        assert(token_end(s, i) > i);
        lemma_tokens_from_nonempty(s, token_end(s, i));
        let toks = tokens_from(s, i);
        let first = s.subrange(i, token_end(s, i));
        let rest = tokens_from(s, token_end(s, i));
        assert(toks == seq![first] + rest);
        assert(toks.len() == 1 + rest.len());
        assert forall|k: int| 0 <= k < toks.len() implies (#[trigger] toks[k]).len() > 0 by {
            if k == 0 {
                assert(toks[0] == first);
            } else {
                assert(toks[k] == rest[k - 1]);
            }
        }
    }
}

/// Every word that splitting yields is non-empty.
pub proof fn lemma_tokens_all_nonempty(s: Seq<char>)
    ensures
        forall|k: int| 0 <= k < tokens(s).len() ==> (#[trigger] tokens(s)[k]).len() > 0,
{
    lemma_tokens_from_nonempty(s, 0);
}

/// Split `text` on whitespace runs into its words, in order.
pub fn tokenize(text: &Vec<char>) -> (r: Vec<Vec<char>>)
    ensures
        r@.map_values(|t: Vec<char>| t@) == tokens(text@),
{
    let ghost s = text@;
    let mut out: Vec<Vec<char>> = Vec::new();
    let mut i: usize = 0;
    while i < text.len()
        invariant
            i <= text.len(),
            tokens(s) == out@.map_values(|t: Vec<char>| t@) + tokens_from(s, i as int),
        decreases text.len() - i,
    {
        if is_whitespace_char(text[i]) {
            i = i + 1;
        } else {
            let mut j: usize = i;
            while j < text.len() && !is_whitespace_char(text[j])
                invariant
                    i <= j <= text.len(),
                    token_end(s, i as int) == token_end(s, j as int),
                decreases text.len() - j,
            {
                j = j + 1;
            }
            assert(token_end(s, i as int) == j);
            let mut word: Vec<char> = Vec::new();
            let mut k: usize = i;
            while k < j
                invariant
                    i <= k <= j <= text.len(),
                    word@ == s.subrange(i as int, k as int),
                decreases j - k,
            {
                word.push(text[k]);
                k = k + 1;
                assert(word@ =~= s.subrange(i as int, k as int));
            }
            let ghost old_out = out@;
            out.push(word);
            proof {
                assert(out@.map_values(|t: Vec<char>| t@) =~= old_out.map_values(
                    |t: Vec<char>| t@,
                ).push(s.subrange(i as int, j as int)));
                assert(old_out.map_values(|t: Vec<char>| t@).push(
                    s.subrange(i as int, j as int),
                ) + tokens_from(s, j as int) =~= old_out.map_values(|t: Vec<char>| t@) + (seq![
                    s.subrange(i as int, j as int),
                ] + tokens_from(s, j as int)));
            }
            i = j;
        }
    }
    out
}

/// How one character of raw text is shown: carriage returns vanish and a tab
/// becomes four spaces.
pub open spec fn expand_char(c: char) -> Seq<char> {
    if c == '\r' {
        Seq::empty()
    } else if c == '\t' {
        seq![' ', ' ', ' ', ' ']
    } else {
        seq![c]
    }
}

/// Raw text from position `i` on, with every character expanded.
pub open spec fn raw_expand_from(s: Seq<char>, i: int) -> Seq<char>
    decreases s.len() - i,
{
    if i < 0 || i >= s.len() {
        Seq::empty()
    } else {
        expand_char(s[i]) + raw_expand_from(s, i + 1)
    }
}

pub open spec fn raw_expand(s: Seq<char>) -> Seq<char> {
    raw_expand_from(s, 0)
}

/// Expand raw text: drop `\r`, turn each `\t` into four spaces.
pub fn expand_raw(text: &Vec<char>) -> (r: Vec<char>)
    ensures
        r@ == raw_expand(text@),
{
    let ghost s = text@;
    let mut out: Vec<char> = Vec::new();
    let mut i: usize = 0;
    while i < text.len()
        invariant
            i <= text.len(),
            raw_expand(s) == out@ + raw_expand_from(s, i as int),
        decreases text.len() - i,
    {
        let c = text[i];
        if c == '\r' {
        } else if c == '\t' {
            out.push(' ');
            out.push(' ');
            out.push(' ');
            out.push(' ');
        } else {
            out.push(c);
        }
        proof {
            assert(out@ + raw_expand_from(s, i + 1 as int) =~= raw_expand(s));
        }
        i = i + 1;
    }
    out
}

/// The index of the newline that ends the segment starting at `i`, or the
/// length of `s` if none follows.
pub open spec fn seg_end(s: Seq<char>, i: int) -> int
    decreases s.len() - i,
{
    if i < 0 || i >= s.len() || s[i] == '\n' {
        i
    } else {
        seg_end(s, i + 1)
    }
}

pub proof fn lemma_seg_end(s: Seq<char>, i: int)
    requires
        0 <= i <= s.len(),
    ensures
        i <= seg_end(s, i) <= s.len(),
        forall|k: int| i <= k < seg_end(s, i) ==> s[k] != '\n',
        seg_end(s, i) == s.len() || s[seg_end(s, i)] == '\n',
    decreases s.len() - i,
{
    if i < s.len() && s[i] != '\n' {
        lemma_seg_end(s, i + 1);
    }
}

/// The segments of `s` from `i` on, with `\n` as a separator: a text with
/// k newlines yields k + 1 segments.
pub open spec fn nl_segments_from(s: Seq<char>, i: int) -> Seq<Seq<char>>
    decreases s.len() - i,
        when 0 <= i <= s.len()
        via nl_segments_from_decreases
{
    let j = seg_end(s, i);
    if j < s.len() {
        seq![s.subrange(i, j)] + nl_segments_from(s, j + 1)
    } else {
        seq![s.subrange(i, j)]
    }
}

#[via_fn]
proof fn nl_segments_from_decreases(s: Seq<char>, i: int) {
    if 0 <= i <= s.len() {
        lemma_seg_end(s, i);
    }
}

pub open spec fn nl_segments(s: Seq<char>) -> Seq<Seq<char>> {
    nl_segments_from(s, 0)
}

/// Split `text` on newlines, keeping empty segments: the separator reading
/// of `\n`, so a trailing newline yields a trailing empty segment.
pub fn split_newlines(text: &Vec<char>) -> (r: Vec<Vec<char>>)
    ensures
        r@.map_values(|t: Vec<char>| t@) == nl_segments(text@),
        r@.len() >= 1,
{
    let ghost s = text@;
    let mut out: Vec<Vec<char>> = Vec::new();
    let mut i: usize = 0;
    // One pass over the text; the final segment (the one not ended by a
    // newline) sets the flag.
    let mut done: bool = false;
    while !done
        invariant
            i <= text.len(),
            !done ==> nl_segments(s) == out@.map_values(|t: Vec<char>| t@)
                + nl_segments_from(s, i as int),
            done ==> out@.map_values(|t: Vec<char>| t@) == nl_segments(s) && out@.len() >= 1,
        decreases text.len() - i + (if done { 0int } else { 1int }),
    {
        let mut j: usize = i;
        while j < text.len() && text[j] != '\n'
            invariant
                i <= j <= text.len(),
                seg_end(s, i as int) == seg_end(s, j as int),
            decreases text.len() - j,
        {
            j = j + 1;
        }
        assert(seg_end(s, i as int) == j);
        let mut seg: Vec<char> = Vec::new();
        let mut k: usize = i;
        while k < j
            invariant
                i <= k <= j <= text.len(),
                seg@ == s.subrange(i as int, k as int),
            decreases j - k,
        {
            seg.push(text[k]);
            k = k + 1;
            assert(seg@ =~= s.subrange(i as int, k as int));
        }
        let ghost old_out = out@;
        out.push(seg);
        proof {
            assert(out@.map_values(|t: Vec<char>| t@) =~= old_out.map_values(
                |t: Vec<char>| t@,
            ).push(s.subrange(i as int, j as int)));
        }
        if j < text.len() {
            proof {
                assert(old_out.map_values(|t: Vec<char>| t@).push(
                    s.subrange(i as int, j as int),
                ) + nl_segments_from(s, j + 1 as int) =~= old_out.map_values(|t: Vec<char>| t@)
                    + (seq![s.subrange(i as int, j as int)] + nl_segments_from(s, j + 1 as int)));
            }
            i = j + 1;
        } else {
            proof {
                assert(out@.map_values(|t: Vec<char>| t@) =~= old_out.map_values(|t: Vec<char>| t@)
                    + seq![s.subrange(i as int, j as int)]);
            }
            i = j;
            done = true;
        }
    }
    out
}

/// The decimal digit characters.
pub open spec fn digit_char(d: int) -> char {
    if d == 0 {
        '0'
    } else if d == 1 {
        '1'
    } else if d == 2 {
        '2'
    } else if d == 3 {
        '3'
    } else if d == 4 {
        '4'
    } else if d == 5 {
        '5'
    } else if d == 6 {
        '6'
    } else if d == 7 {
        '7'
    } else if d == 8 {
        '8'
    } else {
        '9'
    }
}

/// The usual decimal writing of `n`, most significant digit first.
pub open spec fn dec_chars(n: nat) -> Seq<char>
    decreases n,
{
    if n < 10 {
        seq![digit_char(n as int)]
    } else {
        dec_chars(n / 10).push(digit_char((n % 10) as int))
    }
}

fn digit_of(d: u16) -> (r: char)
    requires
        d < 10,
    ensures
        r == digit_char(d as int),
{
    if d == 0 {
        '0'
    } else if d == 1 {
        '1'
    } else if d == 2 {
        '2'
    } else if d == 3 {
        '3'
    } else if d == 4 {
        '4'
    } else if d == 5 {
        '5'
    } else if d == 6 {
        '6'
    } else if d == 7 {
        '7'
    } else if d == 8 {
        '8'
    } else {
        '9'
    }
}

/// Whether two character vectors hold the same text.
pub fn eq_chars(a: &Vec<char>, b: &Vec<char>) -> (r: bool)
    ensures
        r == (a@ == b@),
{
    if a.len() != b.len() {
        return false;
    }
    let mut i: usize = 0;
    while i < a.len()
        invariant
            i <= a.len(),
            a@.len() == b@.len(),
            forall|k: int| 0 <= k < i ==> a@[k] == b@[k],
        decreases a.len() - i,
    {
        if a[i] != b[i] {
            return false;
        }
        i = i + 1;
    }
    proof {
        assert(a@ =~= b@);
    }
    true
}

/// Append a copy of `src` to `dst`.
pub fn append_chars(dst: &mut Vec<char>, src: &Vec<char>)
    ensures
        final(dst)@ == old(dst)@ + src@,
{
    let mut i: usize = 0;
    while i < src.len()
        invariant
            i <= src.len(),
            dst@ == old(dst)@ + src@.subrange(0, i as int),
        decreases src.len() - i,
    {
        dst.push(src[i]);
        i = i + 1;
        proof {
            assert(old(dst)@ + src@.subrange(0, i - 1 as int) + seq![src@[i - 1]] =~= old(dst)@
                + src@.subrange(0, i as int));
        }
    }
    proof {
        assert(src@.subrange(0, src@.len() as int) =~= src@);
    }
}

fn digit_of_u64(d: u64) -> (r: char)
    requires
        d < 10,
    ensures
        r == digit_char(d as int),
{
    if d == 0 {
        '0'
    } else if d == 1 {
        '1'
    } else if d == 2 {
        '2'
    } else if d == 3 {
        '3'
    } else if d == 4 {
        '4'
    } else if d == 5 {
        '5'
    } else if d == 6 {
        '6'
    } else if d == 7 {
        '7'
    } else if d == 8 {
        '8'
    } else {
        '9'
    }
}

/// Write `n` in decimal.
pub fn u64_dec_chars(n: u64) -> (r: Vec<char>)
    ensures
        r@ == dec_chars(n as nat),
    decreases n,
{
    if n < 10 {
        let mut v: Vec<char> = Vec::new();
        v.push(digit_of_u64(n));
        proof {
            assert(v@ =~= dec_chars(n as nat));
        }
        v
    } else {
        let mut v = u64_dec_chars(n / 10);
        v.push(digit_of_u64(n % 10));
        v
    }
}

/// Write `n` in decimal.
pub fn u16_dec_chars(n: u16) -> (r: Vec<char>)
    ensures
        r@ == dec_chars(n as nat),
    decreases n,
{
    if n < 10 {
        let mut v: Vec<char> = Vec::new();
        v.push(digit_of(n));
        proof {
            assert(v@ =~= dec_chars(n as nat));
        }
        v
    } else {
        let mut v = u16_dec_chars(n / 10);
        v.push(digit_of(n % 10));
        v
    }
}

} // verus!
