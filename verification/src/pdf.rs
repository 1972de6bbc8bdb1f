//! Minimal PDF writer for the FindBT report: the same content as the HTML report as an
//! A4-landscape PDF 1.4 with a classic cross-reference table, using only the built-in
//! Type1 fonts. Text is restricted to printable ASCII (anything else becomes `?`).
//!
//! Lengths are kept in tenths of a PDF point, which represents every position the
//! layout produces exactly.

use vstd::prelude::*;
use crate::text::{char_from_digit, chars_of, dec, digit_char, is_blank_seq, is_white_space, is_white_space_char, push_char, push_dec, push_dec_wide};

verus! {

// ---------------------------------------------------------------------------
// Text handling
// ---------------------------------------------------------------------------

/// A character as it appears inside a PDF literal string.
pub open spec fn pdf_escape_char(c: char) -> Seq<char> {
    if c == '(' || c == ')' || c == '\\' {
        seq!['\\', c]
    } else if ' ' <= c <= '~' {
        seq![c]
    } else {
        seq!['?']
    }
}

pub open spec fn pdf_escape(s: Seq<char>) -> Seq<char>
    decreases s.len(),
{
    if s.len() == 0 {
        Seq::empty()
    } else {
        pdf_escape(s.drop_last()) + pdf_escape_char(s.last())
    }
}

/// Escapes text for a PDF literal string and replaces anything outside printable ASCII
/// with `?`.
pub fn escape_pdf_text(text: &str) -> (r: String)
    ensures
        r@ == pdf_escape(text@),
{
    let cs = chars_of(text);
    let mut out = String::new();
    let mut i: usize = 0;
    assert(cs@.subrange(0, 0) =~= Seq::<char>::empty());
    while i < cs.len()
        invariant
            0 <= i <= cs.len(),
            cs@ == text@,
            out@ == pdf_escape(cs@.subrange(0, i as int)),
        decreases cs.len() - i,
    {
        let ch = cs[i];
        assert(cs@.subrange(0, i + 1).drop_last() =~= cs@.subrange(0, i as int));
        if ch == '(' || ch == ')' || ch == '\\' {
            push_char(&mut out, '\\');
            push_char(&mut out, ch);
        } else if ' ' <= ch && ch <= '~' {
            push_char(&mut out, ch);
        } else {
            push_char(&mut out, '?');
        }
        assert(out@ =~= pdf_escape(cs@.subrange(0, i + 1)));
        i += 1;
    }
    assert(cs@.subrange(0, i as int) =~= cs@);
    out
}

/// Printable ASCII, the only characters the writer puts in a content stream's text.
pub open spec fn is_printable_ascii(c: char) -> bool {
    ' ' <= c <= '~'
}

/// Escaped text is printable ASCII, and every parenthesis and backslash in it is escaped,
/// so it can never end the literal string early.
pub proof fn law_pdf_escape_is_printable(s: Seq<char>)
    ensures
        forall|i: int| 0 <= i < pdf_escape(s).len() ==> is_printable_ascii(#[trigger] pdf_escape(s)[i]),
        pdf_escape(s).len() >= s.len(),
    decreases s.len(),
{
    if s.len() > 0 {
        law_pdf_escape_is_printable(s.drop_last());
        let a = pdf_escape(s.drop_last());
        let b = pdf_escape_char(s.last());
        assert forall|i: int| 0 <= i < pdf_escape(s).len() implies is_printable_ascii(#[trigger] pdf_escape(s)[i]) by {
            if i >= a.len() {
                assert(pdf_escape(s)[i] == b[i - a.len()]);
            } else {
                assert(pdf_escape(s)[i] == a[i]);
            }
        }
    }
}

/// The words of a text: maximal runs of non-whitespace characters.
pub open spec fn words(s: Seq<char>) -> Seq<Seq<char>>
    decreases s.len(),
{
    if s.len() == 0 {
        Seq::empty()
    } else if is_white_space(s.last()) {
        words(s.drop_last())
    } else if s.len() >= 2 && !is_white_space(s[s.len() - 2]) && words(s.drop_last()).len() > 0 {
        let w = words(s.drop_last());
        w.update(w.len() - 1, w.last().push(s.last()))
    } else {
        words(s.drop_last()).push(seq![s.last()])
    }
}

/// Splits a text into its words (`str::split_whitespace`).
pub fn split_words(text: &str) -> (ws: Vec<Vec<char>>)
    ensures
        ws@.map_values(|w: Vec<char>| w@) == words(text@),
{
    let cs = chars_of(text);
    let mut ws: Vec<Vec<char>> = Vec::new();
    let mut i: usize = 0;
    assert(cs@.subrange(0, 0) =~= Seq::<char>::empty());
    assert(ws@.map_values(|w: Vec<char>| w@) =~= Seq::<Seq<char>>::empty());
    while i < cs.len()
        invariant
            0 <= i <= cs.len(),
            cs@ == text@,
            ws@.map_values(|w: Vec<char>| w@) == words(cs@.subrange(0, i as int)),
            i > 0 && !is_white_space(cs@[i - 1]) ==> ws@.len() > 0,
        decreases cs.len() - i,
    {
        let ch = cs[i];
        let ghost pre = cs@.subrange(0, i as int);
        let ghost cur = cs@.subrange(0, i + 1);
        assert(cur.drop_last() =~= pre);
        assert(cur.last() == ch);
        let ghost before = ws@.map_values(|w: Vec<char>| w@);
        if is_white_space_char(ch) {
        } else if i > 0 && !is_white_space_char(cs[i - 1]) {
            assert(cur[cur.len() - 2] == cs@[i - 1]);
            let last = ws.len() - 1;
            let mut w: Vec<char> = Vec::new();
            ws.set_and_swap(last, &mut w);
            let ghost mid = ws@;
            w.push(ch);
            ws.set(last, w);
            assert(ws@.map_values(|w: Vec<char>| w@) =~= before.update(before.len() - 1, before.last().push(ch)));
        } else {
            let mut w: Vec<char> = Vec::new();
            w.push(ch);
            ws.push(w);
            assert(ws@.map_values(|w: Vec<char>| w@) =~= before.push(seq![ch]));
        }
        i += 1;
    }
    assert(cs@.subrange(0, i as int) =~= cs@);
    ws
}


pub open spec fn line_views(lines: Seq<Vec<char>>) -> Seq<Seq<char>> {
    lines.map_values(|l: Vec<char>| l@)
}

/// Hard-splitting a word character by character: a chunk is closed when it is full and
/// another character follows.
pub open spec fn chunk_state(w: Seq<char>, max: nat) -> (Seq<Seq<char>>, Seq<char>)
    decreases w.len(),
{
    if w.len() == 0 {
        (Seq::empty(), Seq::empty())
    } else {
        let prev = chunk_state(w.drop_last(), max);
        if prev.1.len() == max {
            (prev.0.push(prev.1), seq![w.last()])
        } else {
            (prev.0, prev.1.push(w.last()))
        }
    }
}

/// Greedy placement of one word: it joins the current line when it fits (with a space),
/// otherwise the current line is closed; a word longer than a line is hard-split.
pub open spec fn push_word_spec(lines: Seq<Seq<char>>, current: Seq<char>, word: Seq<char>, max: nat) -> (
    Seq<Seq<char>>,
    Seq<char>,
) {
    if current.len() > 0 && current.len() + 1 + word.len() <= max {
        (lines, current.push(' ') + word)
    } else {
        let lines2 = if current.len() > 0 { lines.push(current) } else { lines };
        if word.len() <= max {
            (lines2, word)
        } else {
            (lines2 + chunk_state(word, max).0, chunk_state(word, max).1)
        }
    }
}

pub open spec fn wrap_fold(ws: Seq<Seq<char>>, max: nat) -> (Seq<Seq<char>>, Seq<char>)
    decreases ws.len(),
{
    if ws.len() == 0 {
        (Seq::empty(), Seq::empty())
    } else {
        let prev = wrap_fold(ws.drop_last(), max);
        push_word_spec(prev.0, prev.1, ws.last(), max)
    }
}

/// The lines a text wraps into at `max` characters per line; an empty text is one empty line.
pub open spec fn wrap_lines(text: Seq<char>, max: nat) -> Seq<Seq<char>> {
    let st = wrap_fold(words(text), max);
    let lines = if st.1.len() > 0 { st.0.push(st.1) } else { st.0 };
    if lines.len() == 0 {
        seq![Seq::empty()]
    } else {
        lines
    }
}

/// Characters per line for a column `width` wide at font `size` (both in tenths of a point),
/// from a conservative average glyph width of half an em; never fewer than four.
pub open spec fn max_chars_for(width: int, size: int) -> nat {
    if width <= 0 {
        4
    } else if (2 * width) / size < 4 {
        4
    } else {
        ((2 * width) / size) as nat
    }
}

fn copy_chars(v: &Vec<char>) -> (r: Vec<char>)
    ensures
        r@ == v@,
{
    let mut r: Vec<char> = Vec::new();
    let mut i: usize = 0;
    while i < v.len()
        invariant
            i <= v.len(),
            r@ == v@.subrange(0, i as int),
        decreases v.len() - i,
    {
        r.push(v[i]);
        i += 1;
        assert(r@ =~= v@.subrange(0, i as int));
    }
    assert(v@.subrange(0, i as int) =~= v@);
    r
}

fn push_word(lines: &mut Vec<Vec<char>>, current: &mut Vec<char>, word: &Vec<char>, max_chars: usize)
    ensures
        (line_views(final(lines)@), final(current)@) == push_word_spec(
            line_views(old(lines)@),
            old(current)@,
            word@,
            max_chars as nat,
        ),
{
    let word_len = word.len();
    if current.len() > 0 {
        if word_len < max_chars && current.len() <= max_chars - word_len - 1 {
            current.push(' ');
            let mut k: usize = 0;
            let ghost base = current@;
            while k < word_len
                invariant
                    k <= word_len,
                    word_len == word@.len(),
                    current@ == base + word@.subrange(0, k as int),
                decreases word_len - k,
            {
                current.push(word[k]);
                k += 1;
                assert(current@ =~= base + word@.subrange(0, k as int));
            }
            assert(word@.subrange(0, k as int) =~= word@);
            return;
        }
        let mut closed: Vec<char> = Vec::new();
        std::mem::swap(current, &mut closed);
        let ghost before = line_views(lines@);
        lines.push(closed);
        assert(line_views(lines@) =~= before.push(old(current)@));
    }
    if word_len <= max_chars {
        *current = copy_chars(word);
        return;
    }
    let ghost lines2 = line_views(lines@);
    let mut chunk: Vec<char> = Vec::new();
    let mut chunk_len: usize = 0;
    let mut j: usize = 0;
    assert(word@.subrange(0, 0) =~= Seq::<char>::empty());
    assert(line_views(lines@) =~= lines2 + Seq::<Seq<char>>::empty());
    while j < word_len
        invariant
            j <= word_len,
            word_len == word@.len(),
            chunk_len == chunk@.len(),
            chunk_len <= j,
            line_views(lines@) == lines2 + chunk_state(word@.subrange(0, j as int), max_chars as nat).0,
            chunk@ == chunk_state(word@.subrange(0, j as int), max_chars as nat).1,
        decreases word_len - j,
    {
        let ghost pre = word@.subrange(0, j as int);
        assert(word@.subrange(0, j + 1).drop_last() =~= pre);
        if chunk_len == max_chars {
            let mut full: Vec<char> = Vec::new();
            std::mem::swap(&mut chunk, &mut full);
            let ghost before = line_views(lines@);
            lines.push(full);
            assert(line_views(lines@) =~= before.push(chunk_state(pre, max_chars as nat).1));
            chunk_len = 0;
        }
        chunk.push(word[j]);
        chunk_len += 1;
        j += 1;
        assert(line_views(lines@) =~= lines2 + chunk_state(word@.subrange(0, j as int), max_chars as nat).0);
        assert(chunk@ =~= chunk_state(word@.subrange(0, j as int), max_chars as nat).1);
    }
    assert(word@.subrange(0, j as int) =~= word@);
    *current = chunk;
}

/// The characters per line for a column, as the layout computes it.
/// A column at most `width` wide never allows more than twice that many characters.
proof fn lemma_max_chars_bound(width: int, size: int)
    requires
        size > 0,
        width <= 100000,
    ensures
        max_chars_for(width, size) <= 200000,
{
    if width > 0 {
        assert((2 * width) / size <= 2 * width) by (nonlinear_arith)
            requires
                size > 0,
                width > 0,
        ;
    }
}

pub fn max_chars(width: i64, size: i64) -> (n: usize)
    requires
        size > 0,
    ensures
        max_chars_for(width as int, size as int) <= usize::MAX ==> n as nat == max_chars_for(width as int, size as int),
        max_chars_for(width as int, size as int) > usize::MAX ==> n == usize::MAX,
{
    if width <= 0 {
        4
    } else {
        let q = (2 * (width as i128)) / (size as i128);
        if q < 4 {
            4
        } else if q > usize::MAX as i128 {
            usize::MAX
        } else {
            q as usize
        }
    }
}

/// Greedy word wrap: words longer than a line are hard-split.
pub fn wrap_text(text: &str, max_chars: usize) -> (lines: Vec<Vec<char>>)
    ensures
        line_views(lines@) == wrap_lines(text@, max_chars as nat),
{
    let ws = split_words(text);
    let ghost wv = ws@.map_values(|w: Vec<char>| w@);
    let mut lines: Vec<Vec<char>> = Vec::new();
    let mut current: Vec<char> = Vec::new();
    let mut i: usize = 0;
    assert(wv.subrange(0, 0) =~= Seq::<Seq<char>>::empty());
    assert(line_views(lines@) =~= Seq::<Seq<char>>::empty());
    while i < ws.len()
        invariant
            i <= ws.len(),
            wv == ws@.map_values(|w: Vec<char>| w@),
            wv == words(text@),
            (line_views(lines@), current@) == wrap_fold(wv.subrange(0, i as int), max_chars as nat),
        decreases ws.len() - i,
    {
        assert(wv.subrange(0, i + 1).drop_last() =~= wv.subrange(0, i as int));
        assert(wv.subrange(0, i + 1).last() == ws@[i as int]@);
        push_word(&mut lines, &mut current, &ws[i], max_chars);
        i += 1;
    }
    assert(wv.subrange(0, i as int) =~= wv);
    if current.len() > 0 {
        let ghost before = line_views(lines@);
        lines.push(current);
        assert(line_views(lines@) =~= before.push(wrap_fold(wv, max_chars as nat).1));
    }
    if lines.len() == 0 {
        lines.push(Vec::new());
        assert(line_views(lines@) =~= seq![Seq::<char>::empty()]);
    }
    lines
}

proof fn lemma_chunk_bounds(w: Seq<char>, max: nat)
    requires
        max >= 1,
    ensures
        forall|i: int| 0 <= i < chunk_state(w, max).0.len() ==> (#[trigger] chunk_state(w, max).0[i]).len() <= max,
        chunk_state(w, max).1.len() <= max,
        w.len() > 0 ==> chunk_state(w, max).1.len() > 0,
    decreases w.len(),
{
    if w.len() > 0 {
        lemma_chunk_bounds(w.drop_last(), max);
    }
}

proof fn lemma_wrap_fold_bounds(ws: Seq<Seq<char>>, max: nat)
    requires
        max >= 1,
    ensures
        forall|i: int| 0 <= i < wrap_fold(ws, max).0.len() ==> (#[trigger] wrap_fold(ws, max).0[i]).len() <= max,
        wrap_fold(ws, max).1.len() <= max,
    decreases ws.len(),
{
    if ws.len() > 0 {
        lemma_wrap_fold_bounds(ws.drop_last(), max);
        let prev = wrap_fold(ws.drop_last(), max);
        let w = ws.last();
        if !(prev.1.len() > 0 && prev.1.len() + 1 + w.len() <= max) && w.len() > max {
            lemma_chunk_bounds(w, max);
            let lines2 = if prev.1.len() > 0 { prev.0.push(prev.1) } else { prev.0 };
            let r = lines2 + chunk_state(w, max).0;
            assert forall|i: int| 0 <= i < r.len() implies (#[trigger] r[i]).len() <= max by {
                if i >= lines2.len() {
                    assert(r[i] == chunk_state(w, max).0[i - lines2.len()]);
                }
            }
        }
    }
}

/// Wrapping never produces an empty list of lines, and no line is longer than the limit.
pub proof fn law_wrap_lines_fit(text: Seq<char>, max: nat)
    requires
        max >= 1,
    ensures
        wrap_lines(text, max).len() >= 1,
        forall|i: int| 0 <= i < wrap_lines(text, max).len() ==> (#[trigger] wrap_lines(text, max)[i]).len() <= max,
{
    lemma_wrap_fold_bounds(words(text), max);
}


/// The lines joined end to end.
pub open spec fn flatten(lines: Seq<Seq<char>>) -> Seq<char>
    decreases lines.len(),
{
    if lines.len() == 0 {
        Seq::empty()
    } else {
        flatten(lines.drop_last()) + lines.last()
    }
}

/// The text with every space removed.
pub open spec fn strip_spaces(s: Seq<char>) -> Seq<char>
    decreases s.len(),
{
    if s.len() == 0 {
        Seq::empty()
    } else {
        strip_spaces(s.drop_last()) + (if s.last() == ' ' {
            Seq::<char>::empty()
        } else {
            seq![s.last()]
        })
    }
}

pub open spec fn has_no_space(s: Seq<char>) -> bool {
    forall|i: int| 0 <= i < s.len() ==> #[trigger] s[i] != ' '
}

/// A wrapped line: not empty, and neither starting nor ending with a space.
pub open spec fn good_line(l: Seq<char>) -> bool {
    l.len() > 0 && l[0] != ' ' && l.last() != ' '
}

proof fn lemma_flatten_concat(a: Seq<Seq<char>>, b: Seq<Seq<char>>)
    ensures
        flatten(a + b) == flatten(a) + flatten(b),
    decreases b.len(),
{
    if b.len() == 0 {
        assert(a + b =~= a);
        assert(flatten(a) + flatten(b) =~= flatten(a));
    } else {
        lemma_flatten_concat(a, b.drop_last());
        assert((a + b).drop_last() =~= a + b.drop_last());
        assert((a + b).last() == b.last());
        assert(flatten(a + b) =~= flatten(a) + flatten(b));
    }
}

proof fn lemma_strip_concat(a: Seq<char>, b: Seq<char>)
    ensures
        strip_spaces(a + b) == strip_spaces(a) + strip_spaces(b),
    decreases b.len(),
{
    if b.len() == 0 {
        assert(a + b =~= a);
        assert(strip_spaces(a) + strip_spaces(b) =~= strip_spaces(a));
    } else {
        lemma_strip_concat(a, b.drop_last());
        assert((a + b).drop_last() =~= a + b.drop_last());
        assert((a + b).last() == b.last());
        assert(strip_spaces(a + b) =~= strip_spaces(a) + strip_spaces(b));
    }
}

proof fn lemma_strip_no_space(s: Seq<char>)
    requires
        has_no_space(s),
    ensures
        strip_spaces(s) == s,
    decreases s.len(),
{
    if s.len() > 0 {
        assert(has_no_space(s.drop_last())) by {
            assert forall|i: int| 0 <= i < s.drop_last().len() implies #[trigger] s.drop_last()[i] != ' ' by {
                assert(s.drop_last()[i] == s[i]);
            }
        }
        lemma_strip_no_space(s.drop_last());
        assert(s.last() == s[s.len() - 1]);
        assert(strip_spaces(s) =~= s);
    }
}

/// Every word is non-empty and holds no whitespace; a text has no words exactly when it
/// is blank.
proof fn lemma_words_shape(s: Seq<char>)
    ensures
        forall|i: int| 0 <= i < words(s).len() ==> (#[trigger] words(s)[i]).len() > 0 && has_no_space(words(s)[i]),
        (words(s).len() == 0) == is_blank_seq(s),
    decreases s.len(),
{
    if s.len() > 0 {
        let init = s.drop_last();
        lemma_words_shape(init);
        assert(is_blank_seq(s) == (is_blank_seq(init) && is_white_space(s.last()))) by {
            if is_blank_seq(s) {
                assert forall|i: int| 0 <= i < init.len() implies is_white_space(#[trigger] init[i]) by {
                    assert(init[i] == s[i]);
                }
                assert(is_white_space(s[s.len() - 1]));
            }
            if is_blank_seq(init) && is_white_space(s.last()) {
                assert forall|i: int| 0 <= i < s.len() implies is_white_space(#[trigger] s[i]) by {
                    if i < s.len() - 1 {
                        assert(s[i] == init[i]);
                    }
                }
            }
        }
        let w = words(init);
        if is_white_space(s.last()) {
        } else if s.len() >= 2 && !is_white_space(s[s.len() - 2]) && w.len() > 0 {
            let last = w.last().push(s.last());
            assert(has_no_space(last)) by {
                assert forall|i: int| 0 <= i < last.len() implies #[trigger] last[i] != ' ' by {
                    if i < w.last().len() {
                        assert(last[i] == w[w.len() - 1][i]);
                    }
                }
            }
            assert forall|i: int| 0 <= i < words(s).len() implies (#[trigger] words(s)[i]).len() > 0 && has_no_space(words(s)[i]) by {
                if i < w.len() - 1 {
                    assert(words(s)[i] == w[i]);
                }
            }
        } else {
            assert forall|i: int| 0 <= i < words(s).len() implies (#[trigger] words(s)[i]).len() > 0 && has_no_space(words(s)[i]) by {
                if i < w.len() {
                    assert(words(s)[i] == w[i]);
                } else {
                    assert(words(s)[i] == seq![s.last()]);
                }
            }
        }
    }
}

/// Hard-splitting a word into chunks keeps its characters in order, and every chunk is a
/// non-empty piece of the word.
proof fn lemma_chunks_keep_word(w: Seq<char>, max: nat)
    requires
        max >= 1,
        w.len() > 0,
        has_no_space(w),
    ensures
        flatten(chunk_state(w, max).0) + chunk_state(w, max).1 == w,
        forall|i: int| 0 <= i < chunk_state(w, max).0.len() ==> (#[trigger] chunk_state(w, max).0[i]).len() > 0
            && has_no_space(chunk_state(w, max).0[i]),
        chunk_state(w, max).1.len() > 0,
        has_no_space(chunk_state(w, max).1),
    decreases w.len(),
{
    let init = w.drop_last();
    let c = w.last();
    assert(c == w[w.len() - 1]);
    if init.len() == 0 {
        assert(chunk_state(init, max) == (Seq::<Seq<char>>::empty(), Seq::<char>::empty()));
        assert(flatten(chunk_state(w, max).0) + chunk_state(w, max).1 =~= w);
    } else {
        assert(has_no_space(init)) by {
            assert forall|i: int| 0 <= i < init.len() implies #[trigger] init[i] != ' ' by {
                assert(init[i] == w[i]);
            }
        }
        lemma_chunks_keep_word(init, max);
        let prev = chunk_state(init, max);
        if prev.1.len() == max {
            assert(flatten(prev.0.push(prev.1)) == flatten(prev.0) + prev.1) by {
                assert(prev.0.push(prev.1).drop_last() =~= prev.0);
            }
            assert(flatten(chunk_state(w, max).0) + chunk_state(w, max).1 =~= w);
            assert forall|i: int| 0 <= i < chunk_state(w, max).0.len() implies (#[trigger] chunk_state(w, max).0[i]).len() > 0
                && has_no_space(chunk_state(w, max).0[i]) by {
                if i < prev.0.len() {
                    assert(chunk_state(w, max).0[i] == prev.0[i]);
                }
            }
        } else {
            let cur = prev.1.push(c);
            assert(has_no_space(cur)) by {
                assert forall|i: int| 0 <= i < cur.len() implies #[trigger] cur[i] != ' ' by {
                    if i < prev.1.len() {
                        assert(cur[i] == prev.1[i]);
                    }
                }
            }
            assert(chunk_state(w, max) == (prev.0, cur));
            assert(w =~= init.push(c));
            assert(flatten(prev.0) + cur =~= (flatten(prev.0) + prev.1).push(c));
        }
    }
}

proof fn lemma_good_no_space(l: Seq<char>)
    requires
        l.len() > 0,
        has_no_space(l),
    ensures
        good_line(l),
{
    assert(l[0] != ' ');
    assert(l[l.len() - 1] != ' ');
}

/// The greedy fold over words: every closed line is good, the open line is good once a
/// word has been placed, and removing the joining spaces gives back the words end to end.
proof fn lemma_wrap_fold_keeps_words(ws: Seq<Seq<char>>, max: nat)
    requires
        max >= 1,
        forall|i: int| 0 <= i < ws.len() ==> (#[trigger] ws[i]).len() > 0 && has_no_space(ws[i]),
    ensures
        forall|i: int| 0 <= i < wrap_fold(ws, max).0.len() ==> good_line(#[trigger] wrap_fold(ws, max).0[i]),
        ws.len() > 0 ==> good_line(wrap_fold(ws, max).1),
        ws.len() == 0 ==> wrap_fold(ws, max).1.len() == 0 && wrap_fold(ws, max).0.len() == 0,
        strip_spaces(flatten(wrap_fold(ws, max).0) + wrap_fold(ws, max).1) == flatten(ws),
    decreases ws.len(),
{
    if ws.len() > 0 {
        let init = ws.drop_last();
        let word = ws.last();
        assert(word == ws[ws.len() - 1]);
        assert forall|i: int| 0 <= i < init.len() implies (#[trigger] init[i]).len() > 0 && has_no_space(init[i]) by {
            assert(init[i] == ws[i]);
        }
        lemma_wrap_fold_keeps_words(init, max);
        let prev = wrap_fold(init, max);
        let lines = prev.0;
        let current = prev.1;
        let st = wrap_fold(ws, max);
        lemma_strip_no_space(word);
        lemma_good_no_space(word);
        assert(flatten(ws) == flatten(init) + word);
        if current.len() > 0 && current.len() + 1 + word.len() <= max {
            let x = flatten(lines) + current;
            let sp: Seq<char> = seq![' '];
            assert(flatten(st.0) + st.1 =~= x + sp + word);
            lemma_strip_concat(x + sp, word);
            lemma_strip_concat(x, sp);
            assert(strip_spaces(sp) =~= Seq::<char>::empty()) by {
                assert(sp.drop_last() =~= Seq::<char>::empty());
                assert(sp.last() == ' ');
                assert(strip_spaces(sp.drop_last()) =~= Seq::<char>::empty());
            }
            assert(st.1[0] == current[0]);
            assert(st.1.last() == word.last());
        } else {
            let lines2 = if current.len() > 0 { lines.push(current) } else { lines };
            assert(flatten(lines2) == flatten(lines) + current) by {
                if current.len() > 0 {
                    assert(lines.push(current).drop_last() =~= lines);
                } else {
                    assert(flatten(lines) + current =~= flatten(lines));
                }
            }
            assert forall|i: int| 0 <= i < lines2.len() implies good_line(#[trigger] lines2[i]) by {
                if i < lines.len() {
                    assert(lines2[i] == lines[i]);
                }
            }
            if word.len() <= max {
                assert(flatten(st.0) + st.1 =~= (flatten(lines) + current) + word);
                lemma_strip_concat(flatten(lines) + current, word);
            } else {
                let ch = chunk_state(word, max);
                lemma_chunks_keep_word(word, max);
                lemma_flatten_concat(lines2, ch.0);
                assert(flatten(st.0) + st.1 =~= (flatten(lines) + current) + (flatten(ch.0) + ch.1));
                lemma_strip_concat(flatten(lines) + current, word);
                lemma_good_no_space(ch.1);
                assert forall|i: int| 0 <= i < st.0.len() implies good_line(#[trigger] st.0[i]) by {
                    if i >= lines2.len() {
                        assert(st.0[i] == ch.0[i - lines2.len()]);
                        lemma_good_no_space(ch.0[i - lines2.len()]);
                    } else {
                        assert(st.0[i] == lines2[i]);
                    }
                }
            }
        }
    }
}

/// Wrapping loses, adds and reorders no character: with the joining spaces removed, the
/// lines are the text's words end to end. A blank text wraps to one empty line; any other
/// text wraps to lines that are non-empty and neither start nor end with a space.
pub proof fn law_wrap_keeps_every_word(text: Seq<char>, max: nat)
    requires
        max >= 1,
    ensures
        strip_spaces(flatten(wrap_lines(text, max))) == flatten(words(text)),
        is_blank_seq(text) ==> wrap_lines(text, max) == seq![Seq::<char>::empty()],
        !is_blank_seq(text) ==> forall|i: int| 0 <= i < wrap_lines(text, max).len() ==> good_line(
            #[trigger] wrap_lines(text, max)[i],
        ),
{
    let ws = words(text);
    lemma_words_shape(text);
    lemma_wrap_fold_keeps_words(ws, max);
    let st = wrap_fold(ws, max);
    let lines = if st.1.len() > 0 { st.0.push(st.1) } else { st.0 };
    assert(flatten(lines) == flatten(st.0) + st.1) by {
        if st.1.len() > 0 {
            assert(st.0.push(st.1).drop_last() =~= st.0);
        } else {
            assert(flatten(st.0) + st.1 =~= flatten(st.0));
        }
    }
    if lines.len() == 0 {
        assert(flatten(seq![Seq::<char>::empty()]) =~= Seq::<char>::empty()) by {
            assert(seq![Seq::<char>::empty()].drop_last() =~= Seq::<Seq<char>>::empty());
        }
        assert(strip_spaces(Seq::<char>::empty()) =~= Seq::<char>::empty());
    }
    if !is_blank_seq(text) {
        assert forall|i: int| 0 <= i < wrap_lines(text, max).len() implies good_line(#[trigger] wrap_lines(text, max)[i]) by {
            if i < st.0.len() {
                assert(lines[i] == st.0[i]);
            }
        }
    }
}

// ---------------------------------------------------------------------------
// Page geometry and drawing operators
// ---------------------------------------------------------------------------

/// A4 landscape, in tenths of a point.
pub const PAGE_WIDTH: i128 = 8420;
pub const PAGE_HEIGHT: i128 = 5950;
pub const MARGIN: i128 = 360;
pub const CONTENT_WIDTH: i128 = 7700;
/// The first baseline position of a fresh page.
pub const TOP: i128 = 5590;

pub const BODY_SIZE: i128 = 85;
pub const BODY_LEADING: i128 = 110;
pub const META_SIZE: i128 = 90;
pub const NOTE_SIZE: i128 = 80;

/// The lowest position any drawing operation leaves behind.
pub const DRAW_FLOOR: i128 = -0x1_0000_0000_0000_0000_0000;
/// The lowest position the layout ever holds.
pub const LAYOUT_FLOOR: i128 = -0x10_0000_0000_0000_0000_0000;

#[derive(Debug, Clone, Copy, PartialEq, Eq, Structural)]
pub enum Font {
    Regular,
    Bold,
}

pub open spec fn font_text(f: Font) -> Seq<char> {
    match f {
        Font::Regular => "F1"@,
        Font::Bold => "F2"@,
    }
}

fn font_name(f: Font) -> (s: &'static str)
    ensures
        s@ == font_text(f),
{
    match f {
        Font::Regular => "F1",
        Font::Bold => "F2",
    }
}

/// Fill and stroke colors, as the three channel values the content stream carries.
#[derive(Debug, Clone, Copy, PartialEq, Eq, Structural)]
pub enum PdfColor {
    Text,
    Muted,
    Accent,
    TableHeadBg,
    ZebraBg,
    Rule,
}

pub open spec fn color_text(c: PdfColor) -> Seq<char> {
    match c {
        PdfColor::Text => "0.090 0.106 0.122"@,
        PdfColor::Muted => "0.392 0.416 0.439"@,
        PdfColor::Accent => "0.000 0.451 0.812"@,
        PdfColor::TableHeadBg => "0.937 0.955 0.969"@,
        PdfColor::ZebraBg => "0.961 0.973 0.980"@,
        PdfColor::Rule => "0.780 0.810 0.835"@,
    }
}

fn color_channels(c: PdfColor) -> (s: &'static str)
    ensures
        s@ == color_text(c),
{
    match c {
        PdfColor::Text => "0.090 0.106 0.122",
        PdfColor::Muted => "0.392 0.416 0.439",
        PdfColor::Accent => "0.000 0.451 0.812",
        PdfColor::TableHeadBg => "0.937 0.955 0.969",
        PdfColor::ZebraBg => "0.961 0.973 0.980",
        PdfColor::Rule => "0.780 0.810 0.835",
    }
}

/// A length with one decimal (`{:.1}`).
pub open spec fn fixed1(v: int) -> Seq<char> {
    if v < 0 {
        seq!['-'] + dec(((-v) / 10) as nat) + seq!['.', digit_char(((-v) % 10) as nat)]
    } else {
        dec((v / 10) as nat) + seq!['.', digit_char((v % 10) as nat)]
    }
}

/// A font size as `Display` prints it: no decimals when whole.
pub open spec fn size_text(v: int) -> Seq<char> {
    if v % 10 == 0 {
        dec((v / 10) as nat)
    } else {
        dec((v / 10) as nat) + seq!['.', digit_char((v % 10) as nat)]
    }
}

fn push_fixed1(s: &mut String, v: i128)
    requires
        v > i128::MIN,
    ensures
        final(s)@ == old(s)@ + fixed1(v as int),
{
    let m: u128 = if v < 0 { (-v) as u128 } else { v as u128 };
    if v < 0 {
        push_char(s, '-');
    }
    push_dec_wide(s, m / 10);
    push_char(s, '.');
    push_char(s, char_from_digit((m % 10) as u32));
    assert(s@ =~= old(s)@ + fixed1(v as int));
}

fn push_size(s: &mut String, v: i128)
    requires
        0 < v < 10000,
    ensures
        final(s)@ == old(s)@ + size_text(v as int),
{
    let m = v as u64;
    push_dec(s, m / 10);
    if m % 10 != 0 {
        push_char(s, '.');
        push_char(s, char_from_digit((m % 10) as u32));
    }
    assert(s@ =~= old(s)@ + size_text(v as int));
}

pub open spec fn text_op_text(x: int, y: int, font: Font, size: int, color: PdfColor, content: Seq<char>) -> Seq<char> {
    color_text(color) + " rg BT /"@ + font_text(font) + " "@ + size_text(size) + " Tf 1 0 0 1 "@ + fixed1(x)
        + " "@ + fixed1(y) + " Tm ("@ + pdf_escape(content) + ") Tj ET\n"@
}

pub open spec fn fill_rect_text(x: int, y: int, w: int, h: int, color: PdfColor) -> Seq<char> {
    color_text(color) + " rg "@ + fixed1(x) + " "@ + fixed1(y) + " "@ + fixed1(w) + " "@ + fixed1(h)
        + " re f\n"@
}

pub open spec fn rule_text(x1: int, y: int, x2: int, color: PdfColor, width: int) -> Seq<char> {
    color_text(color) + " RG "@ + fixed1(width) + " w "@ + fixed1(x1) + " "@ + fixed1(y) + " m "@ + fixed1(x2)
        + " "@ + fixed1(y) + " l S\n"@
}

pub open spec fn footer_label(n: nat) -> Seq<char> {
    "FindBT Bluetooth Report - page "@ + dec(n)
}

pub open spec fn coord_ok(v: int) -> bool {
    LAYOUT_FLOOR * 4 <= v <= -LAYOUT_FLOOR
}

fn push_text_op(out: &mut String, x: i128, y: i128, font: Font, size: i128, color: PdfColor, content: &Vec<char>)
    requires
        coord_ok(x as int),
        coord_ok(y as int),
        0 < size < 10000,
    ensures
        final(out)@ == old(out)@ + text_op_text(x as int, y as int, font, size as int, color, content@),
{
    out.append(color_channels(color));
    out.append(" rg BT /");
    out.append(font_name(font));
    out.append(" ");
    push_size(out, size);
    out.append(" Tf 1 0 0 1 ");
    push_fixed1(out, x);
    out.append(" ");
    push_fixed1(out, y);
    out.append(" Tm (");
    let escaped = escape_pdf_chars(content);
    out.append(escaped.as_str());
    out.append(") Tj ET\n");
    assert(out@ =~= old(out)@ + text_op_text(x as int, y as int, font, size as int, color, content@));
}

fn push_fill_rect(out: &mut String, x: i128, y: i128, w: i128, h: i128, color: PdfColor)
    requires
        coord_ok(x as int),
        coord_ok(y as int),
        coord_ok(w as int),
        coord_ok(h as int),
    ensures
        final(out)@ == old(out)@ + fill_rect_text(x as int, y as int, w as int, h as int, color),
{
    out.append(color_channels(color));
    out.append(" rg ");
    push_fixed1(out, x);
    out.append(" ");
    push_fixed1(out, y);
    out.append(" ");
    push_fixed1(out, w);
    out.append(" ");
    push_fixed1(out, h);
    out.append(" re f\n");
    assert(out@ =~= old(out)@ + fill_rect_text(x as int, y as int, w as int, h as int, color));
}

fn push_rule(out: &mut String, x1: i128, y: i128, x2: i128, color: PdfColor, width: i128)
    requires
        coord_ok(x1 as int),
        coord_ok(y as int),
        coord_ok(x2 as int),
        coord_ok(width as int),
    ensures
        final(out)@ == old(out)@ + rule_text(x1 as int, y as int, x2 as int, color, width as int),
{
    out.append(color_channels(color));
    out.append(" RG ");
    push_fixed1(out, width);
    out.append(" w ");
    push_fixed1(out, x1);
    out.append(" ");
    push_fixed1(out, y);
    out.append(" m ");
    push_fixed1(out, x2);
    out.append(" ");
    push_fixed1(out, y);
    out.append(" l S\n");
    assert(out@ =~= old(out)@ + rule_text(x1 as int, y as int, x2 as int, color, width as int));
}

/// Escapes a character sequence for a PDF literal string.
pub fn escape_pdf_chars(cs: &Vec<char>) -> (r: String)
    ensures
        r@ == pdf_escape(cs@),
{
    let mut out = String::new();
    let mut i: usize = 0;
    assert(cs@.subrange(0, 0) =~= Seq::<char>::empty());
    while i < cs.len()
        invariant
            0 <= i <= cs.len(),
            out@ == pdf_escape(cs@.subrange(0, i as int)),
        decreases cs.len() - i,
    {
        let ch = cs[i];
        assert(cs@.subrange(0, i + 1).drop_last() =~= cs@.subrange(0, i as int));
        if ch == '(' || ch == ')' || ch == '\\' {
            push_char(&mut out, '\\');
            push_char(&mut out, ch);
        } else if ' ' <= ch && ch <= '~' {
            push_char(&mut out, ch);
        } else {
            push_char(&mut out, '?');
        }
        assert(out@ =~= pdf_escape(cs@.subrange(0, i + 1)));
        i += 1;
    }
    assert(cs@.subrange(0, i as int) =~= cs@);
    out
}


// ---------------------------------------------------------------------------
// Layout
// ---------------------------------------------------------------------------

/// The layout's state: finished page content streams, the page being filled, and the
/// current vertical position.
pub struct LayoutView {
    pub pages: Seq<Seq<char>>,
    pub current: Seq<char>,
    pub y: int,
}

pub open spec fn layout_start() -> LayoutView {
    LayoutView { pages: Seq::empty(), current: Seq::empty(), y: TOP as int }
}

pub open spec fn stamp_footer_spec(st: LayoutView) -> LayoutView {
    LayoutView {
        current: st.current + text_op_text(
            MARGIN as int,
            200,
            Font::Regular,
            75,
            PdfColor::Muted,
            footer_label(st.pages.len() + 1),
        ),
        ..st
    }
}

pub open spec fn finish_page_spec(st: LayoutView) -> LayoutView {
    let s1 = stamp_footer_spec(st);
    LayoutView { pages: s1.pages.push(s1.current), current: Seq::empty(), y: TOP as int }
}

/// Starts a new page when fewer than `needed` remain, unless the current page is still
/// empty (a new page would not create more room).
pub open spec fn ensure_space_spec(st: LayoutView, needed: int) -> LayoutView {
    if st.y - needed < MARGIN && st.current.len() > 0 {
        finish_page_spec(st)
    } else {
        st
    }
}

pub open spec fn heading_spec(st: LayoutView, text: Seq<char>, size: int) -> LayoutView {
    let s1 = ensure_space_spec(st, size + 200);
    let y1 = s1.y - (size + 80);
    let c1 = s1.current + text_op_text(MARGIN as int, y1, Font::Bold, size, PdfColor::Accent, text);
    let y2 = y1 - 40;
    let c2 = c1 + rule_text(MARGIN as int, y2, (MARGIN + 460) as int, PdfColor::Accent, 16);
    LayoutView { pages: s1.pages, current: c2, y: y2 - 40 }
}

pub open spec fn line_spec(st: LayoutView, line: Seq<char>, size: int, color: PdfColor) -> LayoutView {
    let s1 = ensure_space_spec(st, size + 40);
    let y1 = s1.y - (size + 25);
    LayoutView {
        pages: s1.pages,
        current: s1.current + text_op_text(MARGIN as int, y1, Font::Regular, size, color, line),
        y: y1,
    }
}

pub open spec fn lines_spec(st: LayoutView, lines: Seq<Seq<char>>, size: int, color: PdfColor) -> LayoutView
    decreases lines.len(),
{
    if lines.len() == 0 {
        st
    } else {
        line_spec(lines_spec(st, lines.drop_last(), size, color), lines.last(), size, color)
    }
}

pub open spec fn paragraph_spec(st: LayoutView, text: Seq<char>, size: int) -> LayoutView {
    lines_spec(st, wrap_lines(text, max_chars_for(CONTENT_WIDTH as int, size)), size, PdfColor::Text)
}

/// Muted explanatory text under a heading or table.
pub open spec fn note_spec(st: LayoutView, text: Seq<char>) -> LayoutView {
    lines_spec(st, wrap_lines(text, max_chars_for(CONTENT_WIDTH as int, NOTE_SIZE as int)), NOTE_SIZE as int, PdfColor::Muted)
}

pub open spec fn spacer_spec(st: LayoutView, amount: int) -> LayoutView {
    LayoutView { y: st.y - amount, ..st }
}

pub open spec fn into_pages_spec(st: LayoutView) -> Seq<Seq<char>> {
    if st.current.len() > 0 || st.pages.len() == 0 {
        let s1 = stamp_footer_spec(st);
        s1.pages.push(s1.current)
    } else {
        st.pages
    }
}

pub struct PdfLayout {
    pages: Vec<String>,
    current: String,
    y: i128,
}

impl View for PdfLayout {
    type V = LayoutView;

    closed spec fn view(&self) -> LayoutView {
        LayoutView {
            pages: self.pages@.map_values(|p: String| p@),
            current: self.current@,
            y: self.y as int,
        }
    }
}

/// The layout's invariant: the position never rises above the top margin, an empty page is
/// at its top, and the position stays in range.
pub open spec fn layout_wf(st: LayoutView) -> bool {
    &&& st.y <= TOP
    &&& st.current.len() == 0 ==> st.y == TOP
    &&& st.y >= LAYOUT_FLOOR
}

/// What a drawing operation guarantees afterwards.
pub open spec fn drawn(st: LayoutView) -> bool {
    layout_wf(st) && st.current.len() > 0 && st.y >= DRAW_FLOOR
}

impl PdfLayout {
    pub fn new() -> (l: PdfLayout)
        ensures
            l@ == layout_start(),
            layout_wf(l@),
    {
        let l = PdfLayout { pages: Vec::new(), current: String::new(), y: TOP };
        assert(l@.pages =~= Seq::<Seq<char>>::empty());
        l
    }

    fn stamp_footer(&mut self)
        requires
            layout_wf(old(self)@),
        ensures
            final(self)@ == stamp_footer_spec(old(self)@),
            final(self)@.current.len() > 0,
    {
        let mut label: Vec<char> = chars_of("FindBT Bluetooth Report - page ");
        let mut n = String::new();
        push_dec_wide(&mut n, self.pages.len() as u128 + 1);
        let digits = chars_of(n.as_str());
        let mut k: usize = 0;
        let ghost base = label@;
        while k < digits.len()
            invariant
                k <= digits.len(),
                label@ == base + digits@.subrange(0, k as int),
            decreases digits.len() - k,
        {
            label.push(digits[k]);
            k += 1;
            assert(label@ =~= base + digits@.subrange(0, k as int));
        }
        assert(digits@.subrange(0, k as int) =~= digits@);
        assert(self@.pages.len() == self.pages@.len());
        assert(label@ =~= footer_label(self@.pages.len() + 1));
        push_text_op(&mut self.current, MARGIN, 200, Font::Regular, 75, PdfColor::Muted, &label);
        assert(self@.pages =~= old(self)@.pages);
    }

    fn finish_page(&mut self)
        requires
            layout_wf(old(self)@),
        ensures
            final(self)@ == finish_page_spec(old(self)@),
            layout_wf(final(self)@),
    {
        self.stamp_footer();
        let ghost stamped = self@;
        let mut page = String::new();
        std::mem::swap(&mut self.current, &mut page);
        self.pages.push(page);
        self.y = TOP;
        assert(self@.pages =~= stamped.pages.push(stamped.current));
    }

    fn ensure_space(&mut self, needed: i128)
        requires
            layout_wf(old(self)@),
            0 <= needed <= 0x1_0000_0000_0000_0000_00,
        ensures
            final(self)@ == ensure_space_spec(old(self)@, needed as int),
            layout_wf(final(self)@),
            final(self)@.current.len() == 0 || final(self)@.y - needed >= MARGIN,
    {
        if self.y - needed < MARGIN && !self.current.as_str().is_empty() {
            self.finish_page();
        }
    }

    pub fn heading(&mut self, text: &str, size: i128)
        requires
            layout_wf(old(self)@),
            0 < size < 1000,
        ensures
            final(self)@ == heading_spec(old(self)@, text@, size as int),
            drawn(final(self)@),
    {
        self.ensure_space(size + 200);
        self.y = self.y - (size + 80);
        let t = chars_of(text);
        push_text_op(&mut self.current, MARGIN, self.y, Font::Bold, size, PdfColor::Accent, &t);
        self.y = self.y - 40;
        push_rule(&mut self.current, MARGIN, self.y, MARGIN + 460, PdfColor::Accent, 16);
        self.y = self.y - 40;
    }

    fn line(&mut self, line: &Vec<char>, size: i128, color: PdfColor)
        requires
            layout_wf(old(self)@),
            0 < size < 1000,
        ensures
            final(self)@ == line_spec(old(self)@, line@, size as int, color),
            drawn(final(self)@),
    {
        self.ensure_space(size + 40);
        self.y = self.y - (size + 25);
        push_text_op(&mut self.current, MARGIN, self.y, Font::Regular, size, color, line);
    }

    fn lines(&mut self, lines: &Vec<Vec<char>>, size: i128, color: PdfColor)
        requires
            layout_wf(old(self)@),
            0 < size < 1000,
        ensures
            final(self)@ == lines_spec(old(self)@, line_views(lines@), size as int, color),
            layout_wf(final(self)@),
            lines@.len() > 0 ==> drawn(final(self)@),
    {
        let ghost lv = line_views(lines@);
        let mut i: usize = 0;
        assert(lv.subrange(0, 0) =~= Seq::<Seq<char>>::empty());
        while i < lines.len()
            invariant
                i <= lines.len(),
                lv == line_views(lines@),
                0 < size < 1000,
                layout_wf(self@),
                self@ == lines_spec(old(self)@, lv.subrange(0, i as int), size as int, color),
                i > 0 ==> drawn(self@),
            decreases lines.len() - i,
        {
            assert(lv.subrange(0, i + 1).drop_last() =~= lv.subrange(0, i as int));
            assert(lv.subrange(0, i + 1).last() == lines@[i as int]@);
            self.line(&lines[i], size, color);
            i += 1;
        }
        assert(lv.subrange(0, i as int) =~= lv);
    }

    pub fn paragraph(&mut self, text: &str, size: i128)
        requires
            layout_wf(old(self)@),
            0 < size < 1000,
        ensures
            final(self)@ == paragraph_spec(old(self)@, text@, size as int),
            drawn(final(self)@),
    {
        let n = max_chars(CONTENT_WIDTH as i64, size as i64);
        let wrapped = wrap_text(text, n);
        proof {
            law_wrap_lines_fit(text@, n as nat);
        }
        self.lines(&wrapped, size, PdfColor::Text);
    }

    pub fn note(&mut self, text: &str)
        requires
            layout_wf(old(self)@),
        ensures
            final(self)@ == note_spec(old(self)@, text@),
            drawn(final(self)@),
    {
        let n = max_chars(CONTENT_WIDTH as i64, NOTE_SIZE as i64);
        let wrapped = wrap_text(text, n);
        proof {
            law_wrap_lines_fit(text@, n as nat);
        }
        self.lines(&wrapped, NOTE_SIZE, PdfColor::Muted);
    }

    pub fn spacer(&mut self, amount: i128)
        requires
            drawn(old(self)@),
            0 <= amount <= 1000,
        ensures
            final(self)@ == spacer_spec(old(self)@, amount as int),
            layout_wf(final(self)@),
    {
        self.y = self.y - amount;
    }

    pub fn into_pages(self) -> (pages: Vec<String>)
        requires
            layout_wf(self@),
        ensures
            pages@.map_values(|p: String| p@) == into_pages_spec(self@),
    {
        let mut me = self;
        if !me.current.as_str().is_empty() || me.pages.len() == 0 {
            me.stamp_footer();
            let ghost stamped = me@;
            let mut page = String::new();
            std::mem::swap(&mut me.current, &mut page);
            me.pages.push(page);
            assert(me.pages@.map_values(|p: String| p@) =~= stamped.pages.push(stamped.current));
        }
        me.pages
    }
}


// ---------------------------------------------------------------------------
// Tables
// ---------------------------------------------------------------------------

pub open spec fn int_widths(widths: Seq<i128>) -> Seq<int> {
    widths.map_values(|w: i128| w as int)
}

pub open spec fn widths_ok(widths: Seq<i128>) -> bool {
    widths.len() <= 64 && forall|i: int| 0 <= i < widths.len() ==> 0 <= #[trigger] widths[i] <= 100000
}

/// Each cell (up to the narrower of cells and widths) wrapped to its column.
pub open spec fn wrapped_cells(cells: Seq<Seq<char>>, widths: Seq<int>) -> Seq<Seq<Seq<char>>> {
    Seq::new(
        if cells.len() < widths.len() { cells.len() } else { widths.len() },
        |i: int| wrap_lines(cells[i], max_chars_for(widths[i] - 40, BODY_SIZE as int)),
    )
}

pub open spec fn max_line_count(w: Seq<Seq<Seq<char>>>) -> nat
    decreases w.len(),
{
    if w.len() == 0 {
        0
    } else if max_line_count(w.drop_last()) < w.last().len() {
        w.last().len()
    } else {
        max_line_count(w.drop_last())
    }
}

pub open spec fn sum_widths(widths: Seq<int>) -> int
    decreases widths.len(),
{
    if widths.len() == 0 {
        0
    } else {
        sum_widths(widths.drop_last()) + widths.last()
    }
}

/// The lines of one cell, one leading apart from the row's top.
pub open spec fn column_text(lines: Seq<Seq<char>>, x: int, top: int, font: Font, color: PdfColor) -> Seq<char>
    decreases lines.len(),
{
    if lines.len() == 0 {
        Seq::empty()
    } else {
        column_text(lines.drop_last(), x, top, font, color) + text_op_text(
            x + 20,
            top - BODY_LEADING * lines.len(),
            font,
            BODY_SIZE as int,
            color,
            lines.last(),
        )
    }
}

/// The cells of a row, each column starting where the previous ones end.
pub open spec fn columns_text(w: Seq<Seq<Seq<char>>>, widths: Seq<int>, top: int, font: Font, color: PdfColor) -> Seq<char>
    decreases w.len(),
{
    if w.len() == 0 {
        Seq::empty()
    } else {
        columns_text(w.drop_last(), widths, top, font, color) + column_text(
            w.last(),
            MARGIN + sum_widths(widths.subrange(0, w.len() - 1)),
            top,
            font,
            color,
        )
    }
}

/// One table row: the header band or zebra shading, each cell's wrapped lines, and the rule
/// under the row; the row is as tall as its tallest cell.
pub open spec fn table_row_spec(st: LayoutView, cells: Seq<Seq<char>>, widths: Seq<int>, header: bool, shaded: bool) -> LayoutView {
    let w = wrapped_cells(cells, widths);
    let line_count: int = if max_line_count(w) < 1 { 1 } else { max_line_count(w) as int };
    let row_height = line_count * BODY_LEADING + 30;
    let s1 = ensure_space_spec(st, row_height + 20);
    let top = s1.y;
    let total = sum_widths(widths);
    let band = if header {
        fill_rect_text(MARGIN as int, top - row_height, total, row_height, PdfColor::TableHeadBg)
    } else if shaded {
        fill_rect_text(MARGIN as int, top - row_height, total, row_height, PdfColor::ZebraBg)
    } else {
        Seq::empty()
    };
    let font = if header { Font::Bold } else { Font::Regular };
    let color = if header { PdfColor::Muted } else { PdfColor::Text };
    let y2 = top - row_height;
    LayoutView {
        pages: s1.pages,
        current: s1.current + band + columns_text(w, widths, top, font, color) + rule_text(
            MARGIN as int,
            y2 + 15,
            MARGIN + total,
            PdfColor::Rule,
            if header { 11 } else { 6 },
        ),
        y: y2,
    }
}

pub open spec fn rows_spec(st: LayoutView, rows: Seq<Seq<Seq<char>>>, widths: Seq<int>) -> LayoutView
    decreases rows.len(),
{
    if rows.len() == 0 {
        st
    } else {
        table_row_spec(rows_spec(st, rows.drop_last(), widths), rows.last(), widths, false, (rows.len() - 1) % 2 == 1)
    }
}

/// A table: the header row, the body rows with every other row shaded, then a gap.
pub open spec fn table_spec(st: LayoutView, headers: Seq<Seq<char>>, widths: Seq<int>, rows: Seq<Seq<Seq<char>>>) -> LayoutView {
    spacer_spec(rows_spec(table_row_spec(st, headers, widths, true, false), rows, widths), 60)
}

pub open spec fn cell_views(cells: Seq<String>) -> Seq<Seq<char>> {
    cells.map_values(|c: String| c@)
}

pub open spec fn row_views(rows: Seq<Vec<String>>) -> Seq<Seq<Seq<char>>> {
    rows.map_values(|r: Vec<String>| cell_views(r@))
}

proof fn lemma_sum_widths_bounds(widths: Seq<i128>, k: int)
    requires
        widths_ok(widths),
        0 <= k <= widths.len(),
    ensures
        0 <= sum_widths(int_widths(widths).subrange(0, k)) <= 100000 * k,
    decreases k,
{
    if k > 0 {
        lemma_sum_widths_bounds(widths, k - 1);
        assert(int_widths(widths).subrange(0, k).drop_last() =~= int_widths(widths).subrange(0, k - 1));
    }
}

impl PdfLayout {
    fn column(&mut self, lines: &Vec<Vec<char>>, x: i128, top: i128, font: Font, color: PdfColor)
        requires
            0 <= x <= 0x100_0000,
            DRAW_FLOOR - 0x1_0000_0000_0000_0000_00 <= top <= TOP,
            lines@.len() * BODY_LEADING <= 0x1_0000_0000_0000_0000_00,
        ensures
            final(self)@ == (LayoutView {
                current: old(self)@.current + column_text(line_views(lines@), x as int, top as int, font, color),
                ..old(self)@
            }),
    {
        let ghost lv = line_views(lines@);
        let mut line_y: i128 = top - BODY_LEADING;
        let mut j: usize = 0;
        assert(lv.subrange(0, 0) =~= Seq::<Seq<char>>::empty());
        assert(self@.current =~= old(self)@.current + column_text(lv.subrange(0, 0), x as int, top as int, font, color));
        while j < lines.len()
            invariant
                j <= lines.len(),
                lv == line_views(lines@),
                0 <= x <= 0x100_0000,
                DRAW_FLOOR - 0x1_0000_0000_0000_0000_00 <= top <= TOP,
                lines@.len() * BODY_LEADING <= 0x1_0000_0000_0000_0000_00,
                line_y == top - BODY_LEADING * (j + 1),
                self@.pages == old(self)@.pages,
                self@.y == old(self)@.y,
                self@.current == old(self)@.current + column_text(lv.subrange(0, j as int), x as int, top as int, font, color),
            decreases lines.len() - j,
        {
            assert(lv.subrange(0, j + 1).drop_last() =~= lv.subrange(0, j as int));
            assert(lv.subrange(0, j + 1).last() == lines@[j as int]@);
            assert(BODY_LEADING * (j + 1) <= 0x1_0000_0000_0000_0000_00 + 110) by (nonlinear_arith)
                requires
                    j < lines@.len(),
                    lines@.len() * BODY_LEADING <= 0x1_0000_0000_0000_0000_00,
            ;
            let ghost before = self@;
            push_text_op(&mut self.current, x + 20, line_y, font, BODY_SIZE, color, &lines[j]);
            assert(self@.pages == before.pages);
            line_y = line_y - BODY_LEADING;
            j += 1;
        }
        assert(lv.subrange(0, j as int) =~= lv);
    }

    pub fn table_row(&mut self, cells: &Vec<String>, widths: &Vec<i128>, header: bool, shaded: bool)
        requires
            layout_wf(old(self)@),
            widths_ok(widths@),
        ensures
            final(self)@ == table_row_spec(old(self)@, cell_views(cells@), int_widths(widths@), header, shaded),
            drawn(final(self)@),
    {
        let ghost cv = cell_views(cells@);
        let ghost iw = int_widths(widths@);
        let n = if cells.len() < widths.len() { cells.len() } else { widths.len() };
        let ghost w = wrapped_cells(cv, iw);
        let mut wrapped: Vec<Vec<Vec<char>>> = Vec::new();
        let mut line_count: usize = 0;
        let mut i: usize = 0;
        assert(w.subrange(0, 0) =~= Seq::<Seq<Seq<char>>>::empty());
        while i < n
            invariant
                i <= n,
                n == w.len(),
                n <= cells@.len(),
                n <= widths@.len(),
                widths_ok(widths@),
                w == wrapped_cells(cv, iw),
                cv == cell_views(cells@),
                iw == int_widths(widths@),
                wrapped@.len() == i,
                forall|k: int| 0 <= k < i ==> line_views((#[trigger] wrapped@[k])@) == w[k],
                forall|k: int| 0 <= k < i ==> (#[trigger] wrapped@[k])@.len() <= line_count,
                line_count == max_line_count(w.subrange(0, i as int)),
            decreases n - i,
        {
            assert(0 <= widths@[i as int] <= 100000);
            proof {
                lemma_max_chars_bound(widths@[i as int] - 40, BODY_SIZE as int);
            }
            let m = max_chars((widths[i] - 40) as i64, BODY_SIZE as i64);
            let lines = wrap_text(cells[i].as_str(), m);
            assert(w.subrange(0, i + 1).drop_last() =~= w.subrange(0, i as int));
            assert(line_views(lines@) == w[i as int]);
            if line_count < lines.len() {
                line_count = lines.len();
            }
            wrapped.push(lines);
            i += 1;
        }
        assert(w.subrange(0, i as int) =~= w);
        if line_count < 1 {
            line_count = 1;
        }
        let row_height: i128 = line_count as i128 * BODY_LEADING + 30;
        self.ensure_space(row_height + 20);
        let ghost s1 = self@;
        assert(s1 == ensure_space_spec(old(self)@, row_height + 20));
        let top = self.y;
        let mut total: i128 = 0;
        let mut k: usize = 0;
        while k < widths.len()
            invariant
                k <= widths.len(),
                widths_ok(widths@),
                iw == int_widths(widths@),
                total == sum_widths(iw.subrange(0, k as int)),
                0 <= total <= 100000 * k,
            decreases widths.len() - k,
        {
            assert(iw.subrange(0, k + 1).drop_last() =~= iw.subrange(0, k as int));
            assert(0 <= widths@[k as int] <= 100000);
            total = total + widths[k];
            k += 1;
        }
        assert(iw.subrange(0, k as int) =~= iw);
        if header {
            push_fill_rect(&mut self.current, MARGIN, top - row_height, total, row_height, PdfColor::TableHeadBg);
        } else if shaded {
            push_fill_rect(&mut self.current, MARGIN, top - row_height, total, row_height, PdfColor::ZebraBg);
        }
        let ghost banded = self@.current;
        assert(self@.pages == s1.pages);
        let font = if header { Font::Bold } else { Font::Regular };
        let color = if header { PdfColor::Muted } else { PdfColor::Text };
        let mut x: i128 = MARGIN;
        let mut c: usize = 0;
        assert(w.subrange(0, 0) =~= Seq::<Seq<Seq<char>>>::empty());
        while c < n
            invariant
                c <= n,
                n == w.len(),
                n == wrapped@.len(),
                n <= widths@.len(),
                widths_ok(widths@),
                iw == int_widths(widths@),
                forall|k: int| 0 <= k < n ==> line_views((#[trigger] wrapped@[k])@) == w[k],
                forall|k: int| 0 <= k < n ==> (#[trigger] wrapped@[k])@.len() <= line_count,
                1 <= line_count,
                row_height == line_count * BODY_LEADING + 30,
                row_height <= 0x1_0000_0000_0000_0000_00,
                DRAW_FLOOR - 0x1_0000_0000_0000_0000_00 <= top <= TOP,
                x == MARGIN + sum_widths(iw.subrange(0, c as int)),
                self@.y == top,
                self@.pages == s1.pages,
                self@.current == banded + columns_text(w.subrange(0, c as int), iw, top as int, font, color),
            decreases n - c,
        {
            proof {
                lemma_sum_widths_bounds(widths@, c as int);
            }
            assert(w.subrange(0, c + 1).drop_last() =~= w.subrange(0, c as int));
            assert(w.subrange(0, c + 1).last() == w[c as int]);
            self.column(&wrapped[c], x, top, font, color);
            assert(iw.subrange(0, c + 1).drop_last() =~= iw.subrange(0, c as int));
            x = x + widths[c];
            c += 1;
        }
        assert(w.subrange(0, c as int) =~= w);
        self.y = top - row_height;
        let rule_width: i128 = if header { 11 } else { 6 };
        push_rule(&mut self.current, MARGIN, self.y + 15, MARGIN + total, PdfColor::Rule, rule_width);
        let ghost spec = table_row_spec(old(self)@, cv, iw, header, shaded);
        assert(self@.current =~= spec.current);
        assert(self@.pages == s1.pages);
        assert(row_height == (if max_line_count(w) < 1 { 1 } else { max_line_count(w) as int }) * BODY_LEADING + 30);
        assert(self@.y == spec.y);
        assert(self@.pages == spec.pages);
    }
}


impl PdfLayout {
    pub fn table(&mut self, headers: &Vec<String>, widths: &Vec<i128>, rows: &Vec<Vec<String>>)
        requires
            layout_wf(old(self)@),
            widths_ok(widths@),
        ensures
            final(self)@ == table_spec(old(self)@, cell_views(headers@), int_widths(widths@), row_views(rows@)),
            layout_wf(final(self)@),
            final(self)@.y >= DRAW_FLOOR - 60,
            final(self)@.current.len() > 0,
    {
        self.table_row(headers, widths, true, false);
        let ghost after_header = self@;
        let ghost rv = row_views(rows@);
        let mut i: usize = 0;
        assert(rv.subrange(0, 0) =~= Seq::<Seq<Seq<char>>>::empty());
        while i < rows.len()
            invariant
                i <= rows.len(),
                widths_ok(widths@),
                rv == row_views(rows@),
                drawn(self@),
                self@ == rows_spec(after_header, rv.subrange(0, i as int), int_widths(widths@)),
            decreases rows.len() - i,
        {
            assert(rv.subrange(0, i + 1).drop_last() =~= rv.subrange(0, i as int));
            assert(rv.subrange(0, i + 1).last() == cell_views(rows@[i as int]@));
            self.table_row(&rows[i], widths, false, i % 2 == 1);
            i += 1;
        }
        assert(rv.subrange(0, i as int) =~= rv);
        self.spacer(60);
    }
}

} // verus!
