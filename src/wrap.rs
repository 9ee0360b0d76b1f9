//! Re-flowing text to a column width.
//!
//! Each line is re-flowed on its own, so blank lines and paragraph breaks stay where
//! they are. The words of a line (its runs of characters other than spaces, tabs,
//! carriage returns, vertical tabs and form feeds) are put
//! back together with single spaces, as many on each line as fit in the width. A word
//! longer than the width stands alone on its line, which is then the only kind of line
//! longer than the width. A width of zero means no limit: the text is left as it is.
use vstd::prelude::*;

use crate::config::comment::{joined, text_lines};
use crate::text::{append_chars, chars_of, split_chars, split_on, string_of, views};

verus! {

/// The pieces of `ps` that are not empty, in order.
pub open spec fn non_empty(ps: Seq<Seq<char>>) -> Seq<Seq<char>>
    decreases ps.len(),
{
    if ps.len() == 0 {
        Seq::empty()
    } else if ps.last().len() == 0 {
        non_empty(ps.drop_last())
    } else {
        non_empty(ps.drop_last()).push(ps.last())
    }
}

/// Whether `c` separates words within a line: ASCII white space other than the line break.
pub open spec fn is_blank(c: char) -> bool {
    c == ' ' || c == '\t' || c == '\r' || c == '\u{0B}' || c == '\u{0C}'
}

/// The line with each separating character replaced by a space.
pub open spec fn blanks_to_spaces(line: Seq<char>) -> Seq<char> {
    line.map_values(|c: char| if is_blank(c) { ' ' } else { c })
}

/// A character vector with each separating character replaced by a space.
fn spaced(line: &Vec<char>) -> (r: Vec<char>)
    ensures
        r@ == blanks_to_spaces(line@),
{
    let mut r: Vec<char> = Vec::new();
    let mut i: usize = 0;
    while i < line.len()
        invariant
            i <= line@.len(),
            r@ == blanks_to_spaces(line@).take(i as int),
        decreases line@.len() - i,
    {
        let c = line[i];
        if c == ' ' || c == '\t' || c == '\r' || c == '\u{0B}' || c == '\u{0C}' {
            r.push(' ');
        } else {
            r.push(c);
        }
        assert(r@ =~= blanks_to_spaces(line@).take(i + 1));
        i = i + 1;
    }
    assert(r@ =~= blanks_to_spaces(line@));
    r
}

/// The words of a line: its runs of characters that do not separate words.
pub open spec fn words_of(line: Seq<char>) -> Seq<Seq<char>> {
    non_empty(split_on(blanks_to_spaces(line), ' '))
}

/// `words` laid out greedily: each word goes on the current line, after a space,
/// if the line stays within `width`, and starts a new line otherwise.
pub open spec fn fill(words: Seq<Seq<char>>, width: nat) -> Seq<Seq<char>>
    decreases words.len(),
{
    if words.len() == 0 {
        Seq::empty()
    } else {
        let ls = fill(words.drop_last(), width);
        let w = words.last();
        if ls.len() == 0 {
            seq![w]
        } else if ls.last().len() + 1 + w.len() <= width {
            ls.update(ls.len() - 1, ls.last().push(' ') + w)
        } else {
            ls.push(w)
        }
    }
}

/// One line re-flowed: its words laid out in `width`, or one empty line where it has none.
pub open spec fn wrap_line(line: Seq<char>, width: nat) -> Seq<Seq<char>> {
    if words_of(line).len() == 0 {
        seq![Seq::<char>::empty()]
    } else {
        fill(words_of(line), width)
    }
}

/// Each line re-flowed, in order.
pub open spec fn wrap_all(lines: Seq<Seq<char>>, width: nat) -> Seq<Seq<char>>
    decreases lines.len(),
{
    if lines.len() == 0 {
        Seq::empty()
    } else {
        wrap_all(lines.drop_last(), width) + wrap_line(lines.last(), width)
    }
}

/// Whether every word of every line fits in `width`.
pub open spec fn words_fit(lines: Seq<Seq<char>>, width: nat) -> bool {
    forall|i: int, j: int|
        0 <= i < lines.len() && 0 <= j < words_of(lines[i]).len() ==> (#[trigger] words_of(
            lines[i],
        )[j]).len() <= width
}

/// `text` re-flowed to `width`; left as it is where the width is zero or a word is
/// longer than the width, both of which mean no limit.
pub open spec fn wrapped(text: Seq<char>, width: nat) -> Seq<char> {
    if width == 0 || !words_fit(text_lines(text), width) {
        text
    } else {
        joined(wrap_all(text_lines(text), width))
    }
}

/// A greedy layout keeps every line within the width, unless the line is a single
/// word that is longer than the width by itself.
pub proof fn lemma_fill_within_width(words: Seq<Seq<char>>, width: nat)
    ensures
        forall|i: int|
            0 <= i < fill(words, width).len() ==> (#[trigger] fill(words, width)[i]).len() <= width
                || words.contains(fill(words, width)[i]),
    decreases words.len(),
{
    if words.len() > 0 {
        let init = words.drop_last();
        lemma_fill_within_width(init, width);
        let ls = fill(init, width);
        let w = words.last();
        assert(words[words.len() - 1] == w);
        assert forall|i: int|
            0 <= i < fill(words, width).len() implies (#[trigger] fill(words, width)[i]).len() <= width
                || words.contains(fill(words, width)[i]) by {
            if i < ls.len() && fill(words, width)[i] == ls[i] {
                if ls[i].len() > width {
                    let j = choose|j: int| 0 <= j < init.len() && init[j] == ls[i];
                    assert(words[j] == init[j]);
                }
            }
        }
    }
}

/// The non-empty pieces of `ps`.
pub(crate) fn non_empty_pieces(ps: &Vec<Vec<char>>) -> (r: Vec<Vec<char>>)
    ensures
        views(r@) == non_empty(views(ps@)),
{
    let mut r: Vec<Vec<char>> = Vec::new();
    let mut i: usize = 0;
    while i < ps.len()
        invariant
            i <= ps@.len(),
            views(r@) == non_empty(views(ps@).take(i as int)),
        decreases ps@.len() - i,
    {
        assert(views(ps@).take(i + 1).drop_last() =~= views(ps@).take(i as int));
        if ps[i].len() > 0 {
            let ghost before = views(r@);
            let mut w: Vec<char> = Vec::new();
            append_chars(&mut w, &ps[i]);
            r.push(w);
            assert(views(r@) =~= before.push(views(ps@)[i as int]));
        }
        i = i + 1;
    }
    assert(views(ps@).take(ps@.len() as int) =~= views(ps@));
    r
}

/// Appends `b` to `a` after a space.
fn join_word(a: &mut Vec<char>, b: &Vec<char>)
    ensures
        final(a)@ == old(a)@.push(' ') + b@,
{
    a.push(' ');
    append_chars(a, b);
}

/// `words` laid out greedily in `width`.
fn fill_words(words: &Vec<Vec<char>>, width: usize) -> (r: Vec<Vec<char>>)
    requires
        words@.len() > 0,
    ensures
        views(r@) == fill(views(words@), width as nat),
{
    let ghost ws = views(words@);
    let mut done: Vec<Vec<char>> = Vec::new();
    let mut cur: Vec<char> = Vec::new();
    append_chars(&mut cur, &words[0]);
    assert(ws.take(1).drop_last() =~= Seq::<Seq<char>>::empty());
    assert(fill(Seq::<Seq<char>>::empty(), width as nat) == Seq::<Seq<char>>::empty());
    assert(cur@ =~= ws[0]);
    assert(ws.take(1).last() == ws[0]);
    assert(views(done@).push(cur@) =~= fill(ws.take(1), width as nat));
    let mut k: usize = 1;
    while k < words.len()
        invariant
            1 <= k <= words@.len(),
            ws == views(words@),
            views(done@).push(cur@) == fill(ws.take(k as int), width as nat),
        decreases words@.len() - k,
    {
        let ghost ls = fill(ws.take(k as int), width as nat);
        assert(ws.take(k + 1).drop_last() =~= ws.take(k as int));
        assert(ws.take(k + 1).last() == words@[k as int]@);
        let ghost before = views(done@);
        if cur.len() < width && words[k].len() <= width - cur.len() - 1 {
            join_word(&mut cur, &words[k]);
            assert(views(done@).push(cur@) =~= ls.update(ls.len() - 1, ls.last().push(' ') + ws[k as int]));
        } else {
            let ghost old_cur = cur@;
            done.push(cur);
            cur = Vec::new();
            append_chars(&mut cur, &words[k]);
            assert(views(done@) =~= before.push(old_cur));
            assert(views(done@).push(cur@) =~= ls.push(ws[k as int]));
        }
        k = k + 1;
    }
    assert(ws.take(words@.len() as int) =~= ws);
    let ghost before = views(done@);
    let ghost last = cur@;
    done.push(cur);
    assert(views(done@) =~= before.push(last));
    done
}

/// Appends the lines of `src` to `dst`.
fn append_lines(dst: &mut Vec<Vec<char>>, src: Vec<Vec<char>>)
    ensures
        views(final(dst)@) == views(old(dst)@) + views(src@),
{
    let mut src = src;
    let mut rev: Vec<Vec<char>> = Vec::new();
    let ghost orig = views(src@);
    while src.len() > 0
        invariant
            views(src@) + views(rev@).reverse() == orig,
        decreases src@.len(),
    {
        let ghost s0 = views(src@);
        let ghost r0 = views(rev@);
        let x = src.pop().unwrap();
        rev.push(x);
        assert(views(src@) =~= s0.drop_last());
        assert(views(rev@) =~= r0.push(x@));
        assert(views(rev@).reverse() =~= seq![x@] + r0.reverse());
        assert(views(src@) + views(rev@).reverse() =~= orig);
    }
    assert(views(src@) =~= Seq::<Seq<char>>::empty());
    let ghost start = views(dst@);
    while rev.len() > 0
        invariant
            views(dst@) + views(rev@).reverse() == start + orig,
        decreases rev@.len(),
    {
        let ghost d0 = views(dst@);
        let ghost r0 = views(rev@);
        let x = rev.pop().unwrap();
        assert(views(rev@) =~= r0.drop_last());
        assert(r0.reverse() =~= seq![x@] + views(rev@).reverse());
        dst.push(x);
        assert(views(dst@) =~= d0.push(x@));
        assert(views(dst@) + views(rev@).reverse() =~= start + orig);
    }
    assert(views(dst@) =~= start + orig);
}

/// Joins lines again, with a line break between each two.
fn join_lines(lines: &Vec<Vec<char>>) -> (r: Vec<char>)
    ensures
        r@ == joined(views(lines@)),
{
    let mut out: Vec<char> = Vec::new();
    let mut k: usize = 0;
    while k < lines.len()
        invariant
            k <= lines@.len(),
            out@ == joined(views(lines@).take(k as int)),
        decreases lines@.len() - k,
    {
        assert(views(lines@).take(k + 1).drop_last() =~= views(lines@).take(k as int));
        if k > 0 {
            out.push('\n');
        }
        append_chars(&mut out, &lines[k]);
        assert(out@ =~= joined(views(lines@).take(k + 1)));
        k = k + 1;
    }
    assert(views(lines@).take(lines@.len() as int) =~= views(lines@));
    out
}

/// Whether every one of `words` is at most `width` long.
fn all_within(words: &Vec<Vec<char>>, width: usize) -> (r: bool)
    ensures
        r == forall|j: int| 0 <= j < words@.len() ==> (#[trigger] words@[j])@.len() <= width,
{
    let mut j: usize = 0;
    while j < words.len()
        invariant
            j <= words@.len(),
            forall|k: int| 0 <= k < j ==> (#[trigger] words@[k])@.len() <= width,
        decreases words@.len() - j,
    {
        if words[j].len() > width {
            return false;
        }
        j = j + 1;
    }
    true
}

/// `text` re-flowed to `width` columns: each line's words laid out greedily with
/// single spaces. A width of zero, or one that some word is longer than, leaves the
/// text as it is.
pub fn wrap_text(text: &str, width: usize) -> (r: String)
    ensures
        r@ == wrapped(text@, width as nat),
{
    if width == 0 {
        return string_of(&chars_of(text));
    }
    let t = chars_of(text);
    let lines = crate::config::comment::body_lines(&t);
    let mut out: Vec<Vec<char>> = Vec::new();
    let mut i: usize = 0;
    while i < lines.len()
        invariant
            i <= lines@.len(),
            width > 0,
            t@ == text@,
            views(lines@) == text_lines(text@),
            views(out@) == wrap_all(views(lines@).take(i as int), width as nat),
            forall|a: int, b: int|
                0 <= a < i && 0 <= b < words_of(views(lines@)[a]).len() ==> (#[trigger] words_of(
                    views(lines@)[a],
                )[b]).len() <= width,
        decreases lines@.len() - i,
    {
        assert(views(lines@).take(i + 1).drop_last() =~= views(lines@).take(i as int));
        let pieces = split_chars(&spaced(&lines[i]), ' ');
        let words = non_empty_pieces(&pieces);
        assert(views(lines@)[i as int] == lines@[i as int]@);
        assert(views(words@) == words_of(views(lines@)[i as int]));
        if !all_within(&words, width) {
            proof {
                let b = choose|b: int| 0 <= b < words@.len() && !((#[trigger] words@[b])@.len() <= width);
                assert(views(words@)[b] == words@[b]@);
                assert(words_of(text_lines(text@)[i as int])[b].len() > width);
                assert(!words_fit(text_lines(text@), width as nat));
            }
            return string_of(&t);
        }
        assert forall|b: int| 0 <= b < words_of(views(lines@)[i as int]).len() implies (
        #[trigger] words_of(views(lines@)[i as int])[b]).len() <= width by {
            assert(views(words@)[b] == words@[b]@);
        }
        let ghost before = views(out@);
        if words.len() == 0 {
            out.push(Vec::new());
            assert(views(out@) =~= before + seq![Seq::<char>::empty()]);
        } else {
            let filled = fill_words(&words, width);
            append_lines(&mut out, filled);
        }
        i = i + 1;
    }
    assert(views(lines@).take(lines@.len() as int) =~= views(lines@));
    assert(words_fit(text_lines(text@), width as nat));
    string_of(&join_lines(&out))
}

} // verus!
