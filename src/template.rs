//! License templates and their placeholders.
use vstd::prelude::*;

use crate::text::{append_chars, chars_of, string_of};

verus! {

/// An author named in a license header.
pub struct Author {
    pub name: String,
    pub email: Option<String>,
}

/// The authors of a file, in the order they are listed.
pub struct Authors {
    pub authors: Vec<Author>,
}

/// What a template is rendered with.
pub struct Context {
    pub end_year: Option<String>,
    pub start_year: Option<String>,
    pub ident: String,
    pub authors: Authors,
    /// Whether the rendered text is re-flowed to the comment's width.
    pub unwrap_text: bool,
}

/// A license template together with the values for its placeholders.
pub struct Template {
    pub content: String,
    pub context: Context,
    /// Whether the template is a header fetched from the license registry.
    pub spdx_template: bool,
}

/// The placeholder for the first year: `{start_year}`.
pub open spec fn start_year_tag() -> Seq<char> {
    seq!['{', 's', 't', 'a', 'r', 't', '_', 'y', 'e', 'a', 'r', '}']
}

/// The placeholder for the last year: `{end_year}`.
pub open spec fn end_year_tag() -> Seq<char> {
    seq!['{', 'e', 'n', 'd', '_', 'y', 'e', 'a', 'r', '}']
}

/// The placeholder for the license identifier: `{ident}`.
pub open spec fn ident_tag() -> Seq<char> {
    seq!['{', 'i', 'd', 'e', 'n', 't', '}']
}

/// The placeholder for the list of authors: `{authors}`.
pub open spec fn authors_tag() -> Seq<char> {
    seq!['{', 'a', 'u', 't', 'h', 'o', 'r', 's', '}']
}

/// Whether `t` begins with `p`.
pub open spec fn starts_with(t: Seq<char>, p: Seq<char>) -> bool {
    p.len() <= t.len() && t.take(p.len() as int) == p
}

/// An optional value as text: the value, or nothing when it is absent.
pub open spec fn opt_text(o: Option<String>) -> Seq<char> {
    match o {
        Some(s) => s@,
        None => Seq::empty(),
    }
}

/// An author as text: the name, then the email in angle brackets when there is one.
pub open spec fn author_text(a: Author) -> Seq<char> {
    match a.email {
        Some(e) => a.name@ + seq![' ', '<'] + e@ + seq!['>'],
        None => a.name@,
    }
}

/// The authors as text, separated by ", ".
pub open spec fn authors_text(au: Seq<Author>) -> Seq<char>
    decreases au.len(),
{
    if au.len() == 0 {
        Seq::empty()
    } else if au.len() == 1 {
        author_text(au[0])
    } else {
        authors_text(au.drop_last()) + seq![',', ' '] + author_text(au.last())
    }
}

/// `t` with every placeholder, read from left to right, replaced by its value; any
/// other text, unknown placeholders included, is kept as it is.
pub open spec fn render_text(
    t: Seq<char>,
    start: Seq<char>,
    end: Seq<char>,
    ident: Seq<char>,
    authors: Seq<char>,
) -> Seq<char>
    decreases t.len(),
{
    if t.len() == 0 {
        Seq::empty()
    } else if starts_with(t, start_year_tag()) {
        start + render_text(t.skip(start_year_tag().len() as int), start, end, ident, authors)
    } else if starts_with(t, end_year_tag()) {
        end + render_text(t.skip(end_year_tag().len() as int), start, end, ident, authors)
    } else if starts_with(t, ident_tag()) {
        ident + render_text(t.skip(ident_tag().len() as int), start, end, ident, authors)
    } else if starts_with(t, authors_tag()) {
        authors + render_text(t.skip(authors_tag().len() as int), start, end, ident, authors)
    } else {
        seq![t[0]] + render_text(t.skip(1), start, end, ident, authors)
    }
}

/// The text of `template` rendered in context `c`; an absent year renders as nothing.
pub open spec fn rendered(template: Seq<char>, c: Context) -> Seq<char> {
    render_text(
        template,
        opt_text(c.start_year),
        opt_text(c.end_year),
        c.ident@,
        authors_text(c.authors.authors@),
    )
}

/// A year range `{start_year}-{end_year}` renders as the two years around a hyphen;
/// an absent end year renders as nothing, so that only the first year and the hyphen
/// remain.
pub proof fn lemma_year_range_renders(start: Seq<char>, end: Seq<char>, ident: Seq<char>, authors: Seq<char>)
    ensures
        render_text(start_year_tag() + seq!['-'] + end_year_tag(), start, end, ident, authors) == start
            + seq!['-'] + end,
        render_text(start_year_tag() + seq!['-'] + end_year_tag(), start, Seq::empty(), ident, authors)
            == start + seq!['-'],
{
    lemma_year_range_renders_with(start, end, ident, authors);
    lemma_year_range_renders_with(start, Seq::empty(), ident, authors);
    assert(start + seq!['-'] + Seq::<char>::empty() =~= start + seq!['-']);
}

proof fn lemma_year_range_renders_with(start: Seq<char>, end: Seq<char>, ident: Seq<char>, authors: Seq<char>)
    ensures
        render_text(start_year_tag() + seq!['-'] + end_year_tag(), start, end, ident, authors) == start
            + seq!['-'] + end,
{
    let t = start_year_tag() + seq!['-'] + end_year_tag();
    let t1 = seq!['-'] + end_year_tag();
    let t2 = end_year_tag();
    assert(t.take(12) =~= start_year_tag());
    assert(t.skip(12) =~= t1);
    assert(t1[0] == '-');
    assert(t1.len() == 11);
    assert(!starts_with(t1, start_year_tag()));
    assert(t1.take(10)[0] != end_year_tag()[0]);
    assert(t1.take(7)[0] != ident_tag()[0]);
    assert(t1.take(9)[0] != authors_tag()[0]);
    assert(t1.skip(1) =~= t2);
    assert(t2.take(10) =~= end_year_tag());
    assert(t2.skip(10) =~= Seq::<char>::empty());
    assert(!starts_with(t2, start_year_tag()));
    assert(starts_with(t2, end_year_tag()));
    assert(render_text(Seq::<char>::empty(), start, end, ident, authors) == Seq::<char>::empty());
    assert(render_text(t2, start, end, ident, authors) =~= end + Seq::<char>::empty());
    assert(render_text(t1, start, end, ident, authors) =~= seq!['-'] + end);
    assert(render_text(t, start, end, ident, authors) =~= start + seq!['-'] + end);
}

/// Whether `p` occurs in `t` at position `i`.
fn occurs_at(t: &Vec<char>, i: usize, p: &Vec<char>) -> (r: bool)
    requires
        i <= t@.len(),
    ensures
        r == starts_with(t@.skip(i as int), p@),
{
    if p.len() > t.len() - i {
        return false;
    }
    let mut k: usize = 0;
    while k < p.len()
        invariant
            i + p@.len() <= t@.len(),
            t@.len() <= usize::MAX,
            k <= p@.len(),
            forall|j: int| 0 <= j < k ==> t@[i + j] == p@[j],
        decreases p@.len() - k,
    {
        assert(i + k < t@.len());
        if t[i + k] != p[k] {
            assert(t@.skip(i as int).take(p@.len() as int)[k as int] != p@[k as int]);
            return false;
        }
        k = k + 1;
    }
    assert(t@.skip(i as int).take(p@.len() as int) =~= p@);
    true
}

/// An optional value as text.
fn opt_chars(o: &Option<String>) -> (r: Vec<char>)
    ensures
        r@ == opt_text(*o),
{
    match o {
        Some(s) => chars_of(s.as_str()),
        None => Vec::new(),
    }
}

impl Author {
    /// This author as text: "Name <email>", or the name alone.
    pub fn text(&self) -> (r: Vec<char>)
        ensures
            r@ == author_text(*self),
    {
        let mut r = chars_of(self.name.as_str());
        match &self.email {
            Some(e) => {
                r.push(' ');
                r.push('<');
                append_chars(&mut r, &chars_of(e.as_str()));
                r.push('>');
                assert(r@ =~= author_text(*self));
            },
            None => {},
        }
        r
    }
}

impl Authors {
    /// The authors as text, separated by ", ".
    pub fn text(&self) -> (r: Vec<char>)
        ensures
            r@ == authors_text(self.authors@),
    {
        let mut r: Vec<char> = Vec::new();
        let mut i: usize = 0;
        while i < self.authors.len()
            invariant
                i <= self.authors@.len(),
                r@ == authors_text(self.authors@.take(i as int)),
            decreases self.authors@.len() - i,
        {
            assert(self.authors@.take(i + 1).drop_last() =~= self.authors@.take(i as int));
            if i > 0 {
                r.push(',');
                r.push(' ');
            }
            append_chars(&mut r, &self.authors[i].text());
            assert(r@ =~= authors_text(self.authors@.take(i + 1)));
            i = i + 1;
        }
        assert(self.authors@.take(self.authors@.len() as int) =~= self.authors@);
        r
    }
}

/// `template` with its placeholders replaced by `start`, `end`, `ident` and `authors`.
pub fn render_chars(
    template: &Vec<char>,
    start: &Vec<char>,
    end: &Vec<char>,
    ident: &Vec<char>,
    authors: &Vec<char>,
) -> (r: Vec<char>)
    ensures
        r@ == render_text(template@, start@, end@, ident@, authors@),
{
    let st = vec!['{', 's', 't', 'a', 'r', 't', '_', 'y', 'e', 'a', 'r', '}'];
    let et = vec!['{', 'e', 'n', 'd', '_', 'y', 'e', 'a', 'r', '}'];
    let it = vec!['{', 'i', 'd', 'e', 'n', 't', '}'];
    let at = vec!['{', 'a', 'u', 't', 'h', 'o', 'r', 's', '}'];
    assert(st@ =~= start_year_tag());
    assert(et@ =~= end_year_tag());
    assert(it@ =~= ident_tag());
    assert(at@ =~= authors_tag());
    let ghost whole = render_text(template@, start@, end@, ident@, authors@);
    let mut out: Vec<char> = Vec::new();
    let mut i: usize = 0;
    assert(template@.skip(0) =~= template@);
    while i < template.len()
        invariant
            i <= template@.len(),
            st@ == start_year_tag(),
            et@ == end_year_tag(),
            it@ == ident_tag(),
            at@ == authors_tag(),
            out@ + render_text(template@.skip(i as int), start@, end@, ident@, authors@) == whole,
        decreases template@.len() - i,
    {
        let ghost rest = template@.skip(i as int);
        if occurs_at(template, i, &st) {
            assert(rest.skip(st@.len() as int) =~= template@.skip(i + st@.len()));
            append_chars(&mut out, start);
            i = i + st.len();
        } else if occurs_at(template, i, &et) {
            assert(rest.skip(et@.len() as int) =~= template@.skip(i + et@.len()));
            append_chars(&mut out, end);
            i = i + et.len();
        } else if occurs_at(template, i, &it) {
            assert(rest.skip(it@.len() as int) =~= template@.skip(i + it@.len()));
            append_chars(&mut out, ident);
            i = i + it.len();
        } else if occurs_at(template, i, &at) {
            assert(rest.skip(at@.len() as int) =~= template@.skip(i + at@.len()));
            append_chars(&mut out, authors);
            i = i + at.len();
        } else {
            assert(rest.skip(1) =~= template@.skip(i + 1));
            out.push(template[i]);
            i = i + 1;
        }
        assert(out@ + render_text(template@.skip(i as int), start@, end@, ident@, authors@) =~= whole);
    }
    assert(out@ =~= whole);
    out
}

impl Template {
    /// The template text with every placeholder replaced from the context.
    pub fn render(&self) -> (r: String)
        ensures
            r@ == rendered(self.content@, self.context),
    {
        let t = chars_of(self.content.as_str());
        let start = opt_chars(&self.context.start_year);
        let end = opt_chars(&self.context.end_year);
        let ident = chars_of(self.context.ident.as_str());
        let authors = self.context.authors.text();
        string_of(&render_chars(&t, &start, &end, &ident, &authors))
    }
}

} // verus!
