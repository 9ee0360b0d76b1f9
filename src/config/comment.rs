//! Comment styles and the rules that pick them by file type.
use vstd::prelude::*;

use crate::config::matcher::{matcher_hit, FileMatcher};
use crate::template::{rendered, Template};
use crate::wrap::{wrap_text, wrapped};
use crate::text::{
    any_chars, any_word, append_chars, chars_of, same_chars, split_chars, split_on, string_of,
    views,
};

verus! {

/// The index of the last '.' in `s`, or -1 when there is none.
pub open spec fn last_dot(s: Seq<char>) -> int
    decreases s.len(),
{
    if s.len() == 0 {
        -1
    } else if s.last() == '.' {
        s.len() - 1
    } else {
        last_dot(s.drop_last())
    }
}

/// The extension of a file name: what follows its last '.', or nothing when it has none.
pub open spec fn filetype(s: Seq<char>) -> Seq<char> {
    if last_dot(s) < 0 {
        Seq::empty()
    } else {
        s.subrange(last_dot(s) + 1, s.len() as int)
    }
}

proof fn lemma_last_dot_bounds(s: Seq<char>)
    ensures
        -1 <= last_dot(s) < s.len(),
        last_dot(s) >= 0 ==> s[last_dot(s)] == '.',
    decreases s.len(),
{
    if s.len() > 0 && s.last() != '.' {
        lemma_last_dot_bounds(s.drop_last());
    }
}

/// The extension of `filename`, without the dot.
pub fn get_filetype(filename: &str) -> (r: String)
    ensures
        r@ == filetype(filename@),
{
    let cs = chars_of(filename);
    let mut i: usize = cs.len();
    assert(cs@.subrange(0, i as int) =~= cs@);
    while i > 0 && cs[i - 1] != '.'
        invariant
            i <= cs@.len(),
            last_dot(cs@) == last_dot(cs@.subrange(0, i as int)),
        decreases i,
    {
        assert(cs@.subrange(0, i - 1) =~= cs@.subrange(0, i as int).drop_last());
        i = i - 1;
    }
    proof {
        lemma_last_dot_bounds(cs@);
    }
    let mut out: Vec<char> = Vec::new();
    if i > 0 {
        assert(last_dot(cs@.subrange(0, i as int)) == i - 1);
        let mut j: usize = i;
        while j < cs.len()
            invariant
                i <= j <= cs@.len(),
                out@ == cs@.subrange(i as int, j as int),
            decreases cs@.len() - j,
        {
            out.push(cs[j]);
            j = j + 1;
            assert(out@ =~= cs@.subrange(i as int, j as int));
        }
    } else {
        assert(cs@.subrange(0, 0) =~= Seq::<char>::empty());
    }
    string_of(&out)
}

/// The number of blank lines put after a comment when a rule names none.
pub fn def_trailing_lines() -> (r: usize)
    ensures
        r == 0,
{
    0
}

/// How a comment is written: a prefix on every line, or a block between two
/// delimiters with an optional prefix on each line inside it.
pub enum Commenter {
    Block {
        start_block_char: String,
        end_block_char: String,
        per_line_char: Option<String>,
        trailing_lines: usize,
    },
    Line { comment_char: String, trailing_lines: usize },
}

/// The extensions that a rule governs: one (possibly the word "any") or several.
pub enum FileType {
    Single(String),
    List(Vec<String>),
}

/// Whether an extension set governs extension `ext`: it names `ext` exactly, or
/// it names "any".
pub open spec fn ext_matches(t: FileType, ext: Seq<char>) -> bool {
    match t {
        FileType::Single(e) => e@ == any_word() || e@ == ext,
        FileType::List(es) => names_ext(es@, ext),
    }
}

/// Whether one of `es` is the word "any" or exactly `ext`.
pub open spec fn names_ext(es: Seq<String>, ext: Seq<char>) -> bool {
    exists|i: int| 0 <= i < es.len() && (#[trigger] es[i]@ == any_word() || es[i]@ == ext)
}

impl FileType {
    /// Whether this extension set governs extension `ft`.
    pub fn matches(&self, ft: &str) -> (r: bool)
        ensures
            r == ext_matches(*self, ft@),
    {
        let f = chars_of(ft);
        let any = any_chars();
        match self {
            FileType::Single(ext) => {
                let e = chars_of(ext.as_str());
                same_chars(&e, &any) || same_chars(&e, &f)
            },
            FileType::List(extensions) => {
                let mut i: usize = 0;
                while i < extensions.len()
                    invariant
                        i <= extensions@.len(),
                        *self == FileType::List(*extensions),
                        f@ == ft@,
                        any@ == any_word(),
                        forall|j: int|
                            0 <= j < i ==> !(#[trigger] extensions@[j]@ == any_word()
                                || extensions@[j]@ == ft@),
                    decreases extensions@.len() - i,
                {
                    let e = chars_of(extensions[i].as_str());
                    if same_chars(&e, &any) || same_chars(&e, &f) {
                        return true;
                    }
                    i = i + 1;
                }
                false
            },
        }
    }
}

/// The lines of a text: its pieces between line breaks, so that a text with `k`
/// line breaks has `k + 1` lines; a final line break is followed by an empty line,
/// and an empty text is one empty line.
pub open spec fn text_lines(s: Seq<char>) -> Seq<Seq<char>> {
    split_on(s, '\n')
}

/// Each line with `prefix` before it and a line break after it.
pub open spec fn prefixed(prefix: Seq<char>, lines: Seq<Seq<char>>) -> Seq<char>
    decreases lines.len(),
{
    if lines.len() == 0 {
        Seq::empty()
    } else {
        prefixed(prefix, lines.drop_last()) + prefix + lines.last() + seq!['\n']
    }
}

/// `n` empty lines.
pub open spec fn blank_lines(n: nat) -> Seq<char> {
    Seq::new(n, |i: int| '\n')
}

/// The prefix that a line style puts before each line: the comment character and a space.
pub open spec fn line_prefix(comment_char: Seq<char>) -> Seq<char> {
    comment_char.push(' ')
}

/// The comment that `c` makes of `text`.
pub open spec fn formatted(c: Commenter, text: Seq<char>) -> Seq<char> {
    match c {
        Commenter::Line { comment_char, trailing_lines } => prefixed(
            line_prefix(comment_char@),
            text_lines(text),
        ) + blank_lines(trailing_lines as nat),
        Commenter::Block { start_block_char, end_block_char, per_line_char, trailing_lines } => {
            let per_line = match per_line_char {
                Some(p) => p@,
                None => Seq::empty(),
            };
            start_block_char@.push('\n') + prefixed(per_line, text_lines(text))
                + end_block_char@.push('\n') + blank_lines(trailing_lines as nat)
        },
    }
}

/// The lines of `text`.
pub(crate) fn body_lines(text: &Vec<char>) -> (r: Vec<Vec<char>>)
    ensures
        views(r@) == text_lines(text@),
{
    split_chars(text, '\n')
}

/// Appends each line of `lines`, with `prefix` before it and a line break after it.
fn push_prefixed(out: &mut Vec<char>, prefix: &Vec<char>, lines: &Vec<Vec<char>>)
    ensures
        final(out)@ == old(out)@ + prefixed(prefix@, views(lines@)),
{
    let mut k: usize = 0;
    while k < lines.len()
        invariant
            k <= lines@.len(),
            out@ == old(out)@ + prefixed(prefix@, views(lines@).take(k as int)),
        decreases lines@.len() - k,
    {
        let ghost before = out@;
        append_chars(out, prefix);
        append_chars(out, &lines[k]);
        out.push('\n');
        assert(views(lines@).take(k + 1).drop_last() =~= views(lines@).take(k as int));
        assert(out@ =~= old(out)@ + prefixed(prefix@, views(lines@).take(k + 1)));
        k = k + 1;
    }
    assert(views(lines@).take(lines@.len() as int) =~= views(lines@));
}

/// Appends `n` line breaks.
fn push_blank_lines(out: &mut Vec<char>, n: usize)
    ensures
        final(out)@ == old(out)@ + blank_lines(n as nat),
{
    let mut k: usize = 0;
    while k < n
        invariant
            k <= n,
            out@ == old(out)@ + blank_lines(k as nat),
        decreases n - k,
    {
        out.push('\n');
        assert(blank_lines((k + 1) as nat) =~= blank_lines(k as nat).push('\n'));
        k = k + 1;
    }
}

impl Commenter {
    /// The same style, field by field.
    pub fn copy(&self) -> (r: Commenter)
        ensures
            r == *self,
    {
        match self {
            Commenter::Block { start_block_char, end_block_char, per_line_char, trailing_lines } => {
                let p = match per_line_char {
                    Some(p) => Some(p.clone()),
                    None => None,
                };
                Commenter::Block {
                    start_block_char: start_block_char.clone(),
                    end_block_char: end_block_char.clone(),
                    per_line_char: p,
                    trailing_lines: *trailing_lines,
                }
            },
            Commenter::Line { comment_char, trailing_lines } => Commenter::Line {
                comment_char: comment_char.clone(),
                trailing_lines: *trailing_lines,
            },
        }
    }

    /// `text` written as a comment in this style.
    pub fn comment(&self, text: &str) -> (r: String)
        ensures
            r@ == formatted(*self, text@),
    {
        let t = chars_of(text);
        let lines = body_lines(&t);
        let mut out: Vec<char> = Vec::new();
        match self {
            Commenter::Line { comment_char, trailing_lines } => {
                let mut prefix = chars_of(comment_char.as_str());
                prefix.push(' ');
                push_prefixed(&mut out, &prefix, &lines);
                push_blank_lines(&mut out, *trailing_lines);
                assert(out@ =~= formatted(*self, text@));
            },
            Commenter::Block { start_block_char, end_block_char, per_line_char, trailing_lines } => {
                let start = chars_of(start_block_char.as_str());
                append_chars(&mut out, &start);
                out.push('\n');
                let per_line = match per_line_char {
                    Some(p) => chars_of(p.as_str()),
                    None => Vec::new(),
                };
                push_prefixed(&mut out, &per_line, &lines);
                let end = chars_of(end_block_char.as_str());
                append_chars(&mut out, &end);
                out.push('\n');
                push_blank_lines(&mut out, *trailing_lines);
                assert(out@ =~= formatted(*self, text@));
            },
        }
        string_of(&out)
    }
}

/// The word "any" as an extension governs every extension, the empty one included.
pub proof fn lemma_any_matches_every_extension(t: FileType, ext: Seq<char>)
    requires
        t matches FileType::Single(e) && e@ == any_word(),
    ensures
        ext_matches(t, ext),
{
}

/// Any other extension governs exactly the extension spelled the same, letter case
/// included.
pub proof fn lemma_extension_is_exact(e: String, ext: Seq<char>)
    requires
        e@ != any_word(),
    ensures
        ext_matches(FileType::Single(e), ext) <==> e@ == ext,
{
}

/// Lines joined back into text, each followed by a line break.
pub open spec fn unlines(lines: Seq<Seq<char>>) -> Seq<char>
    decreases lines.len(),
{
    if lines.len() == 0 {
        Seq::empty()
    } else {
        unlines(lines.drop_last()) + lines.last() + seq!['\n']
    }
}

/// Lines joined into one text, with a line break between each two.
pub open spec fn joined(lines: Seq<Seq<char>>) -> Seq<char>
    decreases lines.len(),
{
    if lines.len() == 0 {
        Seq::empty()
    } else if lines.len() == 1 {
        lines[0]
    } else {
        joined(lines.drop_last()) + seq!['\n'] + lines.last()
    }
}

/// Adding a character to the last line adds it to the end of the joined text.
proof fn lemma_joined_extend_last(ls: Seq<Seq<char>>, c: char)
    requires
        ls.len() >= 1,
    ensures
        joined(ls.update(ls.len() - 1, ls.last().push(c))) == joined(ls).push(c),
{
    let up = ls.update(ls.len() - 1, ls.last().push(c));
    if ls.len() == 1 {
        assert(up[0] == ls[0].push(c));
    } else {
        assert(up.drop_last() =~= ls.drop_last());
        assert(joined(up) =~= joined(ls).push(c));
    }
}

/// The lines of a text, joined again, give back the text exactly.
pub proof fn lemma_lines_rejoin(s: Seq<char>)
    ensures
        joined(text_lines(s)) == s,
    decreases s.len(),
{
    if s.len() == 0 {
        assert(joined(seq![Seq::<char>::empty()]) == Seq::<char>::empty());
        assert(s =~= Seq::<char>::empty());
    } else {
        let init = split_on(s.drop_last(), '\n');
        lemma_lines_rejoin(s.drop_last());
        crate::text::lemma_split_on_nonempty(s.drop_last(), '\n');
        if s.last() == '\n' {
            let ls = init.push(Seq::<char>::empty());
            assert(ls.drop_last() =~= init);
            assert(joined(ls) =~= s);
        } else {
            lemma_joined_extend_last(init, s.last());
            assert(s.drop_last().push(s.last()) =~= s);
        }
    }
}

/// Prefixed lines are the lines, each with the prefix put before it, joined again.
proof fn lemma_prefixed_unlines(prefix: Seq<char>, lines: Seq<Seq<char>>)
    ensures
        prefixed(prefix, lines) == unlines(lines.map_values(|l: Seq<char>| prefix + l)),
    decreases lines.len(),
{
    if lines.len() > 0 {
        lemma_prefixed_unlines(prefix, lines.drop_last());
        assert(lines.map_values(|l: Seq<char>| prefix + l).drop_last() =~= lines.drop_last().map_values(
            |l: Seq<char>| prefix + l,
        ));
        assert(prefixed(prefix, lines) =~= unlines(lines.map_values(|l: Seq<char>| prefix + l)));
    }
}

/// A text written in the line style of comment character `c`: its lines, each
/// behind `c` and a space, and then the trailing blank lines. Taking that prefix
/// off the lines and joining them with line breaks gives back the text exactly.
pub proof fn lemma_line_comment_round_trip(c: String, n: usize, body: Seq<char>)
    ensures
        formatted(Commenter::Line { comment_char: c, trailing_lines: n }, body) == unlines(
            text_lines(body).map_values(|l: Seq<char>| line_prefix(c@) + l),
        ) + blank_lines(n as nat),
        joined(text_lines(body)) == body,
{
    lemma_prefixed_unlines(line_prefix(c@), text_lines(body));
    lemma_lines_rejoin(body);
}

/// A block comment starts with its start delimiter on a line of its own and ends,
/// before the trailing blank lines, with its end delimiter on a line of its own,
/// whatever the text, an empty one included.
pub proof fn lemma_block_comment_delimited(c: Commenter, body: Seq<char>)
    requires
        c is Block,
    ensures
        ({
            let out = formatted(c, body);
            let start = c->Block_start_block_char@;
            let end = c->Block_end_block_char@;
            let n = c->Block_trailing_lines as int;
            &&& out.len() >= start.len() + end.len() + 2 + n
            &&& out.take(start.len() + 1 as int) == start.push('\n')
            &&& out.subrange(out.len() - n - end.len() - 1, out.len() - n) == end.push('\n')
            &&& out.skip(out.len() - n) == blank_lines(n as nat)
        }),
{
    let out = formatted(c, body);
    let start = c->Block_start_block_char@;
    let end = c->Block_end_block_char@;
    let n = c->Block_trailing_lines as int;
    let per_line = match c->Block_per_line_char {
        Some(p) => p@,
        None => Seq::empty(),
    };
    let mid = prefixed(per_line, text_lines(body));
    assert(out == start.push('\n') + mid + end.push('\n') + blank_lines(n as nat));
    assert(out.take(start.len() + 1 as int) =~= start.push('\n'));
    assert(out.subrange(out.len() - n - end.len() - 1, out.len() - n) =~= end.push('\n'));
    assert(out.skip(out.len() - n) =~= blank_lines(n as nat));
}

/// A rule that gives the comment style for the files it governs.
pub struct Config {
    /// The extensions governed.
    pub extension: FileType,
    /// When present, only the paths that this pattern matches are governed.
    pub files: Option<FileMatcher>,
    /// The width to which comment text is wrapped, if any.
    pub columns: Option<usize>,
    pub commenter: Commenter,
}

/// Whether a rule governs a file, given the extension check and, for a rule with a
/// file pattern, whether the pattern matched the file's path (`path_hit`).
pub open spec fn rule_applies(c: &Config, ext: Seq<char>, path_hit: bool) -> bool {
    ext_matches(c.extension, ext) && (c.files is None || path_hit)
}

/// The text that goes into a comment: re-flowed to the width where one is set and
/// wrapping is asked for, else as it is.
pub open spec fn comment_body(text: Seq<char>, wrap: bool, columns: Option<usize>) -> Seq<char> {
    match columns {
        Some(w) => if wrap {
            wrapped(text, w as nat)
        } else {
            text
        },
        None => text,
    }
}

/// Whether a rule's file pattern, if it has one, matches path `path`; true for a rule
/// without a pattern.
pub open spec fn path_hit(c: &Config, path: Seq<char>) -> bool {
    match c.files {
        None => true,
        Some(m) => matcher_hit(&m, path),
    }
}

/// For each rule, whether its file pattern matches path `path`.
pub open spec fn path_hits(rules: Seq<Config>, path: Seq<char>) -> Seq<bool> {
    Seq::new(rules.len(), |i: int| path_hit(&rules[i], path))
}

/// The index of the first `true` in `hits`, if there is one.
pub open spec fn first_true(hits: Seq<bool>) -> Option<int>
    decreases hits.len(),
{
    if hits.len() == 0 {
        None
    } else {
        match first_true(hits.drop_last()) {
            Some(i) => Some(i),
            None => if hits.last() {
                Some(hits.len() - 1)
            } else {
                None
            },
        }
    }
}

/// The first `true` of a sequence is `true` and comes after only `false`s; where there
/// is none, every element is `false`.
pub proof fn lemma_first_true(hits: Seq<bool>)
    ensures
        match first_true(hits) {
            Some(i) => 0 <= i < hits.len() && hits[i] && forall|j: int| 0 <= j < i ==> !hits[j],
            None => forall|j: int| 0 <= j < hits.len() ==> !hits[j],
        },
    decreases hits.len(),
{
    if hits.len() > 0 {
        let init = hits.drop_last();
        lemma_first_true(init);
        assert(forall|j: int| 0 <= j < init.len() ==> init[j] == hits[j]);
    }
}

/// The position of the first rule that governs the file, given for each rule whether
/// it governs it.
pub fn first_match(hits: &Vec<bool>) -> (r: Option<usize>)
    ensures
        r matches Some(i) ==> first_true(hits@) == Some(i as int),
        r is None ==> first_true(hits@) is None,
{
    let mut i: usize = 0;
    while i < hits.len()
        invariant
            i <= hits@.len(),
            first_true(hits@.take(i as int)) is None,
        decreases hits@.len() - i,
    {
        assert(hits@.take(i + 1).drop_last() =~= hits@.take(i as int));
        if hits[i] {
            proof {
                lemma_first_true_extend(hits@, i as int);
            }
            return Some(i);
        }
        i = i + 1;
    }
    assert(hits@.take(hits@.len() as int) =~= hits@);
    None
}

/// The first `true` of a prefix is the first `true` of the whole.
proof fn lemma_first_true_extend(hits: Seq<bool>, i: int)
    requires
        0 <= i < hits.len(),
        first_true(hits.take(i)) is None,
        hits[i],
    ensures
        first_true(hits) == Some(i),
    decreases hits.len(),
{
    if i < hits.len() - 1 {
        assert(hits.drop_last().take(i) =~= hits.take(i));
        lemma_first_true_extend(hits.drop_last(), i);
    } else {
        assert(hits.drop_last() =~= hits.take(i));
    }
}

/// Under the rules `rules`, a file is governed by the first rule in list order that
/// applies to it, and by none when no rule applies.
pub proof fn lemma_first_rule_wins(rules: Seq<Config>, ext: Seq<char>, path_hits: Seq<bool>)
    requires
        path_hits.len() == rules.len(),
    ensures
        match first_true(applying(rules, ext, path_hits)) {
            Some(i) => 0 <= i < rules.len() && rule_applies(&rules[i], ext, path_hits[i])
                && forall|j: int| 0 <= j < i ==> !rule_applies(&rules[j], ext, path_hits[j]),
            None => forall|j: int| 0 <= j < rules.len() ==> !rule_applies(&rules[j], ext, path_hits[j]),
        },
{
    let hits = applying(rules, ext, path_hits);
    lemma_first_true(hits);
    match first_true(hits) {
        Some(i) => {
            assert forall|j: int| 0 <= j < i implies !rule_applies(&rules[j], ext, path_hits[j]) by {
                assert(!hits[j]);
            }
        },
        None => {
            assert forall|j: int| 0 <= j < rules.len() implies !rule_applies(
                &rules[j],
                ext,
                path_hits[j],
            ) by {
                assert(!hits[j]);
            }
        },
    }
}

/// Appends `x` to `v`.
fn push_bool(v: &mut Vec<bool>, x: bool)
    ensures
        final(v)@ == old(v)@.push(x),
{
    v.push(x);
}

impl Config {
    /// The rule that governs every file and comments with "#".
    pub fn default() -> (r: Config)
        ensures
            r.extension matches FileType::Single(e) && e@ == any_word(),
            r.files is None,
            r.columns is None,
            r.commenter matches Commenter::Line { comment_char, trailing_lines } && comment_char@
                == seq!['#'] && trailing_lines == 0,
    {
        let hash = vec!['#'];
        Config {
            extension: FileType::Single(string_of(&any_chars())),
            files: None,
            columns: None,
            commenter: Commenter::Line { comment_char: string_of(&hash), trailing_lines: 0 },
        }
    }

    /// Whether this rule governs a file of type `file_type` at path `filename`: the
    /// extension must match, and then the file pattern, where there is one, decides.
    pub fn matches(&self, file_type: &str, filename: &str) -> (r: bool)
        ensures
            r == rule_applies(self, file_type@, path_hit(self, filename@)),
    {
        if self.extension.matches(file_type) {
            match &self.files {
                Some(files) => files.is_match(filename),
                None => true,
            }
        } else {
            false
        }
    }

    /// Whether this rule governs a file of type `file_type`, given whether its file
    /// pattern matched the file's path.
    pub fn matches_given(&self, file_type: &str, path_hit: bool) -> (r: bool)
        ensures
            r == rule_applies(self, file_type@, path_hit),
    {
        self.extension.matches(file_type) && (self.files.is_none() || path_hit)
    }

    /// The comment style of this rule.
    pub fn commenter(&self) -> (r: Commenter)
        ensures
            r == self.commenter,
    {
        self.commenter.copy()
    }

    /// `text` as a comment of this rule. Where `wrap` asks for it and the rule has a
    /// width, the text is first re-flowed to that width.
    pub fn comment(&self, text: &str, wrap: bool) -> (r: String)
        ensures
            r@ == formatted(self.commenter, comment_body(text@, wrap, self.columns)),
    {
        match self.columns {
            Some(w) => {
                if wrap {
                    let t = wrap_text(text, w);
                    return self.commenter.comment(t.as_str());
                }
            },
            None => {},
        }
        self.commenter.comment(text)
    }

    /// The header for `template`: its rendered text as a comment of this rule,
    /// re-flowed where the template's context asks for it.
    pub fn header(&self, template: &Template) -> (r: String)
        ensures
            r@ == formatted(
                self.commenter,
                comment_body(
                    rendered(template.content@, template.context),
                    template.context.unwrap_text,
                    self.columns,
                ),
            ),
    {
        let text = template.render();
        self.comment(text.as_str(), template.context.unwrap_text)
    }

    /// The width to which comment text is wrapped, if any.
    pub fn get_columns(&self) -> (r: Option<usize>)
        ensures
            r == self.columns,
    {
        self.columns
    }
}

/// Whether each rule governs a file of type `ext`, given whether each rule's file
/// pattern matched the file's path.
pub open spec fn applying(rules: Seq<Config>, ext: Seq<char>, path_hits: Seq<bool>) -> Seq<bool> {
    Seq::new(rules.len(), |i: int| rule_applies(&rules[i], ext, path_hits[i]))
}

/// The position of the first rule of `rules` that governs a file of type
/// `file_type`, given for each rule whether its file pattern matched the file's path.
pub fn find_rule_given(rules: &Vec<Config>, file_type: &str, path_hits: &Vec<bool>) -> (r: Option<usize>)
    requires
        path_hits@.len() == rules@.len(),
    ensures
        r matches Some(i) ==> first_true(applying(rules@, file_type@, path_hits@)) == Some(i as int),
        r is None ==> first_true(applying(rules@, file_type@, path_hits@)) is None,
{
    let mut hits: Vec<bool> = Vec::new();
    let mut i: usize = 0;
    while i < rules.len()
        invariant
            i <= rules@.len(),
            path_hits@.len() == rules@.len(),
            hits@ == applying(rules@, file_type@, path_hits@).take(i as int),
        decreases rules@.len() - i,
    {
        let h = rules[i].matches_given(file_type, path_hits[i]);
        push_bool(&mut hits, h);
        i = i + 1;
        assert(hits@ =~= applying(rules@, file_type@, path_hits@).take(i as int));
    }
    assert(hits@ =~= applying(rules@, file_type@, path_hits@));
    first_match(&hits)
}

/// The position of the first rule of `rules` that governs the file at `filename`
/// with extension `file_type`.
pub fn find_rule(rules: &Vec<Config>, file_type: &str, filename: &str) -> (r: Option<usize>)
    ensures
        r matches Some(i) ==> first_true(applying(rules@, file_type@, path_hits(rules@, filename@)))
            == Some(i as int),
        r is None ==> first_true(applying(rules@, file_type@, path_hits(rules@, filename@))) is None,
{
    let ghost want = applying(rules@, file_type@, path_hits(rules@, filename@));
    let mut hits: Vec<bool> = Vec::new();
    let mut i: usize = 0;
    while i < rules.len()
        invariant
            i <= rules@.len(),
            want == applying(rules@, file_type@, path_hits(rules@, filename@)),
            hits@ == want.take(i as int),
        decreases rules@.len() - i,
    {
        let h = rules[i].matches(file_type, filename);
        push_bool(&mut hits, h);
        i = i + 1;
        assert(hits@ =~= want.take(i as int));
    }
    assert(hits@ =~= want);
    first_match(&hits)
}

/// Two rules with the same extensions and file patterns built from the same pattern
/// govern the same files, whatever their comment styles and widths.
pub proof fn lemma_same_selector_same_answer(a: &Config, b: &Config, ext: Seq<char>, path: Seq<char>)
    requires
        a.extension == b.extension,
        a.files is None <==> b.files is None,
        a.files matches Some(m) ==> b.files matches Some(n) && m.any == n.any && m.pattern@ == n.pattern@,
    ensures
        rule_applies(a, ext, path_hit(a, path)) == rule_applies(b, ext, path_hit(b, path)),
{
}

/// Under the rules `rules`, the file at path `path` with extension `ext` is governed
/// by the first rule in list order that applies to it, and by none when no rule applies.
pub proof fn lemma_first_rule_wins_on_path(rules: Seq<Config>, ext: Seq<char>, path: Seq<char>)
    ensures
        match first_true(applying(rules, ext, path_hits(rules, path))) {
            Some(i) => 0 <= i < rules.len() && rule_applies(&rules[i], ext, path_hit(&rules[i], path))
                && forall|j: int|
                0 <= j < i ==> !rule_applies(&rules[j], ext, path_hit(&rules[j], path)),
            None => forall|j: int|
                0 <= j < rules.len() ==> !rule_applies(&rules[j], ext, path_hit(&rules[j], path)),
        },
{
    lemma_first_rule_wins(rules, ext, path_hits(rules, path));
}

} // verus!
