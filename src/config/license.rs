//! License rules: which template a file gets, and with which years.
use vstd::prelude::*;

use regex::Regex;

use crate::config::matcher::{matcher_hit, FileMatcher};
use crate::template::{Author, Authors, Context, Template};
use crate::wrap::{non_empty, non_empty_pieces};
use crate::text::{append_chars, chars_of, split_chars, split_on, string_of, views};

verus! {

/// Whether the rendered text is re-flowed when a rule does not say.
pub fn default_unwrap_text() -> (r: bool)
    ensures
        r,
{
    true
}

/// Whether years come from version-control history when a rule does not say.
pub fn default_dynamic_year_ranges() -> (r: bool)
    ensures
        !r,
{
    false
}

/// Why no template could be produced for a rule.
pub enum LicenseError {
    /// No template is configured and fetching is not enabled, for this identifier.
    MissingTemplate(String),
    /// Fetching is enabled but no fetched text was supplied, for this identifier.
    NotFetched(String),
    /// The registry does not know this identifier.
    InvalidIdentifier(String),
    /// The registry answered with this unexpected status for this identifier.
    FetchStatus(String, u16),
    /// A date does not have a year in its fifth field.
    MalformedDate(String),
}

/// What the license registry holds for an identifier.
pub struct SPDXLicenseInfo {
    pub license_text: String,
    pub license_header: Option<String>,
}

impl SPDXLicenseInfo {
    /// The template to use: the standard header where there is one, else the full text.
    pub fn template(&self) -> (r: String)
        ensures
            r@ == match self.license_header {
                Some(h) => h@,
                None => self.license_text@,
            },
    {
        match &self.license_header {
            Some(h) => h.clone(),
            None => self.license_text.clone(),
        }
    }
}

/// The address of the registry entry for `ident`.
pub open spec fn spdx_url_text(ident: Seq<char>) -> Seq<char> {
    seq![
        'h', 't', 't', 'p', 's', ':', '/', '/', 's', 'p', 'd', 'x', '.', 'o', 'r', 'g', '/',
        'l', 'i', 'c', 'e', 'n', 's', 'e', 's', '/',
    ] + ident + seq!['.', 'j', 's', 'o', 'n']
}

/// The address of the registry entry for `ident`.
pub fn spdx_url(ident: &str) -> (r: String)
    ensures
        r@ == spdx_url_text(ident@),
{
    let mut out = vec![
        'h', 't', 't', 'p', 's', ':', '/', '/', 's', 'p', 'd', 'x', '.', 'o', 'r', 'g', '/',
        'l', 'i', 'c', 'e', 'n', 's', 'e', 's', '/',
    ];
    append_chars(&mut out, &chars_of(ident));
    let tail = vec!['.', 'j', 's', 'o', 'n'];
    append_chars(&mut out, &tail);
    assert(out@ =~= spdx_url_text(ident@));
    string_of(&out)
}

/// What a registry status means for a fetch of `ident`: 200 is success, 404 an
/// unknown identifier, anything else a failure.
pub fn check_fetch_status(ident: &String, status: u16) -> (r: Result<(), LicenseError>)
    ensures
        status == 200 <==> r is Ok,
        status == 404 ==> (r matches Err(LicenseError::InvalidIdentifier(i)) && i@ == ident@),
        status != 200 && status != 404 ==> (r matches Err(LicenseError::FetchStatus(i, s)) && i@
            == ident@ && s == status),
{
    if status == 200 {
        Ok(())
    } else if status == 404 {
        Err(LicenseError::InvalidIdentifier(ident.clone()))
    } else {
        Err(LicenseError::FetchStatus(ident.clone(), status))
    }
}

/// The year of a date as version control prints it ("Wed May 29 04:54:58 2024 +0100"):
/// its fifth space-separated field, if it has one.
pub open spec fn year_of(date: Seq<char>) -> Option<Seq<char>> {
    if split_on(date, ' ').len() > 4 {
        Some(split_on(date, ' ')[4])
    } else {
        None
    }
}

/// The year of `date`: its fifth space-separated field.
pub fn year_field(date: &str) -> (r: Option<String>)
    ensures
        r matches Some(y) ==> year_of(date@) == Some(y@),
        r is None ==> year_of(date@) is None,
{
    let pieces = split_chars(&chars_of(date), ' ');
    if pieces.len() > 4 {
        assert(views(pieces@)[4] == pieces@[4]@);
        Some(string_of(&pieces[4]))
    } else {
        None
    }
}

/// The first and the last years of a file from its dates, newest first: the last
/// date gives the year it was created and the first the year it was last changed.
/// With no dates, `now` gives both. `None` where a date lacks a year.
pub open spec fn years_of(dates: Seq<Seq<char>>, now: Seq<char>) -> Option<(Seq<char>, Seq<char>)> {
    let created = if dates.len() == 0 {
        now
    } else {
        dates.last()
    };
    let updated = if dates.len() == 0 {
        now
    } else {
        dates[0]
    };
    match (year_of(created), year_of(updated)) {
        (Some(c), Some(u)) => Some((c, u)),
        _ => None,
    }
}

/// Of the dates of a file, newest first, the first gives the year of the last
/// change and the last the year of creation; a single date gives both; with no
/// dates, the present date gives both.
pub proof fn lemma_year_resolution(dates: Seq<Seq<char>>, now: Seq<char>)
    ensures
        dates.len() > 0 && year_of(dates.last()) is Some && year_of(dates[0]) is Some ==> years_of(
            dates,
            now,
        ) == Some((year_of(dates.last())->Some_0, year_of(dates[0])->Some_0)),
        dates.len() == 1 ==> match years_of(dates, now) {
            Some(p) => p.0 == p.1 && year_of(dates[0]) == Some(p.0),
            None => year_of(dates[0]) is None,
        },
        dates.len() == 0 ==> match years_of(dates, now) {
            Some(p) => p.0 == p.1 && year_of(now) == Some(p.0),
            None => year_of(now) is None,
        },
{
}

/// The contents of a vector of strings.
pub open spec fn string_views(v: Seq<String>) -> Seq<Seq<char>> {
    v.map_values(|s: String| s@)
}

/// The created and last-updated years of a file whose dates, newest first, are
/// `dates`, with `now` standing in when there are none.
pub fn resolve_years(dates: &Vec<String>, now: &String) -> (r: Result<(String, String), LicenseError>)
    ensures
        r matches Ok((c, u)) ==> years_of(string_views(dates@), now@) == Some((c@, u@)),
        r is Err ==> years_of(string_views(dates@), now@) is None,
        r matches Err(e) ==> e is MalformedDate,
{
    let ghost ds = string_views(dates@);
    let created_date: &String = if dates.len() == 0 {
        now
    } else {
        &dates[dates.len() - 1]
    };
    let updated_date: &String = if dates.len() == 0 {
        now
    } else {
        &dates[0]
    };
    assert(dates@.len() > 0 ==> ds.last() == created_date@ && ds[0] == updated_date@);
    let created = match year_field(created_date.as_str()) {
        Some(y) => y,
        None => {
            return Err(LicenseError::MalformedDate(created_date.clone()));
        },
    };
    let updated = match year_field(updated_date.as_str()) {
        Some(y) => y,
        None => {
            return Err(LicenseError::MalformedDate(updated_date.clone()));
        },
    };
    Ok((created, updated))
}

/// Relies on `chrono::Local::now`, printed as version control prints dates
/// ("%a %b %d %T %Y %z"): the time now. Of it only the layout is promised: six
/// fields, none holding a space, so that the fifth, the year, is there.
#[verifier::external_body]
fn current_date() -> (r: String)
    ensures
        year_of(r@) is Some,
{
    chrono::Local::now().format("%a %b %d %T %Y %z").to_string()
}

/// The years that a resolution gave, as text.
pub open spec fn years_result(r: &Result<(String, String), LicenseError>) -> Option<(Seq<char>, Seq<char>)> {
    match r {
        Ok((c, u)) => Some((c@, u@)),
        Err(_) => None,
    }
}

/// Both years, where both are present.
pub open spec fn years_pair(start: Option<String>, end: Option<String>) -> Option<(Seq<char>, Seq<char>)> {
    match (start, end) {
        (Some(s), Some(e)) => Some((s@, e@)),
        _ => None,
    }
}

/// The created and last-updated years of a file whose dates, newest first, are
/// `dates`; the present year stands in for both when there are none.
pub fn dynamic_years(dates: &Vec<String>) -> (r: Result<(String, String), LicenseError>)
    ensures
        dates@.len() > 0 ==> years_result(&r) == years_of(string_views(dates@), Seq::empty()),
        dates@.len() == 0 ==> match years_result(&r) {
            Some(p) => p.0 == p.1,
            None => false,
        },
        r matches Err(e) ==> e is MalformedDate,
{
    let now = current_date();
    let r = resolve_years(dates, &now);
    proof {
        if dates@.len() > 0 {
            assert(years_of(string_views(dates@), now@) == years_of(string_views(dates@), Seq::empty()));
        }
    }
    r
}

/// The dates in version control's log output `out`: its lines, blank ones left out,
/// in the order given.
pub fn dates_from_log(out: &str) -> (r: Vec<String>)
    ensures
        string_views(r@) == non_empty(split_on(out@, '\n')),
{
    let lines = non_empty_pieces(&split_chars(&chars_of(out), '\n'));
    let mut r: Vec<String> = Vec::new();
    let mut i: usize = 0;
    while i < lines.len()
        invariant
            i <= lines@.len(),
            string_views(r@) == views(lines@).take(i as int),
        decreases lines@.len() - i,
    {
        let ghost before = string_views(r@);
        let x = string_of(&lines[i]);
        r.push(x);
        assert(string_views(r@) =~= before.push(x@));
        assert(views(lines@).take(i + 1) =~= views(lines@).take(i as int).push(lines@[i as int]@));
        assert(string_views(r@) =~= views(lines@).take(i + 1));
        i = i + 1;
    }
    assert(views(lines@).take(lines@.len() as int) =~= views(lines@));
    r
}

/// A copy of an optional string.
fn copy_opt(o: &Option<String>) -> (r: Option<String>)
    ensures
        r == *o,
{
    match o {
        Some(s) => Some(s.clone()),
        None => None,
    }
}

impl Author {
    /// The same author, field by field.
    pub fn copy(&self) -> (r: Author)
        ensures
            r == *self,
    {
        Author { name: self.name.clone(), email: copy_opt(&self.email) }
    }
}

impl Authors {
    /// The same authors, in the same order.
    pub fn copy(&self) -> (r: Authors)
        ensures
            r.authors@ == self.authors@,
    {
        let mut v: Vec<Author> = Vec::new();
        let mut i: usize = 0;
        while i < self.authors.len()
            invariant
                i <= self.authors@.len(),
                v@ == self.authors@.take(i as int),
            decreases self.authors@.len() - i,
        {
            v.push(self.authors[i].copy());
            assert(v@ =~= self.authors@.take(i + 1));
            i = i + 1;
        }
        assert(v@ =~= self.authors@);
        Authors { authors: v }
    }
}

/// A rule that gives the license template for the files it governs.
pub struct Config {
    pub files: FileMatcher,
    pub ident: String,
    pub authors: Authors,
    pub end_year: Option<String>,
    pub start_year: Option<String>,
    pub use_dynamic_year_ranges: bool,
    pub template: Option<String>,
    pub auto_template: Option<bool>,
    pub replaces: Option<Vec<Regex>>,
    pub unwrap_text: bool,
}

/// Whether a rule fetches its template from the registry.
pub open spec fn fetches(c: &Config) -> bool {
    c.auto_template == Some(true)
}

impl Config {
    /// Whether this rule governs the file at `s`.
    pub fn file_is_match(&self, s: &str) -> (r: bool)
        ensures
            r == matcher_hit(&self.files, s@),
    {
        self.files.is_match(s)
    }

    /// Whether the template must be fetched from the registry: none is configured
    /// and fetching is enabled.
    pub fn needs_fetch(&self) -> (r: bool)
        ensures
            r == (self.template is None && fetches(self)),
    {
        self.template.is_none() && self.auto_template.unwrap_or(false)
    }

    /// The template text: the configured one; else, where fetching is enabled, the
    /// `fetched` one; else an error naming the identifier.
    pub fn template_text(&self, fetched: Option<String>) -> (r: Result<String, LicenseError>)
        ensures
            self.template matches Some(t) ==> (r matches Ok(x) && x == t),
            self.template is None && fetches(self) && fetched is Some ==> r == Ok::<
                String,
                LicenseError,
            >(fetched->Some_0),
            self.template is None && fetches(self) && fetched is None ==> (r matches Err(
                LicenseError::NotFetched(i),
            ) && i@ == self.ident@),
            self.template is None && !fetches(self) ==> (r matches Err(
                LicenseError::MissingTemplate(i),
            ) && i@ == self.ident@),
    {
        match &self.template {
            Some(t) => Ok(t.clone()),
            None => {
                if self.auto_template.unwrap_or(false) {
                    match fetched {
                        Some(f) => Ok(f),
                        None => Err(LicenseError::NotFetched(self.ident.clone())),
                    }
                } else {
                    Err(LicenseError::MissingTemplate(self.ident.clone()))
                }
            },
        }
    }

    /// The template for a file: its text from `template_text`, and its years from
    /// the file's dates `dates` (newest first) where this rule asks for dynamic years,
    /// else from the rule.
    pub fn get_template(&self, fetched: Option<String>, dates: &Vec<String>) -> (r: Result<
        Template,
        LicenseError,
    >)
        ensures
            r is Ok <==> ((self.template is Some || fetches(self) && fetched is Some) && (
            !self.use_dynamic_year_ranges || dates@.len() == 0 || years_of(
                string_views(dates@),
                Seq::empty(),
            ) is Some)),
            self.template is None && !fetches(self) ==> (r matches Err(
                LicenseError::MissingTemplate(i),
            ) && i@ == self.ident@),
            self.template is None && fetches(self) && fetched is None ==> (r matches Err(
                LicenseError::NotFetched(i),
            ) && i@ == self.ident@),
            r matches Err(LicenseError::MalformedDate(_)) ==> self.use_dynamic_year_ranges,
            r matches Ok(t) ==> {
                &&& self.template matches Some(x) ==> t.content == x
                &&& self.template is None ==> fetches(self) && fetched == Some(t.content)
                &&& t.context.ident == self.ident
                &&& t.context.authors.authors@ == self.authors.authors@
                &&& t.context.unwrap_text == self.unwrap_text
                &&& t.spdx_template == fetches(self)
                &&& !self.use_dynamic_year_ranges ==> t.context.start_year == self.start_year
                    && t.context.end_year == self.end_year
                &&& self.use_dynamic_year_ranges && dates@.len() > 0 ==> years_pair(
                    t.context.start_year,
                    t.context.end_year,
                ) == years_of(string_views(dates@), Seq::empty())
                &&& self.use_dynamic_year_ranges && dates@.len() == 0 ==> match years_pair(
                    t.context.start_year,
                    t.context.end_year,
                ) {
                    Some(p) => p.0 == p.1,
                    None => false,
                }
            },
            r is Err ==> {
                ||| self.template is None
                ||| self.use_dynamic_year_ranges && dates@.len() > 0 && years_of(
                    string_views(dates@),
                    Seq::empty(),
                ) is None
            },
            self.use_dynamic_year_ranges && dates@.len() > 0 && self.template is Some ==> (r is Ok
                <==> years_of(string_views(dates@), Seq::empty()) is Some),
    {
        let content = match self.template_text(fetched) {
            Ok(t) => t,
            Err(e) => {
                return Err(e);
            },
        };
        let (start_year, end_year) = if self.use_dynamic_year_ranges {
            match dynamic_years(dates) {
                Ok((c, u)) => (Some(c), Some(u)),
                Err(e) => {
                    return Err(e);
                },
            }
        } else {
            (copy_opt(&self.start_year), copy_opt(&self.end_year))
        };
        let context = Context {
            end_year,
            start_year,
            ident: self.ident.clone(),
            authors: self.authors.copy(),
            unwrap_text: self.unwrap_text,
        };
        Ok(Template { content, context, spdx_template: self.auto_template.unwrap_or(false) })
    }

    /// The patterns whose matches in a file mark an old header to replace.
    pub fn get_replaces(&self) -> (r: &Option<Vec<Regex>>)
        ensures
            r == &self.replaces,
    {
        &self.replaces
    }
}

} // verus!
