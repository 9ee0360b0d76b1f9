use licensure::config::license::{
    check_fetch_status, dates_from_log, default_dynamic_year_ranges, default_unwrap_text, dynamic_years,
    resolve_years, spdx_url, year_field, Config, LicenseError, SPDXLicenseInfo,
};
use licensure::config::matcher::FileMatcher;
use licensure::template::{Author, Authors, Context, Template};

fn authors() -> Authors {
    Authors {
        authors: vec![
            Author { name: "Jane Doe".to_string(), email: Some("jane@example.com".to_string()) },
            Author { name: "John Roe".to_string(), email: None },
        ],
    }
}

fn license(template: Option<&str>, auto: Option<bool>, dynamic: bool) -> Config {
    Config {
        files: FileMatcher::from("any".to_string()).ok().unwrap(),
        ident: "MIT".to_string(),
        authors: authors(),
        end_year: Some("2024".to_string()),
        start_year: Some("2020".to_string()),
        use_dynamic_year_ranges: dynamic,
        template: template.map(|t| t.to_string()),
        auto_template: auto,
        replaces: None,
        unwrap_text: default_unwrap_text(),
    }
}

fn render(template: &str, start: Option<&str>, end: Option<&str>) -> String {
    Template {
        content: template.to_string(),
        context: Context {
            end_year: end.map(|s| s.to_string()),
            start_year: start.map(|s| s.to_string()),
            ident: "MIT".to_string(),
            authors: authors(),
            unwrap_text: true,
        },
        spdx_template: false,
    }
    .render()
}

#[test]
fn defaults() {
    assert!(default_unwrap_text());
    assert!(!default_dynamic_year_ranges());
}

#[test]
fn year_is_fifth_field() {
    assert_eq!(Some("2024".to_string()), year_field("Wed May 29 04:54:58 2024 +0100"));
    assert_eq!(None, year_field("Wed May 29"));
    assert_eq!(None, year_field(""));
}

#[test]
fn resolves_created_and_updated_years() {
    let dates = vec![
        "Wed May 29 04:54:58 2024 +0100".to_string(),
        "Mon Jan 02 00:00:00 2020 +0000".to_string(),
    ];
    let now = "Sun Oct 18 10:00:00 2026 +0000".to_string();
    match resolve_years(&dates, &now) {
        Ok((created, updated)) => {
            assert_eq!("2020", created);
            assert_eq!("2024", updated);
        }
        Err(_) => panic!("dates are well formed"),
    }
    match dynamic_years(&dates) {
        Ok((created, updated)) => {
            assert_eq!("2020", created);
            assert_eq!("2024", updated);
        }
        Err(_) => panic!("dates are well formed"),
    }
}

#[test]
fn single_date_gives_both_years() {
    let dates = vec!["Tue Mar 05 12:00:00 2019 +0000".to_string()];
    let now = "Sun Oct 18 10:00:00 2026 +0000".to_string();
    match resolve_years(&dates, &now) {
        Ok((created, updated)) => {
            assert_eq!("2019", created);
            assert_eq!("2019", updated);
        }
        Err(_) => panic!("date is well formed"),
    }
}

#[test]
fn no_dates_gives_current_year() {
    let now = "Sun Oct 18 10:00:00 2026 +0000".to_string();
    match resolve_years(&Vec::new(), &now) {
        Ok((created, updated)) => {
            assert_eq!("2026", created);
            assert_eq!("2026", updated);
        }
        Err(_) => panic!("date is well formed"),
    }
    match dynamic_years(&Vec::new()) {
        Ok((created, updated)) => {
            assert_eq!(created, updated);
            assert_eq!(4, created.len());
        }
        Err(_) => panic!("the clock's date is well formed"),
    }
}

#[test]
fn malformed_date_is_an_error() {
    let dates = vec!["yesterday".to_string()];
    match resolve_years(&dates, &"x".to_string()) {
        Err(LicenseError::MalformedDate(d)) => assert_eq!("yesterday", d),
        _ => panic!("malformed date"),
    }
}

#[test]
fn renders_year_range() {
    assert_eq!("2020-2024", render("{start_year}-{end_year}", Some("2020"), Some("2024")));
    assert_eq!("2020-", render("{start_year}-{end_year}", Some("2020"), None));
}

#[test]
fn renders_authors_ident_and_keeps_unknown_placeholders() {
    assert_eq!(
        "Copyright 2020 Jane Doe <jane@example.com>, John Roe (MIT) {unknown}",
        render("Copyright {start_year} {authors} ({ident}) {unknown}", Some("2020"), None)
    );
    assert_eq!("{start_year", render("{start_year", Some("2020"), None));
}

#[test]
fn static_template_is_used() {
    let c = license(Some("Copyright {start_year}-{end_year} {authors}"), None, false);
    assert!(!c.needs_fetch());
    assert!(c.file_is_match("src/main.rs"));
    let t = c.get_template(None, &Vec::new()).ok().unwrap();
    assert!(!t.spdx_template);
    assert_eq!("Copyright 2020-2024 Jane Doe <jane@example.com>, John Roe", t.render());
}

#[test]
fn dynamic_years_override_static_ones() {
    let c = license(Some("{start_year}-{end_year}"), None, true);
    let dates = vec![
        "Wed May 29 04:54:58 2024 +0100".to_string(),
        "Thu Feb 01 00:00:00 2018 +0000".to_string(),
    ];
    let t = c.get_template(None, &dates).ok().unwrap();
    assert_eq!("2018-2024", t.render());
}

#[test]
fn fetched_template_is_used_when_none_is_configured() {
    let c = license(None, Some(true), false);
    assert!(c.needs_fetch());
    let t = c.get_template(Some("Header {ident}".to_string()), &Vec::new()).ok().unwrap();
    assert!(t.spdx_template);
    assert_eq!("Header MIT", t.render());
    match c.get_template(None, &Vec::new()) {
        Err(LicenseError::NotFetched(i)) => assert_eq!("MIT", i),
        _ => panic!("nothing was fetched"),
    }
}

#[test]
fn missing_template_without_fetch_is_an_error() {
    let c = license(None, Some(false), false);
    assert!(!c.needs_fetch());
    match c.get_template(Some("ignored".to_string()), &Vec::new()) {
        Err(LicenseError::MissingTemplate(i)) => assert_eq!("MIT", i),
        _ => panic!("no template"),
    }
    assert!(c.get_replaces().is_none());
}

#[test]
fn registry_address_and_status() {
    assert_eq!("https://spdx.org/licenses/MIT.json", spdx_url("MIT"));
    let id = "MIT".to_string();
    assert!(check_fetch_status(&id, 200).is_ok());
    match check_fetch_status(&id, 404) {
        Err(LicenseError::InvalidIdentifier(i)) => assert_eq!("MIT", i),
        _ => panic!("404"),
    }
    match check_fetch_status(&id, 500) {
        Err(LicenseError::FetchStatus(i, s)) => {
            assert_eq!("MIT", i);
            assert_eq!(500, s);
        }
        _ => panic!("500"),
    }
}

#[test]
fn registry_header_is_preferred() {
    let with = SPDXLicenseInfo {
        license_text: "full".to_string(),
        license_header: Some("header".to_string()),
    };
    assert_eq!("header", with.template());
    let without = SPDXLicenseInfo { license_text: "full".to_string(), license_header: None };
    assert_eq!("full", without.template());
}

#[test]
fn log_output_lines_without_blanks() {
    let out = "Wed May 29 04:54:58 2024 +0100\n\nMon Jan 02 00:00:00 2020 +0000\n";
    assert_eq!(
        vec!["Wed May 29 04:54:58 2024 +0100".to_string(), "Mon Jan 02 00:00:00 2020 +0000".to_string()],
        dates_from_log(out)
    );
    assert!(dates_from_log("").is_empty());
}

#[test]
fn dynamic_years_without_history_use_the_present() {
    let c = license(Some("{start_year}-{end_year}"), None, true);
    let t = c.get_template(None, &Vec::new()).ok().unwrap();
    let rendered = t.render();
    assert_eq!(9, rendered.len());
    assert_eq!(rendered[..4], rendered[5..]);
}

#[test]
fn fetched_template_with_dynamic_years() {
    let c = license(None, Some(true), true);
    let good = vec!["Wed May 29 04:54:58 2024 +0100".to_string()];
    let t = c.get_template(Some("{start_year}-{end_year}".to_string()), &good).ok().unwrap();
    assert_eq!("2024-2024", t.render());
    let bad = vec!["not a date".to_string()];
    match c.get_template(Some("x".to_string()), &bad) {
        Err(LicenseError::MalformedDate(d)) => assert_eq!("not a date", d),
        _ => panic!("malformed date"),
    }
}
