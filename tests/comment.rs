use licensure::config::comment::{find_rule, find_rule_given, get_filetype, Commenter, Config, FileType};
use licensure::config::matcher::{FileMatcher, MatcherError};
use licensure::template::{Author, Authors, Context, Template};
use licensure::wrap::wrap_text;

fn line(c: &str, trailing: usize) -> Commenter {
    Commenter::Line { comment_char: c.to_string(), trailing_lines: trailing }
}

fn rule(ext: FileType, files: Option<FileMatcher>, commenter: Commenter) -> Config {
    Config { extension: ext, files, columns: None, commenter }
}

#[test]
fn test_get_filetype() {
    assert_eq!("py", get_filetype("test.py"))
}

#[test]
fn filetype_takes_text_after_last_dot() {
    assert_eq!("gz", get_filetype("archive.tar.gz"));
    assert_eq!("", get_filetype("Makefile"));
    assert_eq!("", get_filetype("trailing."));
    assert_eq!("bashrc", get_filetype(".bashrc"));
    assert_eq!("", get_filetype(""));
}

#[test]
fn extension_match_is_case_sensitive_and_exact() {
    let single = FileType::Single("py".to_string());
    assert!(single.matches("py"));
    assert!(!single.matches("PY"));
    assert!(!single.matches("pyc"));
    assert!(!single.matches(""));
    let list = FileType::List(vec!["c".to_string(), "h".to_string()]);
    assert!(list.matches("h"));
    assert!(!list.matches("H"));
    assert!(!list.matches("cpp"));
}

#[test]
fn any_matches_every_extension_including_empty() {
    let any = FileType::Single("any".to_string());
    assert!(any.matches("rs"));
    assert!(any.matches(""));
    let list = FileType::List(vec!["c".to_string(), "any".to_string()]);
    assert!(list.matches("zzz"));
    assert!(list.matches(""));
}

#[test]
fn first_matching_rule_wins() {
    let rules = vec![
        rule(FileType::Single("rs".to_string()), None, line("//", 0)),
        rule(FileType::List(vec!["py".to_string()]), None, line("#", 1)),
        rule(FileType::Single("any".to_string()), None, line(";", 0)),
    ];
    assert_eq!(Some(1), find_rule(&rules, "py", "main.py"));
    assert_eq!(Some(0), find_rule(&rules, "rs", "lib.rs"));
    assert_eq!(Some(2), find_rule(&rules, "txt", "notes.txt"));
    let narrow = vec![rule(FileType::Single("rs".to_string()), None, line("//", 0))];
    assert_eq!(None, find_rule(&narrow, "py", "main.py"));
    assert_eq!(None, find_rule(&Vec::new(), "py", "main.py"));
}

#[test]
fn file_pattern_narrows_a_rule() {
    let m = match FileMatcher::from("^src/.*\\.rs$".to_string()) {
        Ok(m) => m,
        Err(_) => panic!("pattern should compile"),
    };
    let rules = vec![
        rule(FileType::Single("rs".to_string()), Some(m), line("//", 0)),
        rule(FileType::Single("any".to_string()), None, line("#", 0)),
    ];
    assert!(rules[0].matches("rs", "src/lib.rs"));
    assert!(!rules[0].matches("rs", "tests/lib.rs"));
    assert!(!rules[0].matches("py", "src/lib.py"));
    assert_eq!(Some(0), find_rule(&rules, "rs", "src/lib.rs"));
    assert_eq!(Some(1), find_rule(&rules, "rs", "tests/lib.rs"));
    assert!(rules[0].matches_given("rs", true));
    assert!(!rules[0].matches_given("rs", false));
    assert!(rules[1].matches_given("rs", false));
}

#[test]
fn matcher_any_and_invalid_pattern() {
    let any = FileMatcher::from("any".to_string()).ok().unwrap();
    assert!(any.any);
    assert!(any.is_match("whatever/path"));
    match FileMatcher::from("(unclosed".to_string()) {
        Err(MatcherError::InvalidPattern(msg)) => assert!(!msg.is_empty()),
        Ok(_) => panic!("pattern should not compile"),
    }
}

#[test]
fn default_rule_comments_everything_with_hash() {
    let c = Config::default();
    assert!(c.matches("rs", "a.rs"));
    assert!(c.matches("", "Makefile"));
    assert_eq!(None, c.get_columns());
    assert_eq!("# hi\n", c.commenter().comment("hi"));
}

#[test]
fn line_comment_scenario() {
    let c = rule(FileType::List(vec!["py".to_string()]), None, line("#", 1));
    let ft = get_filetype("main.py");
    assert!(c.matches(&ft, "main.py"));
    assert_eq!("# Copyright 2020 Jane Doe\n\n", c.commenter().comment("Copyright 2020 Jane Doe"));
}

#[test]
fn block_comment_scenario() {
    let style = Commenter::Block {
        start_block_char: "/*".to_string(),
        end_block_char: "*/".to_string(),
        per_line_char: Some(" * ".to_string()),
        trailing_lines: 0,
    };
    let c = rule(FileType::Single("c".to_string()), None, style);
    assert!(c.matches(&get_filetype("main.c"), "main.c"));
    assert_eq!("/*\n * Line1\n * Line2\n*/\n", c.commenter().comment("Line1\nLine2"));
}

#[test]
fn block_comment_plain_and_empty() {
    let style = Commenter::Block {
        start_block_char: "<!--".to_string(),
        end_block_char: "-->".to_string(),
        per_line_char: None,
        trailing_lines: 2,
    };
    assert_eq!("<!--\n\n-->\n\n\n", style.comment(""));
    assert_eq!("<!--\na\n\nb\n\n-->\n\n\n", style.comment("a\n\nb\n"));
    let decorated = Commenter::Block {
        start_block_char: "/*".to_string(),
        end_block_char: "*/".to_string(),
        per_line_char: Some(" * ".to_string()),
        trailing_lines: 0,
    };
    assert_eq!("/*\n * a\n * \n*/\n", decorated.comment("a\n"));
}

#[test]
fn wraps_on_any_blank() {
    assert_eq!("aaaa\nbbbb", wrap_text("aaaa\tbbbb", 5));
    assert_eq!("a b c", wrap_text("a\t b\r\u{0C}c", 5));
    let c = Config {
        extension: FileType::Single("any".to_string()),
        files: None,
        columns: Some(5),
        commenter: line("#", 0),
    };
    assert_eq!("# aaaa\n# bbbb\n", c.comment("aaaa\tbbbb", true));
}

#[test]
fn width_below_longest_word_means_no_limit() {
    assert_eq!("abcdefgh ij", wrap_text("abcdefgh ij", 4));
    assert_eq!("ab cd\nabcdefgh ij", wrap_text("ab cd\nabcdefgh ij", 4));
}

#[test]
fn line_comment_keeps_every_line() {
    let style = line("#", 1);
    assert_eq!("# a\n# \n\n", style.comment("a\n"));
    assert_eq!("# \n\n", style.comment(""));
}

#[test]
fn line_comment_round_trip() {
    let body = "First line\n\nThird line";
    let style = line("#", 0);
    let out = style.comment(body);
    assert_eq!(out, style.comment(body));
    let stripped: Vec<&str> =
        out.lines().map(|l| l.strip_prefix("# ").unwrap()).collect();
    assert_eq!(body, stripped.join("\n"));
}

#[test]
fn wraps_lines_greedily() {
    assert_eq!("aaa bb\ncc ddd", wrap_text("aaa bb cc ddd", 6));
    assert_eq!("a b\n\nc", wrap_text("a b\n\nc", 3));
    assert_eq!("a b", wrap_text("a   b", 10));
    assert_eq!("a b\n", wrap_text("a b\n", 3));
    assert_eq!("", wrap_text("", 3));
    assert_eq!("keep  as   is", wrap_text("keep  as   is", 0));
}

#[test]
fn comment_wraps_only_when_asked() {
    let c = Config {
        extension: FileType::Single("any".to_string()),
        files: None,
        columns: Some(14),
        commenter: line("#", 0),
    };
    assert_eq!("# Copyright 2020\n# Jane Doe\n", c.comment("Copyright 2020 Jane Doe", true));
    assert_eq!("# Copyright 2020 Jane Doe\n", c.comment("Copyright 2020 Jane Doe", false));
}

#[test]
fn header_renders_then_comments() {
    let c = rule(FileType::List(vec!["py".to_string()]), None, line("#", 1));
    let t = Template {
        content: "Copyright {start_year} {authors}".to_string(),
        context: Context {
            end_year: None,
            start_year: Some("2020".to_string()),
            ident: "MIT".to_string(),
            authors: Authors { authors: vec![Author { name: "Jane Doe".to_string(), email: None }] },
            unwrap_text: true,
        },
        spdx_template: false,
    };
    assert_eq!("# Copyright 2020 Jane Doe\n\n", c.header(&t));
}

#[test]
fn first_rule_given_pattern_results() {
    let m = FileMatcher::from("^src/".to_string()).ok().unwrap();
    let rules = vec![
        rule(FileType::Single("rs".to_string()), Some(m), line("//", 0)),
        rule(FileType::Single("rs".to_string()), None, line("#", 0)),
        rule(FileType::Single("py".to_string()), None, line("#", 0)),
    ];
    assert_eq!(Some(0), find_rule_given(&rules, "rs", &vec![true, false, false]));
    assert_eq!(Some(1), find_rule_given(&rules, "rs", &vec![false, false, false]));
    assert_eq!(Some(2), find_rule_given(&rules, "py", &vec![true, true, true]));
    assert_eq!(None, find_rule_given(&rules, "c", &vec![true, true, true]));
}
