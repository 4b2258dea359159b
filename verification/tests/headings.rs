use markdown_toc::Config;
use markdown_toc::Heading;
use std::str::FromStr;

const TEST_DOC: &str = "# Introduction\nSome text.\n## Getting Started\n### Install.sh Script\n## Usage\n#NoSpace\n####   Deep   Heading  \nNot a heading # here\n";

const OUTPUT: &str = "Introduction, 0\nGetting Started, 1\nInstall.sh Script, 2\nUsage, 1\nNoSpace, 0\nDeep   Heading, 3\n- [Introduction](#introduction)\n  - [Getting Started](#getting-started)\n    - [Install.sh Script](#installsh-script)\n  - [Usage](#usage)\n- [NoSpace](#nospace)\n      - [Deep   Heading](#deep---heading)\n1. Getting Started\n1. Usage\n";

#[test]
fn test() {
    let content = String::from(TEST_DOC);

    let heads: Vec<_> = content
        .lines()
        .map(Heading::from_str)
        .filter_map(Result::ok)
        .collect();

    let expected_vec: Vec<_> = OUTPUT.lines().collect();

    let first_config = Config {
        bullet: "-".to_string(),
        indent: 2,
        ..Default::default()
    };
    let second_config = Config {
        max_depth: Some(1),
        min_depth: 1,
        no_link: true,
        ..Default::default()
    };

    let actual_vec: Vec<_> = heads
        .iter()
        .map(|h| format!("{}, {}", &h.title, &h.depth))
        .chain(heads.iter().filter_map(|h| h.format(&first_config)))
        .chain(heads.iter().filter_map(|h| h.format(&second_config)))
        .collect();

    assert_eq!(actual_vec.len(), expected_vec.len());
    for (actual, expected) in actual_vec.into_iter().zip(expected_vec) {
        assert_eq!(actual, expected);
    }
}

fn parsed(line: &str) -> (usize, String) {
    match Heading::parse(line) {
        Ok(h) => (h.depth, h.title),
        Err(()) => panic!("not a heading: {:?}", line),
    }
}

#[test]
fn parse_single_mark() {
    assert_eq!(parsed("# Title"), (0, "Title".to_string()));
}

#[test]
fn parse_depth_is_marks_minus_one() {
    let mut line = String::new();
    for n in 1..=12usize {
        line.push('#');
        let text = format!("{} t", line);
        assert_eq!(parsed(&text), (n - 1, "t".to_string()));
    }
}

#[test]
fn parse_more_than_six_marks() {
    assert_eq!(parsed("######## Deep"), (7, "Deep".to_string()));
}

#[test]
fn parse_without_space_after_marks() {
    assert_eq!(parsed("#Title"), (0, "Title".to_string()));
    assert_eq!(parsed("##Title"), (1, "Title".to_string()));
}

#[test]
fn parse_marks_only() {
    assert_eq!(parsed("#"), (0, String::new()));
    assert_eq!(parsed("###"), (2, String::new()));
    assert_eq!(parsed("###   "), (2, String::new()));
}

#[test]
fn parse_trims_both_ends_of_title() {
    assert_eq!(parsed("##   Two  Words \t\r\n"), (1, "Two  Words".to_string()));
}

#[test]
fn parse_trims_unicode_white_space() {
    assert_eq!(parsed("#\u{3000}Title\u{2003}\u{a0}"), (0, "Title".to_string()));
}

#[test]
fn parse_keeps_marks_inside_title() {
    assert_eq!(parsed("# a # b ##"), (0, "a # b ##".to_string()));
    assert_eq!(parsed("## # x"), (1, "# x".to_string()));
}

#[test]
fn parse_rejects_other_lines() {
    assert!(Heading::parse("").is_err());
    assert!(Heading::parse("   ").is_err());
    assert!(Heading::parse("text").is_err());
    assert!(Heading::parse(" # indented").is_err());
    assert!(Heading::parse("text # not at start").is_err());
    assert!(Heading::parse("\t#").is_err());
}

#[test]
fn from_str_agrees_with_parse() {
    let h = Heading::from_str("### Three").unwrap();
    assert_eq!((h.depth, h.title.as_str()), (2, "Three"));
    assert!(Heading::from_str("Three").is_err());
    let h: Heading = "# One".parse().unwrap();
    assert_eq!((h.depth, h.title.as_str()), (0, "One"));
}

fn heading(depth: usize, title: &str) -> Heading {
    Heading { depth, title: title.to_string() }
}

#[test]
fn title_with_defaults() {
    let h = Heading::parse("# Title").unwrap();
    assert_eq!(h.format(&Config::default()), Some("1. [Title](#title)".to_string()));
}

#[test]
fn sub_section_indented() {
    let config = Config { indent: 2, bullet: "-".to_string(), ..Default::default() };
    let h = Heading::parse("## Sub Section").unwrap();
    assert_eq!(h.format(&config), Some("  - [Sub Section](#sub-section)".to_string()));
}

#[test]
fn depth_window_without_links() {
    let config = Config { min_depth: 1, max_depth: Some(1), no_link: true, ..Default::default() };
    assert_eq!(heading(0, "Zero").format(&config), None);
    assert_eq!(heading(1, "One").format(&config), Some("1. One".to_string()));
    assert_eq!(heading(2, "Two").format(&config), None);
}

#[test]
fn format_excludes_outside_bounds() {
    let config = Config { min_depth: 2, max_depth: Some(4), ..Default::default() };
    for depth in 0..8usize {
        let line = heading(depth, "t").format(&config);
        assert_eq!(line.is_some(), (2..=4).contains(&depth));
    }
    let open = Config { min_depth: 3, ..Default::default() };
    assert_eq!(heading(2, "t").format(&open), None);
    assert!(heading(3, "t").format(&open).is_some());
    assert!(heading(1000, "t").format(&open).is_some());
}

#[test]
fn format_indents_relative_to_min_depth() {
    let config = Config { min_depth: 1, indent: 3, no_link: true, ..Default::default() };
    assert_eq!(heading(1, "a").format(&config), Some("1. a".to_string()));
    assert_eq!(heading(2, "a").format(&config), Some("   1. a".to_string()));
    assert_eq!(heading(4, "a").format(&config), Some("         1. a".to_string()));
}

#[test]
fn format_with_zero_indent() {
    let config = Config { indent: 0, ..Default::default() };
    assert_eq!(heading(5, "A b").format(&config), Some("1. [A b](#a-b)".to_string()));
}

#[test]
fn format_empty_title() {
    let h = Heading::parse("#").unwrap();
    assert_eq!(h.format(&Config::default()), Some("1. [](#)".to_string()));
    let plain = Config { no_link: true, ..Default::default() };
    assert_eq!(h.format(&plain), Some("1. ".to_string()));
}

#[test]
fn format_empty_bullet() {
    let config = Config { bullet: String::new(), no_link: true, ..Default::default() };
    assert_eq!(heading(1, "x").format(&config), Some("     x".to_string()));
}

#[test]
fn format_twice_gives_the_same_line() {
    let config = Config { indent: 2, bullet: "*".to_string(), ..Default::default() };
    let h = heading(3, "Same. Again");
    let first = h.format(&config);
    let second = h.format(&config);
    assert_eq!(first, second);
    assert_eq!(first, Some("      * [Same. Again](#same-again)".to_string()));
}

#[test]
fn format_ignores_header_and_mode() {
    let plain = Config::default();
    let other = Config {
        header: None,
        inline: markdown_toc::Inline::Inline,
        input_file: markdown_toc::InputFile::from_arg("doc.md"),
        ..Default::default()
    };
    let h = heading(1, "T");
    assert_eq!(h.format(&plain), h.format(&other));
}

#[test]
fn reduce_ident_removes_one_level() {
    let config = Config { indent: 2, bullet: "-".to_string(), no_link: true, ..Default::default() };
    assert_eq!(heading(2, "t").format(&config), Some("    - t".to_string()));
    assert_eq!(heading(2, "t").reduce_ident(&config), Some("  - t".to_string()));
    assert_eq!(heading(1, "t").reduce_ident(&config), Some("- t".to_string()));
}

#[test]
fn reduce_ident_keeps_spaces_inside_the_line() {
    let config = Config { indent: 2, bullet: "-".to_string(), no_link: true, ..Default::default() };
    assert_eq!(heading(0, "a  b  c").reduce_ident(&config), Some("- a  b  c".to_string()));
    assert_eq!(heading(0, "a b").reduce_ident(&config), Some("- a b".to_string()));
    let narrow = Config { indent: 1, ..Default::default() };
    assert_eq!(heading(0, "T").reduce_ident(&narrow), Some("1. [T](#t)".to_string()));
    assert_eq!(heading(1, "T").reduce_ident(&narrow), Some("1. [T](#t)".to_string()));
    assert_eq!(heading(2, "T").reduce_ident(&narrow), Some(" 1. [T](#t)".to_string()));
}

#[test]
fn reduce_ident_cuts_at_the_start_only_once() {
    let config = Config { indent: 3, bullet: "*".to_string(), no_link: true, ..Default::default() };
    assert_eq!(heading(3, "t").format(&config), Some("         * t".to_string()));
    assert_eq!(heading(3, "t").reduce_ident(&config), Some("      * t".to_string()));
    let spaced = Config { indent: 2, bullet: "  *".to_string(), no_link: true, ..Default::default() };
    assert_eq!(heading(0, "t").reduce_ident(&spaced), Some("* t".to_string()));
    let short = Config { indent: 2, bullet: " *".to_string(), no_link: true, ..Default::default() };
    assert_eq!(heading(0, "t").reduce_ident(&short), Some(" * t".to_string()));
}

#[test]
fn reduce_ident_with_zero_indent_changes_nothing() {
    let config = Config { indent: 0, ..Default::default() };
    assert_eq!(heading(2, "a b").reduce_ident(&config), heading(2, "a b").format(&config));
}

#[test]
fn reduce_ident_excluded_heading() {
    let config = Config { min_depth: 1, ..Default::default() };
    assert_eq!(heading(0, "t").reduce_ident(&config), None);
    let capped = Config { max_depth: Some(0), ..Default::default() };
    assert_eq!(heading(1, "t").reduce_ident(&capped), None);
}

#[test]
fn reduce_ident_with_huge_indent() {
    let config = Config { indent: usize::MAX, no_link: true, ..Default::default() };
    assert_eq!(heading(0, "t").reduce_ident(&config), Some("1. t".to_string()));
}
