use markdown_toc::Config;
use markdown_toc::Inline;
use markdown_toc::render;
use markdown_toc::text::chars_of;
use markdown_toc::text::split_lines;
use markdown_toc::text::string_of;
use markdown_toc::toc_lines;

fn lines(text: &str) -> Vec<String> {
    split_lines(&chars_of(text)).iter().map(string_of).collect()
}

#[test]
fn split_lines_agrees_with_std() {
    for text in [
        "",
        "\n",
        "\n\n",
        "a",
        "a\n",
        "a\nb",
        "a\r\nb\r\n",
        "a\r",
        "a\r\r\n",
        "\r\n",
        "foo\nbar\n\r\nbaz\r",
        "a\n\nb\n\n",
        "é\n日本\n",
    ] {
        let expected: Vec<String> = text.lines().map(String::from).collect();
        assert_eq!(lines(text), expected, "lines of {:?}", text);
    }
}

#[test]
fn split_lines_exact() {
    assert_eq!(lines("a\r\nb\n\nc"), vec!["a", "b", "", "c"]);
    assert_eq!(lines("x\r\r\ny\r"), vec!["x\r", "y\r"]);
    assert!(lines("").is_empty());
    assert_eq!(lines("\n"), vec![""]);
}

#[test]
fn chars_and_strings_round_trip() {
    for text in ["", "abc", "é😀\n\t", "# Title"] {
        let chars = chars_of(text);
        assert_eq!(chars, text.chars().collect::<Vec<char>>());
        assert_eq!(string_of(&chars), text);
    }
}

const DOC: &str = "# Top\r\ntext\r\n## Second Level\r\n\r\n### Third.Level\r\n## Again\r\n";

#[test]
fn toc_in_document_order() {
    let config = Config { indent: 2, bullet: "*".to_string(), ..Default::default() };
    assert_eq!(
        toc_lines(DOC, &config),
        vec![
            "* [Top](#top)",
            "  * [Second Level](#second-level)",
            "    * [Third.Level](#thirdlevel)",
            "  * [Again](#again)",
        ]
    );
}

#[test]
fn toc_counts_headings_in_bounds() {
    let config = Config { min_depth: 1, max_depth: Some(1), no_link: true, ..Default::default() };
    assert_eq!(toc_lines(DOC, &config), vec!["1. Second Level", "1. Again"]);
    let none = Config { min_depth: 7, ..Default::default() };
    assert!(toc_lines(DOC, &none).is_empty());
    assert!(toc_lines("", &Config::default()).is_empty());
    assert!(toc_lines("no heading\nhere", &Config::default()).is_empty());
}

#[test]
fn render_with_default_header() {
    assert_eq!(
        render("# Title", &Config::default()),
        vec!["", "## Table of Contents", "", "1. [Title](#title)"]
    );
}

#[test]
fn render_with_custom_header() {
    let config = Config { header: Some("Contents".to_string()), ..Default::default() };
    assert_eq!(render("## T", &config), vec!["", "Contents", "", "    1. [T](#t)"]);
}

#[test]
fn render_without_header() {
    let config = Config { header: None, ..Default::default() };
    assert_eq!(render("# Title\n# Other", &config), vec!["", "1. [Title](#title)", "1. [Other](#other)"]);
    assert_eq!(render("", &config), vec![""]);
}

#[test]
fn render_inline_appends_document() {
    let config = Config { inline: Inline::Inline, header: None, ..Default::default() };
    let doc = "# Title\nbody\n";
    assert_eq!(render(doc, &config), vec!["", "1. [Title](#title)", doc]);
}

#[test]
fn render_replace_prints_no_list() {
    let config = Config { inline: Inline::InlineAndReplace, ..Default::default() };
    assert_eq!(render("# Title", &config), vec!["", "## Table of Contents", ""]);
}
