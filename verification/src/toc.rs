//! The table of contents of a whole document.
use vstd::prelude::*;
use crate::config::Config;
use crate::config::Inline;
use crate::fence::opening;
use crate::fence::Fence;
use crate::fence::FenceTag;
use crate::heading::parse_chars;
use crate::heading::parsed;
use crate::text::char_seqs;
use crate::text::chars_of;
use crate::text::lines_of;
use crate::text::split_lines;
use crate::text::starts_with;
use crate::text::string_seqs;

verus! {

/// The fence state after the first `n` of `lines`.
pub open spec fn fence_after(lines: Seq<Seq<char>>, n: int) -> Fence
    decreases n,
{
    if n <= 0 {
        Fence::Outside
    } else {
        fence_after(lines, n - 1).next(lines[n - 1])
    }
}

/// Whether line `i` is read as a heading: it stands outside every fenced
/// block and is no fence itself.
pub open spec fn is_read(lines: Seq<Seq<char>>, i: int) -> bool {
    fence_after(lines, i).admits(lines[i])
}

/// The entry that line `i` contributes to the list, if any: the line is
/// read, spells a heading, and `config` includes the heading's depth.
pub open spec fn entry_at(lines: Seq<Seq<char>>, config: &Config, i: int) -> Option<Seq<char>> {
    if is_read(lines, i) {
        match parsed(lines[i]) {
            Some(heading) => heading.formatted(config),
            None => None,
        }
    } else {
        None
    }
}

/// The entries that the first `n` of `lines` contribute, in their order.
pub open spec fn entries_upto(lines: Seq<Seq<char>>, config: &Config, n: int) -> Seq<Seq<char>>
    decreases n,
{
    if n <= 0 {
        Seq::empty()
    } else {
        match entry_at(lines, config, n - 1) {
            Some(entry) => entries_upto(lines, config, n - 1).push(entry),
            None => entries_upto(lines, config, n - 1),
        }
    }
}

/// The list for a document: one entry for each heading line that stands
/// outside fenced blocks and whose depth `config` includes, in the order
/// of the document.
pub open spec fn toc_of(content: Seq<char>, config: &Config) -> Seq<Seq<char>> {
    entries_upto(lines_of(content), config, lines_of(content).len() as int)
}

/// What is printed above the list: the header and an empty line, where
/// there is a header.
pub open spec fn header_block(config: &Config) -> Seq<Seq<char>> {
    match config.header {
        Some(header) => seq![header@, Seq::empty()],
        None => Seq::empty(),
    }
}

/// What follows the header: the list; in inline mode the document after
/// it; nothing where the document is to be replaced.
pub open spec fn body_block(content: Seq<char>, config: &Config) -> Seq<Seq<char>> {
    match config.inline {
        Inline::ListOnly => toc_of(content, config),
        Inline::Inline => toc_of(content, config).push(content),
        Inline::InlineAndReplace => Seq::empty(),
    }
}

/// Everything that is printed for a document, piece by piece, each piece
/// to be ended by a line feed: an empty line, the header block, the body.
pub open spec fn output_of(content: Seq<char>, config: &Config) -> Seq<Seq<char>> {
    seq![Seq::empty()] + header_block(config) + body_block(content, config)
}

/// Lists the headings of a document.
pub fn toc_lines(content: &str, config: &Config) -> (out: Vec<String>)
    ensures
        string_seqs(out@) == toc_of(content@, config),
{
    let chars = chars_of(content);
    let lines = split_lines(&chars);
    let ghost all = lines_of(content@);
    let mut out: Vec<String> = Vec::new();
    let mut fence = Fence::Outside;
    let mut i: usize = 0;
    while i < lines.len()
        invariant
            i <= lines.len(),
            all == char_seqs(lines@),
            fence == fence_after(all, i as int),
            string_seqs(out@) == entries_upto(all, config, i as int),
        decreases lines.len() - i,
    {
        let ghost before = string_seqs(out@);
        assert(all[i as int] == lines@[i as int]@);
        let (next, read) = fence.advance_chars(&lines[i]);
        if read {
            match parse_chars(&lines[i]) {
                Ok(heading) => {
                    match heading.format(config) {
                        Some(entry) => {
                            out.push(entry);
                            assert(string_seqs(out@) == before.push(entry@));
                        },
                        None => {},
                    }
                },
                Err(_) => {},
            }
        }
        fence = next;
        i += 1;
    }
    out
}

/// Renders the whole output for a document: the pieces to print, each to
/// be followed by a line feed.
pub fn render(content: &str, config: &Config) -> (out: Vec<String>)
    ensures
        string_seqs(out@) == output_of(content@, config),
{
    let mut out: Vec<String> = Vec::new();
    out.push(String::new());
    match &config.header {
        Some(header) => {
            out.push(header.clone());
            out.push(String::new());
        },
        None => {},
    }
    assert(string_seqs(out@) == seq![Seq::<char>::empty()] + header_block(config));
    let ghost above = string_seqs(out@);
    match config.inline {
        Inline::InlineAndReplace => {},
        _ => {
            let mut list = toc_lines(content, config);
            let ghost entries = string_seqs(list@);
            out.append(&mut list);
            assert(string_seqs(out@) == above + entries);
            if config.inline == Inline::Inline {
                out.push(content.to_owned());
                assert(string_seqs(out@) == above + entries.push(content@));
            }
        },
    }
    out
}

/// Between a line that opens a fenced block and the next line that begins
/// with the same marker, every line is inside the block: none of them is
/// read as a heading and none contributes an entry, whatever it spells.
/// The same holds of the opening line and of the closing one, after which
/// the block is left.
pub proof fn lemma_fenced_lines_not_listed(
    lines: Seq<Seq<char>>,
    config: &Config,
    open: int,
    tag: FenceTag,
    i: int,
)
    requires
        0 <= open <= i < lines.len(),
        fence_after(lines, open) is Outside,
        opening(lines[open]) == Some(tag),
        forall|k: int| open < k < i ==> !starts_with(#[trigger] lines[k], tag.marker()),
    ensures
        !is_read(lines, i),
        entry_at(lines, config, i) is None,
        open < i ==> fence_after(lines, i) == Fence::Inside(tag),
        open < i && starts_with(lines[i], tag.marker()) ==> fence_after(lines, i + 1) is Outside,
    decreases i - open,
{
    if open < i - 1 {
        lemma_fenced_lines_not_listed(lines, config, open, tag, i - 1);
    }
}

/// How many of the first `n` lines contribute an entry.
pub open spec fn listed_count(lines: Seq<Seq<char>>, config: &Config, n: int) -> nat
    decreases n,
{
    if n <= 0 {
        0
    } else if entry_at(lines, config, n - 1) is Some {
        listed_count(lines, config, n - 1) + 1
    } else {
        listed_count(lines, config, n - 1)
    }
}

/// The list has exactly one entry for each line that is read, spells a
/// heading and has a depth that the configuration includes.
pub proof fn lemma_one_entry_per_listed_heading(lines: Seq<Seq<char>>, config: &Config, n: int)
    ensures
        entries_upto(lines, config, n).len() == listed_count(lines, config, n),
    decreases n,
{
    if n > 0 {
        lemma_one_entry_per_listed_heading(lines, config, n - 1);
    }
}

} // verus!
