//! Headings: reading one from a line, and rendering one as an entry of
//! the list.
use std::str::FromStr;
use vstd::prelude::*;
use vstd::string::StringExecFns;
use crate::config::Config;
use crate::slug::slug_of;
use crate::slug::slugify;
use crate::text::chars_of;
use crate::text::begins_with_spaces;
use crate::text::is_whitespace;
use crate::text::leading_count;
use crate::text::leading_run;
use crate::text::lemma_leading_run_is;
use crate::text::lemma_leading_run_props;
use crate::text::lemma_trim_end_props;
use crate::text::push_char;
use crate::text::skip_whitespace;
use crate::text::spaces;
use crate::text::starts_with;
use crate::text::string_of_range;
use crate::text::trim_end;
use crate::text::trim_start;
use crate::text::trimmed_len;
use crate::text::without_prefix;

verus! {

/// One heading of a document.
pub struct Heading {
    /// The nesting level: one less than the number of `#` marks.
    pub depth: usize,
    /// The text after the marks, without surrounding white space.
    pub title: String,
}

/// A heading as a mathematical value.
pub struct HeadingView {
    pub depth: nat,
    pub title: Seq<char>,
}

impl View for Heading {
    type V = HeadingView;

    open spec fn view(&self) -> HeadingView {
        HeadingView { depth: self.depth as nat, title: self.title@ }
    }
}

/// The heading that a line spells, if it spells one: the line without its
/// trailing white space begins with `#`; the marks are counted and left
/// out, and the title is what follows them, without leading white space.
pub open spec fn parsed(line: Seq<char>) -> Option<HeadingView> {
    let trimmed = trim_end(line);
    if trimmed.len() > 0 && trimmed.first() == '#' {
        let marks = leading_run(trimmed, '#');
        Some(
            HeadingView {
                depth: (marks - 1) as nat,
                title: trim_start(trimmed.skip(marks as int)),
            },
        )
    } else {
        None
    }
}

impl HeadingView {
    /// The text of the entry behind the bullet: the bare title, or a link
    /// from the title to its anchor.
    pub open spec fn entry(self, no_link: bool) -> Seq<char> {
        if no_link {
            self.title
        } else {
            seq!['['] + self.title + seq![']', '(', '#'] + slug_of(self.title) + seq![')']
        }
    }

    /// The line for this heading, which `config` must include:
    /// indentation by its depth below the shallowest listed one, the bullet,
    /// a space, and the entry.
    pub open spec fn rendered(self, config: &Config) -> Seq<char> {
        spaces((config.indent * (self.depth - config.min_depth)) as nat) + config.bullet@
            + seq![' '] + self.entry(config.no_link)
    }

    /// The line for this heading, or nothing where `config` leaves its
    /// depth out.
    pub open spec fn formatted(self, config: &Config) -> Option<Seq<char>> {
        if config.includes(self.depth) {
            Some(self.rendered(config))
        } else {
            None
        }
    }

    /// The line of `formatted` without one step of indentation at its
    /// beginning: where the line begins with `config.indent` spaces, they
    /// are cut; where it does not, the line stays.
    pub open spec fn reduced(self, config: &Config) -> Option<Seq<char>> {
        match self.formatted(config) {
            Some(line) => Some(without_prefix(line, spaces(config.indent as nat))),
            None => None,
        }
    }
}

/// Reads a heading from the characters of a line.
pub fn parse_chars(line: &Vec<char>) -> (r: Result<Heading, ()>)
    ensures
        match r {
            Ok(h) => parsed(line@) == Some(h@),
            Err(_) => parsed(line@) is None,
        },
{
    let end = trimmed_len(line);
    if end > 0 && line[0] == '#' {
        let marks = leading_count(line, '#', end);
        let start = skip_whitespace(line, marks, end);
        let title = string_of_range(line, start, end);
        proof {
            let trimmed = line@.take(end as int);
            assert(trimmed.first() == '#');
            assert(trimmed.skip(marks as int) == line@.subrange(marks as int, end as int));
        }
        Ok(Heading { depth: marks - 1, title })
    } else {
        Err(())
    }
}

impl Heading {
    /// Reads a heading from a line. Any number of marks is taken, no space
    /// is needed behind them, and the title may be empty.
    pub fn parse(line: &str) -> (r: Result<Heading, ()>)
        ensures
            match r {
                Ok(h) => parsed(line@) == Some(h@),
                Err(_) => parsed(line@) is None,
            },
            r is Ok <==> trim_end(line@).len() > 0 && trim_end(line@).first() == '#',
    {
        let chars = chars_of(line);
        parse_chars(&chars)
    }

    /// Renders the heading as a line of the list, unless `config` leaves
    /// its depth out.
    pub fn format(&self, config: &Config) -> (r: Option<String>)
        ensures
            match r {
                Some(line) => self@.formatted(config) == Some(line@),
                None => self@.formatted(config) is None,
            },
            r is Some <==> config.includes(self.depth as nat),
    {
        if !config.lists(self.depth) {
            return None;
        }
        let levels: usize = self.depth - config.min_depth;
        let mut out = String::new();
        let mut level: usize = 0;
        while level < levels
            invariant
                level <= levels,
                out@ == spaces((config.indent * level) as nat),
            decreases levels - level,
        {
            let mut i: usize = 0;
            while i < config.indent
                invariant
                    i <= config.indent,
                    out@ == spaces((config.indent * level + i) as nat),
                decreases config.indent - i,
            {
                push_char(&mut out, ' ');
                i += 1;
            }
            assert(config.indent * level + config.indent == config.indent * (level + 1))
                by (nonlinear_arith);
            level += 1;
        }
        out.append(config.bullet.as_str());
        push_char(&mut out, ' ');
        if config.no_link {
            out.append(self.title.as_str());
        } else {
            let slug = slugify(self.title.as_str());
            push_char(&mut out, '[');
            out.append(self.title.as_str());
            push_char(&mut out, ']');
            push_char(&mut out, '(');
            push_char(&mut out, '#');
            out.append(slug.as_str());
            push_char(&mut out, ')');
        }
        Some(out)
    }

    /// Renders the heading as `format` does and cuts one step of
    /// indentation from the beginning of the line: `config.indent` spaces,
    /// where the line begins with them. A line that does not is returned
    /// whole.
    pub fn reduce_ident(&self, config: &Config) -> (r: Option<String>)
        ensures
            match r {
                Some(line) => self@.reduced(config) == Some(line@),
                None => self@.reduced(config) is None,
            },
            r is Some <==> config.includes(self.depth as nat),
    {
        match self.format(config) {
            Some(line) => {
                let chars = chars_of(line.as_str());
                if begins_with_spaces(&chars, config.indent) {
                    assert(chars@.skip(config.indent as int) == chars@.subrange(
                        config.indent as int,
                        chars.len() as int,
                    ));
                    Some(string_of_range(&chars, config.indent, chars.len()))
                } else {
                    Some(line)
                }
            },
            None => None,
        }
    }
}

/// A line that begins with one or more `#` marks spells a heading, whose
/// depth is one less than the number of those marks.
pub proof fn lemma_depth_counts_marks(line: Seq<char>)
    requires
        leading_run(line, '#') >= 1,
    ensures
        parsed(line) matches Some(heading) && heading.depth == leading_run(line, '#') - 1,
{
    let marks = leading_run(line, '#') as int;
    let kept = trim_end(line).len() as int;
    lemma_leading_run_props(line, '#');
    lemma_trim_end_props(line);
    assert(!is_whitespace('#'));
    if kept < marks {
        assert(is_whitespace(line[kept]));
        assert(line[kept] == '#');
    }
    let trimmed = line.take(kept);
    assert forall|i: int| 0 <= i < marks implies #[trigger] trimmed[i] == '#' by {
        assert(trimmed[i] == line[i]);
    }
    lemma_leading_run_is(trimmed, '#', marks);
}

/// A line whose text, once trailing white space is cut, does not begin
/// with `#` spells no heading.
pub proof fn lemma_other_lines_spell_none(line: Seq<char>)
    requires
        trim_end(line).len() == 0 || trim_end(line).first() != '#',
    ensures
        parsed(line) is None,
{
}

/// The line for a heading depends on the heading and on five settings
/// alone: bullet, indent, the two depth bounds and the link switch. Two
/// configurations that agree on them give the same line, or both none.
pub proof fn lemma_formatted_by_values(heading: HeadingView, first: &Config, second: &Config)
    requires
        first.bullet@ == second.bullet@,
        first.indent == second.indent,
        first.max_depth == second.max_depth,
        first.min_depth == second.min_depth,
        first.no_link == second.no_link,
    ensures
        heading.formatted(first) == heading.formatted(second),
        heading.reduced(first) == heading.reduced(second),
{
}

/// A heading outside the depth bounds of the configuration has no line.
pub proof fn lemma_out_of_range_excluded(heading: HeadingView, config: &Config)
    requires
        heading.depth < config.min_depth || (config.max_depth matches Some(max) && heading.depth
            > max),
    ensures
        heading.formatted(config) is None,
        heading.reduced(config) is None,
{
}

/// For a heading deeper than the shallowest listed depth, the reduced
/// line is the line with one level of indentation less.
pub proof fn lemma_reduced_is_one_level_less(heading: HeadingView, config: &Config)
    requires
        config.includes(heading.depth),
        heading.depth > config.min_depth,
    ensures
        heading.reduced(config) == Some(
            spaces((config.indent * (heading.depth - config.min_depth - 1)) as nat)
                + config.bullet@ + seq![' '] + heading.entry(config.no_link),
        ),
{
    let levels = heading.depth - config.min_depth;
    let width = config.indent as int;
    let line = heading.rendered(config);
    let pat = spaces(config.indent as nat);
    assert(width * levels >= width && width * levels - width == width * (levels - 1))
        by (nonlinear_arith)
        requires
            levels >= 1,
            width >= 0,
    ;
    assert(line.take(width) == pat);
    assert(line.skip(width) == spaces((width * (levels - 1)) as nat) + config.bullet@ + seq![' ']
        + heading.entry(config.no_link));
}

/// The line of a heading at the shallowest listed depth is not indented:
/// unless the bullet itself begins with a space, reducing leaves the line
/// as it is.
pub proof fn lemma_reduced_keeps_unindented_line(heading: HeadingView, config: &Config)
    requires
        config.includes(heading.depth),
        heading.depth == config.min_depth,
        config.indent == 0 || (config.bullet@.len() > 0 && config.bullet@.first() != ' '),
    ensures
        heading.reduced(config) == heading.formatted(config),
{
    let line = heading.rendered(config);
    assert(config.indent * 0 == 0);
    if config.indent == 0 {
        assert(line.skip(0) == line);
    } else {
        assert(line[0] == config.bullet@[0]);
        if starts_with(line, spaces(config.indent as nat)) {
            assert(line.take(config.indent as int)[0] == ' ');
        }
    }
}

impl FromStr for Heading {
    type Err = ();

    fn from_str(s: &str) -> (r: Result<Heading, ()>)
        ensures
            match r {
                Ok(h) => parsed(s@) == Some(h@),
                Err(_) => parsed(s@) is None,
            },
    {
        Heading::parse(s)
    }
}

} // verus!
