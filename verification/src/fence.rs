//! Fenced code blocks: which lines of a document stand inside one.
use vstd::prelude::*;
use crate::text::chars_of;
use crate::text::starts_with;

verus! {

/// The marker that opened a fenced block.
#[derive(Clone, Copy, PartialEq, Eq, Debug, Structural)]
pub enum FenceTag {
    /// Three backticks.
    Backticks,
    /// Three tildes.
    Tildes,
}

/// Where a reader of the document stands with respect to fenced blocks.
#[derive(Clone, Copy, PartialEq, Eq, Debug, Structural)]
pub enum Fence {
    /// Outside any block.
    Outside,
    /// Inside a block that the given marker opened.
    Inside(FenceTag),
}

impl FenceTag {
    /// The character the marker is made of.
    pub open spec fn mark(self) -> char {
        match self {
            FenceTag::Backticks => '`',
            FenceTag::Tildes => '~',
        }
    }

    /// The three characters of the marker.
    pub open spec fn marker(self) -> Seq<char> {
        seq![self.mark(), self.mark(), self.mark()]
    }

    /// Tells whether `line` begins with this marker.
    pub fn begins(self, line: &Vec<char>) -> (b: bool)
        ensures
            b == starts_with(line@, self.marker()),
    {
        let mark = match self {
            FenceTag::Backticks => '`',
            FenceTag::Tildes => '~',
        };
        let b = line.len() >= 3 && line[0] == mark && line[1] == mark && line[2] == mark;
        proof {
            if b {
                assert(line@.take(3) == self.marker());
            } else if line.len() >= 3 {
                let head = line@.take(3);
                assert(head[0] == line@[0] && head[1] == line@[1] && head[2] == line@[2]);
            }
        }
        b
    }
}

/// The marker that `line` opens a block with, if it opens one.
pub open spec fn opening(line: Seq<char>) -> Option<FenceTag> {
    if starts_with(line, FenceTag::Backticks.marker()) {
        Some(FenceTag::Backticks)
    } else if starts_with(line, FenceTag::Tildes.marker()) {
        Some(FenceTag::Tildes)
    } else {
        None
    }
}

impl Fence {
    /// The state after `line`. Outside a block, a line that begins with a
    /// marker opens one; inside, only a line that begins with the marker
    /// that opened the block closes it.
    pub open spec fn next(self, line: Seq<char>) -> Fence {
        match self {
            Fence::Outside => match opening(line) {
                Some(tag) => Fence::Inside(tag),
                None => Fence::Outside,
            },
            Fence::Inside(tag) => if starts_with(line, tag.marker()) {
                Fence::Outside
            } else {
                Fence::Inside(tag)
            },
        }
    }

    /// Whether `line`, met in this state, may be read as a heading: it
    /// stands outside any block and opens none.
    pub open spec fn admits(self, line: Seq<char>) -> bool {
        self is Outside && opening(line) is None
    }

    /// Takes the characters of one line: returns the state after it, and
    /// whether the line may be read as a heading.
    pub fn advance_chars(self, line: &Vec<char>) -> (r: (Fence, bool))
        ensures
            r.0 == self.next(line@),
            r.1 == self.admits(line@),
    {
        match self {
            Fence::Outside => {
                if FenceTag::Backticks.begins(line) {
                    (Fence::Inside(FenceTag::Backticks), false)
                } else if FenceTag::Tildes.begins(line) {
                    (Fence::Inside(FenceTag::Tildes), false)
                } else {
                    (Fence::Outside, true)
                }
            },
            Fence::Inside(tag) => {
                if tag.begins(line) {
                    (Fence::Outside, false)
                } else {
                    (Fence::Inside(tag), false)
                }
            },
        }
    }

    /// Takes one line: returns the state after it, and whether the line
    /// may be read as a heading.
    pub fn advance(self, line: &str) -> (r: (Fence, bool))
        ensures
            r.0 == self.next(line@),
            r.1 == self.admits(line@),
    {
        let chars = chars_of(line);
        self.advance_chars(&chars)
    }
}

} // verus!
