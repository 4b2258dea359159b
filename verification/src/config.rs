//! What a rendering is configured by, and how a configuration is put
//! together from the values of the command line.
use std::path::PathBuf;
use vstd::prelude::*;
use crate::text::chars_of;

verus! {

#[verifier::external_type_specification]
#[verifier::external_body]
pub struct ExPathBuf(PathBuf);

/// Where the document is read from.
pub enum InputFile {
    Path(PathBuf),
    StdIn,
}

/// The path that `PathBuf::from` makes of a text.
pub uninterp spec fn path_of(text: Seq<char>) -> PathBuf;

/// Makes a path of a text.
///
/// Trusted: stands for `PathBuf::from` on a string slice, which copies the
/// text into a new path. The path is a function of the text and is only
/// named.
#[verifier::external_body]
pub(crate) fn path_from(text: &str) -> (path: PathBuf)
    ensures
        path == path_of(text@),
{
    PathBuf::from(text)
}

/// The input that an argument of the command line names: the standard
/// input for a single hyphen, else the file at the path that the argument
/// spells.
pub open spec fn input_of(arg: Seq<char>) -> InputFile {
    if arg == seq!['-'] {
        InputFile::StdIn
    } else {
        InputFile::Path(path_of(arg))
    }
}

impl InputFile {
    /// Reads the argument that names the input.
    pub fn from_arg(arg: &str) -> (input: InputFile)
        ensures
            input == input_of(arg@),
    {
        let chars = chars_of(arg);
        if chars.len() == 1 && chars[0] == '-' {
            assert(arg@ == seq!['-']);
            InputFile::StdIn
        } else {
            InputFile::Path(path_from(arg))
        }
    }

    /// Whether the document comes from a named file.
    pub fn is_file(&self) -> (b: bool)
        ensures
            b == (self is Path),
    {
        match self {
            InputFile::Path(_) => true,
            _ => false,
        }
    }
}

/// What follows the list in the output.
#[derive(PartialEq, Eq, Structural)]
pub enum Inline {
    /// The list alone.
    ListOnly,
    /// The list, then the whole document.
    Inline,
    /// The document is to be rewritten in place; nothing follows.
    InlineAndReplace,
}

/// Why a command line gives no configuration.
#[derive(Clone, Copy, PartialEq, Eq, Debug, Structural)]
pub enum ConfigError {
    /// No input is named.
    MissingInput,
    /// Replacing is asked for without inline mode.
    ReplaceWithoutInline,
    /// Replacing is asked for while the document comes from the standard
    /// input.
    ReplaceFromStdIn,
}

/// The values of a command line, before defaults are filled in.
pub struct Options {
    /// The first free argument: what names the input.
    pub input: Option<String>,
    pub bullet: Option<String>,
    pub indent: Option<usize>,
    pub max_depth: Option<usize>,
    pub min_depth: Option<usize>,
    pub header: Option<String>,
    pub no_link: bool,
    /// Whether the header is left out, whatever `header` holds.
    pub no_header: bool,
    pub inline: bool,
    pub replace: bool,
}

impl Options {
    /// Whether the input named is the standard input.
    pub open spec fn reads_stdin(&self) -> bool {
        self.input matches Some(arg) && arg@ == seq!['-']
    }

    /// What is wrong with these values, if anything. A missing input is
    /// found first.
    pub open spec fn fault(&self) -> Option<ConfigError> {
        if self.input is None {
            Some(ConfigError::MissingInput)
        } else if self.replace && !self.inline {
            Some(ConfigError::ReplaceWithoutInline)
        } else if self.replace && self.reads_stdin() {
            Some(ConfigError::ReplaceFromStdIn)
        } else {
            None
        }
    }

    /// The output mode that the two switches ask for.
    pub open spec fn mode(&self) -> Inline {
        if self.replace {
            Inline::InlineAndReplace
        } else if self.inline {
            Inline::Inline
        } else {
            Inline::ListOnly
        }
    }

    /// The header of the configuration: none where it is switched off,
    /// else the one given or the default.
    pub open spec fn header_text(&self) -> Option<Seq<char>> {
        if self.no_header {
            None
        } else {
            match self.header {
                Some(header) => Some(header@),
                None => Some("## Table of Contents"@),
            }
        }
    }
}

/// The settings of one rendering.
pub struct Config {
    pub input_file: InputFile,
    /// The text that starts every entry of the list.
    pub bullet: String,
    /// How many spaces one level of nesting is indented by.
    pub indent: usize,
    /// The deepest headings listed; all depths if absent.
    pub max_depth: Option<usize>,
    /// The shallowest headings listed, which are not indented.
    pub min_depth: usize,
    /// The line printed above the list, if any.
    pub header: Option<String>,
    /// Whether entries are plain titles instead of links.
    pub no_link: bool,
    pub inline: Inline,
}

impl Config {
    /// Whether headings of depth `depth` are listed.
    pub open spec fn includes(&self, depth: nat) -> bool {
        self.min_depth <= depth && (self.max_depth matches Some(max) ==> depth <= max)
    }

    /// Tells whether headings of depth `depth` are listed.
    pub fn lists(&self, depth: usize) -> (b: bool)
        ensures
            b == self.includes(depth as nat),
    {
        depth >= self.min_depth && match self.max_depth {
            Some(max) => depth <= max,
            None => true,
        }
    }
}

impl Config {
    /// Builds the configuration that a command line asks for, with the
    /// defaults where it is silent, or says what is wrong with it.
    pub fn from_options(options: Options) -> (r: Result<Config, ConfigError>)
        ensures
            match r {
                Err(e) => options.fault() == Some(e),
                Ok(c) => {
                    &&& options.fault() is None
                    &&& c.input_file == input_of(options.input->0@)
                    &&& c.bullet@ == match options.bullet {
                        Some(bullet) => bullet@,
                        None => "1."@,
                    }
                    &&& c.indent == match options.indent {
                        Some(indent) => indent,
                        None => 4,
                    }
                    &&& c.max_depth == options.max_depth
                    &&& c.min_depth == match options.min_depth {
                        Some(depth) => depth,
                        None => 0,
                    }
                    &&& match c.header {
                        Some(header) => options.header_text() == Some(header@),
                        None => options.header_text() is None,
                    }
                    &&& c.no_link == options.no_link
                    &&& c.inline == options.mode()
                },
            },
    {
        let defaults = Config::default();
        let input_file = match &options.input {
            Some(arg) => InputFile::from_arg(arg.as_str()),
            None => {
                return Err(ConfigError::MissingInput);
            },
        };
        let inline = if options.replace {
            if !options.inline {
                return Err(ConfigError::ReplaceWithoutInline);
            }
            if !input_file.is_file() {
                return Err(ConfigError::ReplaceFromStdIn);
            }
            Inline::InlineAndReplace
        } else if options.inline {
            Inline::Inline
        } else {
            Inline::ListOnly
        };
        let header = if options.no_header {
            None
        } else {
            match options.header {
                Some(header) => Some(header),
                None => defaults.header,
            }
        };
        Ok(
            Config {
                input_file,
                bullet: match options.bullet {
                    Some(bullet) => bullet,
                    None => defaults.bullet,
                },
                indent: match options.indent {
                    Some(indent) => indent,
                    None => defaults.indent,
                },
                max_depth: match options.max_depth {
                    Some(depth) => Some(depth),
                    None => defaults.max_depth,
                },
                min_depth: match options.min_depth {
                    Some(depth) => depth,
                    None => defaults.min_depth,
                },
                header,
                no_link: options.no_link,
                inline,
            },
        )
    }
}

impl Default for Config {
    fn default() -> (c: Config)
        ensures
            c.input_file is StdIn,
            c.bullet@ == "1."@,
            c.indent == 4,
            c.max_depth is None,
            c.min_depth == 0,
            c.header matches Some(h) && h@ == "## Table of Contents"@,
            !c.no_link,
            c.inline == Inline::ListOnly,
    {
        Config {
            input_file: InputFile::StdIn,
            bullet: "1.".to_owned(),
            indent: 4,
            max_depth: None,
            min_depth: 0,
            no_link: false,
            header: Some("## Table of Contents".to_owned()),
            inline: Inline::ListOnly,
        }
    }
}

} // verus!
