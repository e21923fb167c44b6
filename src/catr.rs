//! The `cat`-style printer: its configuration and the decisions around each
//! source it reads.
use vstd::prelude::*;
use crate::numbering::Numbering;

verus! {

/// The name that stands for standard input.
pub open spec fn stdin_name() -> Seq<char> {
    seq!['-']
}

/// The sources to print, in order, and how to number their lines.
pub struct Config {
    pub files: Vec<String>,
    pub number_lines: bool,
    pub number_nonblank_lines: bool,
}

/// Why a configuration was refused.
#[derive(Clone, Copy, Debug, PartialEq, Eq, Structural)]
pub enum ConfigError {
    /// Numbering every line and numbering non-blank lines were both asked for.
    ConflictingNumbering,
}

/// The numbering mode that the two flags select.
pub open spec fn numbering_of(number_lines: bool, number_nonblank_lines: bool) -> Numbering {
    if number_lines {
        Numbering::All
    } else if number_nonblank_lines {
        Numbering::NonBlank
    } else {
        Numbering::Plain
    }
}

impl Config {
    /// At least one source, and at most one numbering flag.
    pub open spec fn wf(&self) -> bool {
        &&& self.files.len() > 0
        &&& !(self.number_lines && self.number_nonblank_lines)
    }

    /// A configuration for `files` (standard input alone when there are
    /// none), refused when both numbering flags are set.
    pub fn new(files: Vec<String>, number_lines: bool, number_nonblank_lines: bool) -> (r: Result<
        Config,
        ConfigError,
    >)
        ensures
            match r {
                Ok(c) => {
                    &&& !(number_lines && number_nonblank_lines)
                    &&& c.wf()
                    &&& c.number_lines == number_lines
                    &&& c.number_nonblank_lines == number_nonblank_lines
                    &&& files.len() == 0 ==> c.files.deep_view() == seq![stdin_name()]
                    &&& files.len() > 0 ==> c.files.deep_view() == files.deep_view()
                },
                Err(e) => number_lines && number_nonblank_lines && e
                    == ConfigError::ConflictingNumbering,
            },
    {
        if number_lines && number_nonblank_lines {
            return Err(ConfigError::ConflictingNumbering);
        }
        let sources = if files.len() == 0 {
            stdin_only()
        } else {
            files
        };
        Ok(Config { files: sources, number_lines, number_nonblank_lines })
    }

    /// The numbering mode of this configuration.
    pub fn numbering(&self) -> (r: Numbering)
        ensures
            r == numbering_of(self.number_lines, self.number_nonblank_lines),
    {
        if self.number_lines {
            Numbering::All
        } else if self.number_nonblank_lines {
            Numbering::NonBlank
        } else {
            Numbering::Plain
        }
    }
}

/// The source list that names standard input alone.
pub fn stdin_only() -> (r: Vec<String>)
    ensures
        r.len() == 1,
        r.deep_view() == seq![stdin_name()],
{
    proof {
        reveal_strlit("-");
    }
    let mut v: Vec<String> = Vec::new();
    let s = "-".to_owned();
    assert(s@ =~= stdin_name());
    v.push(s);
    assert(v.deep_view()[0] == v@[0]@);
    assert(v.deep_view() =~= seq![stdin_name()]);
    v
}

/// Where the lines of a named source come from.
#[derive(Debug, PartialEq, Eq)]
pub enum Input {
    Stdin,
    File(String),
}

/// The input that `name` denotes: standard input for `-`, else the file at
/// that path.
pub fn input_for(name: &str) -> (r: Input)
    ensures
        name@ == stdin_name() ==> r == Input::Stdin,
        name@ != stdin_name() ==> (r matches Input::File(p) && p@ == name@),
{
    if name.unicode_len() == 1 && name.get_char(0) == '-' {
        assert(name@ =~= stdin_name());
        Input::Stdin
    } else {
        Input::File(name.to_owned())
    }
}

/// The report for a source that could not be opened: its name and the cause.
pub fn open_failure_message(name: &str, cause: &str) -> (r: String)
    ensures
        r@ == "Failed to open "@ + name@ + ": "@ + cause@,
{
    let mut r = String::new();
    r.append("Failed to open ");
    r.append(name);
    r.append(": ");
    r.append(cause);
    assert(r@ =~= "Failed to open "@ + name@ + ": "@ + cause@);
    r
}

} // verus!
