//! The `head`-style printer: its configuration and the truncation of each
//! source to its leading lines or bytes.
use vstd::prelude::*;
use crate::catr::{stdin_name, stdin_only};
use crate::count::{is_positive_count, numeral_value, parse_positive_int};

verus! {

/// How many leading lines are printed when no count is given.
pub const DEFAULT_LINES: usize = 10;

/// The sources to print, and how much of each.
pub struct Config {
    pub files: Vec<String>,
    /// Leading lines to print.
    pub lines: usize,
    /// Leading bytes to print; when present it takes the place of `lines`.
    pub bytes: Option<usize>,
}

/// Why a configuration was refused; each holds the text that was given.
#[derive(Debug, PartialEq, Eq)]
pub enum ConfigError {
    InvalidLines(String),
    InvalidBytes(String),
}

impl Config {
    /// At least one source, and counts greater than zero.
    pub open spec fn wf(&self) -> bool {
        &&& self.files.len() > 0
        &&& self.lines > 0
        &&& self.bytes is Some ==> self.bytes->Some_0 > 0
    }

    /// A configuration for `files` (standard input alone when there are
    /// none), with the line and byte counts read from their text.
    ///
    /// The line count is read first: when both are invalid, the line count is
    /// the one reported.
    pub fn new(files: Vec<String>, lines: Option<&str>, bytes: Option<&str>) -> (r: Result<
        Config,
        ConfigError,
    >)
        ensures
            match r {
                Ok(c) => {
                    &&& c.wf()
                    &&& files.len() == 0 ==> c.files.deep_view() == seq![stdin_name()]
                    &&& files.len() > 0 ==> c.files.deep_view() == files.deep_view()
                    &&& lines is None ==> c.lines == DEFAULT_LINES
                    &&& lines is Some ==> is_positive_count(lines->Some_0@) && c.lines as nat
                        == numeral_value(lines->Some_0@)
                    &&& bytes is None ==> c.bytes is None
                    &&& bytes is Some ==> is_positive_count(bytes->Some_0@) && c.bytes is Some
                        && c.bytes->Some_0 as nat == numeral_value(bytes->Some_0@)
                },
                Err(ConfigError::InvalidLines(s)) => lines is Some && !is_positive_count(
                    lines->Some_0@,
                ) && s@ == lines->Some_0@,
                Err(ConfigError::InvalidBytes(s)) => (lines is Some ==> is_positive_count(
                    lines->Some_0@,
                )) && bytes is Some && !is_positive_count(bytes->Some_0@) && s@ == bytes->Some_0@,
            },
    {
        let line_count = match lines {
            None => DEFAULT_LINES,
            Some(l) => match parse_positive_int(l) {
                Ok(n) => n,
                Err(s) => {
                    return Err(ConfigError::InvalidLines(s));
                },
            },
        };
        let byte_count = match bytes {
            None => None,
            Some(b) => match parse_positive_int(b) {
                Ok(n) => Some(n),
                Err(s) => {
                    return Err(ConfigError::InvalidBytes(s));
                },
            },
        };
        let sources = if files.len() == 0 {
            stdin_only()
        } else {
            files
        };
        Ok(Config { files: sources, lines: line_count, bytes: byte_count })
    }
}

/// The newline byte.
pub open spec fn is_newline(b: u8) -> bool {
    b == 10
}

/// How many newline bytes `data` holds.
pub open spec fn newline_count(data: Seq<u8>) -> nat
    decreases data.len(),
{
    if data.len() == 0 {
        0
    } else {
        newline_count(data.drop_last()) + if is_newline(data.last()) {
            1nat
        } else {
            0nat
        }
    }
}

/// `k` is the length of the first `n` lines of `data`: the position just
/// after its `n`-th newline, or all of `data` when it has fewer.
pub open spec fn is_lines_prefix_len(data: Seq<u8>, n: nat, k: nat) -> bool {
    &&& k <= data.len()
    &&& newline_count(data) < n ==> k == data.len()
    &&& newline_count(data) >= n ==> {
        &&& 0 < k
        &&& newline_count(data.take(k as int)) == n
        &&& is_newline(data[k - 1])
    }
}

proof fn lemma_newline_count_push(data: Seq<u8>, i: int)
    requires
        0 <= i < data.len(),
    ensures
        newline_count(data.take(i + 1)) == newline_count(data.take(i)) + if is_newline(data[i]) {
            1nat
        } else {
            0nat
        },
{
    assert(data.take(i + 1).drop_last() =~= data.take(i));
}

/// The length of the first `n` lines of `data`.
pub fn lines_prefix_len(data: &Vec<u8>, n: usize) -> (k: usize)
    requires
        n > 0,
    ensures
        is_lines_prefix_len(data@, n as nat, k as nat),
{
    let mut i: usize = 0;
    let mut seen: usize = 0;
    while i < data.len()
        invariant
            i <= data.len(),
            seen == newline_count(data@.take(i as int)),
            seen < n,
        decreases data.len() - i,
    {
        proof {
            lemma_newline_count_push(data@, i as int);
        }
        if data[i] == 10 {
            seen = seen + 1;
            if seen == n {
                proof {
                    lemma_newline_count_grows(data@, i as int + 1, data.len() as int);
                    assert(data@.take(data.len() as int) =~= data@);
                }
                return i + 1;
            }
        }
        i = i + 1;
    }
    assert(data@.take(i as int) =~= data@);
    i
}

proof fn lemma_newline_count_grows(data: Seq<u8>, i: int, j: int)
    requires
        0 <= i <= j <= data.len(),
    ensures
        newline_count(data.take(i)) <= newline_count(data.take(j)),
    decreases j - i,
{
    if i < j {
        lemma_newline_count_grows(data, i, j - 1);
        lemma_newline_count_push(data, j - 1);
    }
}

/// What is printed of one source: its first `bytes` bytes when a byte count
/// is set, else its first `lines` lines, newlines included; all of it when it
/// is shorter.
pub fn head(config: &Config, data: &Vec<u8>) -> (r: Vec<u8>)
    requires
        config.wf(),
    ensures
        config.bytes is Some ==> r@ == data@.take(
            if config.bytes->Some_0 < data.len() {
                config.bytes->Some_0 as int
            } else {
                data.len() as int
            },
        ),
        config.bytes is None ==> exists|k: nat|
            is_lines_prefix_len(data@, config.lines as nat, k) && r@ == data@.take(k as int),
{
    let k = match config.bytes {
        Some(b) => if b < data.len() {
            b
        } else {
            data.len()
        },
        None => lines_prefix_len(data, config.lines),
    };
    let mut r: Vec<u8> = Vec::new();
    let mut i: usize = 0;
    while i < k
        invariant
            k <= data.len(),
            i <= k,
            r@ =~= data@.take(i as int),
        decreases k - i,
    {
        r.push(data[i]);
        i = i + 1;
    }
    r
}

} // verus!
