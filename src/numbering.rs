//! The line-numbering policy: which lines get a number, what the number is,
//! and how it is written in front of the line.
use vstd::prelude::*;

verus! {

/// Which output lines carry a number.
#[derive(Clone, Copy, Debug, PartialEq, Eq, Structural)]
pub enum Numbering {
    /// No line is numbered; lines are printed unchanged.
    Plain,
    /// Every line is numbered, blank ones included.
    All,
    /// Only lines that are not empty are numbered.
    NonBlank,
}

/// Width of the right-aligned field that a line number is written in.
pub const NUMBER_WIDTH: usize = 6;

/// The character of decimal digit `d` (for `d < 10`).
pub open spec fn digit_char(d: nat) -> char {
    seq!['0', '1', '2', '3', '4', '5', '6', '7', '8', '9'][d as int]
}

/// The decimal digits of `n`, most significant first, with no leading zeros.
pub open spec fn decimal_digits(n: nat) -> Seq<char>
    decreases n,
{
    if n < 10 {
        seq![digit_char(n)]
    } else {
        decimal_digits(n / 10).push(digit_char(n % 10))
    }
}

/// `k` spaces.
pub open spec fn spaces(k: nat) -> Seq<char> {
    Seq::new(k, |_i: int| ' ')
}

/// The prefix written before a line numbered `n`: the number right-aligned
/// in a field of `NUMBER_WIDTH` characters (wider when it has more digits),
/// then a tab.
pub open spec fn number_prefix(n: nat) -> Seq<char> {
    let d = decimal_digits(n);
    let pad: nat = if d.len() < NUMBER_WIDTH {
        (NUMBER_WIDTH - d.len()) as nat
    } else {
        0
    };
    spaces(pad) + d + seq!['\t']
}

/// Whether `line` gets a number under `mode`.
pub open spec fn is_numbered(mode: Numbering, line: Seq<char>) -> bool {
    mode == Numbering::All || (mode == Numbering::NonBlank && line.len() > 0)
}

/// How many of `lines` get a number under `mode`.
pub open spec fn numbered_count(mode: Numbering, lines: Seq<Seq<char>>) -> nat
    decreases lines.len(),
{
    if lines.len() == 0 {
        0
    } else {
        numbered_count(mode, lines.drop_last()) + if is_numbered(mode, lines.last()) {
            1nat
        } else {
            0nat
        }
    }
}

/// The output of one source: a numbered line carries one more than the
/// number of numbered lines before it in the same source; the others are
/// printed as they are.
pub open spec fn rendered_source(mode: Numbering, lines: Seq<Seq<char>>) -> Seq<Seq<char>> {
    Seq::new(
        lines.len(),
        |i: int|
            if is_numbered(mode, lines[i]) {
                number_prefix(numbered_count(mode, lines.take(i)) + 1) + lines[i]
            } else {
                lines[i]
            },
    )
}

/// The output of several sources in order, each numbered on its own.
pub open spec fn rendered_sources(mode: Numbering, sources: Seq<Seq<Seq<char>>>) -> Seq<
    Seq<Seq<char>>,
> {
    sources.map_values(|s: Seq<Seq<char>>| rendered_source(mode, s))
}

proof fn lemma_numbered_count_push(mode: Numbering, lines: Seq<Seq<char>>, i: int)
    requires
        0 <= i < lines.len(),
    ensures
        numbered_count(mode, lines.take(i + 1)) == numbered_count(mode, lines.take(i)) + if is_numbered(mode, lines[i]) {
            1nat
        } else {
            0nat
        },
{
    assert(lines.take(i + 1).drop_last() =~= lines.take(i));
}

proof fn lemma_numbered_count_bound(mode: Numbering, lines: Seq<Seq<char>>)
    ensures
        numbered_count(mode, lines) <= lines.len(),
    decreases lines.len(),
{
    if lines.len() > 0 {
        lemma_numbered_count_bound(mode, lines.drop_last());
    }
}

/// Without numbering, the output of a source is its lines, unchanged.
pub proof fn lemma_plain_keeps_lines(lines: Seq<Seq<char>>)
    ensures
        rendered_source(Numbering::Plain, lines) == lines,
{
    assert(rendered_source(Numbering::Plain, lines) =~= lines);
}

proof fn lemma_all_count(lines: Seq<Seq<char>>)
    ensures
        numbered_count(Numbering::All, lines) == lines.len(),
    decreases lines.len(),
{
    if lines.len() > 0 {
        lemma_all_count(lines.drop_last());
    }
}

/// When every line is numbered, the line at index `i` of a source carries
/// the number `i + 1`, blank or not.
pub proof fn lemma_all_lines_numbered_in_order(lines: Seq<Seq<char>>, i: int)
    requires
        0 <= i < lines.len(),
    ensures
        rendered_source(Numbering::All, lines)[i] == number_prefix((i + 1) as nat) + lines[i],
{
    lemma_all_count(lines.take(i));
}

proof fn lemma_none_numbered_count(mode: Numbering, lines: Seq<Seq<char>>)
    requires
        forall|k: int| 0 <= k < lines.len() ==> !is_numbered(mode, #[trigger] lines[k]),
    ensures
        numbered_count(mode, lines) == 0,
    decreases lines.len(),
{
    if lines.len() > 0 {
        lemma_none_numbered_count(mode, lines.drop_last());
    }
}

/// In a run over several sources, the first numbered line of every source
/// carries the number one, however many lines the sources before it had.
pub proof fn lemma_counter_restarts_per_source(
    mode: Numbering,
    sources: Seq<Seq<Seq<char>>>,
    i: int,
    j: int,
)
    requires
        0 <= i < sources.len(),
        0 <= j < sources[i].len(),
        is_numbered(mode, sources[i][j]),
        forall|k: int| 0 <= k < j ==> !is_numbered(mode, #[trigger] sources[i][k]),
    ensures
        rendered_sources(mode, sources)[i][j] == number_prefix(1) + sources[i][j],
{
    lemma_none_numbered_count(mode, sources[i].take(j));
}

/// The fixed-width prefix of the first line: five spaces, `1`, a tab.
pub proof fn lemma_first_prefix()
    ensures
        number_prefix(1) == seq![' ', ' ', ' ', ' ', ' ', '1', '\t'],
{
    assert(decimal_digits(1) =~= seq!['1']);
    assert(number_prefix(1) =~= seq![' ', ' ', ' ', ' ', ' ', '1', '\t']);
}

/// The character of one decimal digit.
fn digit_str(d: u64) -> (r: &'static str)
    requires
        d < 10,
    ensures
        r@ == seq![digit_char(d as nat)],
{
    proof {
        reveal_strlit("0");
        reveal_strlit("1");
        reveal_strlit("2");
        reveal_strlit("3");
        reveal_strlit("4");
        reveal_strlit("5");
        reveal_strlit("6");
        reveal_strlit("7");
        reveal_strlit("8");
        reveal_strlit("9");
    }
    match d {
        0 => "0",
        1 => "1",
        2 => "2",
        3 => "3",
        4 => "4",
        5 => "5",
        6 => "6",
        7 => "7",
        8 => "8",
        _ => "9",
    }
}

/// Appends the decimal digits of `n` to `out`.
fn push_decimal(out: &mut String, n: u64)
    ensures
        final(out)@ == old(out)@ + decimal_digits(n as nat),
    decreases n,
{
    if n >= 10 {
        push_decimal(out, n / 10);
    }
    out.append(digit_str(n % 10));
    proof {
        if n >= 10 {
            assert(final(out)@ =~= old(out)@ + decimal_digits(n as nat));
        } else {
            assert(final(out)@ =~= old(out)@ + decimal_digits(n as nat));
        }
    }
}

/// The prefix written before the line numbered `n`.
pub fn format_number(n: u64) -> (r: String)
    ensures
        r@ == number_prefix(n as nat),
{
    let mut digits = String::new();
    push_decimal(&mut digits, n);
    let width = digits.as_str().unicode_len();
    let mut r = String::new();
    let mut k: usize = width;
    while k < NUMBER_WIDTH
        invariant
            width <= k <= if width < NUMBER_WIDTH { NUMBER_WIDTH } else { width },
            r@ =~= spaces((k - width) as nat),
        decreases NUMBER_WIDTH - k,
    {
        proof {
            reveal_strlit(" ");
        }
        r.append(" ");
        k = k + 1;
    }
    r.append(digits.as_str());
    proof {
        reveal_strlit("\t");
    }
    r.append("\t");
    assert(r@ =~= number_prefix(n as nat));
    r
}

/// The running line counter of one output stream.
///
/// `next` is the number that the next numbered line will carry; it starts at
/// one and goes back to one at the start of every source.
pub struct LineNumberer {
    pub mode: Numbering,
    pub next: u64,
}

impl LineNumberer {
    /// A counter for `mode`, ready for the first source.
    pub fn new(mode: Numbering) -> (r: LineNumberer)
        ensures
            r.mode == mode,
            r.next == 1,
    {
        LineNumberer { mode, next: 1 }
    }

    /// Starts a new source: numbering begins again at one, whatever came before.
    pub fn begin_source(&mut self)
        ensures
            final(self).mode == old(self).mode,
            final(self).next == 1,
    {
        self.next = 1;
    }

    /// Whether another line can be numbered without the counter overflowing.
    pub fn has_room(&self) -> (r: bool)
        ensures
            r == (self.next < u64::MAX),
    {
        self.next < u64::MAX
    }

    /// The output for the next line of the current source, and the counter
    /// advanced past it when it was numbered.
    pub fn render(&mut self, line: &str) -> (r: String)
        requires
            old(self).next < u64::MAX,
        ensures
            final(self).mode == old(self).mode,
            is_numbered(old(self).mode, line@) ==> {
                &&& r@ == number_prefix(old(self).next as nat) + line@
                &&& final(self).next == old(self).next + 1
            },
            !is_numbered(old(self).mode, line@) ==> {
                &&& r@ == line@
                &&& final(self).next == old(self).next
            },
    {
        let numbered = match self.mode {
            Numbering::Plain => false,
            Numbering::All => true,
            Numbering::NonBlank => !line.is_empty(),
        };
        if numbered {
            let mut r = format_number(self.next);
            r.append(line);
            self.next = self.next + 1;
            r
        } else {
            line.to_owned()
        }
    }

    /// Starts a new source and renders all of its lines.
    pub fn render_source(&mut self, lines: &Vec<String>) -> (r: Vec<String>)
        requires
            lines.len() < u64::MAX,
        ensures
            final(self).mode == old(self).mode,
            final(self).next == numbered_count(old(self).mode, lines.deep_view()) + 1,
            r.deep_view() == rendered_source(old(self).mode, lines.deep_view()),
    {
        self.begin_source();
        let ghost mode = self.mode;
        let ghost ls = lines.deep_view();
        let mut r: Vec<String> = Vec::new();
        let mut i: usize = 0;
        while i < lines.len()
            invariant
                self.mode == mode,
                ls == lines.deep_view(),
                lines.len() < u64::MAX,
                i <= lines.len(),
                self.next == numbered_count(mode, ls.take(i as int)) + 1,
                r.len() == i,
                forall|j: int| 0 <= j < i ==> (#[trigger] r@[j])@ == rendered_source(mode, ls)[j],
            decreases lines.len() - i,
        {
            proof {
                lemma_numbered_count_bound(mode, ls.take(i as int));
                lemma_numbered_count_push(mode, ls, i as int);
            }
            assert(lines@[i as int]@ == ls[i as int]);
            let out = self.render(lines[i].as_str());
            r.push(out);
            i = i + 1;
        }
        assert(ls.take(i as int) =~= ls);
        assert(r.deep_view() =~= rendered_source(mode, ls));
        r
    }
}

/// The output of one source under `mode`.
pub fn render_source(mode: Numbering, lines: &Vec<String>) -> (r: Vec<String>)
    requires
        lines.len() < u64::MAX,
    ensures
        r.deep_view() == rendered_source(mode, lines.deep_view()),
{
    let mut numberer = LineNumberer::new(mode);
    numberer.render_source(lines)
}

/// The output of several sources in order, through one counter that starts
/// again at every source.
pub fn render_sources(mode: Numbering, sources: &Vec<Vec<String>>) -> (r: Vec<Vec<String>>)
    requires
        forall|i: int| 0 <= i < sources.len() ==> (#[trigger] sources@[i]).len() < u64::MAX,
    ensures
        r.deep_view() == rendered_sources(mode, sources.deep_view()),
{
    let ghost ss = sources.deep_view();
    let mut numberer = LineNumberer::new(mode);
    let mut r: Vec<Vec<String>> = Vec::new();
    let mut i: usize = 0;
    while i < sources.len()
        invariant
            numberer.mode == mode,
            ss == sources.deep_view(),
            forall|k: int| 0 <= k < sources.len() ==> (#[trigger] sources@[k]).len() < u64::MAX,
            i <= sources.len(),
            r.len() == i,
            forall|j: int| 0 <= j < i ==> (#[trigger] r@[j]).deep_view() == rendered_source(mode, ss[j]),
        decreases sources.len() - i,
    {
        assert(sources@[i as int].deep_view() == ss[i as int]);
        let out = numberer.render_source(&sources[i]);
        r.push(out);
        i = i + 1;
    }
    assert(r.deep_view() =~= rendered_sources(mode, ss));
    r
}

} // verus!
