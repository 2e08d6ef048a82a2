//! Layout of the supervisor's log lines: `<name padded> | <content>`, with a
//! colour chosen by process type and an optional timestamp in front.

use vstd::prelude::*;
use vstd::string::*;

verus! {

/// Number of colours that log lines cycle through.
pub const COLOR_COUNT: usize = 12;

/// How log lines of one supervisor run look.
#[derive(Clone, Copy, Debug, PartialEq, Eq, Structural)]
pub struct DisplayOpts {
    /// Width of the name column.
    pub padding: usize,
    pub is_timestamp: bool,
}

impl Default for DisplayOpts {
    fn default() -> (r: DisplayOpts)
        ensures
            r.padding == 0,
            r.is_timestamp,
    {
        DisplayOpts { padding: 0, is_timestamp: true }
    }
}

/// How one log line looks.
#[derive(Clone, Copy, Debug, PartialEq, Eq, Structural)]
pub struct LogOpt {
    pub is_color: bool,
    pub padding: usize,
    pub is_timestamp: bool,
}

/// A log line ready to print: the colour slot, if coloured, the text, and
/// whether the time is to be put in front of it.
pub struct LogLine {
    pub color: Option<usize>,
    pub text: String,
    pub timestamp: bool,
}

/// `name` padded with spaces to `width` characters.
pub open spec fn padded(name: Seq<char>, width: nat) -> Seq<char> {
    if name.len() >= width {
        name
    } else {
        name + Seq::new((width - name.len()) as nat, |i: int| ' ')
    }
}

/// The text of a log line.
pub open spec fn line_text(name: Seq<char>, width: nat, content: Seq<char>) -> Seq<char> {
    padded(name, width) + seq![' ', '|', ' '] + content
}

/// The content of a log line that reports an error.
pub open spec fn error_text(err: Seq<char>) -> Seq<char> {
    seq!['e', 'r', 'r', 'o', 'r', ':', ' '] + err
}

/// The colour slot of a process type, when lines are coloured.
pub open spec fn color_of(index: Option<usize>, is_color: bool) -> Option<usize> {
    if is_color {
        Some(
            (match index {
                Some(i) => i,
                None => 0,
            }) % COLOR_COUNT,
        )
    } else {
        None
    }
}

fn pad_name(name: &str, width: usize) -> (r: String)
    ensures
        r@ == padded(name@, width as nat),
{
    let mut s = name.to_string();
    let n = name.unicode_len();
    let space = " ";
    proof {
        reveal_strlit(" ");
    }
    if n >= width {
        return s;
    }
    let mut k = n;
    while k < width
        invariant
            n == name@.len(),
            n <= k <= width,
            space@ == seq![' '],
            s@ == name@ + Seq::new((k - n) as nat, |i: int| ' '),
        decreases width - k,
    {
        s.append(space);
        assert(Seq::new((k + 1 - n) as nat, |i: int| ' ') == Seq::new((k - n) as nat, |i: int| ' ').push(' '));
        k = k + 1;
    }
    s
}

/// Lays out a line of output of `proc_name`.
pub fn output(proc_name: &str, content: &str, index: Option<usize>, opt: &LogOpt) -> (r: LogLine)
    ensures
        r.text@ == line_text(proc_name@, opt.padding as nat, content@),
        r.color == color_of(index, opt.is_color),
        r.timestamp == opt.is_timestamp,
{
    let mut text = pad_name(proc_name, opt.padding);
    let bar = " | ";
    proof {
        reveal_strlit(" | ");
    }
    text.append(bar);
    text.append(content);
    let color = if opt.is_color {
        let i = match index {
            Some(i) => i,
            None => 0,
        };
        Some(i % COLOR_COUNT)
    } else {
        None
    };
    LogLine { color, text, timestamp: opt.is_timestamp }
}

/// Lays out a line that reports an error of `proc_name`, `err` being the
/// error's debug text. Without a width the name column is the name's length
/// in bytes plus one.
pub fn error(proc_name: &str, err: &str, padding: Option<usize>, opt: &LogOpt) -> (r: LogLine)
    requires
        padding is None ==> proc_name.spec_bytes().len() < usize::MAX,
    ensures
        r.text@ == line_text(
            proc_name@,
            match padding {
                Some(p) => p as nat,
                None => proc_name.spec_bytes().len() + 1,
            },
            error_text(err@),
        ),
        r.color == color_of(None, opt.is_color),
        r.timestamp == opt.is_timestamp,
{
    let mut content = "error: ".to_string();
    proof {
        reveal_strlit("error: ");
    }
    content.append(err);
    let width = match padding {
        Some(p) => p,
        None => proc_name.len() + 1,
    };
    let remade = LogOpt { is_color: opt.is_color, padding: width, is_timestamp: opt.is_timestamp };
    output(proc_name, content.as_str(), None, &remade)
}

} // verus!
