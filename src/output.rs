//! The output router of one process: it takes the events of the process's
//! two streams in the order they arrive and turns them into log lines.

use crate::log::{error_text, line_text, output, color_of, DisplayOpts, LogLine, LogOpt};
use crate::stream::{PipeError, PipedLine};
use vstd::prelude::*;

verus! {

/// How the lines of one process type are logged.
pub struct Output {
    /// Position of the process type, which picks its colour.
    pub index: usize,
    pub opts: LogOpt,
}

/// Which of a process's two streams, stdout (0) and stderr (1), are still watched.
pub struct StreamWatch {
    pub stdout_open: bool,
    pub stderr_open: bool,
}

/// What the router does with one received event.
#[derive(Debug)]
pub enum Routed {
    /// Log this line of output.
    Print(String),
    /// Log this error; the stream goes on.
    Report(PipeError),
    /// The stream has ended: stop watching it.
    Closed,
}

impl StreamWatch {
    /// Both streams watched.
    pub fn new() -> (r: StreamWatch)
        ensures
            r.stdout_open && r.stderr_open,
    {
        StreamWatch { stdout_open: true, stderr_open: true }
    }

    /// True once both streams have ended: the router is done.
    pub fn is_done(&self) -> (r: bool)
        ensures
            r == (!self.stdout_open && !self.stderr_open),
    {
        !self.stdout_open && !self.stderr_open
    }

    /// Takes one event of stream `stream`, or `None` when waiting on that
    /// stream failed, which abandons it as an end would.
    pub fn route(&mut self, stream: usize, received: Option<Result<PipedLine, PipeError>>) -> (r: Routed)
        requires
            stream < 2,
        ensures
            match received {
                Some(Ok(PipedLine::Line(s))) => r == Routed::Print(s) && *final(self) == *old(self),
                Some(Err(e)) => r == Routed::Report(e) && *final(self) == *old(self),
                _ => r == Routed::Closed && (if stream == 0 {
                    !final(self).stdout_open && final(self).stderr_open == old(self).stderr_open
                } else {
                    !final(self).stderr_open && final(self).stdout_open == old(self).stdout_open
                }),
            },
    {
        match received {
            Some(Ok(PipedLine::Line(s))) => Routed::Print(s),
            Some(Err(e)) => Routed::Report(e),
            _ => {
                if stream == 0 {
                    self.stdout_open = false;
                } else {
                    self.stderr_open = false;
                }
                Routed::Closed
            },
        }
    }
}

impl Output {
    /// The router of the process type at `index`: coloured lines, laid out as `opts` says.
    pub fn new(index: usize, opts: DisplayOpts) -> (r: Output)
        ensures
            r.index == index,
            r.opts == (LogOpt { is_color: true, padding: opts.padding, is_timestamp: opts.is_timestamp }),
    {
        Output {
            index,
            opts: LogOpt { is_color: true, padding: opts.padding, is_timestamp: opts.is_timestamp },
        }
    }

    /// The log line for a line of output of `proc_name`.
    pub fn line(&self, proc_name: &str, content: &str) -> (r: LogLine)
        ensures
            r.text@ == line_text(proc_name@, self.opts.padding as nat, content@),
            r.color == color_of(Some(self.index), self.opts.is_color),
            r.timestamp == self.opts.is_timestamp,
    {
        output(proc_name, content, Some(self.index), &self.opts)
    }

    /// The log line for an error of `proc_name`, `err` being its debug text.
    pub fn error_line(&self, proc_name: &str, err: &str) -> (r: LogLine)
        ensures
            r.text@ == line_text(proc_name@, self.opts.padding as nat, error_text(err@)),
            r.color == color_of(Some(self.index), self.opts.is_color),
            r.timestamp == self.opts.is_timestamp,
    {
        let mut content = "error: ".to_string();
        proof {
            reveal_strlit("error: ");
        }
        content.append(err);
        output(proc_name, content.as_str(), Some(self.index), &self.opts)
    }
}

} // verus!
