//! Reading what a running command writes.

use vstd::prelude::*;

use crate::bazel::{RunUpdate, RunUpdateView};
use crate::text::Text;

verus! {

/// One of the two streams of a command.
#[derive(Debug, Clone, Copy, PartialEq, Eq, Structural)]
pub enum Stream {
    Stdout,
    Stderr,
}

/// What reading a line from a stream gave: a line, the end of the stream, or an
/// error.
pub type ReadLine = Result<Option<String>, String>;

/// The line that was read, if it was one.
pub open spec fn line_read(read: ReadLine) -> Option<Text> {
    match read {
        Ok(Some(line)) => Some(line@),
        _ => None,
    }
}

/// A read from a stream of a command: the stream, and the line that was read, if it
/// was one.
pub type Read = (Stream, Option<Text>);

/// What a read leads to: the report of the line, if there is one.
pub open spec fn report(line: Option<Text>) -> Option<RunUpdateView> {
    match line {
        Some(line) => Some(RunUpdateView::Line(line)),
        None => None,
    }
}

/// What a report, if there is one, holds.
pub open spec fn report_view(update: Option<RunUpdate>) -> Option<RunUpdateView> {
    match update {
        Some(update) => Some(update@),
        None => None,
    }
}

/// Which streams of a running command have ended.
#[derive(Debug, Clone, Copy, PartialEq, Eq, Structural)]
pub struct RunStreams {
    pub stdout_done: bool,
    pub stderr_done: bool,
}

impl RunStreams {
    /// Nothing has ended yet.
    pub open spec fn both_open() -> RunStreams {
        RunStreams { stdout_done: false, stderr_done: false }
    }

    /// The given stream has ended.
    pub open spec fn done(self, stream: Stream) -> bool {
        match stream {
            Stream::Stdout => self.stdout_done,
            Stream::Stderr => self.stderr_done,
        }
    }

    /// The same, but that the given stream has ended.
    pub open spec fn without(self, stream: Stream) -> RunStreams {
        match stream {
            Stream::Stdout => RunStreams { stdout_done: true, ..self },
            Stream::Stderr => RunStreams { stderr_done: true, ..self },
        }
    }

    /// The streams after a read: the one it was from has ended if it gave no line.
    pub open spec fn after(self, read: Read) -> RunStreams {
        match read.1 {
            Some(_) => self,
            None => self.without(read.0),
        }
    }

    /// The streams of a command that has just started.
    pub fn new() -> (r: Self)
        ensures
            r == RunStreams::both_open(),
    {
        RunStreams { stdout_done: false, stderr_done: false }
    }

    /// Whether the given stream is still to be read.
    pub fn is_open(&self, stream: Stream) -> (r: bool)
        ensures
            r == !self.done(stream),
    {
        match stream {
            Stream::Stdout => !self.stdout_done,
            Stream::Stderr => !self.stderr_done,
        }
    }

    /// Whether there is nothing more to read.
    pub fn all_done(&self) -> (r: bool)
        ensures
            r == (forall|stream: Stream| self.done(stream)),
    {
        let r = self.stdout_done && self.stderr_done;
        proof {
            if !self.stdout_done {
                assert(!self.done(Stream::Stdout));
            }
            if !self.stderr_done {
                assert(!self.done(Stream::Stderr));
            }
        }
        r
    }

    /// Takes what reading from a stream gave. A line is reported; the end of the
    /// stream, or an error, ends the reading of that stream.
    pub fn receive(&mut self, stream: Stream, read: ReadLine) -> (r: Option<RunUpdate>)
        ensures
            *final(self) == old(self).after((stream, line_read(read))),
            report_view(r) == report(line_read(read)),
    {
        match read {
            Ok(Some(line)) => Some(RunUpdate::Line(line)),
            _ => {
                match stream {
                    Stream::Stdout => {
                        self.stdout_done = true;
                    },
                    Stream::Stderr => {
                        self.stderr_done = true;
                    },
                }
                None
            },
        }
    }
}

/// The exit code of a command, if it has one and it could be found out.
pub open spec fn exit_code(status: Result<Option<i32>, String>) -> Option<i32> {
    match status {
        Ok(code) => code,
        Err(_) => None,
    }
}

/// The last report of a command: its exit code, if it has one and it could be
/// found out.
pub fn finished(status: Result<Option<i32>, String>) -> (r: RunUpdate)
    ensures
        r@ == RunUpdateView::Exited(exit_code(status)),
{
    match status {
        Ok(code) => RunUpdate::Exited(code),
        Err(_) => RunUpdate::Exited(None),
    }
}

/// The only report of a command that did not start: why it did not.
pub fn not_started(error: String) -> (r: RunUpdate)
    ensures
        r@ == RunUpdateView::SpawnFailed(error@),
{
    RunUpdate::SpawnFailed(error)
}

/// The streams after the given reads.
pub open spec fn streams_after(reads: Seq<Read>) -> RunStreams
    decreases reads.len(),
{
    if reads.len() == 0 {
        RunStreams::both_open()
    } else {
        streams_after(reads.drop_last()).after(reads.last())
    }
}

/// The reads of a command that is read to its end: each is from a stream that has not
/// ended, and after them both have.
pub open spec fn is_run(reads: Seq<Read>) -> bool {
    &&& forall|i: int|
        0 <= i < reads.len() ==> !streams_after(reads.take(i)).done((#[trigger] reads[i]).0)
    &&& forall|stream: Stream| streams_after(reads).done(stream)
}

/// What the reads from a stream gave, in their order.
pub open spec fn reads_from(reads: Seq<Read>, stream: Stream) -> Seq<Option<Text>>
    decreases reads.len(),
{
    if reads.len() == 0 {
        Seq::empty()
    } else {
        let before = reads_from(reads.drop_last(), stream);
        if reads.last().0 == stream {
            before.push(reads.last().1)
        } else {
            before
        }
    }
}

/// The lines that were read from a stream, in their order.
pub open spec fn lines_from(reads: Seq<Read>, stream: Stream) -> Seq<Text>
    decreases reads.len(),
{
    if reads.len() == 0 {
        Seq::empty()
    } else {
        let before = lines_from(reads.drop_last(), stream);
        match reads.last() {
            (from, Some(line)) => if from == stream {
                before.push(line)
            } else {
                before
            },
            (_, None) => before,
        }
    }
}

/// The reports of the lines that were read, in their order.
pub open spec fn line_reports(reads: Seq<Read>) -> Seq<RunUpdateView>
    decreases reads.len(),
{
    if reads.len() == 0 {
        Seq::empty()
    } else {
        let before = line_reports(reads.drop_last());
        match report(reads.last().1) {
            Some(update) => before.push(update),
            None => before,
        }
    }
}

/// All reports of a command that was started: those of the lines that were read, and
/// the one of its end.
pub open spec fn reports(reads: Seq<Read>, status: Result<Option<i32>, String>) -> Seq<
    RunUpdateView,
> {
    line_reports(reads).push(RunUpdateView::Exited(exit_code(status)))
}

/// What came of a command: it was started, and this was read from it and is how it
/// ended; or it was not, and this is why.
pub enum Outcome {
    Ended { reads: Seq<Read>, status: Result<Option<i32>, String> },
    NotStarted { error: Text },
}

/// All reports of a command.
pub open spec fn command_reports(outcome: Outcome) -> Seq<RunUpdateView> {
    match outcome {
        Outcome::Ended { reads, status } => reports(reads, status),
        Outcome::NotStarted { error } => seq![RunUpdateView::SpawnFailed(error)],
    }
}

/// `merged` is made of the items of `a` and of those of `b`, each of them once, and
/// those of either in their order.
pub open spec fn interleaves(merged: Seq<Text>, a: Seq<Text>, b: Seq<Text>) -> bool
    decreases merged.len(),
{
    if merged.len() == 0 {
        a.len() == 0 && b.len() == 0
    } else {
        let before = merged.drop_last();
        ||| a.len() > 0 && a.last() == merged.last() && interleaves(before, a.drop_last(), b)
        ||| b.len() > 0 && b.last() == merged.last() && interleaves(before, a, b.drop_last())
    }
}

/// A stream is read until it ends, and no longer: it is done if and only if one
/// of the reads from it gave no line.
pub proof fn stream_done_iff_ended(reads: Seq<Read>, stream: Stream)
    ensures
        streams_after(reads).done(stream) <==> exists|i: int|
            0 <= i < reads.len() && #[trigger] reads[i] == (stream, None::<Text>),
    decreases reads.len(),
{
    if reads.len() > 0 {
        let before = reads.drop_last();
        let last = reads.last();
        stream_done_iff_ended(before, stream);
        if streams_after(before).done(stream) {
            let i = choose|i: int|
                0 <= i < before.len() && #[trigger] before[i] == (stream, None::<Text>);
            assert(reads[i] == (stream, None::<Text>));
        }
        if last == (stream, None::<Text>) {
            assert(reads[reads.len() - 1] == last);
        }
        if exists|i: int| 0 <= i < reads.len() && #[trigger] reads[i] == (stream, None::<Text>) {
            let i = choose|i: int|
                0 <= i < reads.len() && #[trigger] reads[i] == (stream, None::<Text>);
            if i < before.len() {
                assert(before[i] == (stream, None::<Text>));
            }
        }
    }
}

} // verus!
