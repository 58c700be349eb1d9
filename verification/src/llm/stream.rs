//! The lines of a stream, and when it ends.

use crate::text::{contains, has_text, opt_view, trim, trimmed};
use vstd::prelude::*;

verus! {

/// How many faults of a stream are passed over.
pub const MAX_STREAM_ERRORS: u32 = 5;

/// The byte that ends a line.
pub const LINE_END: u8 = 10;

/// The place of the first line end, or the number of bytes where there is none.
pub open spec fn line_end(bytes: Seq<u8>) -> int
    decreases bytes.len(),
{
    if bytes.len() == 0 || bytes[0] == LINE_END {
        0
    } else {
        1 + line_end(bytes.drop_first())
    }
}

proof fn lemma_line_end(bytes: Seq<u8>)
    ensures
        0 <= line_end(bytes) <= bytes.len(),
        forall|i: int| 0 <= i < line_end(bytes) ==> #[trigger] bytes[i] != LINE_END,
        line_end(bytes) < bytes.len() ==> bytes[line_end(bytes)] == LINE_END,
    decreases bytes.len(),
{
    if bytes.len() > 0 && bytes[0] != LINE_END {
        lemma_line_end(bytes.drop_first());
        assert forall|i: int| 0 <= i < line_end(bytes) implies #[trigger] bytes[i] != LINE_END by {
            if i > 0 {
                assert(bytes.drop_first()[i - 1] == bytes[i]);
            }
        }
    }
}

proof fn lemma_line_end_is(bytes: Seq<u8>, at: int)
    requires
        0 <= at <= bytes.len(),
        forall|i: int| 0 <= i < at ==> #[trigger] bytes[i] != LINE_END,
        at < bytes.len() ==> bytes[at] == LINE_END,
    ensures
        line_end(bytes) == at,
{
    lemma_line_end(bytes);
    let end = line_end(bytes);
    if end < at {
        assert(bytes[end] != LINE_END);
    }
}

/// The bytes after the first line.
pub open spec fn after_line(bytes: Seq<u8>) -> Seq<u8> {
    bytes.skip(line_end(bytes) + 1)
}

/// The lines among the bytes that have an end, each with it.
pub open spec fn whole_lines(bytes: Seq<u8>) -> Seq<Seq<u8>>
    decreases bytes.len(),
    via whole_lines_end
{
    if line_end(bytes) >= bytes.len() {
        seq![]
    } else {
        seq![bytes.take(line_end(bytes) + 1)] + whole_lines(after_line(bytes))
    }
}

#[via_fn]
proof fn whole_lines_end(bytes: Seq<u8>) {
    lemma_line_end(bytes);
}

/// The bytes after the last line that has an end.
pub open spec fn part_line(bytes: Seq<u8>) -> Seq<u8>
    decreases bytes.len(),
    via part_line_end
{
    if line_end(bytes) >= bytes.len() {
        bytes
    } else {
        part_line(after_line(bytes))
    }
}

#[via_fn]
proof fn part_line_end(bytes: Seq<u8>) {
    lemma_line_end(bytes);
}

/// The text that bytes stand for, where what is no text is replaced.
pub uninterp spec fn lossy_text_of(bytes: Seq<u8>) -> Seq<char>;

/// Calls `String::from_utf8_lossy`: the bytes read as UTF-8, each part that is not UTF-8 replaced
/// by U+FFFD. The result depends on the bytes alone.
#[verifier::external_body]
pub(crate) fn lossy_text(bytes: &Vec<u8>) -> (r: String)
    ensures
        r@ == lossy_text_of(bytes@),
{
    String::from_utf8_lossy(bytes).into_owned()
}

/// What is read of a line of this text: the text without the space around it, with a line end,
/// or nothing where the line is blank.
pub open spec fn read_line(text: Seq<char>) -> Option<Seq<char>> {
    if trimmed(text).len() > 0 {
        Some(trimmed(text) + "\n"@)
    } else {
        None
    }
}

/// What is read of a line of this text.
pub fn line_of_text(text: &str) -> (r: Option<String>)
    ensures
        opt_view(r) == read_line(text@),
{
    let bare: String = trim(text);
    if bare.as_str().is_empty() {
        None
    } else {
        Some(bare.concat("\n"))
    }
}

/// The first of `lines` that is not blank, or `None`.
pub open spec fn first_text(lines: Seq<Seq<u8>>) -> Option<Seq<char>>
    decreases lines.len(),
{
    if lines.len() == 0 {
        None
    } else if read_line(lossy_text_of(lines[0])) is Some {
        read_line(lossy_text_of(lines[0]))
    } else {
        first_text(lines.drop_first())
    }
}

/// The bytes that are left when the first line that is not blank is taken, and the blank ones
/// before it.
pub open spec fn bytes_left(bytes: Seq<u8>) -> Seq<u8>
    decreases bytes.len(),
    via bytes_left_end
{
    if line_end(bytes) >= bytes.len() {
        bytes
    } else if read_line(lossy_text_of(bytes.take(line_end(bytes) + 1))) is Some {
        after_line(bytes)
    } else {
        bytes_left(after_line(bytes))
    }
}

#[via_fn]
proof fn bytes_left_end(bytes: Seq<u8>) {
    lemma_line_end(bytes);
}

/// What came of reading a line.
#[derive(Debug)]
pub enum LineOutcome {
    /// There is more to come.
    More,
    /// The answer is complete.
    Complete,
    /// The line makes no sense, for this reason.
    Fault(String),
}

/// What is to be done with a stream.
#[derive(Debug)]
pub enum StreamStep {
    /// Read on.
    GoOn,
    /// The stream has ended as it should.
    End,
    /// The stream has ended because the user interrupted it.
    Interrupted,
    /// The stream has ended before the answer was complete.
    EndEarly,
    /// The stream has ended with this fault.
    Fail(String),
}

/// What a [`StreamStep`] says.
pub enum StepView {
    GoOn,
    End,
    Interrupted,
    EndEarly,
    Fail(Seq<char>),
}

impl View for StreamStep {
    type V = StepView;

    open spec fn view(&self) -> StepView {
        match self {
            StreamStep::GoOn => StepView::GoOn,
            StreamStep::End => StepView::End,
            StreamStep::Interrupted => StepView::Interrupted,
            StreamStep::EndEarly => StepView::EndEarly,
            StreamStep::Fail(m) => StepView::Fail(m@),
        }
    }
}

/// What has come of a stream.
#[derive(Debug)]
pub enum StreamInput {
    Line(LineOutcome),
    /// The bytes could not be read, for this reason.
    Broken(String),
    /// There are no more bytes.
    Exhausted,
    /// The user interrupted the stream.
    Cancelled,
}

/// What a [`StreamInput`] says.
pub enum StreamInputView {
    More,
    Complete,
    Fault(Seq<char>),
    Broken(Seq<char>),
    Exhausted,
    Cancelled,
}

impl View for StreamInput {
    type V = StreamInputView;

    open spec fn view(&self) -> StreamInputView {
        match self {
            StreamInput::Line(LineOutcome::More) => StreamInputView::More,
            StreamInput::Line(LineOutcome::Complete) => StreamInputView::Complete,
            StreamInput::Line(LineOutcome::Fault(m)) => StreamInputView::Fault(m@),
            StreamInput::Broken(m) => StreamInputView::Broken(m@),
            StreamInput::Exhausted => StreamInputView::Exhausted,
            StreamInput::Cancelled => StreamInputView::Cancelled,
        }
    }
}

/// Whether a stream cannot go on after a line that makes no sense for this reason.
pub open spec fn fatal_fault(message: Seq<char>) -> bool {
    has_text(message, "parse tool call"@) || has_text(message, "parse tool input"@) || has_text(
        message,
        "tool input must be object"@,
    )
}

/// Whether a stream cannot go on after a line that makes no sense for this reason.
pub fn is_fatal_parser_error(message: &str) -> (r: bool)
    ensures
        r == fatal_fault(message@),
{
    contains(message, "parse tool call") || contains(message, "parse tool input") || contains(
        message,
        "tool input must be object",
    )
}

/// What is to be done with a stream of `faults` faults so far, and how many it has then.
pub open spec fn stream_step(faults: nat, input: StreamInputView) -> (StepView, nat) {
    match input {
        StreamInputView::More => (StepView::GoOn, faults),
        StreamInputView::Complete => (StepView::End, faults),
        StreamInputView::Fault(m) => if fatal_fault(m) {
            (StepView::Fail(m), faults)
        } else if faults + 1 > MAX_STREAM_ERRORS {
            (StepView::Fail(m), faults + 1)
        } else {
            (StepView::GoOn, faults + 1)
        },
        StreamInputView::Broken(m) => if faults + 1 > MAX_STREAM_ERRORS {
            (StepView::Fail("stream: "@ + m), faults + 1)
        } else {
            (StepView::GoOn, faults + 1)
        },
        StreamInputView::Exhausted => (StepView::EndEarly, faults),
        StreamInputView::Cancelled => (StepView::Interrupted, faults),
    }
}

/// A stream: the bytes that are not read yet, and how many faults it had.
#[derive(Debug)]
pub struct StreamReader {
    pub pending: Vec<u8>,
    pub faults: u32,
}

impl StreamReader {
    /// Whether the stream has not had too many faults.
    pub open spec fn valid(self) -> bool {
        self.faults <= MAX_STREAM_ERRORS
    }

    /// A stream that has not begun.
    pub fn new() -> (r: StreamReader)
        ensures
            r.pending@.len() == 0,
            r.faults == 0,
            r.valid(),
    {
        StreamReader { pending: Vec::new(), faults: 0 }
    }

    /// Takes in more bytes.
    pub fn feed(&mut self, bytes: &Vec<u8>)
        ensures
            final(self).pending@ == old(self).pending@ + bytes@,
            final(self).faults == old(self).faults,
    {
        let mut i: usize = 0;
        let ghost start = self.pending@;
        while i < bytes.len()
            invariant
                i <= bytes@.len(),
                self.pending@ == start + bytes@.take(i as int),
                self.faults == old(self).faults,
            decreases bytes@.len() - i,
        {
            self.pending.push(bytes[i]);
            assert(bytes@.take(i + 1) =~= bytes@.take(i as int).push(bytes@[i as int]));
            i += 1;
        }
        assert(bytes@.take(i as int) =~= bytes@);
    }

    fn take_raw(&mut self) -> (r: Option<Vec<u8>>)
        ensures
            final(self).faults == old(self).faults,
            match r {
                Some(line) => {
                    &&& line_end(old(self).pending@) < old(self).pending@.len()
                    &&& line@ == old(self).pending@.take(line_end(old(self).pending@) + 1)
                    &&& final(self).pending@ == after_line(old(self).pending@)
                },
                None => {
                    &&& line_end(old(self).pending@) >= old(self).pending@.len()
                    &&& final(self).pending@ == old(self).pending@
                },
            },
    {
        let ghost all = self.pending@;
        let mut end: usize = 0;
        while end < self.pending.len() && self.pending[end] != LINE_END
            invariant
                end <= self.pending@.len(),
                self.pending@ == all,
                self.faults == old(self).faults,
                forall|i: int| 0 <= i < end ==> #[trigger] all[i] != LINE_END,
            decreases self.pending@.len() - end,
        {
            end += 1;
        }
        proof {
            lemma_line_end_is(all, end as int);
        }
        if end >= self.pending.len() {
            return None;
        }
        let rest: Vec<u8> = self.pending.split_off(end + 1);
        let mut line: Vec<u8> = rest;
        std::mem::swap(&mut self.pending, &mut line);
        proof {
            assert(line@ =~= all.take(end + 1));
            assert(self.pending@ =~= all.skip(end + 1));
        }
        Some(line)
    }

    /// Takes the next line that is not blank, where one is complete: its text without the space
    /// around it, with a line end.
    pub fn next_line(&mut self) -> (r: Option<String>)
        ensures
            final(self).faults == old(self).faults,
            final(self).pending@ == bytes_left(old(self).pending@),
            match r {
                Some(text) => first_text(whole_lines(old(self).pending@)) == Some(text@),
                None => first_text(whole_lines(old(self).pending@)) is None,
            },
    {
        let ghost all = self.pending@;
        loop
            invariant
                all == old(self).pending@,
                self.faults == old(self).faults,
                bytes_left(all) == bytes_left(self.pending@),
                first_text(whole_lines(all)) == first_text(whole_lines(self.pending@)),
            decreases self.pending@.len(),
        {
            let ghost before = self.pending@;
            proof {
                lemma_line_end(before);
            }
            match self.take_raw() {
                Some(line) => {
                    proof {
                        assert(whole_lines(before).drop_first() =~= whole_lines(
                            after_line(before),
                        ));
                        assert(whole_lines(before)[0] == line@);
                    }
                    let text: String = lossy_text(&line);
                    match line_of_text(text.as_str()) {
                        Some(read) => {
                            return Some(read);
                        },
                        None => {},
                    }
                },
                None => {
                    return None;
                },
            }
        }
    }

    /// What is to be done with the stream.
    pub fn step(&mut self, input: StreamInput) -> (r: StreamStep)
        requires
            old(self).valid(),
        ensures
            final(self).pending@ == old(self).pending@,
            (r@, final(self).faults as nat) == stream_step(old(self).faults as nat, input@),
            r@ is GoOn ==> final(self).valid(),
    {
        match input {
            StreamInput::Line(LineOutcome::More) => StreamStep::GoOn,
            StreamInput::Line(LineOutcome::Complete) => StreamStep::End,
            StreamInput::Line(LineOutcome::Fault(message)) => {
                if is_fatal_parser_error(message.as_str()) {
                    return StreamStep::Fail(message);
                }
                self.faults = self.faults + 1;
                if self.faults > MAX_STREAM_ERRORS {
                    StreamStep::Fail(message)
                } else {
                    StreamStep::GoOn
                }
            },
            StreamInput::Broken(message) => {
                self.faults = self.faults + 1;
                if self.faults > MAX_STREAM_ERRORS {
                    StreamStep::Fail("stream: ".to_owned().concat(message.as_str()))
                } else {
                    StreamStep::GoOn
                }
            },
            StreamInput::Exhausted => StreamStep::EndEarly,
            StreamInput::Cancelled => StreamStep::Interrupted,
        }
    }
}

/// It does not matter where a stream is cut into pieces: the lines of two pieces together are
/// those of the first, and then those of what it left over together with the second.
pub proof fn pieces_do_not_matter(a: Seq<u8>, b: Seq<u8>)
    ensures
        whole_lines(a + b) == whole_lines(a) + whole_lines(part_line(a) + b),
        part_line(a + b) == part_line(part_line(a) + b),
    decreases a.len(),
{
    lemma_line_end(a);
    let end = line_end(a);
    if end >= a.len() {
        assert(whole_lines(a) =~= seq![]);
        assert(whole_lines(a + b) =~= whole_lines(a) + whole_lines(part_line(a) + b));
    } else {
        let whole = a + b;
        assert forall|i: int| 0 <= i < end implies #[trigger] whole[i] != LINE_END by {
            assert(whole[i] == a[i]);
        }
        lemma_line_end_is(whole, end);
        assert(whole.take(end + 1) =~= a.take(end + 1));
        assert(after_line(whole) =~= after_line(a) + b);
        pieces_do_not_matter(after_line(a), b);
        assert(whole_lines(whole) =~= whole_lines(a) + whole_lines(part_line(a) + b));
    }
}

/// How many faults are among `inputs`.
pub open spec fn fault_count(inputs: Seq<StreamInputView>) -> nat
    decreases inputs.len(),
{
    if inputs.len() == 0 {
        0
    } else {
        fault_count(inputs.drop_first()) + if inputs[0] is Fault || inputs[0] is Broken {
            1nat
        } else {
            0nat
        }
    }
}

/// Whether a stream of `faults` faults so far goes on through all of `inputs`.
pub open spec fn goes_on(faults: nat, inputs: Seq<StreamInputView>) -> bool
    decreases inputs.len(),
{
    inputs.len() == 0 || (stream_step(faults, inputs[0]).0 is GoOn && goes_on(
        stream_step(faults, inputs[0]).1,
        inputs.drop_first(),
    ))
}

/// A stream does not go on through more faults than are passed over.
pub proof fn faults_are_bounded(faults: nat, inputs: Seq<StreamInputView>)
    requires
        faults <= MAX_STREAM_ERRORS,
        goes_on(faults, inputs),
    ensures
        faults + fault_count(inputs) <= MAX_STREAM_ERRORS,
    decreases inputs.len(),
{
    if inputs.len() > 0 {
        faults_are_bounded(stream_step(faults, inputs[0]).1, inputs.drop_first());
    }
}

} // verus!
