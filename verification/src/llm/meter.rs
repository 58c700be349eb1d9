//! What is written down of the tokens that a request took.

use crate::protocol::UsageEvent;
use vstd::prelude::*;

verus! {

/// Something that came of a request, as far as it says what the request took.
#[derive(Debug)]
pub enum MeterEvent {
    /// The service said how many tokens the request took.
    Usage(UsageEvent),
    /// The service does not say it.
    UsageUnavailable,
    /// The stream failed, with this message.
    Error(String),
    /// The stream ended.
    Ended,
    /// Nobody reads the stream any more.
    Dropped,
    /// Anything else.
    Other,
}

/// What a [`MeterEvent`] says.
pub enum MeterView {
    Usage(UsageEvent),
    UsageUnavailable,
    Error(Seq<char>),
    Ended,
    Dropped,
    Other,
}

impl View for MeterEvent {
    type V = MeterView;

    open spec fn view(&self) -> MeterView {
        match self {
            MeterEvent::Usage(u) => MeterView::Usage(*u),
            MeterEvent::UsageUnavailable => MeterView::UsageUnavailable,
            MeterEvent::Error(m) => MeterView::Error(m@),
            MeterEvent::Ended => MeterView::Ended,
            MeterEvent::Dropped => MeterView::Dropped,
            MeterEvent::Other => MeterView::Other,
        }
    }
}

/// What is written down.
#[derive(Debug)]
pub enum UsageNote {
    /// What the request took.
    Reported(UsageEvent),
    /// That it is not known, for this reason.
    Unreported(String),
}

/// What a [`UsageNote`] says.
pub enum NoteView {
    Reported(UsageEvent),
    Unreported(Seq<char>),
}

impl View for UsageNote {
    type V = NoteView;

    open spec fn view(&self) -> NoteView {
        match self {
            UsageNote::Reported(u) => NoteView::Reported(*u),
            UsageNote::Unreported(m) => NoteView::Unreported(m@),
        }
    }
}

/// What is written down at an event, where nothing was before.
pub open spec fn note_of(event: MeterView) -> Option<NoteView> {
    match event {
        MeterView::Usage(u) => Some(NoteView::Reported(u)),
        MeterView::UsageUnavailable => Some(NoteView::Unreported("provider_usage_missing"@)),
        MeterView::Error(m) => Some(NoteView::Unreported("stream_error: "@ + m)),
        MeterView::Ended => Some(NoteView::Unreported("stream_ended_without_usage"@)),
        MeterView::Dropped => Some(NoteView::Unreported("stream_dropped_before_usage"@)),
        MeterView::Other => None,
    }
}

/// What is written down at an event.
pub open spec fn metered(completed: bool, event: MeterView) -> Option<NoteView> {
    if completed {
        None
    } else {
        note_of(event)
    }
}

/// Watches what comes of a request.
#[derive(Clone, Copy, Debug, PartialEq, Eq, Structural)]
pub struct UsageMeter {
    /// How often the request was sent.
    pub attempt_count: u32,
    /// Whether anything was written down already.
    pub completed: bool,
}

impl UsageMeter {
    /// Watches a request that was sent so often.
    pub fn new(attempt_count: u32) -> (r: UsageMeter)
        ensures
            r == (UsageMeter { attempt_count, completed: false }),
    {
        UsageMeter { attempt_count, completed: false }
    }

    /// What is written down at an event.
    pub fn observe(&mut self, event: MeterEvent) -> (r: Option<UsageNote>)
        ensures
            match r {
                Some(note) => metered(old(self).completed, event@) == Some(note@),
                None => metered(old(self).completed, event@) is None,
            },
            final(self).completed == (old(self).completed || r is Some),
            final(self).attempt_count == old(self).attempt_count,
    {
        if self.completed {
            return None;
        }
        let note: Option<UsageNote> = match event {
            MeterEvent::Usage(u) => Some(UsageNote::Reported(u)),
            MeterEvent::UsageUnavailable => Some(
                UsageNote::Unreported("provider_usage_missing".to_owned()),
            ),
            MeterEvent::Error(m) => Some(
                UsageNote::Unreported("stream_error: ".to_owned().concat(m.as_str())),
            ),
            MeterEvent::Ended => Some(
                UsageNote::Unreported("stream_ended_without_usage".to_owned()),
            ),
            MeterEvent::Dropped => Some(
                UsageNote::Unreported("stream_dropped_before_usage".to_owned()),
            ),
            MeterEvent::Other => None,
        };
        if note.is_some() {
            self.completed = true;
        }
        note
    }
}

/// What is written down where the service said something that cannot be so.
pub fn invalid_usage_reason(message: &str) -> (r: String)
    ensures
        r@ == "invalid_provider_usage: "@ + message@,
{
    "invalid_provider_usage: ".to_owned().concat(message)
}

/// What is written down where the request itself failed.
pub fn failed_request_reason(message: &str) -> (r: String)
    ensures
        r@ == "request_failed: "@ + message@,
{
    "request_failed: ".to_owned().concat(message)
}

/// How many notes are written down at `events`.
pub open spec fn note_count(completed: bool, events: Seq<MeterView>) -> nat
    decreases events.len(),
{
    if events.len() == 0 {
        0
    } else {
        let note = metered(completed, events[0]);
        note_count(completed || note is Some, events.drop_first()) + if note is Some {
            1nat
        } else {
            0nat
        }
    }
}

/// Whatever comes of a request, at most one note of it is written down, and just one by the time
/// that nobody reads the stream any more.
pub proof fn one_note_per_request(completed: bool, events: Seq<MeterView>)
    ensures
        note_count(completed, events) <= if completed {
            0nat
        } else {
            1nat
        },
        !completed && events.len() > 0 && events.last() is Dropped ==> note_count(completed, events)
            == 1,
    decreases events.len(),
{
    if events.len() > 0 {
        let note = metered(completed, events[0]);
        one_note_per_request(completed || note is Some, events.drop_first());
        if events.len() > 1 {
            assert(events.drop_first().last() == events.last());
        }
    }
}

} // verus!
