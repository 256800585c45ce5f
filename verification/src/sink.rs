//! The single writer of the result file: the header first, then every
//! line that reaches it, in the order of arrival, and a flush at the end.

use crate::csv::{csv_header, header_text, is_data_row};
use vstd::prelude::*;

verus! {

/// Capacity of the buffer in front of the result file, in bytes.
pub const SINK_BUFFER_BYTES: usize = 10 * 1024 * 1024;

/// What reaches a sink.
#[derive(Debug, Clone, PartialEq, Eq)]
pub enum SinkEvent {
    /// The result file was opened.
    Opened,
    /// A session handed over this line.
    Line(String),
    /// Every session has dropped its end of the channel.
    Disconnected,
}

/// What a sink asks its driver to do.
#[derive(Debug, Clone, PartialEq, Eq)]
pub enum SinkAction {
    /// Write this text at the end of the file.
    Write(String),
    /// Flush the buffer; nothing follows.
    Flush,
    /// Nothing.
    Idle,
}

/// What reaches a sink, by what it says.
pub enum SinkEventView {
    Opened,
    Line(Seq<char>),
    Disconnected,
}

impl View for SinkEvent {
    type V = SinkEventView;

    open spec fn view(&self) -> SinkEventView {
        match self {
            SinkEvent::Opened => SinkEventView::Opened,
            SinkEvent::Line(line) => SinkEventView::Line(line@),
            SinkEvent::Disconnected => SinkEventView::Disconnected,
        }
    }
}

/// What a sink asks for, by what it says.
pub enum SinkActionView {
    Write(Seq<char>),
    Flush,
    Idle,
}

impl View for SinkAction {
    type V = SinkActionView;

    open spec fn view(&self) -> SinkActionView {
        match self {
            SinkAction::Write(text) => SinkActionView::Write(text@),
            SinkAction::Flush => SinkActionView::Flush,
            SinkAction::Idle => SinkActionView::Idle,
        }
    }
}

/// Where a sink stands.
#[derive(Debug, Clone, Copy, PartialEq, Eq, Structural)]
pub enum SinkPhase {
    /// Nothing was written yet.
    Fresh,
    /// The header is written; lines are taken.
    Draining,
    /// The file is complete.
    Flushed,
}

/// The state of a sink.
pub struct SinkView {
    pub phase: SinkPhase,
    /// Everything that the sink has asked to write, in order.
    pub written: Seq<char>,
}

/// The lines, one after the other.
pub open spec fn concat(lines: Seq<Seq<char>>) -> Seq<char>
    decreases lines.len(),
{
    if lines.len() == 0 {
        Seq::empty()
    } else {
        concat(lines.drop_last()) + lines.last()
    }
}

/// The text of a result file with these lines below its header.
pub open spec fn file_text(lines: Seq<Seq<char>>) -> Seq<char> {
    header_text() + concat(lines)
}

impl SinkView {
    /// The sink before the file is opened.
    pub open spec fn start() -> SinkView {
        SinkView { phase: SinkPhase::Fresh, written: Seq::empty() }
    }

    /// The action that one event calls for. Lines are taken only between
    /// the header and the flush.
    pub open spec fn action(self, event: SinkEventView) -> SinkActionView {
        match (self.phase, event) {
            (SinkPhase::Fresh, SinkEventView::Opened) => SinkActionView::Write(header_text()),
            (SinkPhase::Draining, SinkEventView::Line(line)) => SinkActionView::Write(line),
            (SinkPhase::Draining, SinkEventView::Disconnected) => SinkActionView::Flush,
            _ => SinkActionView::Idle,
        }
    }

    /// The state after one event.
    pub open spec fn on_event(self, event: SinkEventView) -> SinkView {
        match (self.phase, event) {
            (SinkPhase::Fresh, SinkEventView::Opened) => SinkView {
                phase: SinkPhase::Draining,
                written: self.written + header_text(),
            },
            (SinkPhase::Draining, SinkEventView::Line(line)) => SinkView {
                phase: SinkPhase::Draining,
                written: self.written + line,
            },
            (SinkPhase::Draining, SinkEventView::Disconnected) => SinkView {
                phase: SinkPhase::Flushed,
                ..self
            },
            _ => self,
        }
    }

    /// The state after `events`, taken in order.
    pub open spec fn after(self, events: Seq<SinkEventView>) -> SinkView
        decreases events.len(),
    {
        if events.len() == 0 {
            self
        } else {
            self.after(events.drop_last()).on_event(events.last())
        }
    }

    /// The lines taken over `events`, in order.
    pub open spec fn taken(self, events: Seq<SinkEventView>) -> Seq<Seq<char>>
        decreases events.len(),
    {
        if events.len() == 0 {
            Seq::empty()
        } else {
            let earlier = self.taken(events.drop_last());
            match (self.after(events.drop_last()).phase, events.last()) {
                (SinkPhase::Draining, SinkEventView::Line(line)) => earlier.push(line),
                _ => earlier,
            }
        }
    }
}

/// The writer of one result file.
pub struct Sink {
    phase: SinkPhase,
    written: Ghost<Seq<char>>,
}

impl View for Sink {
    type V = SinkView;

    closed spec fn view(&self) -> SinkView {
        SinkView { phase: self.phase, written: self.written@ }
    }
}

impl Sink {
    /// The sink before the file is opened.
    pub fn new() -> (sink: Sink)
        ensures
            sink@ == SinkView::start(),
    {
        Sink { phase: SinkPhase::Fresh, written: Ghost(Seq::empty()) }
    }

    /// Where the sink stands.
    pub fn phase(&self) -> (phase: SinkPhase)
        ensures
            phase == self@.phase,
    {
        self.phase
    }

    /// Whether the file is complete.
    pub fn is_flushed(&self) -> (yes: bool)
        ensures
            yes == (self@.phase is Flushed),
    {
        match self.phase {
            SinkPhase::Flushed => true,
            _ => false,
        }
    }

    /// Takes one event and says what to do for it.
    pub fn on_event(&mut self, event: SinkEvent) -> (action: SinkAction)
        ensures
            final(self)@ == old(self)@.on_event(event@),
            action@ == old(self)@.action(event@),
    {
        match (self.phase, event) {
            (SinkPhase::Fresh, SinkEvent::Opened) => {
                self.phase = SinkPhase::Draining;
                self.written = Ghost(self.written@ + header_text());
                SinkAction::Write(csv_header())
            },
            (SinkPhase::Draining, SinkEvent::Line(line)) => {
                self.written = Ghost(self.written@ + line@);
                SinkAction::Write(line)
            },
            (SinkPhase::Draining, SinkEvent::Disconnected) => {
                self.phase = SinkPhase::Flushed;
                SinkAction::Flush
            },
            _ => SinkAction::Idle,
        }
    }
}

/// One event makes the sink write exactly what it asks its driver to write.
pub proof fn lemma_log_follows_actions(s: SinkView, event: SinkEventView)
    ensures
        s.on_event(event).written == s.written + match s.action(event) {
            SinkActionView::Write(text) => text,
            _ => Seq::empty(),
        },
{
}

/// Whatever reaches a sink, and in whatever order: once it has started,
/// its file is the header followed by the lines that it took, in the order
/// in which they came; before that the file is empty.
pub proof fn lemma_file_is_header_then_lines(events: Seq<SinkEventView>)
    ensures
        ({
            let start = SinkView::start();
            if start.after(events).phase is Fresh {
                start.after(events).written == Seq::<char>::empty() && start.taken(events).len()
                    == 0
            } else {
                start.after(events).written == file_text(start.taken(events))
            }
        }),
    decreases events.len(),
{
    if events.len() > 0 {
        let start = SinkView::start();
        let earlier = events.drop_last();
        lemma_file_is_header_then_lines(earlier);
        let before = start.after(earlier);
        match (before.phase, events.last()) {
            (SinkPhase::Fresh, SinkEventView::Opened) => {
                assert(start.taken(earlier) =~= Seq::<Seq<char>>::empty());
                assert(concat(start.taken(events)) =~= Seq::<char>::empty());
                assert(before.written + header_text() =~= file_text(start.taken(events)));
            },
            (SinkPhase::Draining, SinkEventView::Line(line)) => {
                let lines = start.taken(events);
                assert(lines.drop_last() =~= start.taken(earlier));
                assert(before.written + line =~= file_text(lines));
            },
            _ => {},
        }
    }
}

/// A sink takes lines as they are: where every line that reaches it is a
/// data row, so is every line of its file.
pub proof fn lemma_taken_lines_are_rows(events: Seq<SinkEventView>, i: int)
    requires
        forall|k: int|
            0 <= k < events.len() ==> (#[trigger] events[k] matches SinkEventView::Line(line)
                ==> is_data_row(line)),
        0 <= i < SinkView::start().taken(events).len(),
    ensures
        is_data_row(SinkView::start().taken(events)[i]),
    decreases events.len(),
{
    if events.len() > 0 {
        let earlier = events.drop_last();
        assert(forall|k: int| 0 <= k < earlier.len() ==> earlier[k] == events[k]);
        if i < SinkView::start().taken(earlier).len() {
            lemma_taken_lines_are_rows(earlier, i);
        } else {
            assert(events.last() == events[events.len() - 1]);
        }
    }
}

} // verus!
