//! Showing views of pages: what is done for each command, and what is told about it.
use std::collections::VecDeque;
use std::sync::Arc;

use vstd::prelude::*;
use vstd::string::StringExecFns;

use crate::compositor::{compose_view, ComposedFrame, PageImage, ViewTransform};
use crate::geometry::WindowSize;
use crate::queue::{next_queued, QueuedCommand};

verus! {

/// What the presenter is asked to do.
pub enum PresentCmd {
    ShowView { image: Arc<PageImage>, viewport: WindowSize, transform: ViewTransform },
    SetVisible(bool),
    Resize(WindowSize),
    Shutdown,
}

/// What the presenter tells.
#[derive(Debug)]
pub enum PresentEvent {
    Ready,
    FrameShown { frame_id: u64, content_width: u32, content_height: u32 },
    Visibility(bool),
    SourceLost(String),
    Error(String),
    Stopped,
}

/// What the display tells about a source.
#[derive(Debug)]
pub enum SourceEvent {
    Visibility(bool),
    NeedKeyframe(u32),
    Lost(String),
}

/// A newer view stands for the ones right before it.
impl QueuedCommand for PresentCmd {
    open spec fn spec_replaceable(&self) -> bool {
        *self is ShowView
    }

    fn replaceable(&self) -> (replaceable: bool) {
        match self {
            PresentCmd::ShowView { .. } => true,
            _ => false,
        }
    }
}

/// Takes the presenter's next command: a deferred one, or else the first that came in.
/// Of views that follow each other only the last is taken, and what stands behind them
/// is deferred.
pub fn next_command(
    commands: &mut VecDeque<PresentCmd>,
    deferred: &mut VecDeque<PresentCmd>,
) -> (command: Option<PresentCmd>)
    ensures
        match crate::queue::taken(old(deferred)@, old(commands)@) {
            Some(next) => {
                &&& command == Some(next.command)
                &&& final(deferred)@ == next.deferred
                &&& final(commands)@ == next.incoming
            },
            None => {
                &&& command is None
                &&& final(deferred)@ == old(deferred)@
                &&& final(commands)@ == old(commands)@
            },
        },
{
    next_queued(commands, deferred)
}

/// What a command has come to: what to tell about it, if anything, or the words of an
/// error.
pub type Outcome = Result<Option<PresentEvent>, String>;

/// What the presenter has to do next, and with what.
pub enum PresentPhase {
    /// Take the next command.
    Waiting,
    /// Send the frame.
    Showing(ComposedFrame),
    /// Show or hide the page.
    SettingVisible(bool),
    /// Take on the size of the pane.
    Resizing(WindowSize),
    /// See what the display tells about the source.
    Listening { outcome: Outcome, interrupted: bool },
    /// Replace the source that was lost.
    Recovering { outcome: Outcome, cause: String },
    /// Leave the display.
    TearingDown,
    /// Stop.
    Stopped,
}

/// Whether an event is an error with the given words.
pub open spec fn tells_error(event: Option<PresentEvent>, words: Seq<char>) -> bool {
    event matches Some(PresentEvent::Error(text)) && text@ == words
}

/// Whether the display tells that the source cannot be seen any more.
pub open spec fn interrupts(event: SourceEvent) -> bool {
    match event {
        SourceEvent::Visibility(visible) => !visible,
        SourceEvent::NeedKeyframe(_) => false,
        SourceEvent::Lost(_) => true,
    }
}

impl PresentPhase {
    /// The phase after the display told something about the source.
    pub open spec fn heard(self, event: SourceEvent) -> PresentPhase {
        match self {
            PresentPhase::Listening { outcome, interrupted } => match event {
                SourceEvent::Lost(cause) => PresentPhase::Recovering { outcome, cause },
                event => PresentPhase::Listening {
                    outcome,
                    interrupted: interrupted || interrupts(event),
                },
            },
            phase => phase,
        }
    }

    /// The phase after a lost source was dealt with.
    pub open spec fn resumed(self) -> PresentPhase {
        match self {
            PresentPhase::Recovering { outcome, .. } => PresentPhase::Listening {
                outcome,
                interrupted: true,
            },
            phase => phase,
        }
    }

    /// What is told once the display has nothing more to tell: what the command has come
    /// to, but for a failure after an interruption.
    pub open spec fn verdict(self) -> Option<PresentEvent> {
        match self {
            PresentPhase::Listening { outcome, interrupted } => match outcome {
                Ok(told) => told,
                Err(cause) => if interrupted {
                    None
                } else {
                    Some(PresentEvent::Error(cause))
                },
            },
            _ => None,
        }
    }

    /// The presenter is on the display: what to do first, and what is told first.
    pub fn opened() -> (next: (PresentPhase, PresentEvent))
        ensures
            next.0 is Waiting,
            next.1 is Ready,
    {
        (PresentPhase::Waiting, PresentEvent::Ready)
    }

    /// What is told last, once all is over.
    pub fn last_event(&self) -> (event: PresentEvent)
        requires
            self is Stopped,
        ensures
            event is Stopped,
    {
        PresentEvent::Stopped
    }

    /// Takes a command, or learns that there are no more. A view is composed at once;
    /// if it cannot be, that is what the command has come to.
    pub fn command(self, command: Option<PresentCmd>) -> (next: PresentPhase)
        requires
            self is Waiting,
            command matches Some(PresentCmd::ShowView { image, viewport, transform }) ==>
                crate::compositor::can_compose(image@, viewport, transform),
        ensures
            match command {
                Some(PresentCmd::ShowView { image, viewport, transform }) => match next {
                    PresentPhase::Showing(frame) => crate::compositor::composes(
                        image@,
                        viewport,
                        transform,
                        Ok(frame),
                    ),
                    PresentPhase::Listening { outcome, interrupted } => {
                        &&& !interrupted
                        &&& crate::compositor::compose_fault(image@, viewport) matches Some(error)
                        &&& outcome matches Err(text) && text@ == error.words()
                    },
                    _ => false,
                },
                Some(PresentCmd::SetVisible(visible)) => next == PresentPhase::SettingVisible(
                    visible,
                ),
                Some(PresentCmd::Resize(viewport)) => next == PresentPhase::Resizing(viewport),
                Some(PresentCmd::Shutdown) => next is TearingDown,
                None => next is TearingDown,
            },
    {
        match command {
            Some(PresentCmd::ShowView { image, viewport, transform }) => {
                let page: PageImage = (*image).clone();
                match compose_view(page, viewport, transform) {
                    Ok(frame) => PresentPhase::Showing(frame),
                    Err(error) => PresentPhase::Listening {
                        outcome: Err(error.message()),
                        interrupted: false,
                    },
                }
            },
            Some(PresentCmd::SetVisible(visible)) => PresentPhase::SettingVisible(visible),
            Some(PresentCmd::Resize(viewport)) => PresentPhase::Resizing(viewport),
            Some(PresentCmd::Shutdown) => PresentPhase::TearingDown,
            None => PresentPhase::TearingDown,
        }
    }

    /// The frame was sent, under the given number, or could not be.
    pub fn shown(self, sent: Result<u64, String>) -> (next: PresentPhase)
        requires
            self is Showing,
        ensures
            self matches PresentPhase::Showing(frame) && next == (PresentPhase::Listening {
                outcome: match sent {
                    Ok(frame_id) => Ok(
                        Some(
                            PresentEvent::FrameShown {
                                frame_id,
                                content_width: frame.content_width,
                                content_height: frame.content_height,
                            },
                        ),
                    ),
                    Err(cause) => Err(cause),
                },
                interrupted: false,
            }),
    {
        match self {
            PresentPhase::Showing(frame) => {
                let outcome: Outcome = match sent {
                    Ok(frame_id) => Ok(
                        Some(
                            PresentEvent::FrameShown {
                                frame_id,
                                content_width: frame.content_width,
                                content_height: frame.content_height,
                            },
                        ),
                    ),
                    Err(cause) => Err(cause),
                };
                PresentPhase::Listening { outcome, interrupted: false }
            },
            phase => phase,
        }
    }

    /// The page was shown or hidden, or the size of the pane taken on, or that failed.
    pub fn changed(self, result: Result<(), String>) -> (next: PresentPhase)
        requires
            self is SettingVisible || self is Resizing,
        ensures
            next == (PresentPhase::Listening {
                outcome: match result {
                    Ok(()) => Ok(None),
                    Err(cause) => Err(cause),
                },
                interrupted: false,
            }),
    {
        let outcome: Outcome = match result {
            Ok(()) => Ok(None),
            Err(cause) => Err(cause),
        };
        PresentPhase::Listening { outcome, interrupted: false }
    }

    /// Takes what the display tells about the source, or learns that there is no more.
    /// Then it is told what the command has come to; not, however, that it failed, if
    /// the source was hidden or lost in the meantime.
    pub fn source_event(self, event: Option<SourceEvent>) -> (next: (
        PresentPhase,
        Option<PresentEvent>,
    ))
        requires
            self is Listening,
        ensures
            match event {
                Some(event) => next.0 == self.heard(event),
                None => next.0 is Waiting,
            },
            next.1 == match event {
                Some(SourceEvent::Visibility(visible)) => Some(PresentEvent::Visibility(visible)),
                Some(_) => None,
                None => self.verdict(),
            },
    {
        match self {
            PresentPhase::Listening { outcome, interrupted } => match event {
                Some(SourceEvent::Visibility(visible)) => (
                    PresentPhase::Listening { outcome, interrupted: interrupted || !visible },
                    Some(PresentEvent::Visibility(visible)),
                ),
                Some(SourceEvent::Lost(cause)) => (
                    PresentPhase::Recovering { outcome, cause },
                    None,
                ),
                Some(SourceEvent::NeedKeyframe(_)) => (
                    PresentPhase::Listening { outcome, interrupted },
                    None,
                ),
                None => {
                    let told: Option<PresentEvent> = match outcome {
                        Ok(told) => told,
                        Err(cause) => if interrupted {
                            None
                        } else {
                            Some(PresentEvent::Error(cause))
                        },
                    };
                    (PresentPhase::Waiting, told)
                },
            },
            phase => (phase, None),
        }
    }

    /// The lost source was replaced, or could not be.
    pub fn recovered(self, result: Result<(), String>) -> (next: (
        PresentPhase,
        Option<PresentEvent>,
    ))
        requires
            self is Recovering,
        ensures
            next.0 == self.resumed(),
            self matches PresentPhase::Recovering { cause, .. } && match result {
                Ok(()) => next.1 == Some(PresentEvent::SourceLost(cause)),
                Err(failure) => tells_error(
                    next.1,
                    cause@ + "; source recovery failed: "@ + failure@,
                ),
            },
    {
        match self {
            PresentPhase::Recovering { outcome, cause } => {
                let told = match result {
                    Ok(()) => PresentEvent::SourceLost(cause),
                    Err(failure) => {
                        let mut text: String = cause.clone();
                        text.append("; source recovery failed: ");
                        text.append(failure.as_str());
                        proof {
                            assert(text@ =~= cause@ + "; source recovery failed: "@ + failure@);
                        }
                        PresentEvent::Error(text)
                    },
                };
                (PresentPhase::Listening { outcome, interrupted: true }, Some(told))
            },
            phase => (phase, None),
        }
    }

    /// The display was left, which may have failed on the way.
    pub fn torn_down(self, result: Result<(), String>) -> (next: (
        PresentPhase,
        Option<PresentEvent>,
    ))
        requires
            self is TearingDown,
        ensures
            next.0 is Stopped,
            next.1 == match result {
                Ok(()) => None,
                Err(cause) => Some(PresentEvent::Error(cause)),
            },
    {
        let told: Option<PresentEvent> = match result {
            Ok(()) => None,
            Err(cause) => Some(PresentEvent::Error(cause)),
        };
        (PresentPhase::Stopped, told)
    }
}

/// What is told of a presenter that did not come onto the display: why, and that nothing
/// more comes.
pub fn opening_failed(cause: String) -> (events: Vec<PresentEvent>)
    ensures
        events@ == seq![PresentEvent::Error(cause), PresentEvent::Stopped],
{
    vec![PresentEvent::Error(cause), PresentEvent::Stopped]
}

/// The phase after the display told one thing after the other, a lost source being dealt
/// with each time.
pub open spec fn heard_all(phase: PresentPhase, events: Seq<SourceEvent>) -> PresentPhase
    decreases events.len(),
{
    if events.len() == 0 {
        phase
    } else {
        heard_all(phase.heard(events.first()).resumed(), events.drop_first())
    }
}

/// A command that failed is told of exactly if the display did not tell in the meantime
/// that the source cannot be seen. What a command that succeeded has come to is told in
/// any case.
pub proof fn failures_are_told_unless_interrupted(
    outcome: Outcome,
    interrupted: bool,
    events: Seq<SourceEvent>,
)
    ensures
        ({
            let cut = interrupted || exists|i: int|
                0 <= i < events.len() && interrupts(#[trigger] events[i]);
            &&& heard_all(PresentPhase::Listening { outcome, interrupted }, events) == (
            PresentPhase::Listening { outcome, interrupted: cut })
            &&& heard_all(PresentPhase::Listening { outcome, interrupted }, events).verdict()
                == match outcome {
                Ok(told) => told,
                Err(cause) => if cut {
                    None
                } else {
                    Some(PresentEvent::Error(cause))
                },
            }
        }),
    decreases events.len(),
{
    if events.len() > 0 {
        let rest = events.drop_first();
        let next = interrupted || interrupts(events.first());
        failures_are_told_unless_interrupted(outcome, next, rest);
        if exists|i: int| 0 <= i < rest.len() && interrupts(#[trigger] rest[i]) {
            let i = choose|i: int| 0 <= i < rest.len() && interrupts(#[trigger] rest[i]);
            assert(interrupts(events[i + 1]));
        }
        if interrupts(events.first()) {
            assert(interrupts(events[0]));
        }
        if exists|i: int| 0 <= i < events.len() && interrupts(#[trigger] events[i]) {
            let i = choose|i: int| 0 <= i < events.len() && interrupts(#[trigger] events[i]);
            if i > 0 {
                assert(interrupts(rest[i - 1]));
            }
        }
    }
}

/// Only views stand for one another: all other commands are each carried out.
pub proof fn only_views_are_replaced(command: PresentCmd)
    ensures
        command.spec_replaceable() <==> (command matches PresentCmd::ShowView { .. }),
{
}

/// A source is interrupted exactly when it is hidden or lost. A lost one is recovered,
/// and what the command has come to is kept meanwhile.
pub proof fn hidden_and_lost_sources_interrupt(
    outcome: Outcome,
    interrupted: bool,
    visible: bool,
    epoch: u32,
    cause: String,
)
    ensures
        ({
            let phase = PresentPhase::Listening { outcome, interrupted };
            &&& phase.heard(SourceEvent::Visibility(visible)) == (PresentPhase::Listening {
                outcome,
                interrupted: if visible {
                    interrupted
                } else {
                    true
                },
            })
            &&& phase.heard(SourceEvent::NeedKeyframe(epoch)) == phase
            &&& phase.heard(SourceEvent::Lost(cause)) == (PresentPhase::Recovering {
                outcome,
                cause,
            })
            &&& phase.heard(SourceEvent::Lost(cause)).resumed() == (PresentPhase::Listening {
                outcome,
                interrupted: true,
            })
        }),
{
}

/// What a command has come to is told in the end: its event if it has one, and why it
/// failed unless the source was interrupted.
pub proof fn outcomes_are_told(told: Option<PresentEvent>, cause: String, interrupted: bool)
    ensures
        (PresentPhase::Listening { outcome: Ok(told), interrupted }).verdict() == told,
        (PresentPhase::Listening { outcome: Err(cause), interrupted: false }).verdict() == Some(
            PresentEvent::Error(cause),
        ),
        (PresentPhase::Listening { outcome: Err(cause), interrupted: true }).verdict() is None,
{
}

/// An error holds its words.
pub proof fn errors_hold_their_words(event: PresentEvent, words: Seq<char>)
    ensures
        tells_error(Some(event), words) <==> (event matches PresentEvent::Error(text) && text@
            == words),
        !tells_error(None, words),
{
}

} // verus!
