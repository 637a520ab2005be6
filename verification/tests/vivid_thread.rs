use std::collections::VecDeque;
use std::sync::Arc;

use vvrd::compositor::{PageImage, ViewTransform};
use vvrd::geometry::WindowSize;
use vvrd::vivid_thread::{
    next_command, opening_failed, PresentCmd, PresentEvent, PresentPhase, SourceEvent,
};

fn view(value: u8, viewport: WindowSize) -> PresentCmd {
    PresentCmd::ShowView {
        image: Arc::new(PageImage {
            pixels: vec![value, 0, 0],
            width: 1,
            height: 1,
            row_stride: 3,
            highlights: Vec::new(),
        }),
        viewport,
        transform: ViewTransform::default(),
    }
}

#[test]
fn consecutive_frames_coalesce_without_crossing_control_commands() {
    let (sender, receiver) = flume::unbounded();
    let viewport = WindowSize::from_cells(1, 2, 1, 1);
    sender.send(view(1, viewport)).unwrap();
    sender.send(view(2, viewport)).unwrap();
    sender.send(PresentCmd::Resize(WindowSize::from_cells(80, 24, 10, 20))).unwrap();
    sender.send(view(3, viewport)).unwrap();
    let mut commands: VecDeque<PresentCmd> = receiver.drain().collect();
    let mut deferred = VecDeque::new();
    assert!(matches!(
        next_command(&mut commands, &mut deferred),
        Some(PresentCmd::ShowView { image, .. }) if image.pixels[0] == 2
    ));
    assert!(matches!(
        next_command(&mut commands, &mut deferred),
        Some(PresentCmd::Resize(_))
    ));
    assert!(matches!(
        next_command(&mut commands, &mut deferred),
        Some(PresentCmd::ShowView { image, .. }) if image.pixels[0] == 3
    ));
}

#[test]
fn views_are_composed_and_shown() {
    let viewport = WindowSize::from_cells(1, 2, 1, 1);
    match PresentPhase::Waiting.command(Some(view(5, viewport))) {
        PresentPhase::Showing(frame) => {
            assert_eq!(frame.rgba, vec![5, 0, 0, 255]);
            let listening = PresentPhase::Showing(frame).shown(Ok(42));
            let (waiting, event) = listening.source_event(None);
            assert!(matches!(waiting, PresentPhase::Waiting));
            assert!(matches!(
                event,
                Some(PresentEvent::FrameShown {
                    frame_id: 42,
                    content_width: 1,
                    content_height: 1,
                })
            ));
        }
        _ => panic!("the view was not composed"),
    }
}

#[test]
fn views_that_cannot_be_composed_are_told_of() {
    let flat = WindowSize { cols: 0, rows: 2, cell_width_px: 1, cell_height_px: 1 };
    let listening = PresentPhase::Waiting.command(Some(view(5, flat)));
    let (_, event) = listening.source_event(None);
    assert!(matches!(
        event,
        Some(PresentEvent::Error(text)) if text == "viewport has no drawable pixels"
    ));
}

fn listening() -> PresentPhase {
    let changing = PresentPhase::Waiting.command(Some(PresentCmd::SetVisible(true)));
    assert!(matches!(changing, PresentPhase::SettingVisible(true)));
    changing.changed(Err("refused".to_owned()))
}

#[test]
fn failures_are_told_unless_interrupted() {
    let (_, event) = listening().source_event(None);
    assert!(matches!(event, Some(PresentEvent::Error(text)) if text == "refused"));

    let (phase, event) = listening().source_event(Some(SourceEvent::Visibility(true)));
    assert!(matches!(event, Some(PresentEvent::Visibility(true))));
    let (phase, event) = phase.source_event(Some(SourceEvent::NeedKeyframe(3)));
    assert!(event.is_none());
    let (_, event) = phase.source_event(None);
    assert!(matches!(event, Some(PresentEvent::Error(_))));

    let (phase, event) = listening().source_event(Some(SourceEvent::Visibility(false)));
    assert!(matches!(event, Some(PresentEvent::Visibility(false))));
    let (phase, event) = phase.source_event(None);
    assert!(event.is_none());
    assert!(matches!(phase, PresentPhase::Waiting));
}

#[test]
fn lost_sources_are_recovered() {
    let (phase, event) = listening().source_event(Some(SourceEvent::Lost("gone".to_owned())));
    assert!(event.is_none());
    assert!(matches!(phase, PresentPhase::Recovering { .. }));
    let (phase, event) = phase.recovered(Ok(()));
    assert!(matches!(event, Some(PresentEvent::SourceLost(text)) if text == "gone"));
    let (phase, event) = phase.source_event(Some(SourceEvent::Lost("again".to_owned())));
    assert!(event.is_none());
    let (phase, event) = phase.recovered(Err("no display".to_owned()));
    assert!(matches!(
        event,
        Some(PresentEvent::Error(text)) if text == "again; source recovery failed: no display"
    ));
    let (_, event) = phase.source_event(None);
    assert!(event.is_none());
}

#[test]
fn changes_that_succeed_are_not_mentioned() {
    let viewport = WindowSize::from_cells(80, 24, 10, 20);
    let changing = PresentPhase::Waiting.command(Some(PresentCmd::Resize(viewport)));
    assert!(matches!(changing, PresentPhase::Resizing(size) if size == viewport));
    let (waiting, event) = changing.changed(Ok(())).source_event(None);
    assert!(event.is_none());
    assert!(matches!(waiting, PresentPhase::Waiting));
}

#[test]
fn the_display_is_left_at_the_end() {
    let leaving = PresentPhase::Waiting.command(Some(PresentCmd::Shutdown));
    assert!(matches!(leaving, PresentPhase::TearingDown));
    let (stopped, event) = leaving.torn_down(Err("late".to_owned()));
    assert!(matches!(stopped, PresentPhase::Stopped));
    assert!(matches!(event, Some(PresentEvent::Error(text)) if text == "late"));
    let (_, event) = PresentPhase::Waiting.command(None).torn_down(Ok(()));
    assert!(event.is_none());
}

#[test]
fn readiness_is_told_first_and_the_end_last() {
    let (phase, event) = PresentPhase::opened();
    assert!(matches!(event, PresentEvent::Ready));
    let (stopped, _) = phase.command(None).torn_down(Ok(()));
    assert!(matches!(stopped.last_event(), PresentEvent::Stopped));
}

#[test]
fn presenters_that_do_not_open_are_told_of() {
    let events = opening_failed("no display".to_owned());
    assert_eq!(events.len(), 2);
    assert!(matches!(&events[0], PresentEvent::Error(text) if text == "no display"));
    assert!(matches!(events[1], PresentEvent::Stopped));
}
