use vvrd::geometry::{GeometryError, WindowSize};
use vvrd::presenter::{
    scene_config, OpeningStage, PresentError, Replacement, SessionCall, SessionReply, Teardown,
    VividPresenter,
};

fn viewport() -> WindowSize {
    WindowSize::from_cells(100, 30, 9, 18)
}

fn failed() -> SessionReply {
    SessionReply::Failed("refused".to_owned())
}

fn open() -> VividPresenter {
    let opening = VividPresenter::new(7, viewport());
    assert_eq!(opening.call(), Some(SessionCall::AllocateId));
    let opening = opening.reply(SessionReply::Id(9));
    assert_eq!(opening.call(), Some(SessionCall::AllocateId));
    let opening = opening.reply(SessionReply::Id(8));
    assert_eq!(
        opening.call(),
        Some(SessionCall::CreateSource { source_id: 9, width: 900, height: 522 }),
    );
    let opening = opening.reply(SessionReply::Done);
    assert_eq!(opening.call(), Some(SessionCall::OpenChannel { source_id: 9 }));
    let opening = opening.reply(SessionReply::Done);
    assert_eq!(
        opening.call(),
        Some(SessionCall::CreateNode(scene_config(7, 8, 9, viewport(), true))),
    );
    let opening = opening.reply(SessionReply::Done);
    assert_eq!(opening.call(), None);
    match opening.stage {
        OpeningStage::Opened(presenter) => presenter,
        _ => panic!("the presenter did not open"),
    }
}

#[test]
fn scene_node_is_pane_local_and_excludes_status_row() {
    let viewport = WindowSize::from_cells(100, 30, 9, 18);
    let node = scene_config(7, 8, 9, viewport, true);
    assert_eq!(node.context_id, 7);
    assert_eq!(node.x, 0);
    assert_eq!(node.y, 0);
    assert_eq!(node.width, 100_i64 << 32);
    assert_eq!(node.height, 29_i64 << 32);
    assert_eq!(node.anchor_id, None);
}

#[test]
fn presenters_open_step_by_step() {
    let presenter = open();
    assert_eq!((presenter.source_id, presenter.node_id), (9, 8));
    assert_eq!((presenter.epoch, presenter.frame_id), (1, 0));
    assert!(presenter.visible && presenter.connected && !presenter.torn_down);
    let refused = VividPresenter::new(7, viewport()).reply(failed());
    assert!(matches!(refused.stage, OpeningStage::Failed(cause) if cause == "refused"));
}

#[test]
fn frames_are_counted() {
    let mut presenter = open();
    let request = presenter.show_frame(900 * 522 * 4).unwrap();
    assert_eq!((request.epoch, request.frame_id), (1, 1));
    assert_eq!((request.width, request.height), (900, 522));
    assert_eq!(presenter.show_frame(900 * 522 * 4).unwrap().frame_id, 2);
    let error = presenter.show_frame(3).unwrap_err();
    assert_eq!(error.message(), "viewport frame has 3 bytes, expected 1879200");
    assert_eq!(presenter.frame_id, 2);
    presenter.frame_id = u64::MAX;
    let error = presenter.show_frame(900 * 522 * 4).unwrap_err();
    assert!(matches!(error, PresentError::FrameIdsExhausted));
    assert_eq!(error.message(), "raster frame ID space exhausted");
    presenter.frame_id = 4;
    presenter.connected = false;
    let error = presenter.show_frame(900 * 522 * 4).unwrap_err();
    assert!(matches!(error, PresentError::NoSource));
    assert_eq!(error.message(), "raster source is unavailable");
    assert_eq!(presenter.frame_id, 5);
    presenter.viewport = WindowSize::from_cells(65535, 65535, u32::MAX, u32::MAX);
    let error = presenter.show_frame(1).unwrap_err();
    assert!(matches!(error, PresentError::Viewport(GeometryError::ByteCountOverflow)));
    assert_eq!(error.message(), "viewport byte count overflow");
}

#[test]
fn visibility_changes_the_node() {
    let mut presenter = open();
    assert_eq!(presenter.set_visible(true), None);
    assert_eq!(presenter.set_visible(false), Some(scene_config(7, 8, 9, viewport(), false)));
    presenter.visibility_set(false);
    assert_eq!(presenter.set_visible(false), None);
}

fn replace(
    presenter: &mut VividPresenter,
    mut step: Replacement,
    replies: Vec<SessionReply>,
) -> (Vec<SessionCall>, Result<(), String>) {
    let mut calls = Vec::new();
    for reply in replies {
        calls.push(step.call(presenter).unwrap());
        step = presenter.replace_source(step, reply);
    }
    assert_eq!(step.call(presenter), None);
    match step {
        Replacement::Finished(result) => (calls, result),
        _ => panic!("the replacement is not over"),
    }
}

#[test]
fn a_new_size_replaces_the_source() {
    let mut presenter = open();
    presenter.frame_id = 12;
    assert!(presenter.resize(viewport()).is_none());
    let small = WindowSize::from_cells(10, 11, 9, 18);
    let step = presenter.resize(small).unwrap();
    let (calls, result) = replace(
        &mut presenter,
        step,
        vec![
            SessionReply::Id(20),
            SessionReply::Done,
            SessionReply::Done,
            SessionReply::Done,
            SessionReply::Done,
        ],
    );
    assert_eq!(
        calls,
        vec![
            SessionCall::AllocateId,
            SessionCall::CreateSource { source_id: 20, width: 90, height: 180 },
            SessionCall::OpenChannel { source_id: 20 },
            SessionCall::UpdateNode(scene_config(7, 8, 20, small, true)),
            SessionCall::DestroySource(9),
        ],
    );
    assert_eq!(result, Ok(()));
    assert_eq!((presenter.source_id, presenter.epoch, presenter.frame_id), (20, 2, 0));
    assert_eq!(presenter.viewport, small);
}

#[test]
fn a_failed_replacement_gives_the_new_source_up() {
    for failing in 0..4 {
        let mut presenter = open();
        let step = presenter.recover_source();
        let mut replies = vec![SessionReply::Id(20), SessionReply::Done, SessionReply::Done];
        replies.truncate(failing);
        replies.push(failed());
        if failing >= 2 {
            replies.push(SessionReply::Done);
        }
        let (calls, result) = replace(&mut presenter, step, replies);
        assert_eq!(result, Err("refused".to_owned()));
        assert_eq!((presenter.source_id, presenter.epoch), (9, 1));
        assert_eq!(calls.last() == Some(&SessionCall::DestroySource(20)), failing >= 2);
    }
}

#[test]
fn epochs_start_over_at_one() {
    let mut presenter = open();
    presenter.epoch = u32::MAX;
    let step = presenter.recover_source();
    let mut replies = vec![SessionReply::Id(20)];
    replies.extend((0..3).map(|_| SessionReply::Done));
    replies.push(failed());
    let (_, result) = replace(&mut presenter, step, replies);
    assert_eq!(result, Err("refused".to_owned()));
    assert_eq!((presenter.source_id, presenter.epoch), (20, 1));
}

#[test]
fn teardown_goes_on_after_failures() {
    let mut presenter = open();
    let step = presenter.teardown();
    assert_eq!(step.call(&presenter), Some(SessionCall::DeleteNode(8)));
    let step = presenter.teardown_step(step, SessionReply::Done);
    assert!(!presenter.connected);
    assert_eq!(step.call(&presenter), Some(SessionCall::DestroySource(9)));
    let step = presenter.teardown_step(step, failed());
    assert_eq!(step.call(&presenter), Some(SessionCall::Goodbye));
    let step = presenter.teardown_step(step, SessionReply::Failed("late".to_owned()));
    assert!(matches!(step, Teardown::Finished(Err(cause)) if cause == "refused"));
    assert!(matches!(presenter.teardown(), Teardown::Finished(Ok(()))));
}
