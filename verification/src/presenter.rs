//! The pane's place on the display: a picture source, a node that shows it, and the
//! frames sent to it.
use vstd::prelude::*;
use vstd::string::StringExecFns;

use crate::geometry::{GeometryError, WindowSize};
use crate::text::push_decimal;

verus! {

/// Where a node stands among the layers of the terminal's text.
#[derive(Debug, Clone, Copy, PartialEq, Eq, Structural)]
pub enum TextLayer {
    /// Above the cells' background and below their characters.
    BetweenBackgroundAndGlyph,
}

/// A part of a node that is shown; lengths count in cells, 32 bits after the point.
#[derive(Debug, Clone, Copy, PartialEq, Eq, Structural)]
pub struct ClipRect {
    pub x: i64,
    pub y: i64,
    pub width: i64,
    pub height: i64,
}

/// A node of the display; lengths count in cells, 32 bits after the point.
#[derive(Debug, Clone, Copy, PartialEq, Eq, Structural)]
pub struct SceneNodeConfig {
    pub node_id: u64,
    pub source_id: u64,
    pub context_id: u64,
    pub x: i64,
    pub y: i64,
    pub width: i64,
    pub height: i64,
    pub text_layer: TextLayer,
    pub z_index: i64,
    pub visible: bool,
    pub anchor_id: Option<u64>,
    pub clip: Option<ClipRect>,
}

/// The length of a cell.
pub const CELL: i64 = 0x1_0000_0000;

/// The node that shows a source in the page area of a pane: from the pane's first cell,
/// without the status row.
pub open spec fn page_node(
    context_id: u64,
    node_id: u64,
    source_id: u64,
    viewport: WindowSize,
    visible: bool,
) -> SceneNodeConfig {
    SceneNodeConfig {
        node_id,
        source_id,
        context_id,
        x: 0,
        y: 0,
        width: (viewport.cols * CELL) as i64,
        height: (viewport.spec_page_rows() * CELL) as i64,
        text_layer: TextLayer::BetweenBackgroundAndGlyph,
        z_index: 0,
        visible,
        anchor_id: None,
        clip: None,
    }
}

/// The node that shows a source in the page area of a pane.
pub fn scene_config(
    context_id: u64,
    node_id: u64,
    source_id: u64,
    viewport: WindowSize,
    visible: bool,
) -> (node: SceneNodeConfig)
    ensures
        node == page_node(context_id, node_id, source_id, viewport, visible),
{
    SceneNodeConfig {
        node_id,
        source_id,
        context_id,
        x: 0,
        y: 0,
        width: viewport.cols as i64 * CELL,
        height: viewport.page_rows() as i64 * CELL,
        text_layer: TextLayer::BetweenBackgroundAndGlyph,
        z_index: 0,
        visible,
        anchor_id: None,
        clip: None,
    }
}

/// Why the display could not be brought up to date.
#[derive(Debug)]
pub enum PresentError {
    /// The page area cannot be drawn on.
    Viewport(GeometryError),
    /// A frame of the wrong size.
    FrameSize { bytes: usize, expected: usize },
    /// No frame number is left.
    FrameIdsExhausted,
    /// There is no source to send frames to.
    NoSource,
}

impl PresentError {
    /// The words shown to the reader for this error.
    pub open spec fn words(self) -> Seq<char> {
        match self {
            PresentError::Viewport(error) => error.words(),
            PresentError::FrameSize { bytes, expected } => "viewport frame has "@
                + crate::text::decimal(bytes as nat) + " bytes, expected "@ + crate::text::decimal(
                expected as nat,
            ),
            PresentError::FrameIdsExhausted => "raster frame ID space exhausted"@,
            PresentError::NoSource => "raster source is unavailable"@,
        }
    }

    /// The words shown to the reader for this error.
    pub fn message(&self) -> (text: String)
        ensures
            text@ == self.words(),
    {
        match self {
            PresentError::Viewport(error) => error.message(),
            PresentError::FrameSize { bytes, expected } => {
                let mut text = String::new();
                text.append("viewport frame has ");
                push_decimal(&mut text, *bytes as u64);
                text.append(" bytes, expected ");
                push_decimal(&mut text, *expected as u64);
                proof {
                    assert(text@ =~= self.words());
                }
                text
            },
            PresentError::FrameIdsExhausted => "raster frame ID space exhausted".to_owned(),
            PresentError::NoSource => "raster source is unavailable".to_owned(),
        }
    }
}

/// Something that is asked of the display.
#[derive(Debug, Clone, Copy, PartialEq, Eq, Structural)]
pub enum SessionCall {
    /// A number that no source or node has yet.
    AllocateId,
    /// A source of frames of the given size.
    CreateSource { source_id: u64, width: u32, height: u32 },
    /// A channel on which frames reach the source created last.
    OpenChannel { source_id: u64 },
    CreateNode(SceneNodeConfig),
    UpdateNode(SceneNodeConfig),
    DeleteNode(u64),
    DestroySource(u64),
    /// Leave the display.
    Goodbye,
}

/// What the display replies.
#[derive(Debug)]
pub enum SessionReply {
    /// The number asked for.
    Id(u64),
    /// It was done.
    Done,
    /// It was not done, with the display's own words.
    Failed(String),
}

/// A presenter: what it has put on the display. While it is connected there is a source
/// with a channel.
#[derive(Debug, Clone, Copy)]
pub struct VividPresenter {
    pub context_id: u64,
    pub connected: bool,
    pub source_id: u64,
    pub node_id: u64,
    pub viewport: WindowSize,
    pub visible: bool,
    pub epoch: u32,
    pub frame_id: u64,
    pub torn_down: bool,
}

/// A frame to send.
#[derive(Debug, Clone, Copy, PartialEq, Eq, Structural)]
pub struct FrameRequest {
    pub epoch: u32,
    pub frame_id: u64,
    pub width: u32,
    pub height: u32,
}

/// Why a frame with so many bytes cannot be sent, the first reason found.
pub open spec fn frame_fault(presenter: VividPresenter, bytes: int) -> Option<PresentError> {
    match presenter.viewport.spec_frame_fault() {
        Some(fault) => Some(PresentError::Viewport(fault)),
        None => if bytes != presenter.viewport.spec_frame_bytes() {
            Some(
                PresentError::FrameSize {
                    bytes: bytes as usize,
                    expected: presenter.viewport.spec_frame_bytes() as usize,
                },
            )
        } else if presenter.frame_id == u64::MAX {
            Some(PresentError::FrameIdsExhausted)
        } else if !presenter.connected {
            Some(PresentError::NoSource)
        } else {
            None
        },
    }
}

/// Whether sending a frame with so many bytes uses up a frame number, even if there is
/// no source.
pub open spec fn takes_frame_id(presenter: VividPresenter, bytes: int) -> bool {
    &&& presenter.viewport.spec_frame_fault() is None
    &&& bytes == presenter.viewport.spec_frame_bytes()
    &&& presenter.frame_id < u64::MAX
}

impl VividPresenter {
    /// The node as it is on the display, with another source, pane or visibility.
    pub open spec fn node(
        self,
        source_id: u64,
        viewport: WindowSize,
        visible: bool,
    ) -> SceneNodeConfig {
        page_node(self.context_id, self.node_id, source_id, viewport, visible)
    }

    /// Prepares a frame with so many bytes.
    pub fn show_frame(&mut self, bytes: usize) -> (request: Result<FrameRequest, PresentError>)
        ensures
            *final(self) == (VividPresenter {
                frame_id: if takes_frame_id(*old(self), bytes as int) {
                    (old(self).frame_id + 1) as u64
                } else {
                    old(self).frame_id
                },
                ..*old(self)
            }),
            match request {
                Ok(request) => {
                    &&& frame_fault(*old(self), bytes as int) is None
                    &&& request == (FrameRequest {
                        epoch: old(self).epoch,
                        frame_id: (old(self).frame_id + 1) as u64,
                        width: old(self).viewport.spec_area_width() as u32,
                        height: old(self).viewport.spec_area_height() as u32,
                    })
                },
                Err(error) => frame_fault(*old(self), bytes as int) == Some(error),
            },
    {
        let expected: usize = match self.viewport.framebuffer_len() {
            Ok(expected) => expected,
            Err(error) => {
                return Err(PresentError::Viewport(error));
            },
        };
        if bytes != expected {
            return Err(PresentError::FrameSize { bytes, expected });
        }
        match self.frame_id.checked_add(1) {
            Some(frame_id) => {
                self.frame_id = frame_id;
            },
            None => {
                return Err(PresentError::FrameIdsExhausted);
            },
        }
        if !self.connected {
            return Err(PresentError::NoSource);
        }
        Ok(
            FrameRequest {
                epoch: self.epoch,
                frame_id: self.frame_id,
                width: self.viewport.page_area_width_px(),
                height: self.viewport.page_area_height_px(),
            },
        )
    }
}

/// Whether a reply is one that the display gives to a call: a number for a number, and
/// a failure at any time.
pub open spec fn replies_to(call: SessionCall, reply: SessionReply) -> bool {
    match reply {
        SessionReply::Id(_) => call is AllocateId,
        SessionReply::Done => !(call is AllocateId),
        SessionReply::Failed(_) => true,
    }
}

/// A source of the size of the page area.
pub open spec fn page_source(source_id: u64, viewport: WindowSize) -> SessionCall {
    SessionCall::CreateSource {
        source_id,
        width: viewport.spec_area_width() as u32,
        height: viewport.spec_area_height() as u32,
    }
}

fn source_call(source_id: u64, viewport: WindowSize) -> (call: SessionCall)
    ensures
        call == page_source(source_id, viewport),
{
    SessionCall::CreateSource {
        source_id,
        width: viewport.page_area_width_px(),
        height: viewport.page_area_height_px(),
    }
}

/// How far a presenter has come onto the display.
#[derive(Debug)]
pub enum OpeningStage {
    NamingSource,
    NamingNode { source_id: u64 },
    CreatingSource { source_id: u64, node_id: u64 },
    OpeningChannel { source_id: u64, node_id: u64 },
    CreatingNode { source_id: u64, node_id: u64 },
    Opened(VividPresenter),
    Failed(String),
}

/// A presenter on its way onto the display.
#[derive(Debug)]
pub struct Opening {
    pub context_id: u64,
    pub viewport: WindowSize,
    pub stage: OpeningStage,
}

/// A presenter that has just come onto the display.
pub open spec fn fresh_presenter(
    context_id: u64,
    source_id: u64,
    node_id: u64,
    viewport: WindowSize,
) -> VividPresenter {
    VividPresenter {
        context_id,
        connected: true,
        source_id,
        node_id,
        viewport,
        visible: true,
        epoch: 1,
        frame_id: 0,
        torn_down: false,
    }
}

impl Opening {
    /// What to ask of the display now; nothing once the presenter is there or cannot be.
    pub open spec fn spec_call(self) -> Option<SessionCall> {
        match self.stage {
            OpeningStage::NamingSource => Some(SessionCall::AllocateId),
            OpeningStage::NamingNode { .. } => Some(SessionCall::AllocateId),
            OpeningStage::CreatingSource { source_id, .. } => Some(
                page_source(source_id, self.viewport),
            ),
            OpeningStage::OpeningChannel { source_id, .. } => Some(
                SessionCall::OpenChannel { source_id },
            ),
            OpeningStage::CreatingNode { source_id, node_id } => Some(
                SessionCall::CreateNode(
                    page_node(self.context_id, node_id, source_id, self.viewport, true),
                ),
            ),
            OpeningStage::Opened(_) => None,
            OpeningStage::Failed(_) => None,
        }
    }

    /// How far the presenter has come after a reply: one step further, or not at all
    /// onto the display if the step failed.
    pub open spec fn stage_after(self, reply: SessionReply) -> OpeningStage {
        match reply {
            SessionReply::Failed(cause) => OpeningStage::Failed(cause),
            SessionReply::Id(id) => match self.stage {
                OpeningStage::NamingNode { source_id } => OpeningStage::CreatingSource {
                    source_id,
                    node_id: id,
                },
                _ => OpeningStage::NamingNode { source_id: id },
            },
            SessionReply::Done => match self.stage {
                OpeningStage::CreatingSource { source_id, node_id } => {
                    OpeningStage::OpeningChannel { source_id, node_id }
                },
                OpeningStage::OpeningChannel { source_id, node_id } => OpeningStage::CreatingNode {
                    source_id,
                    node_id,
                },
                OpeningStage::CreatingNode { source_id, node_id } => OpeningStage::Opened(
                    fresh_presenter(self.context_id, source_id, node_id, self.viewport),
                ),
                stage => stage,
            },
        }
    }

    /// What to ask of the display now.
    pub fn call(&self) -> (call: Option<SessionCall>)
        ensures
            call == self.spec_call(),
    {
        match &self.stage {
            OpeningStage::NamingSource => Some(SessionCall::AllocateId),
            OpeningStage::NamingNode { .. } => Some(SessionCall::AllocateId),
            OpeningStage::CreatingSource { source_id, .. } => Some(
                source_call(*source_id, self.viewport),
            ),
            OpeningStage::OpeningChannel { source_id, .. } => Some(
                SessionCall::OpenChannel { source_id: *source_id },
            ),
            OpeningStage::CreatingNode { source_id, node_id } => Some(
                SessionCall::CreateNode(
                    scene_config(self.context_id, *node_id, *source_id, self.viewport, true),
                ),
            ),
            OpeningStage::Opened(_) => None,
            OpeningStage::Failed(_) => None,
        }
    }

    /// Takes the reply to what was asked.
    pub fn reply(self, reply: SessionReply) -> (next: Opening)
        requires
            self.spec_call() matches Some(call) && replies_to(call, reply),
        ensures
            next == (Opening { stage: self.stage_after(reply), ..self }),
    {
        let Opening { context_id, viewport, stage } = self;
        let stage = match reply {
            SessionReply::Failed(cause) => OpeningStage::Failed(cause),
            SessionReply::Id(id) => match stage {
                OpeningStage::NamingNode { source_id } => OpeningStage::CreatingSource {
                    source_id,
                    node_id: id,
                },
                _ => OpeningStage::NamingNode { source_id: id },
            },
            SessionReply::Done => match stage {
                OpeningStage::CreatingSource { source_id, node_id } => {
                    OpeningStage::OpeningChannel { source_id, node_id }
                },
                OpeningStage::OpeningChannel { source_id, node_id } => OpeningStage::CreatingNode {
                    source_id,
                    node_id,
                },
                OpeningStage::CreatingNode { source_id, node_id } => OpeningStage::Opened(
                    VividPresenter {
                        context_id,
                        connected: true,
                        source_id,
                        node_id,
                        viewport,
                        visible: true,
                        epoch: 1,
                        frame_id: 0,
                        torn_down: false,
                    },
                ),
                stage => stage,
            },
        };
        Opening { context_id, viewport, stage }
    }
}

/// How far a source has been replaced by another.
#[derive(Debug)]
pub enum Replacement {
    Naming { viewport: WindowSize },
    Creating { viewport: WindowSize, source_id: u64 },
    OpeningChannel { viewport: WindowSize, source_id: u64 },
    UpdatingNode { viewport: WindowSize, source_id: u64 },
    /// The new source is given up again.
    RollingBack { source_id: u64, cause: String },
    /// The old source is given up.
    Retiring { source_id: u64 },
    Finished(Result<(), String>),
}

/// The presenter once another source has taken the place of its own.
pub open spec fn replaced(
    presenter: VividPresenter,
    source_id: u64,
    viewport: WindowSize,
) -> VividPresenter {
    VividPresenter {
        connected: true,
        source_id,
        viewport,
        epoch: if presenter.epoch == u32::MAX {
            1
        } else {
            (presenter.epoch + 1) as u32
        },
        frame_id: 0,
        ..presenter
    }
}

impl Replacement {
    /// What to ask of the display now.
    pub open spec fn spec_call(self, presenter: VividPresenter) -> Option<SessionCall> {
        match self {
            Replacement::Naming { .. } => Some(SessionCall::AllocateId),
            Replacement::Creating { viewport, source_id } => Some(page_source(source_id, viewport)),
            Replacement::OpeningChannel { source_id, .. } => Some(
                SessionCall::OpenChannel { source_id },
            ),
            Replacement::UpdatingNode { viewport, source_id } => Some(
                SessionCall::UpdateNode(presenter.node(source_id, viewport, presenter.visible)),
            ),
            Replacement::RollingBack { source_id, .. } => Some(
                SessionCall::DestroySource(source_id),
            ),
            Replacement::Retiring { source_id } => Some(SessionCall::DestroySource(source_id)),
            Replacement::Finished(_) => None,
        }
    }

    /// How far the source has been replaced after a reply. What fails once the new
    /// source exists has it given up again.
    pub open spec fn after(self, presenter: VividPresenter, reply: SessionReply) -> Replacement {
        match self {
            Replacement::Naming { viewport } => match reply {
                SessionReply::Failed(cause) => Replacement::Finished(Err(cause)),
                SessionReply::Id(source_id) => Replacement::Creating { viewport, source_id },
                SessionReply::Done => self,
            },
            Replacement::Creating { viewport, source_id } => match reply {
                SessionReply::Failed(cause) => Replacement::Finished(Err(cause)),
                _ => Replacement::OpeningChannel { viewport, source_id },
            },
            Replacement::OpeningChannel { viewport, source_id } => match reply {
                SessionReply::Failed(cause) => Replacement::RollingBack { source_id, cause },
                _ => Replacement::UpdatingNode { viewport, source_id },
            },
            Replacement::UpdatingNode { source_id, .. } => match reply {
                SessionReply::Failed(cause) => Replacement::RollingBack { source_id, cause },
                _ => Replacement::Retiring { source_id: presenter.source_id },
            },
            Replacement::RollingBack { cause, .. } => Replacement::Finished(Err(cause)),
            Replacement::Retiring { .. } => match reply {
                SessionReply::Failed(cause) => Replacement::Finished(Err(cause)),
                _ => Replacement::Finished(Ok(())),
            },
            Replacement::Finished(result) => self,
        }
    }

    /// The presenter after a reply: it has the new source from the moment on at which
    /// the node shows it.
    pub open spec fn presenter_after(
        self,
        presenter: VividPresenter,
        reply: SessionReply,
    ) -> VividPresenter {
        match self {
            Replacement::UpdatingNode { viewport, source_id } if !(reply is Failed) => replaced(
                presenter,
                source_id,
                viewport,
            ),
            _ => presenter,
        }
    }

    /// What to ask of the display now.
    pub fn call(&self, presenter: &VividPresenter) -> (call: Option<SessionCall>)
        ensures
            call == self.spec_call(*presenter),
    {
        match self {
            Replacement::Naming { .. } => Some(SessionCall::AllocateId),
            Replacement::Creating { viewport, source_id } => Some(
                source_call(*source_id, *viewport),
            ),
            Replacement::OpeningChannel { source_id, .. } => Some(
                SessionCall::OpenChannel { source_id: *source_id },
            ),
            Replacement::UpdatingNode { viewport, source_id } => Some(
                SessionCall::UpdateNode(
                    scene_config(
                        presenter.context_id,
                        presenter.node_id,
                        *source_id,
                        *viewport,
                        presenter.visible,
                    ),
                ),
            ),
            Replacement::RollingBack { source_id, .. } => Some(
                SessionCall::DestroySource(*source_id),
            ),
            Replacement::Retiring { source_id } => Some(SessionCall::DestroySource(*source_id)),
            Replacement::Finished(_) => None,
        }
    }
}

/// How far a presenter has left the display. The first failure on the way is kept.
#[derive(Debug)]
pub enum Teardown {
    DeletingNode,
    DestroyingSource { first_error: Option<String> },
    Leaving { first_error: Option<String> },
    Finished(Result<(), String>),
}

/// The first failure, after another reply.
pub open spec fn first_of(first_error: Option<String>, reply: SessionReply) -> Option<String> {
    match first_error {
        Some(first_error) => Some(first_error),
        None => match reply {
            SessionReply::Failed(cause) => Some(cause),
            _ => None,
        },
    }
}

fn first_failure(first_error: Option<String>, reply: SessionReply) -> (first: Option<String>)
    ensures
        first == first_of(first_error, reply),
{
    match first_error {
        Some(first_error) => Some(first_error),
        None => match reply {
            SessionReply::Failed(cause) => Some(cause),
            _ => None,
        },
    }
}

impl Teardown {
    /// What to ask of the display now.
    pub open spec fn spec_call(self, presenter: VividPresenter) -> Option<SessionCall> {
        match self {
            Teardown::DeletingNode => Some(SessionCall::DeleteNode(presenter.node_id)),
            Teardown::DestroyingSource { .. } => Some(
                SessionCall::DestroySource(presenter.source_id),
            ),
            Teardown::Leaving { .. } => Some(SessionCall::Goodbye),
            Teardown::Finished(_) => None,
        }
    }

    /// How far the presenter has left after a reply. A failure stops nothing.
    pub open spec fn after(self, reply: SessionReply) -> Teardown {
        match self {
            Teardown::DeletingNode => Teardown::DestroyingSource {
                first_error: first_of(None, reply),
            },
            Teardown::DestroyingSource { first_error } => Teardown::Leaving {
                first_error: first_of(first_error, reply),
            },
            Teardown::Leaving { first_error } => Teardown::Finished(
                match first_of(first_error, reply) {
                    Some(cause) => Err(cause),
                    None => Ok(()),
                },
            ),
            Teardown::Finished(result) => self,
        }
    }

    /// What to ask of the display now.
    pub fn call(&self, presenter: &VividPresenter) -> (call: Option<SessionCall>)
        ensures
            call == self.spec_call(*presenter),
    {
        match self {
            Teardown::DeletingNode => Some(SessionCall::DeleteNode(presenter.node_id)),
            Teardown::DestroyingSource { .. } => Some(
                SessionCall::DestroySource(presenter.source_id),
            ),
            Teardown::Leaving { .. } => Some(SessionCall::Goodbye),
            Teardown::Finished(_) => None,
        }
    }
}

impl VividPresenter {
    /// Begins to bring a presenter onto the display.
    pub fn new(context_id: u64, viewport: WindowSize) -> (opening: Opening)
        ensures
            opening == (Opening { context_id, viewport, stage: OpeningStage::NamingSource }),
    {
        Opening { context_id, viewport, stage: OpeningStage::NamingSource }
    }

    /// The node to put on the display so that the page is seen or not, if that changes
    /// anything.
    pub fn set_visible(&self, visible: bool) -> (node: Option<SceneNodeConfig>)
        ensures
            node == if visible == self.visible {
                None
            } else {
                Some(self.node(self.source_id, self.viewport, visible))
            },
    {
        if visible == self.visible {
            None
        } else {
            Some(
                scene_config(
                    self.context_id,
                    self.node_id,
                    self.source_id,
                    self.viewport,
                    visible,
                ),
            )
        }
    }

    /// The display shows the page, or hides it, from now on.
    pub fn visibility_set(&mut self, visible: bool)
        ensures
            *final(self) == (VividPresenter { visible, ..*old(self) }),
    {
        self.visible = visible;
    }

    /// Begins to put a source for another pane in the place of this one, unless the pane
    /// has not changed.
    pub fn resize(&self, viewport: WindowSize) -> (replacement: Option<Replacement>)
        ensures
            replacement == if viewport == self.viewport {
                None
            } else {
                Some(Replacement::Naming { viewport })
            },
    {
        if viewport == self.viewport {
            None
        } else {
            Some(Replacement::Naming { viewport })
        }
    }

    /// Begins to put a new source in the place of one that was lost.
    pub fn recover_source(&self) -> (replacement: Replacement)
        ensures
            replacement == (Replacement::Naming { viewport: self.viewport }),
    {
        Replacement::Naming { viewport: self.viewport }
    }

    /// Takes the reply to what was asked while the source is replaced.
    pub fn replace_source(&mut self, step: Replacement, reply: SessionReply) -> (next: Replacement)
        requires
            step.spec_call(*old(self)) matches Some(call) && replies_to(call, reply),
        ensures
            next == step.after(*old(self), reply),
            *final(self) == step.presenter_after(*old(self), reply),
    {
        match step {
            Replacement::Naming { viewport } => match reply {
                SessionReply::Failed(cause) => Replacement::Finished(Err(cause)),
                SessionReply::Id(source_id) => Replacement::Creating { viewport, source_id },
                SessionReply::Done => Replacement::Naming { viewport },
            },
            Replacement::Creating { viewport, source_id } => match reply {
                SessionReply::Failed(cause) => Replacement::Finished(Err(cause)),
                _ => Replacement::OpeningChannel { viewport, source_id },
            },
            Replacement::OpeningChannel { viewport, source_id } => match reply {
                SessionReply::Failed(cause) => Replacement::RollingBack { source_id, cause },
                _ => Replacement::UpdatingNode { viewport, source_id },
            },
            Replacement::UpdatingNode { viewport, source_id } => match reply {
                SessionReply::Failed(cause) => Replacement::RollingBack { source_id, cause },
                _ => {
                    let retired: u64 = self.source_id;
                    self.connected = true;
                    self.source_id = source_id;
                    self.viewport = viewport;
                    self.epoch = match self.epoch.checked_add(1) {
                        Some(epoch) => epoch,
                        None => 1,
                    };
                    self.frame_id = 0;
                    Replacement::Retiring { source_id: retired }
                },
            },
            Replacement::RollingBack { cause, .. } => Replacement::Finished(Err(cause)),
            Replacement::Retiring { .. } => match reply {
                SessionReply::Failed(cause) => Replacement::Finished(Err(cause)),
                _ => Replacement::Finished(Ok(())),
            },
            Replacement::Finished(result) => Replacement::Finished(result),
        }
    }

    /// Begins to leave the display, unless that was begun before.
    pub fn teardown(&mut self) -> (step: Teardown)
        ensures
            *final(self) == (VividPresenter { torn_down: true, ..*old(self) }),
            step == if old(self).torn_down {
                Teardown::Finished(Ok(()))
            } else {
                Teardown::DeletingNode
            },
    {
        if self.torn_down {
            return Teardown::Finished(Ok(()));
        }
        self.torn_down = true;
        Teardown::DeletingNode
    }

    /// Takes the reply to what was asked while the presenter leaves the display. Once
    /// the node is gone there is no source any more.
    pub fn teardown_step(&mut self, step: Teardown, reply: SessionReply) -> (next: Teardown)
        requires
            step.spec_call(*old(self)) matches Some(call) && replies_to(call, reply),
        ensures
            next == step.after(reply),
            *final(self) == (VividPresenter {
                connected: old(self).connected && !(step is DeletingNode),
                ..*old(self)
            }),
    {
        match step {
            Teardown::DeletingNode => {
                self.connected = false;
                Teardown::DestroyingSource { first_error: first_failure(None, reply) }
            },
            Teardown::DestroyingSource { first_error } => Teardown::Leaving {
                first_error: first_failure(first_error, reply),
            },
            Teardown::Leaving { first_error } => Teardown::Finished(
                match first_failure(first_error, reply) {
                    Some(cause) => Err(cause),
                    None => Ok(()),
                },
            ),
            Teardown::Finished(result) => Teardown::Finished(result),
        }
    }
}

/// A replacement taken as far as the given replies go: the presenter, the step it has
/// come to, and what was asked of the display on the way.
pub open spec fn replacement_run(
    presenter: VividPresenter,
    step: Replacement,
    replies: Seq<SessionReply>,
) -> (VividPresenter, Replacement, Seq<SessionCall>)
    decreases replies.len(),
{
    match step.spec_call(presenter) {
        Some(call) if replies.len() > 0 => {
            let reply = replies.first();
            let rest = replacement_run(
                step.presenter_after(presenter, reply),
                step.after(presenter, reply),
                replies.drop_first(),
            );
            (rest.0, rest.1, seq![call] + rest.2)
        },
        _ => (presenter, step, Seq::empty()),
    }
}

/// A replacement is over after at most five replies. It succeeds exactly where nothing
/// failed: the presenter has the new source, and the old one was given up. Otherwise the
/// presenter is as it was, and the new source was given up if it had come to exist;
/// unless only giving up the old source failed.
pub proof fn replacement_leaves_one_source(
    presenter: VividPresenter,
    viewport: WindowSize,
    source_id: u64,
    replies: Seq<SessionReply>,
)
    requires
        replies.len() == 5,
        replies[0] is Failed || replies[0] == SessionReply::Id(source_id),
        forall|i: int| 1 <= i < 5 ==> !((#[trigger] replies[i]) is Id),
    ensures
        ({
            let (after, end, calls) = replacement_run(
                presenter,
                Replacement::Naming { viewport },
                replies,
            );
            &&& end is Finished
            &&& (end == Replacement::Finished(Ok(()))) == (forall|i: int|
                0 <= i < 5 ==> !((#[trigger] replies[i]) is Failed))
            &&& if replies[0] is Failed || replies[1] is Failed {
                &&& after == presenter
                &&& forall|i: int|
                    0 <= i < calls.len() ==> !((#[trigger] calls[i]) is DestroySource)
            } else if replies[2] is Failed || replies[3] is Failed {
                &&& after == presenter
                &&& calls.last() == SessionCall::DestroySource(source_id)
            } else {
                &&& after == replaced(presenter, source_id, viewport)
                &&& calls.last() == SessionCall::DestroySource(presenter.source_id)
            }
        }),
{
    reveal_with_fuel(replacement_run, 6);
    let step = Replacement::Naming { viewport };
    let (after, end, calls) = replacement_run(presenter, step, replies);
    let one = replies.drop_first();
    let two = one.drop_first();
    let three = two.drop_first();
    let four = three.drop_first();
    assert(one.first() == replies[1]);
    assert(two.first() == replies[2]);
    assert(three.first() == replies[3]);
    assert(four.first() == replies[4]);
    assert(!(replies[1] is Id) && !(replies[2] is Id));
    assert(!(replies[3] is Id) && !(replies[4] is Id));
    if !(replies[0] is Failed) && !(replies[1] is Failed) && !(replies[2] is Failed)
        && !(replies[3] is Failed) && !(replies[4] is Failed) {
        assert forall|i: int| 0 <= i < 5 implies !((#[trigger] replies[i]) is Failed) by {
            assert(i == 0 || i == 1 || i == 2 || i == 3 || i == 4);
        }
    }
}

/// No frame of one source is taken for a frame of the one before: the epoch changes with
/// the source, and is never zero.
pub proof fn epochs_change(presenter: VividPresenter, source_id: u64, viewport: WindowSize)
    requires
        presenter.epoch >= 1,
    ensures
        replaced(presenter, source_id, viewport).epoch != presenter.epoch,
        replaced(presenter, source_id, viewport).epoch >= 1,
{
}

/// Leaving the display asks for all of it whatever fails: the node goes, then the
/// source, then the presenter, and the first failure is what comes out.
pub proof fn teardown_stops_at_nothing(
    presenter: VividPresenter,
    first: SessionReply,
    second: SessionReply,
    third: SessionReply,
)
    ensures
        ({
            let begun = Teardown::DeletingNode;
            let without_node = begun.after(first);
            let without_source = without_node.after(second);
            let end = without_source.after(third);
            &&& begun.spec_call(presenter) == Some(SessionCall::DeleteNode(presenter.node_id))
            &&& without_node.spec_call(presenter) == Some(
                SessionCall::DestroySource(presenter.source_id),
            )
            &&& without_source.spec_call(presenter) == Some(SessionCall::Goodbye)
            &&& end == Teardown::Finished(
                match first {
                    SessionReply::Failed(cause) => Err(cause),
                    _ => match second {
                        SessionReply::Failed(cause) => Err(cause),
                        _ => match third {
                            SessionReply::Failed(cause) => Err(cause),
                            _ => Ok(()),
                        },
                    },
                },
            )
        }),
{
}

/// The node covers the page area: from the pane's first cell on, all its columns wide and
/// all its rows but the last high, each cell being 2^32 long. It shows the source, between
/// the cells' background and their characters, whole and tied to no text.
pub proof fn nodes_cover_the_page_area(
    context_id: u64,
    node_id: u64,
    source_id: u64,
    viewport: WindowSize,
    visible: bool,
)
    ensures
        ({
            let node = page_node(context_id, node_id, source_id, viewport, visible);
            &&& node.context_id == context_id
            &&& node.node_id == node_id
            &&& node.source_id == source_id
            &&& node.visible == visible
            &&& node.x == 0 && node.y == 0 && node.z_index == 0
            &&& node.width == viewport.cols * 0x1_0000_0000
            &&& viewport.rows >= 2 ==> node.height == (viewport.rows - 1) * 0x1_0000_0000
            &&& viewport.rows < 2 ==> node.height == 0x1_0000_0000
            &&& node.text_layer == TextLayer::BetweenBackgroundAndGlyph
            &&& node.anchor_id is None && node.clip is None
        }),
{
}

/// The presenter's own node is changed only in what it is asked to.
pub proof fn nodes_keep_their_names(
    presenter: VividPresenter,
    source_id: u64,
    viewport: WindowSize,
    visible: bool,
)
    ensures
        presenter.node(source_id, viewport, visible) == page_node(
            presenter.context_id,
            presenter.node_id,
            source_id,
            viewport,
            visible,
        ),
{
}

/// A source has the size of the page area, in pixels.
pub proof fn sources_are_as_large_as_the_page_area(source_id: u64, viewport: WindowSize)
    ensures
        page_source(source_id, viewport) matches SessionCall::CreateSource {
            source_id: named,
            width,
            height,
        } && named == source_id && width == viewport.spec_area_width() && height
            == viewport.spec_area_height(),
{
    assert(0 <= viewport.cols * viewport.cell_width_px) by (nonlinear_arith);
    assert(0 <= viewport.spec_page_rows() * viewport.cell_height_px) by (nonlinear_arith)
        requires
            viewport.spec_page_rows() >= 0,
    ;
}

/// A frame is sent exactly if the page area can be had, the frame has four bytes for each
/// of its pixels, a frame number is left and there is a source; otherwise the first of
/// these that fails is told. A number is used up once the first three hold.
pub proof fn frames_of_the_right_size_are_sent(presenter: VividPresenter, bytes: usize)
    ensures
        ({
            let pixels = presenter.viewport.spec_area_width()
                * presenter.viewport.spec_area_height();
            let fault = frame_fault(presenter, bytes as int);
            let drawable = presenter.viewport.spec_frame_fault() is None;
            &&& fault is None <==> drawable && bytes == pixels * 4 && presenter.frame_id
                < 0xffff_ffff_ffff_ffff && presenter.connected
            &&& drawable && bytes != pixels * 4 ==> fault == Some(
                PresentError::FrameSize { bytes, expected: (pixels * 4) as usize },
            )
            &&& drawable && bytes == pixels * 4 && presenter.frame_id == 0xffff_ffff_ffff_ffff
                ==> fault == Some(PresentError::FrameIdsExhausted)
            &&& drawable && bytes == pixels * 4 && presenter.frame_id < 0xffff_ffff_ffff_ffff
                && !presenter.connected ==> fault == Some(PresentError::NoSource)
            &&& presenter.viewport.spec_frame_fault() matches Some(reason) ==> fault == Some(
                PresentError::Viewport(reason),
            )
            &&& takes_frame_id(presenter, bytes as int) <==> drawable && bytes == pixels * 4
                && presenter.frame_id < 0xffff_ffff_ffff_ffff
        }),
{
}

/// A presenter whose source was replaced has the new source and pane, counts its frames
/// from the start in the next epoch, and is otherwise as it was.
pub proof fn new_sources_start_over(
    presenter: VividPresenter,
    source_id: u64,
    viewport: WindowSize,
)
    ensures
        ({
            let after = replaced(presenter, source_id, viewport);
            &&& after.source_id == source_id
            &&& after.viewport == viewport
            &&& after.frame_id == 0
            &&& after.connected
            &&& presenter.epoch < 0xffff_ffff ==> after.epoch == presenter.epoch + 1
            &&& presenter.epoch == 0xffff_ffff ==> after.epoch == 1
            &&& after.context_id == presenter.context_id
            &&& after.node_id == presenter.node_id
            &&& after.visible == presenter.visible
            &&& after.torn_down == presenter.torn_down
        }),
{
}

/// A presenter comes onto the display in five steps: a number for the source, one for the
/// node, the source itself, its channel, and the node. Then it is there, seen, with these
/// two, in its first epoch and without a frame.
pub proof fn presenters_open_in_five_steps(
    context_id: u64,
    viewport: WindowSize,
    source_id: u64,
    node_id: u64,
)
    ensures
        ({
            let start = Opening { context_id, viewport, stage: OpeningStage::NamingSource };
            let named = Opening {
                stage: start.stage_after(SessionReply::Id(source_id)),
                ..start
            };
            let both = Opening { stage: named.stage_after(SessionReply::Id(node_id)), ..start };
            let created = Opening { stage: both.stage_after(SessionReply::Done), ..start };
            let joined = Opening { stage: created.stage_after(SessionReply::Done), ..start };
            &&& start.spec_call() == Some(SessionCall::AllocateId)
            &&& named.spec_call() == Some(SessionCall::AllocateId)
            &&& both.spec_call() == Some(page_source(source_id, viewport))
            &&& created.spec_call() == Some(SessionCall::OpenChannel { source_id })
            &&& joined.spec_call() == Some(
                SessionCall::CreateNode(
                    page_node(context_id, node_id, source_id, viewport, true),
                ),
            )
            &&& joined.stage_after(SessionReply::Done) == OpeningStage::Opened(
                VividPresenter {
                    context_id,
                    connected: true,
                    source_id,
                    node_id,
                    viewport,
                    visible: true,
                    epoch: 1,
                    frame_id: 0,
                    torn_down: false,
                },
            )
        }),
{
}

/// A step that fails while a presenter opens ends the opening with its reason.
pub proof fn failed_openings_tell_why(opening: Opening, cause: String)
    ensures
        opening.stage_after(SessionReply::Failed(cause)) == OpeningStage::Failed(cause),
        (Opening { stage: OpeningStage::Failed(cause), ..opening }).spec_call() is None,
{
}

/// A source is replaced in five steps: a number for the new one, the source itself at the
/// size of the new pane, its channel, the node shown with it as before, and then the old
/// source goes.
pub proof fn sources_are_replaced_in_five_steps(
    presenter: VividPresenter,
    viewport: WindowSize,
    source_id: u64,
)
    ensures
        ({
            let naming = Replacement::Naming { viewport };
            let creating = naming.after(presenter, SessionReply::Id(source_id));
            let joining = creating.after(presenter, SessionReply::Done);
            let updating = joining.after(presenter, SessionReply::Done);
            let retiring = updating.after(presenter, SessionReply::Done);
            let after = updating.presenter_after(presenter, SessionReply::Done);
            &&& naming.spec_call(presenter) == Some(SessionCall::AllocateId)
            &&& creating.spec_call(presenter) == Some(page_source(source_id, viewport))
            &&& joining.spec_call(presenter) == Some(SessionCall::OpenChannel { source_id })
            &&& updating.spec_call(presenter) == Some(
                SessionCall::UpdateNode(
                    page_node(
                        presenter.context_id,
                        presenter.node_id,
                        source_id,
                        viewport,
                        presenter.visible,
                    ),
                ),
            )
            &&& retiring.spec_call(after) == Some(SessionCall::DestroySource(presenter.source_id))
            &&& retiring.after(after, SessionReply::Done) == Replacement::Finished(Ok(()))
            &&& after.source_id == source_id && after.viewport == viewport && after.connected
        }),
{
}

/// What fails while a source is replaced is what the replacement comes to, whatever giving
/// the new source up again comes to.
pub proof fn failed_replacements_tell_why(
    presenter: VividPresenter,
    viewport: WindowSize,
    source_id: u64,
    cause: String,
    reply: SessionReply,
)
    ensures
        ({
            let failed = SessionReply::Failed(cause);
            let joining = Replacement::OpeningChannel { viewport, source_id };
            let updating = Replacement::UpdatingNode { viewport, source_id };
            let over = Replacement::Finished(Err(cause));
            &&& (Replacement::Naming { viewport }).after(presenter, failed) == over
            &&& (Replacement::Creating { viewport, source_id }).after(presenter, failed) == over
            &&& joining.after(presenter, failed).after(presenter, reply) == over
            &&& updating.after(presenter, failed).after(presenter, reply) == over
            &&& (Replacement::Retiring { source_id }).after(presenter, failed) == over
            &&& updating.presenter_after(presenter, failed) == presenter
        }),
{
}

/// A frame of the wrong size is told with the bytes it has and those it should have.
pub proof fn wrong_sizes_are_told(bytes: usize, expected: usize)
    ensures
        (PresentError::FrameSize { bytes, expected }).words() == "viewport frame has "@
            + crate::text::decimal(bytes as nat) + " bytes, expected "@ + crate::text::decimal(
            expected as nat,
        ),
{
}

} // verus!
