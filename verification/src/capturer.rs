//! Capturing a display through a helper: when a helper is started and asked for
//! a frame, when it is started again with more rights, and what becomes of the
//! frames.

use crate::error::{Error, ErrorKind, Failure};
use crate::kms::Display;
use crate::pixel::Pixfmt;
use crate::retry;
use crate::text;
use crate::wire::{DmabufFrame, HelperFrameOutput};
use vstd::prelude::*;

verus! {

/// A frame that a helper delivered.
#[derive(Debug)]
pub enum CapturedFrame<F> {
    Pixel(HelperFrameOutput),
    Dmabuf(DmabufFrame<F>),
}

impl<F> CapturedFrame<F> {
    pub open spec fn dimensions(self) -> (usize, usize) {
        match self {
            CapturedFrame::Pixel(frame) => (frame.width, frame.height),
            CapturedFrame::Dmabuf(frame) => (frame.width, frame.height),
        }
    }

    pub fn size(&self) -> (size: (usize, usize))
        ensures
            size == self.dimensions(),
    {
        match self {
            CapturedFrame::Pixel(frame) => (frame.width, frame.height),
            CapturedFrame::Dmabuf(frame) => (frame.width, frame.height),
        }
    }
}

/// Where the reading of a frame stands.
#[derive(Clone, Copy, PartialEq, Eq, Debug, Structural)]
pub enum Phase {
    /// No frame is being read.
    Idle,
    /// A helper is being started; `retry` tells whether this is the second try.
    Spawning { retry: bool },
    /// The helper was asked for a frame.
    Requesting { retry: bool },
}

/// What to do next to read a frame.
#[derive(Debug)]
pub enum Action<F> {
    /// Close the helper's session if there is one, and start a helper.
    Spawn { privileged: bool },
    /// Ask the helper for a frame.
    Request,
    /// The frame is read, or cannot be read.
    Return(Result<CapturedFrame<F>, Error>),
}

/// The part of a capturer that decides about helpers.
pub struct Helpers {
    /// A helper's session is open.
    pub session: bool,
    /// A privileged helper has been started before.
    pub privileged_attempted: bool,
    /// The card can be opened without more rights.
    pub accessible: bool,
    pub phase: Phase,
}

impl Helpers {
    /// There is a session exactly while a frame is asked for; between readings
    /// there may be one.
    pub open spec fn wf(self) -> bool {
        match self.phase {
            Phase::Idle => true,
            Phase::Spawning { retry } => !self.session && (retry ==> self.privileged_attempted),
            Phase::Requesting { retry } => self.session && (retry ==> self.privileged_attempted),
        }
    }

    /// A reading begins: with the open session, or else with a new helper, which
    /// is privileged where the card cannot be opened.
    pub open spec fn begun(self) -> Helpers {
        if self.session {
            Helpers { phase: Phase::Requesting { retry: false }, ..self }
        } else {
            Helpers {
                phase: Phase::Spawning { retry: false },
                privileged_attempted: self.privileged_attempted || !self.accessible,
                ..self
            }
        }
    }

    /// The first try failed: the session is closed, and a privileged helper is
    /// started unless there was one before or the message does not call for it.
    pub open spec fn retried(self, message: Seq<char>) -> Helpers {
        if self.privileged_attempted || !retry::client_retries(message) {
            Helpers { session: false, phase: Phase::Idle, ..self }
        } else {
            Helpers {
                session: false,
                privileged_attempted: true,
                phase: Phase::Spawning { retry: true },
                ..self
            }
        }
    }

    /// The start of a helper ended.
    pub open spec fn after_spawn(self, failure: Option<Seq<char>>) -> Helpers {
        match (self.phase, failure) {
            (Phase::Spawning { retry }, None) => Helpers {
                session: true,
                phase: Phase::Requesting { retry },
                ..self
            },
            (Phase::Spawning { retry: false }, Some(message)) => self.retried(message),
            _ => Helpers { phase: Phase::Idle, ..self },
        }
    }

    /// The helper's answer came.
    pub open spec fn after_request(self, failure: Option<Seq<char>>) -> Helpers {
        match (self.phase, failure) {
            (Phase::Requesting { retry: false }, Some(message)) => self.retried(message),
            _ => Helpers { phase: Phase::Idle, ..self },
        }
    }

    /// How many more steps a reading can take at most.
    pub open spec fn steps_left(self) -> int {
        match self.phase {
            Phase::Idle => 0,
            Phase::Requesting { retry: true } => 1,
            Phase::Spawning { retry: true } => 2,
            Phase::Requesting { retry: false } => 3,
            Phase::Spawning { retry: false } => 4,
        }
    }

    fn retry_or_stop<F>(&mut self, err: Error) -> (action: Action<F>)
        ensures
            *final(self) == old(self).retried(err@.message),
            action == (if final(self).phase == Phase::Idle {
                Action::<F>::Return(Err(err))
            } else {
                Action::Spawn { privileged: true }
            }),
    {
        self.session = false;
        if self.privileged_attempted || !retry::should_retry_privileged_message(
            err.message.as_str(),
        ) {
            self.phase = Phase::Idle;
            return Action::Return(Err(err));
        }
        self.privileged_attempted = true;
        self.phase = Phase::Spawning { retry: true };
        Action::Spawn { privileged: true }
    }
}

/// The text of a failure.
pub open spec fn failure_of<T>(result: Result<T, Error>) -> Option<Seq<char>> {
    match result {
        Ok(_) => None,
        Err(err) => Some(err@.message),
    }
}

/// Every reading comes to its end: each answer leaves fewer steps.
pub proof fn law_reading_ends(helpers: Helpers, failure: Option<Seq<char>>)
    requires
        helpers.wf(),
        helpers.phase != Phase::Idle,
    ensures
        helpers.phase is Spawning ==> 0 <= helpers.after_spawn(failure).steps_left()
            < helpers.steps_left(),
        helpers.phase is Requesting ==> 0 <= helpers.after_request(failure).steps_left()
            < helpers.steps_left(),
{
}

/// That a privileged helper was started is never forgotten.
pub proof fn law_privileged_attempt_is_remembered(helpers: Helpers, failure: Option<Seq<char>>)
    requires
        helpers.privileged_attempted,
    ensures
        helpers.begun().privileged_attempted,
        helpers.after_spawn(failure).privileged_attempted,
        helpers.after_request(failure).privileged_attempted,
{
}

/// A second try is made only where no privileged helper was started before, and
/// never again after it: there is at most one in a capturer's life.
pub proof fn law_one_second_try(helpers: Helpers, failure: Option<Seq<char>>)
    requires
        helpers.wf(),
    ensures
        (helpers.phase is Spawning && helpers.after_spawn(failure).phase == (Phase::Spawning {
            retry: true,
        })) ==> !helpers.privileged_attempted && helpers.after_spawn(failure).privileged_attempted,
        (helpers.phase is Requesting && helpers.after_request(failure).phase == (Phase::Spawning {
            retry: true,
        })) ==> !helpers.privileged_attempted && helpers.after_request(
            failure,
        ).privileged_attempted,
        helpers.privileged_attempted ==> helpers.after_spawn(failure).phase != (Phase::Spawning {
            retry: true,
        }) && helpers.after_request(failure).phase != (Phase::Spawning { retry: true }),
{
}

/// Where the first helper cannot touch the buffer, a privileged one is started
/// if none was before.
pub proof fn law_missing_gem_handle_starts_privileged_helper(helpers: Helpers)
    requires
        helpers.phase == (Phase::Requesting { retry: false }),
        !helpers.privileged_attempted,
    ensures
        helpers.after_request(Some("framebuffer has no accessible GEM handle"@)).phase == (
        Phase::Spawning { retry: true }),
{
    retry::law_missing_gem_handle_is_retried();
}

/// What was last handed out of a display.
#[verifier::ext_equal]
pub struct Picture {
    pub width: usize,
    pub height: usize,
    pub pixfmt: Pixfmt,
    pub stride: Seq<usize>,
    pub data: Seq<u8>,
}

/// The frame as a picture.
pub open spec fn picture_of(frame: HelperFrameOutput) -> Picture {
    Picture {
        width: frame.width,
        height: frame.height,
        pixfmt: frame.pixfmt,
        stride: frame.stride@,
        data: frame.data@,
    }
}

impl Picture {
    /// The layout of the first frame is taken over before the frame is handed out.
    pub open spec fn primed<F>(self, frame: CapturedFrame<F>) -> Picture {
        match frame {
            CapturedFrame::Pixel(frame) => Picture { data: self.data, ..picture_of(frame) },
            CapturedFrame::Dmabuf(frame) => Picture {
                width: frame.width,
                height: frame.height,
                ..self
            },
        }
    }

    /// What handing out a frame leaves; nothing where the frame is the picture
    /// already.
    pub open spec fn updated<F>(self, frame: CapturedFrame<F>) -> Option<Picture> {
        match frame {
            CapturedFrame::Pixel(frame) => if self == picture_of(frame) {
                None
            } else {
                Some(picture_of(frame))
            },
            CapturedFrame::Dmabuf(frame) => Some(
                Picture { width: frame.width, height: frame.height, ..self },
            ),
        }
    }
}

/// A frame of pixels that was handed out is not handed out again.
pub proof fn law_same_frame_is_not_handed_out_twice<F>(
    picture: Picture,
    frame: HelperFrameOutput,
)
    ensures
        match picture.updated(CapturedFrame::<F>::Pixel(frame)) {
            Some(next) => next.updated(CapturedFrame::<F>::Pixel(frame)) is None,
            None => true,
        },
{
}

/// The frame that a capturer was primed with is handed out, if it has any bytes:
/// priming takes over its layout, not its bytes.
pub proof fn law_primed_frame_is_handed_out<F>(picture: Picture, frame: HelperFrameOutput)
    requires
        picture.data.len() == 0,
        frame.data@.len() > 0,
    ensures
        picture.primed(CapturedFrame::<F>::Pixel(frame)).updated(CapturedFrame::<F>::Pixel(frame))
            == Some(picture_of(frame)),
{
}

pub open spec fn asks_for_dmabuf(value: Option<&str>) -> bool {
    value matches Some(value) && {
        let lower = text::lowered(value@);
        lower == "1"@ || lower == "true"@ || lower == "y"@ || lower == "yes"@
    }
}

/// Whether the value of the option asks for frames that stay on the GPU.
pub fn use_dmabuf_capture(value: Option<&str>) -> (asks: bool)
    ensures
        asks == asks_for_dmabuf(value),
{
    match value {
        Some(value) => {
            let lower = text::to_lower(value);
            text::equals(lower.as_str(), "1") || text::equals(lower.as_str(), "true")
                || text::equals(lower.as_str(), "y") || text::equals(lower.as_str(), "yes")
        },
        None => false,
    }
}

/// What a capturer hands out.
#[derive(Debug)]
pub enum Delivery<F> {
    /// The pixels that the capturer holds now.
    Pixels,
    Dmabuf(DmabufFrame<F>),
}

pub open spec fn card_missing(display: Display) -> Failure {
    Failure::of(ErrorKind::NotFound, "DRM device '"@ + display.card_path@ + "' not found"@)
}

/// The picture of a display of which nothing was read yet.
pub open spec fn blank(display: Display) -> Picture {
    Picture {
        width: display.width,
        height: display.height,
        pixfmt: Pixfmt::BGRA,
        stride: seq![0usize],
        data: Seq::empty(),
    }
}

/// What came of reading the first frame of a display, and what the reading left of
/// the helpers.
pub struct FirstFrame<F> {
    pub helpers: Helpers,
    pub outcome: Result<CapturedFrame<F>, Error>,
}

/// The capturer has taken over the first frame's size and layout, and holds it to
/// be handed out.
pub open spec fn is_opened<F>(
    capturer: Capturer<F>,
    display: Display,
    use_dmabuf: bool,
    helpers: Helpers,
    frame: CapturedFrame<F>,
) -> bool {
    &&& capturer.display == display
    &&& capturer.picture() == blank(display).primed(frame)
    &&& capturer.pending_frame == Some(frame)
    &&& capturer.use_dmabuf == use_dmabuf
    &&& capturer.helpers == helpers
}

/// The capturer has the size of the display, no frame and no helper yet.
pub open spec fn is_begun<F>(capturer: Capturer<F>, display: Display, use_dmabuf: bool) -> bool {
    &&& capturer.display == display
    &&& capturer.picture() == blank(display)
    &&& capturer.pending_frame is None
    &&& capturer.use_dmabuf == use_dmabuf
    &&& capturer.helpers == (Helpers {
        session: false,
        privileged_attempted: false,
        accessible: display.accessible,
        phase: Phase::Idle,
    })
}

/// Captures one display.
pub struct Capturer<F> {
    pub display: Display,
    pub width: usize,
    pub height: usize,
    pub pixfmt: Pixfmt,
    pub stride: Vec<usize>,
    pub frame_data: Vec<u8>,
    pub pending_frame: Option<CapturedFrame<F>>,
    pub use_dmabuf: bool,
    pub helpers: Helpers,
}

impl<F> Capturer<F> {
    pub open spec fn picture(self) -> Picture {
        Picture {
            width: self.width,
            height: self.height,
            pixfmt: self.pixfmt,
            stride: self.stride@,
            data: self.frame_data@,
        }
    }

    /// Only what decides about helpers may differ.
    pub open spec fn same_but_helpers(self, other: Self) -> bool {
        self == (Capturer { helpers: self.helpers, ..other })
    }

    /// A reading begins, and `action` is its first step.
    pub open spec fn starts_reading(self, after: Self, action: Action<F>) -> bool {
        &&& after.same_but_helpers(self)
        &&& after.helpers == self.helpers.begun()
        &&& action == (if self.helpers.session {
            Action::<F>::Request
        } else {
            Action::Spawn { privileged: !self.helpers.accessible }
        })
    }

    /// The reading goes on with `action` after the start of a helper.
    pub open spec fn goes_on_after_spawn(
        self,
        after: Self,
        outcome: Result<(), Error>,
        action: Action<F>,
    ) -> bool {
        &&& after.same_but_helpers(self)
        &&& after.helpers == self.helpers.after_spawn(failure_of(outcome))
        &&& match outcome {
            Ok(_) => action == Action::<F>::Request,
            Err(err) => action == (if after.helpers.phase == Phase::Idle {
                Action::<F>::Return(Err(err))
            } else {
                Action::Spawn { privileged: true }
            }),
        }
    }

    /// The reading goes on with `action` after the helper's answer.
    pub open spec fn goes_on_after_answer(
        self,
        after: Self,
        outcome: Result<CapturedFrame<F>, Error>,
        action: Action<F>,
    ) -> bool {
        &&& after.same_but_helpers(self)
        &&& after.helpers == self.helpers.after_request(failure_of(outcome))
        &&& action == (if after.helpers.phase == Phase::Idle {
            Action::Return(outcome)
        } else {
            Action::Spawn { privileged: true }
        })
    }

    /// The frame that waits is taken, or a reading begins.
    pub open spec fn takes_or_reads(self, after: Self, action: Action<F>) -> bool {
        match self.pending_frame {
            Some(frame) => action == Action::Return(Ok(frame)) && after == (Capturer {
                pending_frame: None,
                ..self
            }),
            None => self.starts_reading(after, action),
        }
    }

    /// The frame is handed out, or held back where it is the picture already; nothing
    /// but the picture changes.
    pub open spec fn hands_out(
        self,
        after: Self,
        frame: CapturedFrame<F>,
        delivery: Result<Delivery<F>, Error>,
    ) -> bool {
        &&& after.display == self.display
        &&& after.use_dmabuf == self.use_dmabuf
        &&& after.helpers == self.helpers
        &&& after.pending_frame == self.pending_frame
        &&& match self.picture().updated(frame) {
            Some(picture) => after.picture() == picture && match frame {
                CapturedFrame::Pixel(_) => delivery == Ok::<Delivery<F>, Error>(Delivery::Pixels),
                CapturedFrame::Dmabuf(frame) => delivery == Ok::<Delivery<F>, Error>(
                    Delivery::Dmabuf(frame),
                ),
            },
            None => after.picture() == self.picture() && (delivery matches Err(err) && err@
                == Failure::of(ErrorKind::WouldBlock, "operation would block"@)),
        }
    }

    /// A capturer without a helper or a frame yet, with which the first frame can be
    /// read.
    pub fn begin(display: Display, use_dmabuf: bool) -> (made: Capturer<F>)
        ensures
            is_begun(made, display, use_dmabuf),
            made.helpers.wf(),
    {
        let mut stride: Vec<usize> = Vec::new();
        stride.push(0);
        let accessible = display.accessible;
        let made = Capturer {
            width: display.width,
            height: display.height,
            display,
            pixfmt: Pixfmt::BGRA,
            stride,
            frame_data: Vec::new(),
            pending_frame: None,
            use_dmabuf,
            helpers: Helpers {
                session: false,
                privileged_attempted: false,
                accessible,
                phase: Phase::Idle,
            },
        };
        assert(made.picture() =~= blank(display));
        made
    }

    /// The capturer is opened with the first frame, or fails as reading it did.
    pub open spec fn is_new(
        opened: Result<Capturer<F>, Error>,
        display: Display,
        use_dmabuf: bool,
        first: Option<FirstFrame<F>>,
    ) -> bool {
        match first {
            Some(first) => match first.outcome {
                Ok(frame) => opened matches Ok(opened) && is_opened(
                    opened,
                    display,
                    use_dmabuf,
                    first.helpers,
                    frame,
                ),
                Err(failure) => opened == Err::<Capturer<F>, Error>(failure),
            },
            None => opened matches Err(err) && err@ == card_missing(display),
        }
    }

    /// The capturer of a display, opened with what came of reading its first frame.
    /// Nothing is read where the display's card does not exist.
    pub fn new(display: Display, use_dmabuf: bool, first: Option<FirstFrame<F>>) -> (opened: Result<
        Capturer<F>,
        Error,
    >)
        ensures
            Self::is_new(opened, display, use_dmabuf, first),
    {
        match first {
            Some(first) => match first.outcome {
                Ok(frame) => {
                    let mut opened = Self::begin(display, use_dmabuf);
                    opened.helpers = first.helpers;
                    opened.prime_frame(frame);
                    Ok(opened)
                },
                Err(err) => Err(err),
            },
            None => {
                let message = text::join3(
                    "DRM device '",
                    display.card_path.as_str(),
                    "' not found",
                );
                Err(Error::with_message(ErrorKind::NotFound, message))
            },
        }
    }

    pub fn width(&self) -> (width: usize)
        ensures
            width == self.width,
    {
        self.width
    }

    pub fn height(&self) -> (height: usize)
        ensures
            height == self.height,
    {
        self.height
    }

    /// Begins to read a frame from the helper.
    pub fn read_frame(&mut self) -> (action: Action<F>)
        requires
            old(self).helpers.wf(),
            old(self).helpers.phase == Phase::Idle,
        ensures
            old(self).starts_reading(*final(self), action),
            final(self).helpers.wf(),
    {
        if self.helpers.session {
            self.helpers.phase = Phase::Requesting { retry: false };
            return Action::Request;
        }
        let privileged = !self.helpers.accessible;
        if privileged {
            self.helpers.privileged_attempted = true;
        }
        self.helpers.phase = Phase::Spawning { retry: false };
        Action::Spawn { privileged }
    }

    /// Goes on when a helper has started, or failed to.
    pub fn spawned(&mut self, outcome: Result<(), Error>) -> (action: Action<F>)
        requires
            old(self).helpers.wf(),
            old(self).helpers.phase is Spawning,
        ensures
            old(self).goes_on_after_spawn(*final(self), outcome, action),
            final(self).helpers.wf(),
    {
        let retry = match self.helpers.phase {
            Phase::Spawning { retry } => retry,
            _ => false,
        };
        match outcome {
            Ok(_) => {
                self.helpers.session = true;
                self.helpers.phase = Phase::Requesting { retry };
                Action::Request
            },
            Err(err) => {
                if retry {
                    self.helpers.phase = Phase::Idle;
                    Action::Return(Err(err))
                } else {
                    self.helpers.retry_or_stop(err)
                }
            },
        }
    }

    /// Goes on when the helper has answered with a frame, or failed to.
    pub fn answered(&mut self, outcome: Result<CapturedFrame<F>, Error>) -> (action: Action<F>)
        requires
            old(self).helpers.wf(),
            old(self).helpers.phase is Requesting,
        ensures
            old(self).goes_on_after_answer(*final(self), outcome, action),
            final(self).helpers.wf(),
    {
        let retry = match self.helpers.phase {
            Phase::Requesting { retry } => retry,
            _ => false,
        };
        match outcome {
            Ok(frame) => {
                self.helpers.phase = Phase::Idle;
                Action::Return(Ok(frame))
            },
            Err(err) => {
                if retry {
                    self.helpers.phase = Phase::Idle;
                    Action::Return(Err(err))
                } else {
                    self.helpers.retry_or_stop(err)
                }
            },
        }
    }

    /// Takes the first frame: its size and layout hold from now on, and it is
    /// handed out first.
    pub fn prime_frame(&mut self, frame: CapturedFrame<F>)
        ensures
            final(self).picture() == old(self).picture().primed(frame),
            final(self).pending_frame == Some(frame),
            final(self).display == old(self).display,
            final(self).use_dmabuf == old(self).use_dmabuf,
            final(self).helpers == old(self).helpers,
    {
        let (width, height) = frame.size();
        self.width = width;
        self.height = height;
        if let CapturedFrame::Pixel(pixels) = &frame {
            self.pixfmt = pixels.pixfmt;
            self.stride = pixels.stride.clone();
            assert(self.stride@ =~= pixels.stride@);
        }
        self.pending_frame = Some(frame);
    }

    /// Takes the frame that waits to be handed out, or begins to read one.
    pub fn next_frame(&mut self) -> (action: Action<F>)
        requires
            old(self).helpers.wf(),
            old(self).helpers.phase == Phase::Idle,
        ensures
            old(self).takes_or_reads(*final(self), action),
            final(self).helpers.wf(),
    {
        match self.pending_frame.take() {
            Some(frame) => Action::Return(Ok(frame)),
            None => self.read_frame(),
        }
    }

    /// Hands out a frame, unless its pixels and layout are those that were handed
    /// out last.
    pub fn frame(&mut self, frame: CapturedFrame<F>) -> (delivery: Result<Delivery<F>, Error>)
        ensures
            old(self).hands_out(*final(self), frame, delivery),
    {
        match frame {
            CapturedFrame::Pixel(frame) => {
                let same_layout = self.width == frame.width && self.height == frame.height
                    && self.pixfmt == frame.pixfmt && self.stride == frame.stride;
                if same_layout && self.frame_data == frame.data {
                    assert(self.picture() =~= picture_of(frame));
                    return Err(Error::would_block());
                }
                self.frame_data = frame.data;
                self.width = frame.width;
                self.height = frame.height;
                self.pixfmt = frame.pixfmt;
                self.stride = frame.stride;
                Ok(Delivery::Pixels)
            },
            CapturedFrame::Dmabuf(frame) => {
                self.width = frame.width;
                self.height = frame.height;
                Ok(Delivery::Dmabuf(frame))
            },
        }
    }
}

/// A frame of pixels is held back only if it is the very picture that was handed out
/// last: if its size, its format, its stride or any byte of it differs from what the
/// capturer holds, it is delivered, and the capturer then holds exactly that frame.
pub proof fn law_changed_frame_is_handed_out<F>(
    before: Capturer<F>,
    after: Capturer<F>,
    frame: HelperFrameOutput,
    delivery: Result<Delivery<F>, Error>,
)
    requires
        before.hands_out(after, CapturedFrame::Pixel(frame), delivery),
        before.width != frame.width || before.height != frame.height || before.pixfmt
            != frame.pixfmt || before.stride@.len() != frame.stride@.len() || before.frame_data@.len()
            != frame.data@.len() || (exists|i: int|
            0 <= i < frame.stride@.len() && #[trigger] before.stride@[i] != frame.stride@[i]) || (
        exists|i: int|
            0 <= i < frame.data@.len() && #[trigger] before.frame_data@[i] != frame.data@[i]),
    ensures
        delivery == Ok::<Delivery<F>, Error>(Delivery::Pixels),
        after.width == frame.width,
        after.height == frame.height,
        after.pixfmt == frame.pixfmt,
        after.stride@ == frame.stride@,
        after.frame_data@ == frame.data@,
{
}

/// A frame of pixels that is the picture that was handed out last is not handed out:
/// the caller is told to ask again, and the capturer holds what it held.
pub proof fn law_unchanged_frame_is_held_back<F>(
    before: Capturer<F>,
    after: Capturer<F>,
    frame: HelperFrameOutput,
    delivery: Result<Delivery<F>, Error>,
)
    requires
        before.hands_out(after, CapturedFrame::Pixel(frame), delivery),
        before.width == frame.width,
        before.height == frame.height,
        before.pixfmt == frame.pixfmt,
        before.stride@ == frame.stride@,
        before.frame_data@ == frame.data@,
    ensures
        delivery matches Err(err) && err@.kind == ErrorKind::WouldBlock,
        after.width == before.width,
        after.height == before.height,
        after.pixfmt == before.pixfmt,
        after.stride@ == before.stride@,
        after.frame_data@ == before.frame_data@,
{
    assert(before.picture() =~= picture_of(frame));
}

/// A frame that stays on the GPU is always handed out, as it is; the capturer takes
/// over its size and keeps the pixels that it handed out before.
pub proof fn law_dmabuf_is_always_handed_out<F>(
    before: Capturer<F>,
    after: Capturer<F>,
    frame: DmabufFrame<F>,
    delivery: Result<Delivery<F>, Error>,
)
    requires
        before.hands_out(after, CapturedFrame::Dmabuf(frame), delivery),
    ensures
        delivery == Ok::<Delivery<F>, Error>(Delivery::Dmabuf(frame)),
        after.width == frame.width,
        after.height == frame.height,
        after.pixfmt == before.pixfmt,
        after.stride@ == before.stride@,
        after.frame_data@ == before.frame_data@,
{
}

/// Handing out a frame, or holding it back, leaves the display, the helpers and the
/// frame that waits alone.
pub proof fn law_handing_out_touches_only_the_picture<F>(
    before: Capturer<F>,
    after: Capturer<F>,
    frame: CapturedFrame<F>,
    delivery: Result<Delivery<F>, Error>,
)
    requires
        before.hands_out(after, frame, delivery),
    ensures
        after.display == before.display,
        after.use_dmabuf == before.use_dmabuf,
        after.pending_frame == before.pending_frame,
        after.helpers == before.helpers,
{
}

/// A capturer is opened with the size of its first frame, whatever the display's; of a
/// frame of pixels it has the format and the stride too, but no bytes yet, so that the
/// frame, which waits, is still to be handed out.
pub proof fn law_opened_with_the_first_frame<F>(
    capturer: Capturer<F>,
    display: Display,
    use_dmabuf: bool,
    helpers: Helpers,
    frame: CapturedFrame<F>,
)
    requires
        is_opened(capturer, display, use_dmabuf, helpers, frame),
    ensures
        capturer.pending_frame == Some(frame),
        capturer.frame_data@.len() == 0,
        capturer.display == display,
        capturer.use_dmabuf == use_dmabuf,
        capturer.helpers == helpers,
        match frame {
            CapturedFrame::Pixel(frame) => {
                &&& capturer.width == frame.width
                &&& capturer.height == frame.height
                &&& capturer.pixfmt == frame.pixfmt
                &&& capturer.stride@ == frame.stride@
            },
            CapturedFrame::Dmabuf(frame) => {
                &&& capturer.width == frame.width
                &&& capturer.height == frame.height
                &&& capturer.pixfmt == Pixfmt::BGRA
                &&& capturer.stride@ == seq![0usize]
            },
        },
{
}

/// A capturer that has read nothing has the display's size, holds no bytes, and has
/// started no helper.
pub proof fn law_begun_without_helper<F>(
    capturer: Capturer<F>,
    display: Display,
    use_dmabuf: bool,
)
    requires
        is_begun(capturer, display, use_dmabuf),
    ensures
        capturer.display == display,
        capturer.width == display.width,
        capturer.height == display.height,
        capturer.pixfmt == Pixfmt::BGRA,
        capturer.stride@ == seq![0usize],
        capturer.frame_data@.len() == 0,
        capturer.pending_frame is None,
        capturer.use_dmabuf == use_dmabuf,
        !capturer.helpers.session,
        !capturer.helpers.privileged_attempted,
        capturer.helpers.accessible == display.accessible,
        capturer.helpers.phase == Phase::Idle,
{
}

/// A reading asks the helper that is there. Without one it starts one, privileged
/// exactly where the card cannot be opened, and keeps in mind that it did so.
pub proof fn law_reading_starts<F>(before: Capturer<F>, after: Capturer<F>, action: Action<F>)
    requires
        before.starts_reading(after, action),
    ensures
        before.helpers.session ==> action == Action::<F>::Request && after.helpers.session
            && after.helpers.privileged_attempted == before.helpers.privileged_attempted
            && after.helpers.phase == (Phase::Requesting { retry: false }),
        !before.helpers.session ==> !after.helpers.session && after.helpers.phase == (
        Phase::Spawning { retry: false }),
        !before.helpers.session && before.helpers.accessible ==> action == (Action::<F>::Spawn {
            privileged: false,
        }) && after.helpers.privileged_attempted == before.helpers.privileged_attempted,
        !before.helpers.session && !before.helpers.accessible ==> action == (Action::<F>::Spawn {
            privileged: true,
        }) && after.helpers.privileged_attempted,
        after.helpers.accessible == before.helpers.accessible,
        after.picture() == before.picture(),
        after.pending_frame == before.pending_frame,
        after.display == before.display,
        after.use_dmabuf == before.use_dmabuf,
{
}

/// A helper that has started is asked for a frame; what is known of privileged helpers
/// does not change.
pub proof fn law_started_helper_is_asked<F>(
    before: Capturer<F>,
    after: Capturer<F>,
    action: Action<F>,
)
    requires
        before.helpers.phase is Spawning,
        before.goes_on_after_spawn(after, Ok(()), action),
    ensures
        action == Action::<F>::Request,
        after.helpers.session,
        after.helpers.phase == (Phase::Requesting { retry: before.helpers.phase->Spawning_retry }),
        after.helpers.privileged_attempted == before.helpers.privileged_attempted,
        after.helpers.accessible == before.helpers.accessible,
        after.picture() == before.picture(),
        after.pending_frame == before.pending_frame,
        after.display == before.display,
        after.use_dmabuf == before.use_dmabuf,
{
}

/// A frame ends the reading, and the helper stays for the next one.
pub proof fn law_frame_ends_the_reading<F>(
    before: Capturer<F>,
    after: Capturer<F>,
    frame: CapturedFrame<F>,
    action: Action<F>,
)
    requires
        before.helpers.phase is Requesting,
        before.goes_on_after_answer(after, Ok(frame), action),
    ensures
        action == Action::Return(Ok(frame)),
        after.helpers.phase == Phase::Idle,
        after.helpers.session == before.helpers.session,
        after.helpers.privileged_attempted == before.helpers.privileged_attempted,
        after.helpers.accessible == before.helpers.accessible,
        after.picture() == before.picture(),
        after.pending_frame == before.pending_frame,
        after.display == before.display,
        after.use_dmabuf == before.use_dmabuf,
{
}

/// After the failure of a first try, of the start as of the answer, a privileged
/// helper is started exactly if none was before and the message calls for one; else
/// the failure is the result. Either way the session is closed.
pub proof fn law_failed_first_try<F>(
    before: Capturer<F>,
    after: Capturer<F>,
    err: Error,
    action: Action<F>,
)
    requires
        ({
            ||| before.helpers.phase == (Phase::Spawning { retry: false })
                && before.goes_on_after_spawn(after, Err(err), action)
            ||| before.helpers.phase == (Phase::Requesting { retry: false })
                && before.goes_on_after_answer(after, Err(err), action)
        }),
    ensures
        !after.helpers.session,
        !before.helpers.privileged_attempted && retry::client_retries(err@.message) ==> action == (
        Action::<F>::Spawn { privileged: true }) && after.helpers.privileged_attempted
            && after.helpers.phase == (Phase::Spawning { retry: true }),
        before.helpers.privileged_attempted || !retry::client_retries(err@.message) ==> action
            == Action::<F>::Return(Err(err)) && after.helpers.phase == Phase::Idle
            && after.helpers.privileged_attempted == before.helpers.privileged_attempted,
        after.helpers.accessible == before.helpers.accessible,
        after.picture() == before.picture(),
        after.pending_frame == before.pending_frame,
        after.display == before.display,
        after.use_dmabuf == before.use_dmabuf,
{
}

/// The failure of a second try is the result, whatever its message.
pub proof fn law_failed_second_try<F>(
    before: Capturer<F>,
    after: Capturer<F>,
    err: Error,
    action: Action<F>,
)
    requires
        ({
            ||| before.helpers.phase == (Phase::Spawning { retry: true })
                && before.goes_on_after_spawn(after, Err(err), action)
            ||| before.helpers.phase == (Phase::Requesting { retry: true })
                && before.goes_on_after_answer(after, Err(err), action)
        }),
    ensures
        action == Action::<F>::Return(Err(err)),
        after.helpers.phase == Phase::Idle,
        after.helpers.session == before.helpers.session,
        after.helpers.privileged_attempted == before.helpers.privileged_attempted,
        after.helpers.accessible == before.helpers.accessible,
        after.picture() == before.picture(),
        after.pending_frame == before.pending_frame,
        after.display == before.display,
        after.use_dmabuf == before.use_dmabuf,
{
}

/// The frame that waits is handed out before another is read, and only once.
pub proof fn law_waiting_frame_goes_first<F>(
    before: Capturer<F>,
    after: Capturer<F>,
    action: Action<F>,
)
    requires
        before.takes_or_reads(after, action),
    ensures
        after.pending_frame is None,
        before.pending_frame matches Some(frame) ==> action == Action::Return(Ok(frame))
            && after.helpers == before.helpers,
        before.pending_frame is None ==> !(action is Return) && before.starts_reading(
            after,
            action,
        ),
        after.picture() == before.picture(),
        after.display == before.display,
        after.use_dmabuf == before.use_dmabuf,
{
}

/// The option asks for frames that stay on the GPU by the words for yes, however their
/// letters are cased, and by nothing else.
pub proof fn law_dmabuf_words(value: &str, other: &str)
    requires
        text::lowered(value@) == text::lowered(other@),
    ensures
        asks_for_dmabuf(Some(value)) == asks_for_dmabuf(Some(other)),
        asks_for_dmabuf(Some(value)) ==> {
            ||| text::lowered(value@) =~= seq!['1']
            ||| text::lowered(value@) =~= seq!['y']
            ||| text::lowered(value@) =~= seq!['y', 'e', 's']
            ||| text::lowered(value@) =~= seq!['t', 'r', 'u', 'e']
        },
        text::lowered(value@) == seq!['1'] || text::lowered(value@) == seq!['y'] || text::lowered(
            value@,
        ) == seq!['y', 'e', 's'] || text::lowered(value@) == seq!['t', 'r', 'u', 'e']
            ==> asks_for_dmabuf(Some(value)),
        !asks_for_dmabuf(None),
{
    reveal_strlit("1");
    reveal_strlit("true");
    reveal_strlit("y");
    reveal_strlit("yes");
    assert("1"@ =~= seq!['1']);
    assert("y"@ =~= seq!['y']);
    assert("yes"@ =~= seq!['y', 'e', 's']);
    assert("true"@ =~= seq!['t', 'r', 'u', 'e']);
}

/// A capturer is opened exactly if its first frame was read, with what reading it left
/// of the helpers; a failure to read it is handed on, and a missing card is told.
pub proof fn law_opened_only_with_a_frame<F>(
    opened: Result<Capturer<F>, Error>,
    display: Display,
    use_dmabuf: bool,
    first: Option<FirstFrame<F>>,
)
    requires
        Capturer::is_new(opened, display, use_dmabuf, first),
    ensures
        opened is Ok <==> (first matches Some(first) && first.outcome is Ok),
        opened matches Ok(opened) ==> opened.pending_frame == Some(first.unwrap().outcome->Ok_0)
            && opened.helpers == first.unwrap().helpers && opened.display == display
            && opened.use_dmabuf == use_dmabuf && opened.frame_data@.len() == 0,
        first matches Some(first) ==> (first.outcome matches Err(err) ==> opened == Err::<
            Capturer<F>,
            Error,
        >(err)),
        first is None ==> (opened matches Err(err) && err@.kind == ErrorKind::NotFound
            && err@.message == "DRM device '"@ + display.card_path@ + "' not found"@),
{
}

/// Taking over the layout of a first frame changes the size and, for pixels, the format
/// and the stride, but never the bytes that were handed out.
pub proof fn law_priming_keeps_the_bytes<F>(
    picture: Picture,
    pixels: HelperFrameOutput,
    dmabuf: DmabufFrame<F>,
)
    ensures
        ({
            let primed = picture.primed(CapturedFrame::<F>::Pixel(pixels));
            &&& primed.width == pixels.width
            &&& primed.height == pixels.height
            &&& primed.pixfmt == pixels.pixfmt
            &&& primed.stride == pixels.stride@
            &&& primed.data == picture.data
        }),
        ({
            let primed = picture.primed(CapturedFrame::<F>::Dmabuf(dmabuf));
            &&& primed.width == dmabuf.width
            &&& primed.height == dmabuf.height
            &&& primed.pixfmt == picture.pixfmt
            &&& primed.stride == picture.stride
            &&& primed.data == picture.data
        }),
        CapturedFrame::<F>::Pixel(pixels).dimensions() == (pixels.width, pixels.height),
        CapturedFrame::<F>::Dmabuf(dmabuf).dimensions() == (dmabuf.width, dmabuf.height),
{
}

} // verus!
