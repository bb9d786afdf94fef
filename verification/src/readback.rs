//! Reading framebuffers back: what to map of a framebuffer, which of several
//! framebuffers makes the frame, and what is exported for the GPU to read.

use crate::error::{Error, ErrorKind, Failure};
use crate::formats;
use crate::pixel;
use crate::retry;
use crate::scanout;
use crate::text;
use vstd::prelude::*;

verus! {

/// A display that a probe found.
#[derive(Debug)]
pub struct ProbeDisplay {
    pub card_path: String,
    pub connector_path: String,
    pub name: String,
    pub render_node: Option<String>,
    pub width: usize,
    pub height: usize,
    pub x: Option<i32>,
    pub y: Option<i32>,
    /// False where the buffer that is shown has a tiled or compressed modifier,
    /// which only the GPU can read.
    pub is_linear: bool,
    pub modifier_known: bool,
    pub online: bool,
    pub can_open: bool,
    pub open_error: Option<String>,
}

/// What goes before the bytes of a frame.
#[derive(Debug)]
pub struct FrameOutput {
    pub card_path: String,
    pub connector_path: String,
    pub name: String,
    pub width: usize,
    pub height: usize,
    pub stride: usize,
    pub pixfmt: &'static str,
    pub byte_len: usize,
}

#[derive(Debug)]
pub struct FrameCapture {
    pub header: FrameOutput,
    pub bytes: Vec<u8>,
}

/// What a DRM device says of a framebuffer with its planes and modifier.
#[derive(Debug)]
pub struct PlanarFramebuffer {
    pub width: u32,
    pub height: u32,
    pub fourcc: u32,
    pub modifier: Option<u64>,
    pub buffers: [Option<u32>; 4],
    pub pitches: [u32; 4],
    pub offsets: [u32; 4],
}

#[derive(Debug)]
pub enum PlanarError {
    Io(Error),
    UnrecognizedFourcc(u32),
}

/// How to read a framebuffer back.
#[derive(Debug)]
pub struct CapturePlan {
    pub buffer: u32,
    pub pixfmt: &'static str,
    pub force_opaque: bool,
    pub width: usize,
    pub height: usize,
    pub stride: usize,
    pub offset: usize,
    pub body_len: usize,
    pub map_len: usize,
}

/// The buffer behind the first plane.
pub open spec fn first_buffer(planar: PlanarFramebuffer, legacy: Option<u32>) -> Option<u32> {
    if planar.buffers@[0] is Some {
        planar.buffers@[0]
    } else {
        legacy
    }
}

pub open spec fn no_gem_handle() -> Failure {
    Failure::of(ErrorKind::Other, "framebuffer has no accessible GEM handle"@)
}

pub open spec fn body_size(planar: PlanarFramebuffer) -> int {
    planar.pitches@[0] * planar.height
}

/// Nothing but the format or the size can keep a framebuffer from being read back.
pub open spec fn reaches_format(planar: PlanarFramebuffer, legacy: Option<u32>) -> bool {
    &&& planar.modifier is None || planar.modifier == Some(0u64)
    &&& first_buffer(planar, legacy) is Some
    &&& planar.buffers@[1] is None && planar.buffers@[2] is None && planar.buffers@[3] is None
}

/// The format code of a framebuffer whose format is not recognised can be
/// printed.
pub open spec fn error_is_printable(planar: Result<PlanarFramebuffer, PlanarError>) -> bool {
    planar matches Err(PlanarError::UnrecognizedFourcc(code)) ==> !formats::is_unprintable(code)
}

/// Where a format is why a framebuffer cannot be read back, its code can be printed.
pub open spec fn refusal_is_printable(
    legacy: Option<u32>,
    planar: Result<PlanarFramebuffer, PlanarError>,
) -> bool {
    &&& error_is_printable(planar)
    &&& planar matches Ok(planar) ==> reaches_format(planar, legacy) && formats::layout_name(
        planar.fourcc,
    ) is None ==> !formats::is_unprintable(planar.fourcc)
}

/// Whether the format code of a framebuffer whose format is not recognised can be
/// printed.
pub fn has_printable_error(planar: &Result<PlanarFramebuffer, PlanarError>) -> (printable: bool)
    ensures
        printable == error_is_printable(*planar),
{
    match planar {
        Err(PlanarError::UnrecognizedFourcc(code)) => formats::is_printable_code(*code),
        _ => true,
    }
}

/// Whether the refusal to read a framebuffer back, if it comes to that, can be
/// printed.
pub fn has_printable_refusal(
    legacy: Option<u32>,
    planar: &Result<PlanarFramebuffer, PlanarError>,
) -> (printable: bool)
    ensures
        printable == refusal_is_printable(legacy, *planar),
{
    match planar {
        Ok(planar) => {
            let linear = match planar.modifier {
                Some(modifier) => formats::is_linear(modifier),
                None => true,
            };
            let reaches_format = linear && (planar.buffers[0].is_some() || legacy.is_some())
                && planar.buffers[1].is_none() && planar.buffers[2].is_none()
                && planar.buffers[3].is_none();
            !reaches_format || formats::is_printable_code(planar.fourcc)
                || formats::is_readable(planar.fourcc)
        },
        Err(_) => has_printable_error(planar),
    }
}

/// Why a framebuffer cannot be read back, the first reason first.
pub open spec fn refusal(planar: PlanarFramebuffer, legacy: Option<u32>) -> Option<
    Failure,
> {
    if planar.modifier is Some && planar.modifier != Some(0u64) {
        Some(formats::non_linear(planar.modifier.unwrap()))
    } else if first_buffer(planar, legacy) is None {
        Some(no_gem_handle())
    } else if planar.buffers@[1] is Some || planar.buffers@[2] is Some || planar.buffers@[3] is Some {
        Some(Failure::of(ErrorKind::Unsupported, "multi-plane framebuffers are not supported yet"@))
    } else if formats::layout_name(planar.fourcc) is None {
        Some(formats::unsupported_format(planar.fourcc))
    } else if body_size(planar) > usize::MAX {
        Some(Failure::of(ErrorKind::Other, "framebuffer size overflow"@))
    } else if planar.offsets@[0] + body_size(planar) > usize::MAX {
        Some(Failure::of(ErrorKind::Other, "framebuffer map size overflow"@))
    } else {
        None
    }
}

/// The plan reads all rows of the framebuffer's first plane.
pub open spec fn reads_all(
    plan: CapturePlan,
    planar: PlanarFramebuffer,
    legacy: Option<u32>,
) -> bool {
    &&& Some(plan.buffer) == first_buffer(planar, legacy)
    &&& Some(plan.pixfmt@) == formats::layout_name(planar.fourcc)
    &&& plan.force_opaque == formats::lacks_alpha(planar.fourcc)
    &&& plan.width == planar.width
    &&& plan.height == planar.height
    &&& plan.stride == planar.pitches@[0]
    &&& plan.offset == planar.offsets@[0]
    &&& plan.body_len == body_size(planar)
    &&& plan.map_len == plan.offset + plan.body_len
}

/// The plan reads the framebuffer back, or says why it cannot be.
pub open spec fn is_capture_planned(
    legacy: Option<u32>,
    planar: Result<PlanarFramebuffer, PlanarError>,
    plan: Result<CapturePlan, Error>,
) -> bool {
    match planar {
        Ok(planar) => match plan {
            Ok(plan) => refusal(planar, legacy) is None && reads_all(plan, planar, legacy),
            Err(err) => refusal(planar, legacy) == Some(err@) && (!counts_as_linear(Ok(planar))
                ==> !retry::client_retries(err@.message)),
        },
        Err(PlanarError::Io(failure)) => plan == Err::<CapturePlan, Error>(failure),
        Err(PlanarError::UnrecognizedFourcc(code)) => plan matches Err(err) && err@
            == formats::unsupported_format(code),
    }
}

/// Plans how to read a framebuffer back from what the device says of it; `legacy`
/// is the buffer that the older query names. The refusal of a tiled framebuffer
/// calls for no other try with more rights.
pub fn plan_capture(legacy: Option<u32>, planar: Result<PlanarFramebuffer, PlanarError>) -> (plan:
    Result<CapturePlan, Error>)
    requires
        refusal_is_printable(legacy, planar),
    ensures
        is_capture_planned(legacy, planar, plan),
{
    let planar = match planar {
        Ok(planar) => planar,
        Err(PlanarError::Io(err)) => {
            return Err(err);
        },
        Err(PlanarError::UnrecognizedFourcc(code)) => {
            return Err(formats::unsupported_format_error(code));
        },
    };
    if let Err(err) = formats::validate_modifier(planar.modifier) {
        return Err(err);
    }
    let buffer: u32 = match planar.buffers[0] {
        Some(buffer) => buffer,
        None => match legacy {
            Some(buffer) => buffer,
            None => {
                return Err(Error::other("framebuffer has no accessible GEM handle"));
            },
        },
    };
    if planar.buffers[1].is_some() || planar.buffers[2].is_some() || planar.buffers[3].is_some() {
        return Err(
            Error::new(
                ErrorKind::Unsupported,
                "multi-plane framebuffers are not supported yet",
            ),
        );
    }
    let pixfmt: &'static str = match formats::map_drm_fourcc(planar.fourcc) {
        Ok(pixfmt) => pixfmt,
        Err(err) => {
            return Err(err);
        },
    };
    let force_opaque = formats::should_force_opaque_alpha(planar.fourcc);
    let width: usize = planar.width as usize;
    let height: usize = planar.height as usize;
    let stride: usize = planar.pitches[0] as usize;
    let offset: usize = planar.offsets[0] as usize;
    let body_len: usize = match stride.checked_mul(height) {
        Some(body_len) => body_len,
        None => {
            return Err(Error::other("framebuffer size overflow"));
        },
    };
    let map_len: usize = match offset.checked_add(body_len) {
        Some(map_len) => map_len,
        None => {
            return Err(Error::other("framebuffer map size overflow"));
        },
    };
    Ok(
        CapturePlan {
            buffer,
            pixfmt,
            force_opaque,
            width,
            height,
            stride,
            offset,
            body_len,
            map_len,
        },
    )
}

/// The rows are those of the mapping from the offset on.
pub open spec fn is_slice_of(
    rows: Result<Vec<u8>, Error>,
    mapping: Seq<u8>,
    offset: usize,
    body_len: usize,
) -> bool {
    match rows {
        Ok(rows) => offset + body_len <= mapping.len() && rows@ == mapping.subrange(
            offset as int,
            offset + body_len,
        ),
        Err(err) => if offset + body_len > usize::MAX {
            err@ == Failure::of(ErrorKind::Other, "framebuffer slice overflow"@)
        } else {
            offset + body_len > mapping.len() && err@ == Failure::of(
                ErrorKind::Other,
                "framebuffer mapping smaller than expected"@,
            )
        },
    }
}

/// The rows of a framebuffer out of a mapping of its buffer.
pub fn framebuffer_slice(mapping: &[u8], offset: usize, body_len: usize) -> (rows: Result<
    Vec<u8>,
    Error,
>)
    ensures
        is_slice_of(rows, mapping@, offset, body_len),
{
    let end: usize = match offset.checked_add(body_len) {
        Some(end) => end,
        None => {
            return Err(Error::other("framebuffer slice overflow"));
        },
    };
    if end > mapping.len() {
        return Err(Error::other("framebuffer mapping smaller than expected"));
    }
    let mut rows: Vec<u8> = Vec::new();
    for i in offset..end
        invariant
            end <= mapping@.len(),
            rows@ == mapping@.subrange(offset as int, i as int),
    {
        rows.push(mapping[i]);
        assert(rows@ =~= mapping@.subrange(offset as int, i + 1));
    }
    Ok(rows)
}

/// Bytes that were read by a plan, with opaque alpha where the format has none.
pub open spec fn shaded(plan: CapturePlan, bytes: Seq<u8>) -> Seq<u8> {
    if plan.force_opaque {
        pixel::opaque(bytes)
    } else {
        bytes
    }
}

pub open spec fn shows(plan: CapturePlan, bytes: Seq<u8>) -> bool {
    pixel::has_visible_rgb(plan.pixfmt@, shaded(plan, bytes))
}

fn shade(plan: &CapturePlan, bytes: Vec<u8>) -> (out: Vec<u8>)
    ensures
        out@ == shaded(*plan, bytes@),
{
    let mut out = bytes;
    if plan.force_opaque {
        pixel::force_opaque_alpha(out.as_mut_slice());
    }
    out
}

/// What was read of a framebuffer through its exported buffer.
#[derive(Debug)]
pub struct Readback {
    pub plan: CapturePlan,
    pub bytes: Vec<u8>,
    pub visible: bool,
}

impl Readback {
    /// The first reading of a framebuffer, from its exported buffer.
    pub fn new(plan: CapturePlan, prime: Vec<u8>) -> (read: Readback)
        ensures
            read.plan == plan,
            read.bytes@ == shaded(plan, prime@),
            read.visible == shows(plan, prime@),
    {
        let bytes = shade(&plan, prime);
        let visible = pixel::bytes_have_visible_rgb(plan.pixfmt, bytes.as_slice());
        Readback { plan, bytes, visible }
    }

    /// The bytes that count: those of the second reading where the first shows
    /// nothing and the second something, else those of the first.
    pub open spec fn chosen(self, dumb: Result<Vec<u8>, Error>) -> Seq<u8> {
        match dumb {
            Ok(dumb) => if !self.visible && shows(self.plan, dumb@) {
                shaded(self.plan, dumb@)
            } else {
                self.bytes@
            },
            Err(_) => self.bytes@,
        }
    }

    /// Takes in a second reading, from the card's own mapping of the buffer. It is
    /// only worth making where the first is not visible.
    pub fn or_dumb(self, dumb: Result<Vec<u8>, Error>) -> (bytes: Vec<u8>)
        ensures
            bytes@ == self.chosen(dumb),
    {
        if !self.visible {
            if let Ok(dumb) = dumb {
                let dumb = shade(&self.plan, dumb);
                if pixel::bytes_have_visible_rgb(self.plan.pixfmt, dumb.as_slice()) {
                    return dumb;
                }
            }
        }
        self.bytes
    }
}

/// The frame that a readback by `plan` makes.
pub open spec fn is_frame_of(
    frame: FrameCapture,
    display: ProbeDisplay,
    plan: CapturePlan,
    bytes: Seq<u8>,
) -> bool {
    &&& frame.header.card_path == display.card_path
    &&& frame.header.connector_path == display.connector_path
    &&& frame.header.name == display.name
    &&& frame.header.width == plan.width
    &&& frame.header.height == plan.height
    &&& frame.header.stride == plan.stride
    &&& frame.header.pixfmt@ == plan.pixfmt@
    &&& frame.header.byte_len == bytes.len()
    &&& frame.bytes@ == bytes
}

/// Makes the frame out of both readings; any error stands for a second reading
/// that was not made.
pub fn finish_capture(
    display: &ProbeDisplay,
    read: Readback,
    dumb: Result<Vec<u8>, Error>,
) -> (frame: FrameCapture)
    ensures
        is_frame_of(frame, *display, read.plan, read.chosen(dumb)),
{
    let width: usize = read.plan.width;
    let height: usize = read.plan.height;
    let stride: usize = read.plan.stride;
    let pixfmt: &'static str = read.plan.pixfmt;
    let bytes = read.or_dumb(dumb);
    let byte_len: usize = bytes.len();
    FrameCapture {
        header: FrameOutput {
            card_path: display.card_path.clone(),
            connector_path: display.connector_path.clone(),
            name: display.name.clone(),
            width,
            height,
            stride,
            pixfmt,
            byte_len,
        },
        bytes,
    }
}

/// Where both readings have the length that the plan asks for, the frame holds all
/// rows of the framebuffer and nothing else, and says so.
pub proof fn law_frame_holds_all_rows(
    planar: PlanarFramebuffer,
    legacy: Option<u32>,
    display: ProbeDisplay,
    read: Readback,
    prime: Seq<u8>,
    dumb: Result<Vec<u8>, Error>,
    frame: FrameCapture,
)
    requires
        reads_all(read.plan, planar, legacy),
        prime.len() == read.plan.body_len,
        read.bytes@ == shaded(read.plan, prime),
        dumb matches Ok(dumb) ==> dumb@.len() == read.plan.body_len,
        is_frame_of(frame, display, read.plan, read.chosen(dumb)),
    ensures
        frame.bytes@.len() == frame.header.stride * frame.header.height,
        frame.header.byte_len == frame.bytes@.len(),
{
}

pub open spec fn frame_shows(frame: FrameCapture) -> bool {
    pixel::has_visible_rgb(frame.header.pixfmt@, frame.bytes@)
}

pub fn frame_has_visible_rgb(frame: &FrameCapture) -> (visible: bool)
    ensures
        visible == frame_shows(*frame),
{
    pixel::bytes_have_visible_rgb(frame.header.pixfmt, frame.bytes.as_slice())
}

/// An attempt that gave a frame which shows something.
pub open spec fn succeeded(attempt: Result<FrameCapture, Error>) -> bool {
    attempt matches Ok(frame) && frame_shows(frame)
}

/// The first attempt that gave a frame at all.
pub open spec fn first_frame(attempts: Seq<Result<FrameCapture, Error>>) -> Option<FrameCapture>
    decreases attempts.len(),
{
    if attempts.len() == 0 {
        None
    } else {
        match first_frame(attempts.drop_last()) {
            Some(frame) => Some(frame),
            None => match attempts.last() {
                Ok(frame) => Some(frame),
                Err(_) => None,
            },
        }
    }
}

/// The first attempt that gave a frame which shows something.
pub open spec fn first_visible(attempts: Seq<Result<FrameCapture, Error>>) -> Option<FrameCapture>
    decreases attempts.len(),
{
    if attempts.len() == 0 {
        None
    } else {
        match first_visible(attempts.drop_last()) {
            Some(frame) => Some(frame),
            None => match attempts.last() {
                Ok(frame) => if frame_shows(frame) {
                    Some(frame)
                } else {
                    None
                },
                Err(_) => None,
            },
        }
    }
}

/// The last attempt that failed.
pub open spec fn last_failure(attempts: Seq<Result<FrameCapture, Error>>) -> Option<Error>
    decreases attempts.len(),
{
    if attempts.len() == 0 {
        None
    } else {
        match attempts.last() {
            Ok(_) => last_failure(attempts.drop_last()),
            Err(err) => Some(err),
        }
    }
}

/// What a search ends with in which no attempt showed anything.
pub open spec fn is_search_result(
    attempts: Seq<Result<FrameCapture, Error>>,
    result: Result<FrameCapture, Error>,
) -> bool {
    match result {
        Ok(frame) => first_frame(attempts) == Some(frame),
        Err(err) => first_frame(attempts) is None && match last_failure(attempts) {
            Some(failure) => err == failure,
            None => attempts.len() == 0 && err@ == scanout::no_framebuffer(),
        },
    }
}

/// Looks for the frame to hand out among the framebuffers of a CRTC, which are
/// captured one after the other.
pub struct FrameSearch {
    fallback: Option<FrameCapture>,
    last_error: Option<Error>,
    attempts: Ghost<Seq<Result<FrameCapture, Error>>>,
}

impl FrameSearch {
    /// The attempts so far.
    pub closed spec fn attempts(self) -> Seq<Result<FrameCapture, Error>> {
        self.attempts@
    }

    pub closed spec fn wf(self) -> bool {
        &&& self.fallback == first_frame(self.attempts@)
        &&& self.last_error == last_failure(self.attempts@)
        &&& first_visible(self.attempts@) is None
    }

    pub fn new() -> (search: FrameSearch)
        ensures
            search.wf(),
            search.attempts().len() == 0,
    {
        FrameSearch { fallback: None, last_error: None, attempts: Ghost(Seq::empty()) }
    }

    /// The search takes the attempt in, or ends with its frame.
    pub open spec fn is_offered(
        self,
        after: FrameSearch,
        attempt: Result<FrameCapture, Error>,
        found: Option<FrameCapture>,
    ) -> bool {
        match found {
            Some(frame) => succeeded(attempt) && attempt == Ok::<FrameCapture, Error>(frame)
                && first_visible(self.attempts().push(attempt)) == Some(frame),
            None => !succeeded(attempt) && after.wf() && after.attempts() == self.attempts().push(attempt),
        }
    }

    /// Takes in the next attempt; a frame that shows something ends the search
    /// and is given back.
    pub fn offer(&mut self, attempt: Result<FrameCapture, Error>) -> (found: Option<FrameCapture>)
        requires
            old(self).wf(),
        ensures
            old(self).is_offered(*final(self), attempt, found),
    {
        let ghost before = self.attempts@;
        let ghost after = before.push(attempt);
        assert(after.drop_last() =~= before);
        match attempt {
            Ok(frame) => {
                if frame_has_visible_rgb(&frame) {
                    return Some(frame);
                }
                if self.fallback.is_none() {
                    self.fallback = Some(frame);
                }
            },
            Err(err) => {
                self.last_error = Some(err);
            },
        }
        self.attempts = Ghost(after);
        None
    }

    /// Ends a search in which no attempt showed anything: the first frame, else
    /// the last failure, else there was nothing to capture.
    pub fn finish(self) -> (result: Result<FrameCapture, Error>)
        requires
            self.wf(),
        ensures
            first_visible(self.attempts()) is None,
            is_search_result(self.attempts(), result),
    {
        proof {
            lemma_no_attempts(self.attempts@);
        }
        if let Some(frame) = self.fallback {
            return Ok(frame);
        }
        if let Some(err) = self.last_error {
            return Err(err);
        }
        Err(Error::other("crtc has no active framebuffer"))
    }
}

proof fn lemma_no_attempts(attempts: Seq<Result<FrameCapture, Error>>)
    ensures
        first_frame(attempts) is None && last_failure(attempts) is None ==> attempts.len() == 0,
    decreases attempts.len(),
{
    if attempts.len() > 0 {
        lemma_no_attempts(attempts.drop_last());
    }
}

/// Once an attempt showed something, later attempts would change nothing: the
/// search may end there.
pub proof fn law_first_visible_frame_wins(
    attempts: Seq<Result<FrameCapture, Error>>,
    later: Seq<Result<FrameCapture, Error>>,
)
    requires
        first_visible(attempts) is Some,
    ensures
        first_visible(attempts + later) == first_visible(attempts),
    decreases later.len(),
{
    if later.len() > 0 {
        law_first_visible_frame_wins(attempts, later.drop_last());
        assert((attempts + later).drop_last() =~= attempts + later.drop_last());
    } else {
        assert(attempts + later =~= attempts);
    }
}

/// The first visible frame is the one of the least attempt that succeeded.
pub proof fn law_first_visible_frame_is_first(attempts: Seq<Result<FrameCapture, Error>>)
    ensures
        match first_visible(attempts) {
            Some(frame) => exists|i: int|
                0 <= i < attempts.len() && #[trigger] succeeded(attempts[i]) && attempts[i] == Ok::<
                    FrameCapture,
                    Error,
                >(frame) && forall|j: int| 0 <= j < i ==> !#[trigger] succeeded(attempts[j]),
            None => forall|i: int| 0 <= i < attempts.len() ==> !#[trigger] succeeded(attempts[i]),
        },
    decreases attempts.len(),
{
    if attempts.len() > 0 {
        let head = attempts.drop_last();
        law_first_visible_frame_is_first(head);
        match first_visible(head) {
            Some(frame) => {
                let i = choose|i: int|
                    0 <= i < head.len() && #[trigger] succeeded(head[i]) && head[i] == Ok::<
                        FrameCapture,
                        Error,
                    >(frame) && forall|j: int| 0 <= j < i ==> !#[trigger] succeeded(head[j]);
                assert(succeeded(attempts[i]));
                assert forall|j: int| 0 <= j < i implies !#[trigger] succeeded(attempts[j]) by {
                    assert(!succeeded(head[j]));
                }
            },
            None => {
                assert forall|j: int| 0 <= j < head.len() implies !#[trigger] succeeded(
                    attempts[j],
                ) by {
                    assert(!succeeded(head[j]));
                }
                assert(succeeded(attempts[attempts.len() - 1]) == succeeded(attempts.last()));
            },
        }
    }
}

/// A plane whose buffer is exported.
#[derive(Clone, Copy, PartialEq, Eq, Debug, Structural)]
pub struct DmabufExport {
    pub buffer: u32,
    pub stride: u32,
    pub offset: u32,
}

/// How to export a framebuffer.
#[derive(Debug)]
pub struct DmabufPlan {
    pub width: usize,
    pub height: usize,
    pub fourcc: u32,
    pub modifier: u64,
    pub exports: Vec<DmabufExport>,
}

#[derive(Clone, Copy, PartialEq, Eq, Debug, Structural)]
pub struct DmabufPlaneOutput {
    pub stride: u32,
    pub offset: u32,
}

/// What describes an exported framebuffer; its planes go with one file
/// descriptor each.
#[derive(Debug)]
pub struct DmabufFrameOutput {
    pub card_path: String,
    pub connector_path: String,
    pub name: String,
    pub render_node: Option<String>,
    pub width: usize,
    pub height: usize,
    pub fourcc: u32,
    pub modifier: u64,
    pub planes: Vec<DmabufPlaneOutput>,
}

/// The first `count` planes that have a pitch. Where planes share one buffer, a
/// device may name it for the first of them alone: `first` stands in for it.
pub open spec fn exported(planar: PlanarFramebuffer, first: u32, count: int) -> Seq<DmabufExport>
    decreases count,
{
    if count <= 0 {
        Seq::empty()
    } else {
        let head = exported(planar, first, count - 1);
        let at = count - 1;
        if planar.pitches@[at] == 0 {
            head
        } else {
            head.push(
                DmabufExport {
                    buffer: match planar.buffers@[at] {
                        Some(buffer) => buffer,
                        None => first,
                    },
                    stride: planar.pitches@[at],
                    offset: planar.offsets@[at],
                },
            )
        }
    }
}

/// The modifier of a framebuffer; one without is linear.
pub open spec fn modifier_or_linear(planar: PlanarFramebuffer) -> u64 {
    match planar.modifier {
        Some(modifier) => modifier,
        None => 0,
    }
}

/// The plan exports all that can be exported of the framebuffer, or says what is
/// missing.
pub open spec fn is_dmabuf_planned(
    legacy: Option<u32>,
    planar: Result<PlanarFramebuffer, PlanarError>,
    plan: Result<DmabufPlan, Error>,
) -> bool {
    match planar {
        Ok(planar) => match plan {
            Ok(plan) => {
                &&& first_buffer(planar, legacy) matches Some(first)
                &&& plan.exports@ == exported(planar, first, 4)
                &&& plan.exports@.len() > 0
                &&& plan.width == planar.width
                &&& plan.height == planar.height
                &&& plan.fourcc == planar.fourcc
                &&& plan.modifier == modifier_or_linear(planar)
            },
            Err(err) => match first_buffer(planar, legacy) {
                Some(first) => exported(planar, first, 4).len() == 0 && err@ == Failure::of(
                    ErrorKind::Other,
                    "framebuffer has no exportable dmabuf planes"@,
                ),
                None => err@ == no_gem_handle(),
            },
        },
        Err(PlanarError::Io(failure)) => plan == Err::<DmabufPlan, Error>(failure),
        Err(PlanarError::UnrecognizedFourcc(code)) => plan matches Err(err) && err@
            == formats::unsupported_format(code),
    }
}

/// Plans how to export a framebuffer for the GPU, whatever its modifier.
pub fn plan_dmabuf(legacy: Option<u32>, planar: Result<PlanarFramebuffer, PlanarError>) -> (plan:
    Result<DmabufPlan, Error>)
    requires
        error_is_printable(planar),
    ensures
        is_dmabuf_planned(legacy, planar, plan),
{
    let planar = match planar {
        Ok(planar) => planar,
        Err(PlanarError::Io(err)) => {
            return Err(err);
        },
        Err(PlanarError::UnrecognizedFourcc(code)) => {
            return Err(formats::unsupported_format_error(code));
        },
    };
    let modifier: u64 = match planar.modifier {
        Some(modifier) => modifier,
        None => formats::linear_modifier(),
    };
    let first: u32 = match planar.buffers[0] {
        Some(buffer) => buffer,
        None => match legacy {
            Some(buffer) => buffer,
            None => {
                return Err(Error::other("framebuffer has no accessible GEM handle"));
            },
        },
    };
    let mut exports: Vec<DmabufExport> = Vec::new();
    for i in 0..4usize
        invariant
            exports@ == exported(planar, first, i as int),
    {
        let pitch: u32 = planar.pitches[i];
        if pitch != 0 {
            let buffer: u32 = match planar.buffers[i] {
                Some(buffer) => buffer,
                None => first,
            };
            exports.push(DmabufExport { buffer, stride: pitch, offset: planar.offsets[i] });
        }
    }
    if exports.len() == 0 {
        return Err(Error::other("framebuffer has no exportable dmabuf planes"));
    }
    Ok(
        DmabufPlan {
            width: planar.width as usize,
            height: planar.height as usize,
            fourcc: planar.fourcc,
            modifier,
            exports,
        },
    )
}

/// The header tells of the display which it is, and of the framebuffer how it was
/// exported.
pub open spec fn is_description_of(
    header: DmabufFrameOutput,
    display: ProbeDisplay,
    plan: DmabufPlan,
) -> bool {
    &&& header.card_path == display.card_path
    &&& header.connector_path == display.connector_path
    &&& header.name == display.name
    &&& header.render_node == display.render_node
    &&& header.width == plan.width
    &&& header.height == plan.height
    &&& header.fourcc == plan.fourcc
    &&& header.modifier == plan.modifier
    &&& header.planes@.len() == plan.exports@.len()
    &&& forall|i: int|
        0 <= i < plan.exports@.len() ==> #[trigger] header.planes@[i] == (DmabufPlaneOutput {
            stride: plan.exports@[i].stride,
            offset: plan.exports@[i].offset,
        })
}

/// Describes the exported framebuffer.
pub fn dmabuf_header(display: &ProbeDisplay, plan: &DmabufPlan) -> (header: DmabufFrameOutput)
    ensures
        is_description_of(header, *display, *plan),
{
    let mut planes: Vec<DmabufPlaneOutput> = Vec::new();
    let ghost described = plan.exports@.map_values(
        |export: DmabufExport| DmabufPlaneOutput { stride: export.stride, offset: export.offset },
    );
    for i in 0..plan.exports.len()
        invariant
            described.len() == plan.exports@.len(),
            forall|j: int|
                0 <= j < described.len() ==> #[trigger] described[j] == (DmabufPlaneOutput {
                    stride: plan.exports@[j].stride,
                    offset: plan.exports@[j].offset,
                }),
            planes@ == described.take(i as int),
    {
        let export = &plan.exports[i];
        planes.push(DmabufPlaneOutput { stride: export.stride, offset: export.offset });
        assert(planes@ =~= described.take(i + 1));
    }
    let render_node = match &display.render_node {
        Some(node) => Some(node.clone()),
        None => None,
    };
    DmabufFrameOutput {
        card_path: display.card_path.clone(),
        connector_path: display.connector_path.clone(),
        name: display.name.clone(),
        render_node,
        width: plan.width,
        height: plan.height,
        fourcc: plan.fourcc,
        modifier: plan.modifier,
        planes,
    }
}

/// The framebuffer that a display shows now.
#[derive(Clone, Copy, PartialEq, Eq, Debug, Structural)]
pub struct ActiveFramebuffer {
    pub width: usize,
    pub height: usize,
    pub is_linear: bool,
    pub x: i32,
    pub y: i32,
}

/// A coordinate that does not fit is cut to the largest that does.
pub open spec fn clamped(position: u32) -> i32 {
    if position > i32::MAX {
        i32::MAX
    } else {
        position as i32
    }
}

fn clamp(position: u32) -> (coordinate: i32)
    ensures
        coordinate == clamped(position),
{
    if position > i32::MAX as u32 {
        i32::MAX
    } else {
        position as i32
    }
}

/// The CPU can read a buffer without a modifier or with the linear one. Where
/// the modifier cannot be told, the buffer counts as linear, so that none is
/// kept from the CPU that it could have read.
pub open spec fn counts_as_linear(planar: Result<PlanarFramebuffer, PlanarError>) -> bool {
    planar matches Ok(planar) ==> planar.modifier is None || planar.modifier == Some(0u64)
}

pub fn framebuffer_is_linear(planar: &Result<PlanarFramebuffer, PlanarError>) -> (linear: bool)
    ensures
        linear == counts_as_linear(*planar),
{
    match planar {
        Ok(planar) => match planar.modifier {
            Some(modifier) => formats::is_linear(modifier),
            None => true,
        },
        Err(_) => true,
    }
}

/// What is shown has that size and position.
pub open spec fn is_active_framebuffer(
    active: ActiveFramebuffer,
    size: (u32, u32),
    position: (u32, u32),
    planar: Result<PlanarFramebuffer, PlanarError>,
) -> bool {
    active == (ActiveFramebuffer {
        width: size.0 as usize,
        height: size.1 as usize,
        is_linear: counts_as_linear(planar),
        x: clamped(position.0),
        y: clamped(position.1),
    })
}

/// Describes the framebuffer of that size on a CRTC at that position.
pub fn active_framebuffer(
    size: (u32, u32),
    position: (u32, u32),
    planar: &Result<PlanarFramebuffer, PlanarError>,
) -> (active: ActiveFramebuffer)
    ensures
        is_active_framebuffer(active, size, position, *planar),
{
    ActiveFramebuffer {
        width: size.0 as usize,
        height: size.1 as usize,
        is_linear: framebuffer_is_linear(planar),
        x: clamp(position.0),
        y: clamp(position.1),
    }
}

/// A framebuffer that counts as linear and has one accessible buffer, a known
/// format and a size that fits can be read back.
pub proof fn law_linear_framebuffer_can_be_read_back(
    planar: PlanarFramebuffer,
    legacy: Option<u32>,
)
    requires
        counts_as_linear(Ok(planar)),
        first_buffer(planar, legacy) is Some,
        planar.buffers@[1] is None && planar.buffers@[2] is None && planar.buffers@[3] is None,
        formats::layout_name(planar.fourcc) is Some,
        planar.offsets@[0] + body_size(planar) <= usize::MAX,
    ensures
        refusal(planar, legacy) is None,
{
}

/// A framebuffer that does not count as linear is refused as unsupported,
/// whatever else holds of it.
pub proof fn law_tiled_framebuffer_is_refused(planar: PlanarFramebuffer, legacy: Option<u32>)
    requires
        !counts_as_linear(Ok(planar)),
    ensures
        refusal(planar, legacy) == Some(formats::non_linear(modifier_or_linear(planar))),
        formats::non_linear(modifier_or_linear(planar)).kind == ErrorKind::Unsupported,
{
}

proof fn lemma_exported_len(planar: PlanarFramebuffer, first: u32, count: int)
    requires
        0 <= count <= 4,
    ensures
        exported(planar, first, count).len() <= count,
    decreases count,
{
    if count > 0 {
        lemma_exported_len(planar, first, count - 1);
    }
}

/// A framebuffer is exported as at most four planes.
pub proof fn law_at_most_four_planes(planar: PlanarFramebuffer, first: u32)
    ensures
        exported(planar, first, 4).len() <= 4,
{
    lemma_exported_len(planar, first, 4);
}

/// How many of the first `n` planes have a pitch.
pub open spec fn planes_before(pitches: Seq<u32>, n: int) -> int
    decreases n,
{
    if n <= 0 {
        0
    } else {
        planes_before(pitches, n - 1) + if pitches[n - 1] != 0 {
            1int
        } else {
            0
        }
    }
}

proof fn lemma_exported_at(planar: PlanarFramebuffer, first: u32, count: int, plane: int)
    requires
        0 <= count <= 4,
    ensures
        exported(planar, first, count).len() == planes_before(planar.pitches@, count),
        0 <= plane < count && planar.pitches@[plane] != 0 ==> {
            let at = planes_before(planar.pitches@, plane);
            &&& 0 <= at < exported(planar, first, count).len()
            &&& exported(planar, first, count)[at].stride == planar.pitches@[plane]
            &&& exported(planar, first, count)[at].offset == planar.offsets@[plane]
            &&& planar.buffers@[plane] matches Some(own) ==> exported(planar, first, count)[at].buffer
                == own
            &&& planar.buffers@[plane] is None ==> exported(planar, first, count)[at].buffer
                == first
        },
    decreases count,
{
    if count > 0 {
        lemma_exported_at(planar, first, count - 1, plane);
        if plane == count - 1 {
            lemma_exported_at(planar, first, count - 1, 0);
            assert(planes_before(planar.pitches@, plane) >= 0);
        }
    }
}

/// A framebuffer that can be exported is exported whole, whatever its modifier: there
/// is one export for each plane with a pitch, in the order of the planes, with the
/// plane's own pitch and offset, and with its own buffer or, where none is named, the
/// first one.
pub proof fn law_every_plane_is_exported(
    planar: PlanarFramebuffer,
    legacy: Option<u32>,
    plan: DmabufPlan,
    plane: int,
)
    requires
        is_dmabuf_planned(legacy, Ok(planar), Ok(plan)),
        0 <= plane < 4,
    ensures
        plan.exports@.len() == (if planar.pitches@[0] != 0 {
            1int
        } else {
            0
        }) + (if planar.pitches@[1] != 0 {
            1int
        } else {
            0
        }) + (if planar.pitches@[2] != 0 {
            1int
        } else {
            0
        }) + (if planar.pitches@[3] != 0 {
            1int
        } else {
            0
        }),
        planar.pitches@[plane] != 0 ==> {
            let at = planes_before(planar.pitches@, plane);
            &&& 0 <= at < plan.exports@.len()
            &&& plan.exports@[at].stride == planar.pitches@[plane]
            &&& plan.exports@[at].offset == planar.offsets@[plane]
            &&& match planar.buffers@[plane] {
                Some(own) => plan.exports@[at].buffer == own,
                None => match planar.buffers@[0] {
                    Some(first) => plan.exports@[at].buffer == first,
                    None => Some(plan.exports@[at].buffer) == legacy,
                },
            }
        },
        plan.width == planar.width,
        plan.height == planar.height,
        plan.fourcc == planar.fourcc,
        planar.modifier matches Some(modifier) ==> plan.modifier == modifier,
        planar.modifier is None ==> plan.modifier == 0,
{
    let first = first_buffer(planar, legacy).unwrap();
    lemma_exported_at(planar, first, 4, plane);
    reveal_with_fuel(planes_before, 5);
}

/// A framebuffer cannot be exported exactly if no buffer is accessible or no plane has
/// a pitch; a device that failed to describe it is the failure.
pub proof fn law_export_fails_only_without_planes(
    planar: Result<PlanarFramebuffer, PlanarError>,
    legacy: Option<u32>,
    plan: Result<DmabufPlan, Error>,
)
    requires
        is_dmabuf_planned(legacy, planar, plan),
    ensures
        match planar {
            Ok(planar) => plan is Ok <==> {
                &&& planar.buffers@[0] is Some || legacy is Some
                &&& exists|plane: int| 0 <= plane < 4 && #[trigger] planar.pitches@[plane] != 0
            },
            Err(PlanarError::Io(failure)) => plan == Err::<DmabufPlan, Error>(failure),
            Err(PlanarError::UnrecognizedFourcc(_)) => plan matches Err(err) && err@.kind
                == ErrorKind::Unsupported,
        },
        planar matches Ok(planar) && planar.buffers@[0] is None && legacy is None ==> (
        plan matches Err(err) && err@ == Failure::of(
            ErrorKind::Other,
            "framebuffer has no accessible GEM handle"@,
        )),
{
    if let Ok(planar) = planar {
        if let Some(first) = first_buffer(planar, legacy) {
            lemma_exported_at(planar, first, 4, 0);
            reveal_with_fuel(planes_before, 5);
            if planar.pitches@[0] == 0 && planar.pitches@[1] == 0 && planar.pitches@[2] == 0
                && planar.pitches@[3] == 0 {
                assert forall|plane: int| 0 <= plane < 4 implies #[trigger] planar.pitches@[plane]
                    == 0 by {
                    assert(plane == 0 || plane == 1 || plane == 2 || plane == 3);
                }
            }
        }
    }
}

/// What describes an exported framebuffer names each of its planes, in their order,
/// with the pitch and offset that was exported, and says nothing else of the display
/// and of the framebuffer than what they are.
pub proof fn law_export_is_described(
    display: ProbeDisplay,
    plan: DmabufPlan,
    frame: DmabufFrameOutput,
    plane: int,
)
    requires
        is_description_of(frame, display, plan),
    ensures
        frame.planes@.len() == plan.exports@.len(),
        0 <= plane < plan.exports@.len() ==> frame.planes@[plane].stride
            == plan.exports@[plane].stride && frame.planes@[plane].offset
            == plan.exports@[plane].offset,
        frame.card_path == display.card_path,
        frame.connector_path == display.connector_path,
        frame.name == display.name,
        frame.render_node == display.render_node,
        frame.width == plan.width,
        frame.height == plan.height,
        frame.fourcc == plan.fourcc,
        frame.modifier == plan.modifier,
{
}

/// A framebuffer can be read back exactly if its modifier is absent or linear, it has
/// a buffer and no second one, its format is one of the five that are known, and the
/// bytes up to its end can be counted.
pub proof fn law_what_can_be_read_back(
    planar: PlanarFramebuffer,
    legacy: Option<u32>,
    plan: Result<CapturePlan, Error>,
)
    requires
        is_capture_planned(legacy, Ok(planar), plan),
    ensures
        plan is Ok <==> {
            &&& planar.modifier matches Some(modifier) ==> modifier == 0
            &&& planar.buffers@[0] is Some || legacy is Some
            &&& forall|plane: int| 1 <= plane < 4 ==> #[trigger] planar.buffers@[plane] is None
            &&& planar.fourcc == 0x3432_5241 || planar.fourcc == 0x3432_5258 || planar.fourcc
                == 0x3432_4241 || planar.fourcc == 0x3432_4258 || planar.fourcc == 0x3631_4752
            &&& planar.pitches@[0] * planar.height + planar.offsets@[0] <= usize::MAX
        },
{
    if planar.buffers@[1] is None && planar.buffers@[2] is None && planar.buffers@[3] is None {
        assert forall|plane: int| 1 <= plane < 4 implies #[trigger] planar.buffers@[plane] is None by {
            assert(plane == 1 || plane == 2 || plane == 3);
        }
    }
    assert(planar.pitches@[0] * planar.height >= 0) by (nonlinear_arith)
        requires
            planar.pitches@[0] >= 0,
            planar.height >= 0,
    ;
}

/// A readback takes the rows of the first plane, from its offset on, in the
/// framebuffer's own size and layout, out of its own buffer if it names one. The alpha
/// is made opaque exactly where the format has an unused fourth byte.
pub proof fn law_capture_reads_the_first_plane(
    planar: PlanarFramebuffer,
    legacy: Option<u32>,
    plan: CapturePlan,
)
    requires
        is_capture_planned(legacy, Ok(planar), Ok(plan)),
    ensures
        match planar.buffers@[0] {
            Some(own) => plan.buffer == own,
            None => Some(plan.buffer) == legacy,
        },
        plan.width == planar.width,
        plan.height == planar.height,
        plan.stride == planar.pitches@[0],
        plan.offset == planar.offsets@[0],
        plan.body_len == planar.pitches@[0] * planar.height,
        plan.map_len == planar.offsets@[0] + planar.pitches@[0] * planar.height,
        planar.fourcc == 0x3432_5241 ==> plan.pixfmt@ == "BGRA"@ && !plan.force_opaque,
        planar.fourcc == 0x3432_5258 ==> plan.pixfmt@ == "BGRA"@ && plan.force_opaque,
        planar.fourcc == 0x3432_4241 ==> plan.pixfmt@ == "RGBA"@ && !plan.force_opaque,
        planar.fourcc == 0x3432_4258 ==> plan.pixfmt@ == "RGBA"@ && plan.force_opaque,
        planar.fourcc == 0x3631_4752 ==> plan.pixfmt@ == "RGB565LE"@ && !plan.force_opaque,
{
}

/// Of several reasons not to read a framebuffer back the one that is met first is
/// given: the modifier, the buffer, the planes, the format, the size.
pub proof fn law_first_reason_is_given(
    planar: PlanarFramebuffer,
    legacy: Option<u32>,
    err: Error,
)
    requires
        is_capture_planned(legacy, Ok(planar), Err(err)),
    ensures
        ({
            let linear = planar.modifier is None || planar.modifier == Some(0u64);
            let accessible = planar.buffers@[0] is Some || legacy is Some;
            let single = planar.buffers@[1] is None && planar.buffers@[2] is None
                && planar.buffers@[3] is None;
            let known = planar.fourcc == 0x3432_5241 || planar.fourcc == 0x3432_5258
                || planar.fourcc == 0x3432_4241 || planar.fourcc == 0x3432_4258 || planar.fourcc
                == 0x3631_4752;
            &&& !linear ==> err@ == Failure::of(
                ErrorKind::Unsupported,
                "non-linear framebuffer modifier "@ + formats::modifier_text(
                    planar.modifier.unwrap(),
                )
                    + "; the CPU/KMS readback path requires a linear buffer \u{2014} use the dmabuf/VAAPI capture path"@,
            ) && !retry::client_retries(err@.message)
            &&& linear && !accessible ==> err@ == Failure::of(
                ErrorKind::Other,
                "framebuffer has no accessible GEM handle"@,
            )
            &&& linear && accessible && !single ==> err@ == Failure::of(
                ErrorKind::Unsupported,
                "multi-plane framebuffers are not supported yet"@,
            )
            &&& linear && accessible && single && !known ==> err@ == Failure::of(
                ErrorKind::Unsupported,
                "unsupported framebuffer format: "@ + formats::fourcc_text(planar.fourcc),
            )
            &&& linear && accessible && single && known && planar.pitches@[0] * planar.height
                > usize::MAX ==> err@ == Failure::of(
                ErrorKind::Other,
                "framebuffer size overflow"@,
            )
            &&& linear && accessible && single && known && planar.pitches@[0] * planar.height
                <= usize::MAX ==> err@ == Failure::of(
                ErrorKind::Other,
                "framebuffer map size overflow"@,
            )
        }),
{
}

/// What a device said in place of describing a framebuffer is handed on.
pub proof fn law_device_failure_is_handed_on(
    legacy: Option<u32>,
    failure: PlanarError,
    plan: Result<CapturePlan, Error>,
)
    requires
        is_capture_planned(legacy, Err(failure), plan),
    ensures
        plan matches Err(err) && match failure {
            PlanarError::Io(failure) => err == failure,
            PlanarError::UnrecognizedFourcc(code) => err@ == Failure::of(
                ErrorKind::Unsupported,
                "unsupported framebuffer format: "@ + formats::fourcc_text(code),
            ),
        },
{
}

/// Of the two readings the first counts, unless it shows nothing and the second does:
/// the frame shows something exactly if one of them does, and without a second reading
/// it holds the first. Where the format has no alpha, the alpha is made opaque.
pub proof fn law_reading_that_shows_counts(read: Readback, prime: Seq<u8>, dumb: Vec<u8>, err: Error)
    requires
        read.bytes@ == shaded(read.plan, prime),
        read.visible == shows(read.plan, prime),
    ensures
        ({
            let first = if read.plan.force_opaque {
                pixel::opaque(prime)
            } else {
                prime
            };
            let second = if read.plan.force_opaque {
                pixel::opaque(dumb@)
            } else {
                dumb@
            };
            let layout = read.plan.pixfmt@;
            &&& read.chosen(Ok(dumb)) == first || read.chosen(Ok(dumb)) == second
            &&& pixel::has_visible_rgb(layout, read.chosen(Ok(dumb))) <==> pixel::has_visible_rgb(
                layout,
                first,
            ) || pixel::has_visible_rgb(layout, second)
            &&& pixel::has_visible_rgb(layout, first) || !pixel::has_visible_rgb(layout, second)
                ==> read.chosen(Ok(dumb)) == first
            &&& read.chosen(Err(err)) == first
        }),
{
}

/// The frame tells of the display which it is, and of the bytes how they lie and how
/// many they are; the bytes are the ones that were read.
pub proof fn law_frame_says_what_it_holds(
    frame: FrameCapture,
    display: ProbeDisplay,
    plan: CapturePlan,
    bytes: Seq<u8>,
)
    requires
        is_frame_of(frame, display, plan, bytes),
    ensures
        frame.bytes@ == bytes,
        frame.header.byte_len == bytes.len(),
        frame.header.width == plan.width,
        frame.header.height == plan.height,
        frame.header.stride == plan.stride,
        frame.header.pixfmt@ == plan.pixfmt@,
        frame.header.card_path == display.card_path,
        frame.header.connector_path == display.connector_path,
        frame.header.name == display.name,
{
}

proof fn lemma_first_frame(attempts: Seq<Result<FrameCapture, Error>>)
    ensures
        match first_frame(attempts) {
            Some(frame) => exists|i: int|
                0 <= i < attempts.len() && #[trigger] attempts[i] == Ok::<FrameCapture, Error>(
                    frame,
                ) && forall|j: int| 0 <= j < i ==> #[trigger] attempts[j] is Err,
            None => forall|i: int| 0 <= i < attempts.len() ==> #[trigger] attempts[i] is Err,
        },
        match last_failure(attempts) {
            Some(err) => exists|i: int|
                0 <= i < attempts.len() && #[trigger] attempts[i] == Err::<FrameCapture, Error>(
                    err,
                ) && forall|j: int| i < j < attempts.len() ==> #[trigger] attempts[j] is Ok,
            None => forall|i: int| 0 <= i < attempts.len() ==> #[trigger] attempts[i] is Ok,
        },
    decreases attempts.len(),
{
    if attempts.len() > 0 {
        let head = attempts.drop_last();
        let end = attempts.len() - 1;
        lemma_first_frame(head);
        assert forall|j: int| 0 <= j < end implies #[trigger] attempts[j] == head[j] by {}
        match first_frame(head) {
            Some(frame) => {
                let i = choose|i: int|
                    0 <= i < head.len() && #[trigger] head[i] == Ok::<FrameCapture, Error>(frame)
                        && forall|j: int| 0 <= j < i ==> #[trigger] head[j] is Err;
                assert(attempts[i] == head[i]);
            },
            None => {
                assert(attempts[end] == attempts.last());
            },
        }
        match attempts.last() {
            Ok(_) => {
                if let Some(err) = last_failure(head) {
                    let i = choose|i: int|
                        0 <= i < head.len() && #[trigger] head[i] == Err::<FrameCapture, Error>(err)
                            && forall|j: int| i < j < head.len() ==> #[trigger] head[j] is Ok;
                    assert(attempts[i] == head[i]);
                }
            },
            Err(err) => {
                assert(attempts[end] == Err::<FrameCapture, Error>(err));
            },
        }
    }
}

/// A search in which nothing was visible gives the first frame that there was, however
/// many failed before it; only where all attempts failed does it fail, with the last
/// failure; and where there was no attempt, it says that nothing is shown.
pub proof fn law_search_falls_back(
    attempts: Seq<Result<FrameCapture, Error>>,
    result: Result<FrameCapture, Error>,
)
    requires
        is_search_result(attempts, result),
    ensures
        result is Err <==> (forall|i: int|
            0 <= i < attempts.len() ==> #[trigger] attempts[i] is Err),
        result is Ok ==> exists|i: int|
            0 <= i < attempts.len() && #[trigger] attempts[i] == result && forall|j: int|
                0 <= j < i ==> #[trigger] attempts[j] is Err,
        result is Err && attempts.len() > 0 ==> attempts.last() == result,
        attempts.len() == 0 ==> (result matches Err(err) && err@ == Failure::of(
            ErrorKind::Other,
            "crtc has no active framebuffer"@,
        )),
{
    lemma_first_frame(attempts);
    if attempts.len() > 0 && result is Err {
        assert(attempts[attempts.len() - 1] is Err);
    }
    if result is Ok {
        let i = choose|i: int|
            0 <= i < attempts.len() && #[trigger] attempts[i] == result && forall|j: int|
                0 <= j < i ==> #[trigger] attempts[j] is Err;
        assert(attempts[i] is Ok);
    }
}

/// A coordinate is kept where it fits, and is never beyond the largest.
pub proof fn law_coordinate_is_kept_where_it_fits(position: u32)
    ensures
        position <= 0x7fff_ffff ==> clamped(position) == position,
        position > 0x7fff_ffff ==> clamped(position) == 0x7fff_ffff,
{
}

/// Only a framebuffer whose modifier is known and not linear is kept from the CPU.
pub proof fn law_unknown_modifier_counts_as_linear(
    planar: Result<PlanarFramebuffer, PlanarError>,
)
    ensures
        !counts_as_linear(planar) <==> (planar matches Ok(planar) && planar.modifier matches Some(
            modifier,
        ) && modifier != 0),
{
}

/// The rows are exactly the bytes from the offset on, as many as were asked for; they
/// are there if and only if the mapping reaches that far.
pub proof fn law_rows_are_cut_out_of_the_mapping(
    rows: Result<Vec<u8>, Error>,
    mapping: Seq<u8>,
    offset: usize,
    body_len: usize,
    i: int,
)
    requires
        is_slice_of(rows, mapping, offset, body_len),
        mapping.len() <= usize::MAX,
    ensures
        rows is Ok <==> offset + body_len <= mapping.len(),
        rows matches Ok(rows) ==> rows@.len() == body_len && (0 <= i < body_len ==> rows@[i]
            == mapping[offset + i]),
{
}

/// What a display shows has the framebuffer's size and stands where the CRTC does, as
/// far as a coordinate reaches; only a known modifier keeps it from the CPU.
pub proof fn law_shown_framebuffer_is_described(
    active: ActiveFramebuffer,
    size: (u32, u32),
    position: (u32, u32),
    planar: Result<PlanarFramebuffer, PlanarError>,
)
    requires
        is_active_framebuffer(active, size, position, planar),
    ensures
        active.width == size.0,
        active.height == size.1,
        position.0 <= i32::MAX ==> active.x == position.0,
        position.1 <= i32::MAX ==> active.y == position.1,
        position.0 > i32::MAX ==> active.x == i32::MAX,
        position.1 > i32::MAX ==> active.y == i32::MAX,
        active.is_linear <==> !(planar matches Ok(planar) && planar.modifier matches Some(modifier)
            && modifier != 0),
{
}

/// A search ends with an attempt exactly if that gave a frame which shows something, and
/// gives back that frame; every other attempt is kept, behind those before it.
pub proof fn law_visible_frame_ends_the_search(
    before: FrameSearch,
    after: FrameSearch,
    attempt: Result<FrameCapture, Error>,
    found: Option<FrameCapture>,
)
    requires
        before.is_offered(after, attempt, found),
    ensures
        found is Some <==> (attempt matches Ok(frame) && pixel::has_visible_rgb(
            frame.header.pixfmt@,
            frame.bytes@,
        )),
        found matches Some(frame) ==> attempt == Ok::<FrameCapture, Error>(frame),
        found is None ==> after.attempts() == before.attempts().push(attempt),
{
}

} // verus!
