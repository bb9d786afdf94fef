//! The helper process: what it is asked for, which displays it finds, and how it
//! answers.

use crate::error::{Error, ErrorKind, Failure};
use crate::order;
use crate::order::Ranked;
use crate::readback::{ActiveFramebuffer, FrameCapture, ProbeDisplay};
use crate::retry;
use crate::sysfs::ConnectedMode;
use crate::text;
use vstd::prelude::*;

verus! {

/// What a helper is started for.
#[derive(Debug)]
pub enum HelperRequest {
    /// List the displays.
    Probe,
    /// Capture one frame.
    Frame { display_name: String, privileged: bool },
    /// Capture a frame whenever one is asked for.
    Stream { display_name: String, privileged: bool },
    /// Export a frame to a socket whenever one is asked for.
    DmabufStream { display_name: String, socket_path: String, privileged: bool },
}

/// What a helper is started for, as text.
pub enum Request {
    Probe,
    Frame { display_name: Seq<char>, privileged: bool },
    Stream { display_name: Seq<char>, privileged: bool },
    DmabufStream { display_name: Seq<char>, socket_path: Seq<char>, privileged: bool },
}

impl View for HelperRequest {
    type V = Request;

    open spec fn view(&self) -> Request {
        match *self {
            HelperRequest::Probe => Request::Probe,
            HelperRequest::Frame { display_name, privileged } => Request::Frame {
                display_name: display_name@,
                privileged,
            },
            HelperRequest::Stream { display_name, privileged } => Request::Stream {
                display_name: display_name@,
                privileged,
            },
            HelperRequest::DmabufStream {
                display_name,
                socket_path,
                privileged,
            } => Request::DmabufStream {
                display_name: display_name@,
                socket_path: socket_path@,
                privileged,
            },
        }
    }
}

/// The arguments behind the helper's flag that ask for this.
pub open spec fn arguments(request: Request) -> Seq<Seq<char>> {
    match request {
        Request::Probe => seq!["probe"@],
        Request::Frame { display_name, privileged } => seq![
            if privileged { "frame-privileged"@ } else { "frame"@ },
            display_name,
        ],
        Request::Stream { display_name, privileged } => seq![
            if privileged { "stream-privileged"@ } else { "stream"@ },
            display_name,
        ],
        Request::DmabufStream { display_name, socket_path, privileged } => seq![
            if privileged { "dmabuf-stream-privileged"@ } else { "dmabuf-stream"@ },
            display_name,
            socket_path,
        ],
    }
}

/// The texts of strings.
pub open spec fn texts(strings: Seq<String>) -> Seq<Seq<char>> {
    strings.map_values(|s: String| s@)
}

/// The words that ask for a helper's work on one display.
pub open spec fn is_command(word: Seq<char>) -> bool {
    ||| word == "frame"@
    ||| word == "frame-privileged"@
    ||| word == "stream"@
    ||| word == "stream-privileged"@
    ||| wants_socket(word)
}

pub open spec fn wants_socket(word: Seq<char>) -> bool {
    word == "dmabuf-stream"@ || word == "dmabuf-stream-privileged"@
}

/// What the arguments behind the helper's flag ask for.
pub open spec fn requested(args: Seq<Seq<char>>) -> Result<Request, Failure> {
    if args.len() == 0 {
        Err(Failure::of(ErrorKind::Other, "missing kms helper command"@))
    } else if args[0] == "probe"@ {
        Ok(Request::Probe)
    } else if !is_command(args[0]) {
        Err(Failure::of(ErrorKind::Other, "unsupported kms helper command: "@ + args[0]))
    } else if args.len() < 2 {
        Err(Failure::of(ErrorKind::Other, "missing kms helper display name"@))
    } else if args[0] == "frame"@ || args[0] == "frame-privileged"@ {
        Ok(
            Request::Frame {
                display_name: args[1],
                privileged: args[0] == "frame-privileged"@,
            },
        )
    } else if args[0] == "stream"@ || args[0] == "stream-privileged"@ {
        Ok(
            Request::Stream {
                display_name: args[1],
                privileged: args[0] == "stream-privileged"@,
            },
        )
    } else if args.len() < 3 {
        Err(Failure::of(ErrorKind::Other, "missing kms helper dmabuf socket"@))
    } else {
        Ok(
            Request::DmabufStream {
                display_name: args[1],
                socket_path: args[2],
                privileged: args[0] == "dmabuf-stream-privileged"@,
            },
        )
    }
}

proof fn lemma_words_differ()
    ensures
        "probe"@ != "frame"@,
        "probe"@ != "frame-privileged"@,
        "probe"@ != "stream"@,
        "probe"@ != "stream-privileged"@,
        "probe"@ != "dmabuf-stream"@,
        "probe"@ != "dmabuf-stream-privileged"@,
        "frame"@ != "frame-privileged"@,
        "frame"@ != "stream"@,
        "frame"@ != "stream-privileged"@,
        "frame"@ != "dmabuf-stream"@,
        "frame"@ != "dmabuf-stream-privileged"@,
        "frame-privileged"@ != "stream"@,
        "frame-privileged"@ != "stream-privileged"@,
        "frame-privileged"@ != "dmabuf-stream"@,
        "frame-privileged"@ != "dmabuf-stream-privileged"@,
        "stream"@ != "stream-privileged"@,
        "stream"@ != "dmabuf-stream"@,
        "stream"@ != "dmabuf-stream-privileged"@,
        "stream-privileged"@ != "dmabuf-stream"@,
        "stream-privileged"@ != "dmabuf-stream-privileged"@,
        "dmabuf-stream"@ != "dmabuf-stream-privileged"@,
{
    reveal_strlit("probe");
    reveal_strlit("frame");
    reveal_strlit("frame-privileged");
    reveal_strlit("stream");
    reveal_strlit("stream-privileged");
    reveal_strlit("dmabuf-stream");
    reveal_strlit("dmabuf-stream-privileged");
    assert("probe"@[0] != "frame"@[0]);
    assert("probe"@.len() == 5 && "frame"@.len() == 5 && "stream"@.len() == 6);
    assert("frame-privileged"@.len() == 16 && "stream-privileged"@.len() == 17);
    assert("dmabuf-stream"@.len() == 13 && "dmabuf-stream-privileged"@.len() == 24);
}

/// A helper understands every request that is spelled out for it.
pub proof fn law_request_is_understood(request: Request)
    ensures
        requested(arguments(request)) == Ok::<Request, Failure>(request),
{
    lemma_words_differ();
}

/// Reads what the arguments behind the helper's flag ask for.
pub fn parse_command(args: &Vec<String>) -> (request: Result<HelperRequest, Error>)
    ensures
        match request {
            Ok(request) => requested(texts(args@)) == Ok::<Request, Failure>(
                request@,
            ),
            Err(err) => requested(texts(args@)) == Err::<Request, Failure>(err@),
        },
{
    proof {
        lemma_words_differ();
    }
    if args.len() == 0 {
        return Err(Error::other("missing kms helper command"));
    }
    let word = args[0].as_str();
    assert(texts(args@)[0] == word@);
    if text::equals(word, "probe") {
        return Ok(HelperRequest::Probe);
    }
    let is_frame = text::equals(word, "frame") || text::equals(word, "frame-privileged");
    let is_stream = text::equals(word, "stream") || text::equals(word, "stream-privileged");
    let is_dmabuf = text::equals(word, "dmabuf-stream") || text::equals(
        word,
        "dmabuf-stream-privileged",
    );
    if !is_frame && !is_stream && !is_dmabuf {
        return Err(
            Error::with_detail(ErrorKind::Other, "unsupported kms helper command: ", word),
        );
    }
    if args.len() < 2 {
        return Err(Error::other("missing kms helper display name"));
    }
    assert(texts(args@)[1] == args@[1]@);
    let display_name = args[1].clone();
    if is_frame {
        let privileged = text::equals(word, "frame-privileged");
        return Ok(HelperRequest::Frame { display_name, privileged });
    }
    if is_stream {
        let privileged = text::equals(word, "stream-privileged");
        return Ok(HelperRequest::Stream { display_name, privileged });
    }
    if args.len() < 3 {
        return Err(Error::other("missing kms helper dmabuf socket"));
    }
    assert(texts(args@)[2] == args@[2]@);
    let socket_path = args[2].clone();
    let privileged = text::equals(word, "dmabuf-stream-privileged");
    Ok(HelperRequest::DmabufStream { display_name, socket_path, privileged })
}

/// A part of a command line: this program's own file, or a text.
#[derive(Debug)]
pub enum CommandPart {
    Executable,
    Text(String),
}

/// A command line with `executable` for this program's own file.
pub open spec fn spelled(parts: Seq<CommandPart>, executable: Seq<char>) -> Seq<Seq<char>> {
    parts.map_values(
        |part: CommandPart|
            match part {
                CommandPart::Executable => executable,
                CommandPart::Text(text) => text@,
            },
    )
}

pub open spec fn is_privileged(request: Request) -> bool {
    match request {
        Request::Probe => false,
        Request::Frame { privileged, .. } => privileged,
        Request::Stream { privileged, .. } => privileged,
        Request::DmabufStream { privileged, .. } => privileged,
    }
}

/// The command line that starts a helper: a privileged one is started through
/// `pkexec`.
pub open spec fn command_line(request: Request, executable: Seq<char>) -> Seq<Seq<char>> {
    let prefix = if is_privileged(request) {
        seq!["pkexec"@, "--disable-internal-agent"@]
    } else {
        Seq::empty()
    };
    prefix + seq![executable, "--kms-helper"@] + arguments(request)
}

fn push_text(parts: &mut Vec<CommandPart>, part: &str)
    ensures
        forall|executable: Seq<char>| #[trigger]
            spelled(final(parts)@, executable) == spelled(old(parts)@, executable).push(part@),
{
    parts.push(CommandPart::Text(part.to_owned()));
    assert forall|executable: Seq<char>| #[trigger]
        spelled(parts@, executable) == spelled(old(parts)@, executable).push(part@) by {
        assert(spelled(parts@, executable) =~= spelled(old(parts)@, executable).push(part@));
    }
}

/// The command line that starts a helper for a request.
pub fn helper_command(request: &HelperRequest) -> (parts: Vec<CommandPart>)
    ensures
        forall|executable: Seq<char>| #[trigger]
            spelled(parts@, executable) == command_line(request@, executable),
{
    let mut parts: Vec<CommandPart> = Vec::new();
    assert forall|executable: Seq<char>| #[trigger]
        spelled(parts@, executable) == Seq::<Seq<char>>::empty() by {
        assert(spelled(parts@, executable) =~= Seq::<Seq<char>>::empty());
    }
    let (word, display_name, socket_path, privileged): (
        &str,
        Option<&String>,
        Option<&String>,
        bool,
    ) = match request {
        HelperRequest::Probe => ("probe", None, None, false),
        HelperRequest::Frame { display_name, privileged } => (
            if *privileged {
                "frame-privileged"
            } else {
                "frame"
            },
            Some(display_name),
            None,
            *privileged,
        ),
        HelperRequest::Stream { display_name, privileged } => (
            if *privileged {
                "stream-privileged"
            } else {
                "stream"
            },
            Some(display_name),
            None,
            *privileged,
        ),
        HelperRequest::DmabufStream { display_name, socket_path, privileged } => (
            if *privileged {
                "dmabuf-stream-privileged"
            } else {
                "dmabuf-stream"
            },
            Some(display_name),
            Some(socket_path),
            *privileged,
        ),
    };
    if privileged {
        push_text(&mut parts, "pkexec");
        push_text(&mut parts, "--disable-internal-agent");
    }
    let ghost before = parts@;
    parts.push(CommandPart::Executable);
    assert forall|executable: Seq<char>| #[trigger]
        spelled(parts@, executable) == spelled(before, executable).push(executable) by {
        assert(spelled(parts@, executable) =~= spelled(before, executable).push(executable));
    }
    push_text(&mut parts, "--kms-helper");
    push_text(&mut parts, word);
    if let Some(display_name) = display_name {
        push_text(&mut parts, display_name.as_str());
    }
    if let Some(socket_path) = socket_path {
        push_text(&mut parts, socket_path.as_str());
    }
    assert forall|executable: Seq<char>| #[trigger]
        spelled(parts@, executable) == command_line(request@, executable) by {
        assert(spelled(parts@, executable) =~= command_line(request@, executable));
    }
    parts
}

/// What a line on a helper's input asks for.
#[derive(Clone, Copy, PartialEq, Eq, Debug, Structural)]
pub enum StreamStep {
    /// Capture a frame.
    Capture,
    /// Stop.
    Stop,
    /// An empty line asks for nothing.
    Ignore,
}

pub open spec fn stream_step(line: Seq<char>) -> Option<StreamStep> {
    let command = text::trimmed(line);
    if command == "frame"@ {
        Some(StreamStep::Capture)
    } else if command == "quit"@ {
        Some(StreamStep::Stop)
    } else if command == ""@ {
        Some(StreamStep::Ignore)
    } else {
        None
    }
}

/// What a line on a helper's input, or its end, is answered with.
pub open spec fn is_answer_to_line(
    line: Option<&str>,
    dmabuf: bool,
    step: Result<StreamStep, Error>,
) -> bool {
    match line {
        Some(line) => match step {
            Ok(step) => stream_step(line@) == Some(step),
            Err(err) => stream_step(line@) is None && err@ == Failure::of(
                ErrorKind::Other,
                (if dmabuf {
                    "unsupported kms helper dmabuf stream command: "@
                } else {
                    "unsupported kms helper stream command: "@
                }) + text::trimmed(line@),
            ),
        },
        None => step == Ok::<StreamStep, Error>(StreamStep::Stop),
    }
}

/// Reads a line on a helper's input; the end of the input stops the helper too.
pub fn stream_command(line: Option<&str>, dmabuf: bool) -> (step: Result<StreamStep, Error>)
    ensures
        is_answer_to_line(line, dmabuf, step),
{
    let line = match line {
        Some(line) => line,
        None => {
            return Ok(StreamStep::Stop);
        },
    };
    let command = text::trim(line);
    if text::equals(command, "frame") {
        Ok(StreamStep::Capture)
    } else if text::equals(command, "quit") {
        Ok(StreamStep::Stop)
    } else if text::equals(command, "") {
        Ok(StreamStep::Ignore)
    } else if dmabuf {
        Err(
            Error::with_detail(
                ErrorKind::Other,
                "unsupported kms helper dmabuf stream command: ",
                command,
            ),
        )
    } else {
        Err(
            Error::with_detail(
                ErrorKind::Other,
                "unsupported kms helper stream command: ",
                command,
            ),
        )
    }
}

pub open spec fn access_refusal(display: ProbeDisplay) -> Failure {
    Failure::of(
        ErrorKind::PermissionDenied,
        match display.open_error {
            Some(text) => text@,
            None => "failed to open drm device"@,
        },
    )
}

/// Access is given to a display whose card can be opened, or, `waived`, to any.
pub open spec fn is_access_to(
    display: ProbeDisplay,
    waived: bool,
    access: Result<(), Error>,
) -> bool {
    match access {
        Ok(_) => waived || display.can_open,
        Err(err) => !waived && !display.can_open && err@ == access_refusal(display),
    }
}

/// A helper works on a display whose card it can open, or, `waived`, on any.
pub fn check_access(display: &ProbeDisplay, waived: bool) -> (access: Result<(), Error>)
    ensures
        is_access_to(*display, waived, access),
{
    if !waived && !display.can_open {
        return Err(
            match &display.open_error {
                Some(text) => Error::new(ErrorKind::PermissionDenied, text.as_str()),
                None => Error::new(ErrorKind::PermissionDenied, "failed to open drm device"),
            },
        );
    }
    Ok(())
}

/// What follows the capture of one frame.
#[derive(Debug)]
pub enum FrameOutcome {
    Return(Result<FrameCapture, Error>),
    /// Ask a privileged helper for the frame.
    RetryPrivileged,
}

/// What follows the capture of one frame: another try with more rights, where there
/// are none yet and the failure calls for them.
pub open spec fn outcome_of(
    captured: Result<FrameCapture, Error>,
    privileged: bool,
) -> FrameOutcome {
    if !privileged && (captured matches Err(err) && retry::helper_retries(err@.message)) {
        FrameOutcome::RetryPrivileged
    } else {
        FrameOutcome::Return(captured)
    }
}

/// Decides what follows the capture of one frame.
pub fn frame_outcome(captured: Result<FrameCapture, Error>, privileged: bool) -> (outcome:
    FrameOutcome)
    ensures
        outcome == outcome_of(captured, privileged),
{
    match captured {
        Ok(frame) => FrameOutcome::Return(Ok(frame)),
        Err(err) => if !privileged && retry::should_retry_privileged(&err) {
            FrameOutcome::RetryPrivileged
        } else {
            FrameOutcome::Return(Err(err))
        },
    }
}

impl Ranked for ProbeDisplay {
    /// Displays are ranked by name.
    open spec fn precedes(&self, other: &Self) -> bool {
        text::before(self.name@, other.name@)
    }

    proof fn asymmetric(a: &Self, b: &Self) {
        text::lemma_before_negatively_transitive(a.name@, b.name@, a.name@);
    }

    proof fn negatively_transitive(a: &Self, b: &Self, c: &Self) {
        text::lemma_before_negatively_transitive(a.name@, b.name@, c.name@);
    }

    fn ranks_before(&self, other: &Self) -> (less: bool) {
        text::sorts_before(self.name.as_str(), other.name.as_str())
    }
}

/// The display of a connector: what a card that could be opened says of the
/// framebuffer that is shown wins over the mode.
pub open spec fn display_with(
    connector_path: String,
    name: String,
    mode: ConnectedMode,
    render_node: Option<String>,
    access: Option<String>,
    active: Option<ActiveFramebuffer>,
) -> ProbeDisplay {
    let shown = if access is None {
        active
    } else {
        None
    };
    ProbeDisplay {
        card_path: mode.card_path,
        connector_path,
        name,
        render_node,
        width: match shown {
            Some(active) => active.width,
            None => mode.width,
        },
        height: match shown {
            Some(active) => active.height,
            None => mode.height,
        },
        x: match shown {
            Some(active) => Some(active.x),
            None => None,
        },
        y: match shown {
            Some(active) => Some(active.y),
            None => None,
        },
        is_linear: match shown {
            Some(active) => active.is_linear,
            None => true,
        },
        modifier_known: shown is Some,
        online: true,
        can_open: access is None,
        open_error: access,
    }
}

/// The display of a connector whose entry was read. `access` is the error that
/// opening its card gave, if it gave one; `active` is what a card that could be
/// opened says of the framebuffer that is shown.
pub fn probed_display(
    connector_path: String,
    name: String,
    mode: ConnectedMode,
    render_node: Option<String>,
    access: Option<String>,
    active: Option<ActiveFramebuffer>,
) -> (display: ProbeDisplay)
    ensures
        display == display_with(connector_path, name, mode, render_node, access, active),
{
    let can_open = access.is_none();
    let mut display = ProbeDisplay {
        card_path: mode.card_path,
        connector_path,
        name,
        render_node,
        width: mode.width,
        height: mode.height,
        x: None,
        y: None,
        is_linear: true,
        modifier_known: false,
        online: true,
        can_open,
        open_error: access,
    };
    if can_open {
        if let Some(active) = active {
            display.width = active.width;
            display.height = active.height;
            display.x = Some(active.x);
            display.y = Some(active.y);
            display.is_linear = active.is_linear;
            display.modifier_known = true;
        }
    }
    display
}

/// The entries that are displays, in their order.
pub open spec fn probed_among(entries: Seq<Result<Option<ProbeDisplay>, Error>>) -> Seq<
    ProbeDisplay,
>
    decreases entries.len(),
{
    if entries.len() == 0 {
        Seq::empty()
    } else {
        let head = probed_among(entries.drop_last());
        match entries.last() {
            Ok(Some(display)) => head.push(display),
            _ => head,
        }
    }
}

/// Why displays cannot be listed or searched: `cause` came up with the listing.
pub fn listing_failure(cause: Error) -> (err: Error)
    ensures
        err@ == Failure::caused("failed to read /sys/class/drm"@, cause),
{
    cause.context("failed to read /sys/class/drm")
}

/// Why a frame cannot be captured with more rights: `cause` came up when the helper
/// was started.
pub fn launch_failure(cause: Error) -> (err: Error)
    ensures
        err@ == Failure::caused("failed to launch privileged kms helper"@, cause),
{
    cause.context("failed to launch privileged kms helper")
}

/// The listing holds the displays among the entries, by name.
pub open spec fn is_listing_of(
    entries: Result<Vec<Result<Option<ProbeDisplay>, Error>>, Error>,
    displays: Result<Vec<ProbeDisplay>, Error>,
) -> bool {
    match entries {
        Ok(entries) => displays matches Ok(displays) && displays@ == order::sorted(
            probed_among(entries@),
        ),
        Err(cause) => displays matches Err(err) && err@ == Failure::caused(
            "failed to read /sys/class/drm"@,
            cause,
        ),
    }
}

/// Lists the displays among the entries by name; an entry that cannot be read is
/// passed over, a listing that cannot be read is not.
pub fn probe(entries: Result<Vec<Result<Option<ProbeDisplay>, Error>>, Error>) -> (displays: Result<
    Vec<ProbeDisplay>,
    Error,
>)
    ensures
        is_listing_of(entries, displays),
{
    let found = match entries {
        Ok(found) => found,
        Err(cause) => {
            return Err(listing_failure(cause));
        },
    };
    let mut rest = found;
    let mut displays: Vec<ProbeDisplay> = Vec::new();
    let ghost mut done: int = 0;
    assert(found@.skip(0) =~= found@);
    while rest.len() > 0
        invariant
            0 <= done <= found@.len(),
            rest@ == found@.skip(done),
            displays@ == probed_among(found@.take(done)),
        decreases rest.len(),
    {
        let entry = rest.remove(0);
        proof {
            assert(found@.take(done + 1).drop_last() =~= found@.take(done));
            assert(found@.take(done + 1).last() == entry);
            assert(rest@ =~= found@.skip(done + 1));
            done = done + 1;
        }
        if let Ok(Some(display)) = entry {
            displays.push(display);
        }
    }
    assert(found@.take(done) =~= found@);
    Ok(order::sort(displays))
}

/// What follows an entry in the search for a display.
#[derive(Debug)]
pub enum SearchStep {
    Continue,
    Done(Result<ProbeDisplay, Error>),
}

/// What follows an entry in the search for the display of that name.
pub open spec fn search_step(
    display_name: Seq<char>,
    probed: Result<Option<ProbeDisplay>, Error>,
) -> SearchStep {
    match probed {
        Ok(Some(display)) => if display.name@ == display_name {
            SearchStep::Done(Ok(display))
        } else {
            SearchStep::Continue
        },
        Ok(None) => SearchStep::Continue,
        Err(err) => SearchStep::Done(Err(err)),
    }
}

/// Goes on in the search for a display by name. Unlike a listing, a search ends
/// with an entry that cannot be read.
pub fn find_display_step(display_name: &str, probed: Result<Option<ProbeDisplay>, Error>) -> (step:
    SearchStep)
    ensures
        step == search_step(display_name@, probed),
{
    match probed {
        Ok(Some(display)) => if text::equals(display.name.as_str(), display_name) {
            SearchStep::Done(Ok(display))
        } else {
            SearchStep::Continue
        },
        Ok(None) => SearchStep::Continue,
        Err(err) => SearchStep::Done(Err(err)),
    }
}

/// The error of a search that came to its end.
pub fn display_not_found(display_name: &str) -> (err: Error)
    ensures
        err@ == Failure::of(ErrorKind::Other, "kms display '"@ + display_name@ + "' not found"@),
{
    let message = text::join3("kms display '", display_name, "' not found");
    Error::with_message(ErrorKind::Other, message)
}

/// What follows a request's own words changes nothing; every request is spelled by its
/// own word, and one with more rights by a word of its own.
pub proof fn law_further_arguments_are_ignored(request: Request, more: Seq<Seq<char>>)
    ensures
        requested(arguments(request) + more) == Ok::<Request, Failure>(request),
{
    lemma_words_differ();
    let args = arguments(request) + more;
    assert(args[0] == arguments(request)[0]);
    if arguments(request).len() > 1 {
        assert(args[1] == arguments(request)[1]);
    }
    if arguments(request).len() > 2 {
        assert(args[2] == arguments(request)[2]);
    }
}

/// Each request is spelled by a word of its own, and the display and the socket follow.
pub proof fn law_words_of_requests(display_name: Seq<char>, socket_path: Seq<char>)
    ensures
        arguments(Request::Probe) == seq!["probe"@],
        arguments(Request::Frame { display_name, privileged: false }) == seq![
            "frame"@,
            display_name,
        ],
        arguments(Request::Frame { display_name, privileged: true }) == seq![
            "frame-privileged"@,
            display_name,
        ],
        arguments(Request::Stream { display_name, privileged: false }) == seq![
            "stream"@,
            display_name,
        ],
        arguments(Request::Stream { display_name, privileged: true }) == seq![
            "stream-privileged"@,
            display_name,
        ],
        arguments(Request::DmabufStream { display_name, socket_path, privileged: false }) == seq![
            "dmabuf-stream"@,
            display_name,
            socket_path,
        ],
        arguments(Request::DmabufStream { display_name, socket_path, privileged: true }) == seq![
            "dmabuf-stream-privileged"@,
            display_name,
            socket_path,
        ],
{
}

/// Arguments that spell no request are refused, by what is missing or not known; they
/// ask for something exactly if they begin as some request is spelled.
pub proof fn law_what_spells_no_request(args: Seq<Seq<char>>)
    ensures
        requested(args) matches Ok(request) ==> arguments(request).len() <= args.len() && args.take(
            arguments(request).len() as int,
        ) == arguments(request),
        requested(args) matches Err(failure) ==> failure.kind == ErrorKind::Other
            && failure.message == (if args.len() == 0 {
            "missing kms helper command"@
        } else if args[0] != "frame"@ && args[0] != "frame-privileged"@ && args[0] != "stream"@
            && args[0] != "stream-privileged"@ && args[0] != "dmabuf-stream"@ && args[0]
            != "dmabuf-stream-privileged"@ {
            "unsupported kms helper command: "@ + args[0]
        } else if args.len() == 1 {
            "missing kms helper display name"@
        } else {
            "missing kms helper dmabuf socket"@
        }),
{
    lemma_words_differ();
    if let Ok(request) = requested(args) {
        let own = arguments(request);
        assert(args.take(own.len() as int) =~= own);
    }
}

/// Every helper is this program with the helper's flag before its request. Only one
/// that asks for more rights is started through `pkexec`, and every such one is.
pub proof fn law_more_rights_need_pkexec(request: Request, executable: Seq<char>)
    ensures
        ({
            let line = command_line(request, executable);
            let own = arguments(request);
            let at = line.len() - own.len();
            let privileged = match request {
                Request::Probe => false,
                Request::Frame { privileged, .. } => privileged,
                Request::Stream { privileged, .. } => privileged,
                Request::DmabufStream { privileged, .. } => privileged,
            };
            &&& line.skip(at) == own
            &&& line[at - 1] == "--kms-helper"@
            &&& line[at - 2] == executable
            &&& privileged ==> at == 4 && line[0] == "pkexec"@ && line[1]
                == "--disable-internal-agent"@
            &&& !privileged ==> at == 2
        }),
{
    let line = command_line(request, executable);
    let own = arguments(request);
    assert(line.skip(line.len() - own.len()) =~= own);
}

/// A line asks for what its word says, whatever white space is around it; a line of
/// white space asks for nothing, and any other word is refused.
pub proof fn law_line_is_read_by_its_word(head: Seq<char>, word: Seq<char>, tail: Seq<char>)
    requires
        forall|i: int| 0 <= i < head.len() ==> text::white_space(#[trigger] head[i]),
        forall|i: int| 0 <= i < tail.len() ==> text::white_space(#[trigger] tail[i]),
        word.len() > 0 ==> !text::white_space(word[0]) && !text::white_space(word.last()),
    ensures
        stream_step(head + word + tail) == Some(StreamStep::Capture) <==> word == "frame"@,
        stream_step(head + word + tail) == Some(StreamStep::Stop) <==> word == "quit"@,
        stream_step(head + word + tail) == Some(StreamStep::Ignore) <==> word.len() == 0,
        stream_step(head + word + tail) is None <==> word != "frame"@ && word != "quit"@
            && word.len() > 0,
{
    text::law_trimming_finds_the_text(head, word, tail);
    reveal_strlit("frame");
    reveal_strlit("quit");
    reveal_strlit("");
    assert("frame"@.len() == 5 && "quit"@.len() == 4);
    if word.len() == 0 {
        assert(word =~= ""@);
    }
}

/// A line that ends the helper's input stops it, and a line that asks for nothing
/// known is answered with its word.
pub proof fn law_line_is_answered(
    line: Option<&str>,
    dmabuf: bool,
    step: Result<StreamStep, Error>,
)
    requires
        is_answer_to_line(line, dmabuf, step),
    ensures
        line is None ==> step == Ok::<StreamStep, Error>(StreamStep::Stop),
        line matches Some(line) ==> (step is Ok <==> stream_step(line@) is Some),
        line matches Some(line) ==> (step is Ok ==> Some(step->Ok_0) == stream_step(line@)),
        step matches Err(err) ==> err@.message == (if dmabuf {
            "unsupported kms helper dmabuf stream command: "@
        } else {
            "unsupported kms helper stream command: "@
        }) + text::trimmed(line.unwrap()@),
{
}

/// Only a display whose card cannot be opened is refused, as a matter of permissions
/// and with the reason that opening it gave, and not where that is waived.
pub proof fn law_access_is_refused_only_where_needed(
    display: ProbeDisplay,
    waived: bool,
    access: Result<(), Error>,
)
    requires
        is_access_to(display, waived, access),
    ensures
        access is Err <==> !display.can_open && !waived,
        access matches Err(err) ==> err@.kind == ErrorKind::PermissionDenied && (
        display.open_error matches Some(reason) ==> err@.message == reason@) && (
        display.open_error is None ==> err@.message == "failed to open drm device"@),
{
}

/// A frame is always handed on, and so is a failure of a helper that has the rights
/// already; another failure is handed on unless it calls for more rights.
pub proof fn law_frame_is_tried_again_only_without_rights(
    captured: Result<FrameCapture, Error>,
    privileged: bool,
)
    ensures
        captured is Ok ==> outcome_of(captured, privileged) == FrameOutcome::Return(captured),
        outcome_of(captured, true) == FrameOutcome::Return(captured),
        captured matches Err(err) ==> (outcome_of(captured, false) == FrameOutcome::RetryPrivileged
            <==> retry::helper_retries(err@.message)),
        captured matches Err(err) ==> (outcome_of(captured, false) == FrameOutcome::Return(captured)
            <==> !retry::helper_retries(err@.message)),
{
}

/// What the card says of the framebuffer that is shown counts before the mode: the
/// size, the place and the modifier are the framebuffer's.
pub proof fn law_shown_framebuffer_counts_before_the_mode(
    connector_path: String,
    name: String,
    mode: ConnectedMode,
    render_node: Option<String>,
    active: ActiveFramebuffer,
)
    ensures
        ({
            let display = display_with(
                connector_path,
                name,
                mode,
                render_node,
                None,
                Some(active),
            );
            &&& display.width == active.width
            &&& display.height == active.height
            &&& display.x == Some(active.x)
            &&& display.y == Some(active.y)
            &&& display.is_linear == active.is_linear
            &&& display.modifier_known
            &&& display.can_open
            &&& display.open_error is None
        }),
{
}

/// Without a card that can be opened, or without a framebuffer, the mode gives the
/// size, the place is not known, and the display counts as one that can be read.
pub proof fn law_mode_stands_in_for_the_framebuffer(
    connector_path: String,
    name: String,
    mode: ConnectedMode,
    render_node: Option<String>,
    access: Option<String>,
    active: Option<ActiveFramebuffer>,
)
    requires
        access is Some || active is None,
    ensures
        ({
            let display = display_with(connector_path, name, mode, render_node, access, active);
            &&& display.width == mode.width
            &&& display.height == mode.height
            &&& display.x is None
            &&& display.y is None
            &&& display.is_linear
            &&& !display.modifier_known
            &&& display.can_open == (access is None)
            &&& display.open_error == access
        }),
{
}

/// A display is known by its connector, whatever its card says, and counts as online.
pub proof fn law_display_is_its_connectors(
    connector_path: String,
    name: String,
    mode: ConnectedMode,
    render_node: Option<String>,
    access: Option<String>,
    active: Option<ActiveFramebuffer>,
)
    ensures
        ({
            let display = display_with(connector_path, name, mode, render_node, access, active);
            &&& display.connector_path == connector_path
            &&& display.name == name
            &&& display.card_path == mode.card_path
            &&& display.render_node == render_node
            &&& display.online
        }),
{
}

proof fn lemma_probed_among(
    one: Seq<Result<Option<ProbeDisplay>, Error>>,
    other: Seq<Result<Option<ProbeDisplay>, Error>>,
)
    ensures
        probed_among(one + other) == probed_among(one) + probed_among(other),
    decreases other.len(),
{
    if other.len() > 0 {
        lemma_probed_among(one, other.drop_last());
        assert((one + other).drop_last() =~= one + other.drop_last());
        assert(probed_among(one + other) =~= probed_among(one) + probed_among(other));
    } else {
        assert(one + other =~= one);
        assert(probed_among(one) + probed_among(other) =~= probed_among(one));
    }
}

/// Among entries every display counts, in its place; one that is none, or could not be
/// read, is passed over.
pub proof fn law_every_display_among_entries_counts(
    one: Seq<Result<Option<ProbeDisplay>, Error>>,
    entry: Result<Option<ProbeDisplay>, Error>,
    other: Seq<Result<Option<ProbeDisplay>, Error>>,
)
    ensures
        probed_among(one + seq![entry] + other) == probed_among(one) + (match entry {
            Ok(Some(display)) => seq![display],
            _ => Seq::empty(),
        }) + probed_among(other),
        probed_among(Seq::empty()) == Seq::<ProbeDisplay>::empty(),
{
    lemma_probed_among(one + seq![entry], other);
    lemma_probed_among(one, seq![entry]);
    reveal_with_fuel(probed_among, 2);
    assert(probed_among(seq![entry]) =~= match entry {
        Ok(Some(display)) => seq![display],
        _ => Seq::<ProbeDisplay>::empty(),
    });
}

/// A listing holds the displays among the entries, each as it was read and none else,
/// in the order of their names. It fails exactly where the entries cannot be listed.
pub proof fn law_listing_is_by_name(
    entries: Result<Vec<Result<Option<ProbeDisplay>, Error>>, Error>,
    displays: Result<Vec<ProbeDisplay>, Error>,
    i: int,
    j: int,
)
    requires
        is_listing_of(entries, displays),
    ensures
        displays is Err <==> entries is Err,
        displays matches Ok(displays) ==> displays@.to_multiset() == probed_among(
            entries->Ok_0@,
        ).to_multiset(),
        displays matches Ok(displays) ==> (0 <= i < j < displays@.len() ==> !text::before(
            displays@[j].name@,
            displays@[i].name@,
        )),
        displays matches Err(err) ==> err@.message == "failed to read /sys/class/drm"@
            && err@.kind == ErrorKind::Other,
{
    if let Ok(listed) = displays {
        let found = probed_among(entries->Ok_0@);
        order::law_sorted_keeps_items(found);
        order::law_sorted_in_order(found);
        if 0 <= i < j < listed@.len() {
            assert(!order::sorted(found)[j].precedes(&order::sorted(found)[i]));
        }
    }
}

/// A search ends with the first entry that is the display of that very name or cannot
/// be read, and goes on behind every other.
pub proof fn law_search_ends_with_the_name(
    display_name: Seq<char>,
    probed: Result<Option<ProbeDisplay>, Error>,
)
    ensures
        probed matches Err(err) ==> search_step(display_name, probed) == SearchStep::Done(Err(err)),
        probed matches Ok(Some(display)) ==> (display.name@ == display_name <==> search_step(
            display_name,
            probed,
        ) == SearchStep::Done(Ok(display))),
        probed matches Ok(Some(display)) ==> (display.name@ != display_name <==> search_step(
            display_name,
            probed,
        ) == SearchStep::Continue),
        probed matches Ok(None) ==> search_step(display_name, probed) == SearchStep::Continue,
{
}

/// A command line is spelled part by part: this program's own file where it stands for
/// it, and every text as it is.
pub proof fn law_command_is_spelled_part_by_part(
    parts: Seq<CommandPart>,
    executable: Seq<char>,
    i: int,
)
    requires
        0 <= i < parts.len(),
    ensures
        spelled(parts, executable).len() == parts.len(),
        parts[i] is Executable ==> spelled(parts, executable)[i] == executable,
        parts[i] matches CommandPart::Text(part) ==> spelled(parts, executable)[i] == part@,
{
}

/// Arguments are read one by one, as they are.
pub proof fn law_arguments_are_read_as_they_are(args: Seq<String>, i: int)
    requires
        0 <= i < args.len(),
    ensures
        texts(args).len() == args.len(),
        texts(args)[i] == args[i]@,
{
}

/// A request is told by what it asks for, of which display, and with which rights.
pub proof fn law_request_is_what_it_asks_for(
    display_name: String,
    socket_path: String,
    privileged: bool,
)
    ensures
        HelperRequest::Probe@ == Request::Probe,
        (HelperRequest::Frame { display_name, privileged })@ == (Request::Frame {
            display_name: display_name@,
            privileged,
        }),
        (HelperRequest::Stream { display_name, privileged })@ == (Request::Stream {
            display_name: display_name@,
            privileged,
        }),
        (HelperRequest::DmabufStream { display_name, socket_path, privileged })@ == (
        Request::DmabufStream {
            display_name: display_name@,
            socket_path: socket_path@,
            privileged,
        }),
{
}

} // verus!
