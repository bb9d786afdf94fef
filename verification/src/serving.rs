//! A helper that streams frames: from the display's name to the commands that it
//! serves.

use crate::error::{Error, ErrorKind, Failure};
use crate::helper;
use crate::helper::StreamStep;
use crate::readback::ProbeDisplay;
use crate::text;
use vstd::prelude::*;

verus! {

/// What is being waited for.
#[derive(Clone, Copy, PartialEq, Eq, Debug, Structural)]
pub enum ServePhase {
    Display,
    Card,
    /// The connection to the client's socket, for exported frames.
    Socket,
    /// That the client was told that the helper is ready.
    Greeting,
    /// A command.
    Command,
    /// A frame to be captured and sent.
    Frame,
    /// Nothing any more.
    End,
}

/// What to do next.
#[derive(Debug)]
pub enum ServeAction {
    FindDisplay,
    /// Open the display's card.
    OpenCard,
    /// Connect to the client's socket.
    Connect,
    /// Tell the client that the helper is ready.
    Greet,
    ReadLine,
    /// Capture a frame of the display and send it.
    Capture,
    Done(Result<(), Error>),
}

/// Why there is no connection to the client's socket.
#[derive(Debug)]
pub enum SocketFailure {
    Create(Error),
    Connect(Error),
}

/// What came of an action.
#[derive(Debug)]
pub enum ServeEvent {
    Found(Result<ProbeDisplay, Error>),
    Opened(Result<(), Error>),
    Connected(Result<(), SocketFailure>),
    Greeted(Result<(), Error>),
    /// The line, if the input has not ended.
    Line(Result<Option<String>, Error>),
    Captured(Result<(), Error>),
}

/// A helper that streams frames, exported ones where there is a socket for them.
#[derive(Debug)]
pub struct Serving {
    pub socket_path: Option<String>,
    pub privileged: bool,
    pub display: Option<ProbeDisplay>,
    pub phase: ServePhase,
}

/// The event is one that is waited for.
pub open spec fn is_awaited(phase: ServePhase, event: ServeEvent) -> bool {
    match event {
        ServeEvent::Found(_) => phase == ServePhase::Display,
        ServeEvent::Opened(_) => phase == ServePhase::Card,
        ServeEvent::Connected(_) => phase == ServePhase::Socket,
        ServeEvent::Greeted(_) => phase == ServePhase::Greeting,
        ServeEvent::Line(_) => phase == ServePhase::Command,
        ServeEvent::Captured(_) => phase == ServePhase::Frame,
    }
}

pub open spec fn socket_failure(failure: SocketFailure, path: Seq<char>) -> Failure {
    match failure {
        SocketFailure::Create(cause) => Failure::caused(
            "failed to create kms dmabuf datagram socket"@,
            cause,
        ),
        SocketFailure::Connect(cause) => Failure::caused(
            "failed to connect kms dmabuf socket "@ + path,
            cause,
        ),
    }
}

/// The action ends the service with that failure.
pub open spec fn fails_with(action: ServeAction, failure: Failure) -> bool {
    action matches ServeAction::Done(Err(err)) && err@ == failure
}

impl Serving {
    /// Once a display was found that may be served, it is known; a socket is only
    /// connected to where there is one.
    pub open spec fn wf(self) -> bool {
        &&& self.phase != ServePhase::Display && self.phase != ServePhase::End ==> (
        self.display matches Some(display) && (self.privileged || display.can_open))
        &&& self.phase == ServePhase::Socket ==> self.socket_path is Some
    }

    /// The service goes on to `phase`, with nothing else changed.
    pub open spec fn moved(self, before: Serving, phase: ServePhase) -> bool {
        self == (Serving { phase, ..before })
    }

    /// Begins to serve frames of a display.
    pub fn begin(socket_path: Option<String>, privileged: bool) -> (begun: Serving)
        ensures
            begun.wf(),
            begun == (Serving {
                socket_path,
                privileged,
                display: None,
                phase: ServePhase::Display,
            }),
    {
        Serving { socket_path, privileged, display: None, phase: ServePhase::Display }
    }

    fn stop(&mut self, result: Result<(), Error>) -> (action: ServeAction)
        ensures
            final(self).moved(*old(self), ServePhase::End),
            action == ServeAction::Done(result),
    {
        self.phase = ServePhase::End;
        ServeAction::Done(result)
    }

    /// The service goes on with `action` after that event.
    pub open spec fn goes_on(self, after: Serving, event: ServeEvent, action: ServeAction) -> bool {
        &&& after.socket_path == self.socket_path
        &&& after.privileged == self.privileged
        &&& (after.phase == ServePhase::End) == (action is Done)
        &&& match event {
            ServeEvent::Found(Ok(display)) => if self.privileged || display.can_open {
                &&& after.display == Some(display)
                &&& after.phase == ServePhase::Card
                &&& action == ServeAction::OpenCard
            } else {
                fails_with(action, helper::access_refusal(display))
            },
            ServeEvent::Found(Err(err)) => action == ServeAction::Done(Err(err)),
            ServeEvent::Opened(Ok(_)) => if self.socket_path is Some {
                after.moved(self, ServePhase::Socket) && action
                    == ServeAction::Connect
            } else {
                after.moved(self, ServePhase::Greeting) && action
                    == ServeAction::Greet
            },
            ServeEvent::Opened(Err(err)) => action == ServeAction::Done(Err(err)),
            ServeEvent::Connected(Ok(_)) => after.moved(
                self,
                ServePhase::Greeting,
            ) && action == ServeAction::Greet,
            ServeEvent::Connected(Err(failure)) => fails_with(
                action,
                socket_failure(failure, self.socket_path.unwrap()@),
            ),
            ServeEvent::Greeted(Ok(_)) => after.moved(self, ServePhase::Command)
                && action == ServeAction::ReadLine,
            ServeEvent::Greeted(Err(err)) => action == ServeAction::Done(Err(err)),
            ServeEvent::Line(Ok(Some(line))) => match helper::stream_step(line@) {
                Some(StreamStep::Capture) => after.moved(self, ServePhase::Frame)
                    && action == ServeAction::Capture,
                Some(StreamStep::Stop) => action == ServeAction::Done(Ok(())),
                Some(StreamStep::Ignore) => after == self && action
                    == ServeAction::ReadLine,
                None => fails_with(
                    action,
                    Failure::of(
                        ErrorKind::Other,
                        (if self.socket_path is Some {
                            "unsupported kms helper dmabuf stream command: "@
                        } else {
                            "unsupported kms helper stream command: "@
                        }) + text::trimmed(line@),
                    ),
                ),
            },
            ServeEvent::Line(Ok(None)) => action == ServeAction::Done(Ok(())),
            ServeEvent::Line(Err(err)) => action == ServeAction::Done(Err(err)),
            ServeEvent::Captured(Ok(_)) => after.moved(self, ServePhase::Command)
                && action == ServeAction::ReadLine,
            ServeEvent::Captured(Err(err)) => action == ServeAction::Done(Err(err)),
        }
    }

    /// Goes on with what came of the last action. The client is told that the
    /// helper is ready only once the card is open and the socket connected, and
    /// frames are captured only of a card that may be opened, or with more rights.
    pub fn next(&mut self, event: ServeEvent) -> (action: ServeAction)
        requires
            old(self).wf(),
            is_awaited(old(self).phase, event),
        ensures
            final(self).wf(),
            old(self).goes_on(*final(self), event, action),
    {
        match event {
            ServeEvent::Found(found) => match found {
                Ok(display) => match helper::check_access(&display, self.privileged) {
                    Ok(_) => {
                        self.display = Some(display);
                        self.phase = ServePhase::Card;
                        ServeAction::OpenCard
                    },
                    Err(err) => self.stop(Err(err)),
                },
                Err(err) => self.stop(Err(err)),
            },
            ServeEvent::Opened(opened) => match opened {
                Ok(_) => if self.socket_path.is_some() {
                    self.phase = ServePhase::Socket;
                    ServeAction::Connect
                } else {
                    self.phase = ServePhase::Greeting;
                    ServeAction::Greet
                },
                Err(err) => self.stop(Err(err)),
            },
            ServeEvent::Connected(connected) => match connected {
                Ok(_) => {
                    self.phase = ServePhase::Greeting;
                    ServeAction::Greet
                },
                Err(failure) => {
                    let err = match failure {
                        SocketFailure::Create(cause) => cause.context(
                            "failed to create kms dmabuf datagram socket",
                        ),
                        SocketFailure::Connect(cause) => {
                            let message = match &self.socket_path {
                                Some(path) => text::join(
                                    "failed to connect kms dmabuf socket ",
                                    path.as_str(),
                                ),
                                None => String::new(),
                            };
                            cause.context(message.as_str())
                        },
                    };
                    self.stop(Err(err))
                },
            },
            ServeEvent::Greeted(greeted) => match greeted {
                Ok(_) => {
                    self.phase = ServePhase::Command;
                    ServeAction::ReadLine
                },
                Err(err) => self.stop(Err(err)),
            },
            ServeEvent::Line(read) => match read {
                Ok(line) => {
                    let dmabuf = self.socket_path.is_some();
                    let step = match &line {
                        Some(line) => helper::stream_command(Some(line.as_str()), dmabuf),
                        None => helper::stream_command(None, dmabuf),
                    };
                    match step {
                        Ok(StreamStep::Capture) => {
                            self.phase = ServePhase::Frame;
                            ServeAction::Capture
                        },
                        Ok(StreamStep::Stop) => self.stop(Ok(())),
                        Ok(StreamStep::Ignore) => ServeAction::ReadLine,
                        Err(err) => self.stop(Err(err)),
                    }
                },
                Err(err) => self.stop(Err(err)),
            },
            ServeEvent::Captured(captured) => match captured {
                Ok(_) => {
                    self.phase = ServePhase::Command;
                    ServeAction::ReadLine
                },
                Err(err) => self.stop(Err(err)),
            },
        }
    }
}

/// A display is served only if its card can be opened or the helper has the rights, and
/// then its card is opened; one that is refused is refused for that reason.
pub proof fn law_card_is_opened_only_with_access(
    before: Serving,
    after: Serving,
    found: Result<ProbeDisplay, Error>,
    action: ServeAction,
)
    requires
        before.goes_on(after, ServeEvent::Found(found), action),
    ensures
        action == ServeAction::OpenCard <==> (found matches Ok(display) && (display.can_open
            || before.privileged)),
        action == ServeAction::OpenCard ==> after.display == Some(found->Ok_0) && after.phase
            == ServePhase::Card,
        found matches Err(err) ==> action == ServeAction::Done(Err(err)),
        found is Ok && action != ServeAction::OpenCard ==> (action matches ServeAction::Done(
            Err(err),
        ) && err@.kind == ErrorKind::PermissionDenied),
{
}

/// The client is told that the helper is ready exactly when the card is open and, where
/// there is a socket for frames, connected: never before.
pub proof fn law_greets_once_all_is_open(
    before: Serving,
    after: Serving,
    event: ServeEvent,
    action: ServeAction,
)
    requires
        before.goes_on(after, event, action),
    ensures
        action == ServeAction::Greet <==> ((event matches ServeEvent::Opened(Ok(_)))
            && before.socket_path is None) || (event matches ServeEvent::Connected(Ok(_))),
        action == ServeAction::Connect <==> (event matches ServeEvent::Opened(Ok(_)))
            && before.socket_path is Some,
        action == ServeAction::Greet ==> after.phase == ServePhase::Greeting,
        action == ServeAction::Connect ==> after.phase == ServePhase::Socket,
        action != ServeAction::FindDisplay,
{
}

/// A frame is captured exactly when a line asks for one, and another line is read after
/// the greeting, after each frame that was sent, and after a line that asks for
/// nothing.
pub proof fn law_one_frame_for_each_request(
    before: Serving,
    after: Serving,
    event: ServeEvent,
    action: ServeAction,
)
    requires
        before.goes_on(after, event, action),
    ensures
        action == ServeAction::Capture <==> (event matches ServeEvent::Line(Ok(Some(line)))
            && text::trimmed(line@) == "frame"@),
        action == ServeAction::Capture ==> after.phase == ServePhase::Frame,
        action == ServeAction::ReadLine <==> {
            ||| event matches ServeEvent::Greeted(Ok(_))
            ||| event matches ServeEvent::Captured(Ok(_))
            ||| event matches ServeEvent::Line(Ok(Some(line))) && text::trimmed(line@).len() == 0
        },
{
    reveal_strlit("frame");
    reveal_strlit("quit");
    reveal_strlit("");
    assert("frame"@.len() == 5 && "quit"@.len() == 4);
    if let ServeEvent::Line(Ok(Some(line))) = event {
        if text::trimmed(line@).len() == 0 {
            assert(text::trimmed(line@) =~= ""@);
        }
    }
}

/// The service ends well exactly with the end of its input or the line that says so.
pub proof fn law_service_ends_when_told(
    before: Serving,
    after: Serving,
    event: ServeEvent,
    action: ServeAction,
)
    requires
        before.goes_on(after, event, action),
    ensures
        action == ServeAction::Done(Ok(())) <==> event == ServeEvent::Line(Ok(None)) || (
        event matches ServeEvent::Line(Ok(Some(line))) && text::trimmed(line@) == "quit"@),
        action is Done <==> after.phase == ServePhase::End,
{
    reveal_strlit("frame");
    reveal_strlit("quit");
    reveal_strlit("");
    assert("frame"@.len() == 5 && "quit"@.len() == 4);
}

/// Whatever fails ends the service with that failure; what came up with the socket is
/// its cause.
pub proof fn law_service_fails_with_what_failed(
    before: Serving,
    after: Serving,
    event: ServeEvent,
    action: ServeAction,
    err: Error,
)
    requires
        before.goes_on(after, event, action),
    ensures
        event == ServeEvent::Opened(Err(err)) || event == ServeEvent::Greeted(Err(err)) || event
            == ServeEvent::Line(Err(err)) || event == ServeEvent::Captured(Err(err)) ==> action
            == ServeAction::Done(Err(err)),
        event matches ServeEvent::Connected(Err(failure)) ==> (action matches ServeAction::Done(
            Err(err),
        ) && match failure {
            SocketFailure::Create(cause) => err@.cause == Some(cause) && err@.message
                == "failed to create kms dmabuf datagram socket"@,
            SocketFailure::Connect(cause) => err@.cause == Some(cause) && err@.message
                == "failed to connect kms dmabuf socket "@ + before.socket_path.unwrap()@,
        }),
{
}

/// What is served, and to whom, does not change while it is served.
pub proof fn law_service_keeps_its_display(
    before: Serving,
    after: Serving,
    event: ServeEvent,
    action: ServeAction,
)
    requires
        before.goes_on(after, event, action),
    ensures
        after.socket_path == before.socket_path,
        after.privileged == before.privileged,
        !(event is Found) && !(action is Done) ==> after.display == before.display,
{
}

} // verus!
