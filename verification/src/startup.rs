//! Starting a helper: the steps from its command line to the line with which it
//! says that it is ready.

use crate::error::{Error, ErrorKind, Failure};
use crate::helper;
use crate::helper::{CommandPart, HelperRequest};
use crate::retry;
use crate::session;
use crate::session::{AcceptOutcome, AcceptStep, Greeting, READY_TIMEOUT_MS};
use crate::text;
use vstd::prelude::*;

verus! {

/// What is being waited for.
#[derive(Clone, Copy, PartialEq, Eq, Debug, Structural)]
pub enum StartPhase {
    /// The socket for exported frames.
    Socket,
    /// The helper's process.
    Process,
    /// The helper's connection to the socket.
    Connection,
    Stdin,
    Stdout,
    /// Something on the helper's output.
    Output,
    /// The helper's first line.
    Line,
    /// What a helper that exited wrote to its error output.
    LastWords,
    /// Nothing any more.
    End,
}

/// What to do next.
#[derive(Debug)]
pub enum StartAction {
    /// Make the socket for exported frames.
    Bind,
    /// Start the process with this command line, with pipes to it.
    Launch(Vec<CommandPart>),
    /// Look for the helper's connection; after so many milliseconds if any.
    Look(u64),
    TakeStdin,
    TakeStdout,
    /// Wait until something is on the helper's output, at most so many
    /// milliseconds.
    Wait(u64),
    ReadLine,
    /// Read what the helper wrote to its error output.
    ReadStderr,
    /// The helper is ready.
    Ready,
    /// The helper cannot be used.
    Fail(Error),
}

/// What came of an action.
#[derive(Debug)]
pub enum StartEvent {
    Bound(Result<(), Error>),
    Launched(Result<(), Error>),
    /// One look for the connection; `exited` and `elapsed` matter while there is
    /// none.
    Looked { outcome: AcceptOutcome, exited: bool, elapsed: u64 },
    Stdin(bool),
    Stdout(bool),
    /// The number of descriptors on which something happened, and whether it was
    /// an error.
    Waited { ready: Result<u32, Error>, pipe_error: bool },
    /// The line, if the output has not ended.
    Line(Result<Option<String>, Error>),
    Stderr(String),
}

/// The start of a helper that streams frames.
#[derive(Debug)]
pub struct Startup {
    pub request: HelperRequest,
    pub dmabuf: bool,
    /// What stands in for the last words of a helper that has none.
    pub fallback: String,
    /// The helper's pipes are taken: there is a session with it.
    pub session: bool,
    pub phase: StartPhase,
}

/// The event is one that is waited for.
pub open spec fn is_awaited(phase: StartPhase, event: StartEvent) -> bool {
    match event {
        StartEvent::Bound(_) => phase == StartPhase::Socket,
        StartEvent::Launched(_) => phase == StartPhase::Process,
        StartEvent::Looked { .. } => phase == StartPhase::Connection,
        StartEvent::Stdin(_) => phase == StartPhase::Stdin,
        StartEvent::Stdout(_) => phase == StartPhase::Stdout,
        StartEvent::Waited { .. } => phase == StartPhase::Output,
        StartEvent::Line(_) => phase == StartPhase::Line,
        StartEvent::Stderr(_) => phase == StartPhase::LastWords,
    }
}

/// How far a start is from its end.
pub open spec fn steps_left(phase: StartPhase) -> int {
    match phase {
        StartPhase::Socket => 8,
        StartPhase::Process => 7,
        StartPhase::Connection => 6,
        StartPhase::Stdin => 5,
        StartPhase::Stdout => 4,
        StartPhase::Output => 3,
        StartPhase::Line => 2,
        StartPhase::LastWords => 1,
        StartPhase::End => 0,
    }
}

impl Startup {
    /// There is a session from the moment at which both pipes are taken.
    pub open spec fn wf(self) -> bool {
        match self.phase {
            StartPhase::Socket | StartPhase::Process | StartPhase::Connection | StartPhase::Stdin
            | StartPhase::Stdout => !self.session,
            StartPhase::Output | StartPhase::Line => self.session,
            StartPhase::LastWords | StartPhase::End => true,
        }
    }

    /// What stays as it is while a helper is started.
    pub open spec fn same_helper(self, other: Startup) -> bool {
        self.request == other.request && self.dmabuf == other.dmabuf
    }

    /// The start goes on to `phase`, with nothing else changed.
    pub open spec fn moved(self, before: Startup, phase: StartPhase) -> bool {
        self == (Startup { phase, ..before })
    }

    pub open spec fn ready_context(self) -> Seq<char> {
        session::label(self.dmabuf) + " ready"@
    }

    /// The start begins with a socket, where frames are exported, or with the process.
    pub open spec fn is_begun(
        begun: (Startup, StartAction),
        display_name: String,
        socket_path: Option<String>,
        privileged: bool,
    ) -> bool {
        ({
            let (startup, action) = begun;
            &&& startup.wf()
            &&& !startup.session
            &&& match socket_path {
                Some(socket_path) => {
                    &&& startup.request == (HelperRequest::DmabufStream {
                        display_name,
                        socket_path,
                        privileged,
                    })
                    &&& startup.dmabuf
                    &&& startup.phase == StartPhase::Socket
                    &&& action == StartAction::Bind
                },
                None => {
                    &&& startup.request == (HelperRequest::Stream { display_name, privileged })
                    &&& !startup.dmabuf
                    &&& startup.phase == StartPhase::Process
                    &&& action matches StartAction::Launch(parts) && forall|
                        executable: Seq<char>,
                    | #[trigger]
                        helper::spelled(parts@, executable) == helper::command_line(
                            startup.request@,
                            executable,
                        )
                },
            }
        })
    }

    /// Begins to start a helper that streams frames of a display, as pixels, or
    /// exported to the socket where there is one.
    pub fn begin(display_name: String, socket_path: Option<String>, privileged: bool) -> (begun: (
        Startup,
        StartAction,
    ))
        ensures
            Startup::is_begun(begun, display_name, socket_path, privileged),
    {
        match socket_path {
            Some(socket_path) => (
                Startup {
                    request: HelperRequest::DmabufStream { display_name, socket_path, privileged },
                    dmabuf: true,
                    fallback: String::new(),
                    session: false,
                    phase: StartPhase::Socket,
                },
                StartAction::Bind,
            ),
            None => {
                let request = HelperRequest::Stream { display_name, privileged };
                let parts = helper::helper_command(&request);
                (
                    Startup {
                        request,
                        dmabuf: false,
                        fallback: String::new(),
                        session: false,
                        phase: StartPhase::Process,
                    },
                    StartAction::Launch(parts),
                )
            },
        }
    }

    fn stop(&mut self, err: Error) -> (action: StartAction)
        ensures
            final(self).moved(*old(self), StartPhase::End),
            action == StartAction::Fail(err),
    {
        self.phase = StartPhase::End;
        StartAction::Fail(err)
    }

    /// Whether a start that failed has left a session: then the helper is told to
    /// quit and waited for or killed, as after any session, and the socket's file is
    /// removed. Before there is a session, none of this is done.
    pub fn owes_quit(&self) -> (owes: bool)
        ensures
            owes == self.session,
            self.wf() && (self.phase == StartPhase::Output || self.phase == StartPhase::Line)
                ==> owes,
    {
        self.session
    }

    /// The start goes on with `action` after that event.
    pub open spec fn goes_on(self, after: Startup, event: StartEvent, action: StartAction) -> bool {
        &&& after.same_helper(self)
        &&& after.session == (self.session || event == StartEvent::Stdout(true))
        &&& (after.phase == StartPhase::End) == (action is Ready || action is Fail)
        &&& steps_left(after.phase) < steps_left(self.phase) || (after == self && action == StartAction::Look(20))
        &&& match event {
            StartEvent::Bound(Ok(_)) => {
                &&& after.moved(self, StartPhase::Process)
                &&& action matches StartAction::Launch(parts) && forall|executable: Seq<char>|
                 #[trigger]
                    helper::spelled(parts@, executable) == helper::command_line(
                        self.request@,
                        executable,
                    )
            },
            StartEvent::Bound(Err(err)) => after.moved(self, StartPhase::End)
                && action == StartAction::Fail(err),
            StartEvent::Launched(Ok(_)) => if self.dmabuf {
                after.moved(self, StartPhase::Connection) && action
                    == StartAction::Look(0)
            } else {
                after.moved(self, StartPhase::Stdin) && action
                    == StartAction::TakeStdin
            },
            StartEvent::Launched(Err(err)) => after.moved(self, StartPhase::End)
                && action == StartAction::Fail(err),
            StartEvent::Looked { outcome, exited, elapsed } => match outcome {
                AcceptOutcome::Connected => after.moved(self, StartPhase::Stdin)
                    && action == StartAction::TakeStdin,
                AcceptOutcome::Failed(err) => after.moved(self, StartPhase::End)
                    && action == StartAction::Fail(err),
                AcceptOutcome::NotYet => if exited {
                    &&& after.phase == StartPhase::LastWords
                    &&& after.fallback@
                        == "kms dmabuf helper exited before socket connect"@
                    &&& action == StartAction::ReadStderr
                } else if elapsed >= READY_TIMEOUT_MS {
                    &&& after.moved(self, StartPhase::End)
                    &&& action matches StartAction::Fail(err) && err@ == Failure::of(
                        ErrorKind::TimedOut,
                        "kms dmabuf helper socket connect timed out after "@ + text::decimal(
                            READY_TIMEOUT_MS as nat,
                        ) + " ms"@,
                    )
                } else {
                    after == self && action == StartAction::Look(20)
                },
            },
            StartEvent::Stdin(there) => if there {
                after.moved(self, StartPhase::Stdout) && action
                    == StartAction::TakeStdout
            } else {
                &&& after.moved(self, StartPhase::End)
                &&& action matches StartAction::Fail(err) && err@ == Failure::of(
                    ErrorKind::BrokenPipe,
                    session::label(self.dmabuf) + " stdin unavailable"@,
                )
            },
            StartEvent::Stdout(there) => if there {
                after == (Startup {
                    session: true,
                    phase: StartPhase::Output,
                    ..self
                }) && action == StartAction::Wait(READY_TIMEOUT_MS)
            } else {
                &&& after.moved(self, StartPhase::End)
                &&& action matches StartAction::Fail(err) && err@ == Failure::of(
                    ErrorKind::BrokenPipe,
                    session::label(self.dmabuf) + " stdout unavailable"@,
                )
            },
            StartEvent::Waited { ready: Err(err), pipe_error } => after.moved(
                self,
                StartPhase::End,
            ) && action == StartAction::Fail(err),
            StartEvent::Waited { ready: Ok(ready), pipe_error } => if ready > 0 && !pipe_error {
                after.moved(self, StartPhase::Line) && action
                    == StartAction::ReadLine
            } else {
                &&& after.moved(self, StartPhase::End)
                &&& action matches StartAction::Fail(err) && err@ == (if ready == 0 {
                    Failure::of(
                        ErrorKind::TimedOut,
                        self.ready_context() + " timed out after "@ + text::decimal(
                            READY_TIMEOUT_MS as nat,
                        ) + " ms"@,
                    )
                } else {
                    Failure::of(ErrorKind::BrokenPipe, self.ready_context() + " pipe error"@)
                })
            },
            StartEvent::Line(Err(err)) => after.moved(self, StartPhase::End)
                && action == StartAction::Fail(err),
            StartEvent::Line(Ok(Some(line))) => if session::is_ready(line@) {
                after.moved(self, StartPhase::End) && action == StartAction::Ready
            } else {
                &&& after.moved(self, StartPhase::End)
                &&& action matches StartAction::Fail(err) && err@ == Failure::of(
                    ErrorKind::InvalidData,
                    "unexpected "@ + session::label(self.dmabuf) + " ready message: "@
                        + text::trimmed(line@),
                )
            },
            StartEvent::Line(Ok(None)) => {
                &&& after.phase == StartPhase::LastWords
                &&& after.fallback@ == session::label(self.dmabuf)
                    + " exited before ready"@
                &&& action == StartAction::ReadStderr
            },
            StartEvent::Stderr(stderr) => {
                &&& after.moved(self, StartPhase::End)
                &&& action matches StartAction::Fail(err) && err@ == retry::child_failure(
                    stderr@,
                    self.fallback@,
                )
            },
        }
    }

    /// Goes on with what came of the last action. Every event but a look in vain
    /// brings the start nearer to its end, and the end is that the helper is ready
    /// or cannot be used.
    pub fn next(&mut self, event: StartEvent) -> (action: StartAction)
        requires
            is_awaited(old(self).phase, event),
        ensures
            old(self).wf() ==> final(self).wf(),
            old(self).goes_on(*final(self), event, action),
    {
        match event {
            StartEvent::Bound(bound) => match bound {
                Ok(_) => {
                    self.phase = StartPhase::Process;
                    StartAction::Launch(helper::helper_command(&self.request))
                },
                Err(err) => self.stop(err),
            },
            StartEvent::Launched(launched) => match launched {
                Ok(_) => if self.dmabuf {
                    self.phase = StartPhase::Connection;
                    StartAction::Look(0)
                } else {
                    self.phase = StartPhase::Stdin;
                    StartAction::TakeStdin
                },
                Err(err) => self.stop(err),
            },
            StartEvent::Looked { outcome, exited, elapsed } => {
                match session::accept_step(outcome, exited, elapsed, READY_TIMEOUT_MS) {
                    AcceptStep::Take => {
                        self.phase = StartPhase::Stdin;
                        StartAction::TakeStdin
                    },
                    AcceptStep::Fail(err) => self.stop(err),
                    AcceptStep::Exited(fallback) => {
                        self.fallback = fallback;
                        self.phase = StartPhase::LastWords;
                        StartAction::ReadStderr
                    },
                    AcceptStep::LookAgain(pause) => StartAction::Look(pause),
                }
            },
            StartEvent::Stdin(there) => if there {
                self.phase = StartPhase::Stdout;
                StartAction::TakeStdout
            } else {
                let err = session::pipe_unavailable(self.dmabuf, true);
                self.stop(err)
            },
            StartEvent::Stdout(there) => if there {
                self.session = true;
                self.phase = StartPhase::Output;
                StartAction::Wait(READY_TIMEOUT_MS)
            } else {
                let err = session::pipe_unavailable(self.dmabuf, false);
                self.stop(err)
            },
            StartEvent::Waited { ready, pipe_error } => match ready {
                Ok(ready) => {
                    let context = text::join(session::helper_label(self.dmabuf), " ready");
                    match session::poll_outcome(
                        ready,
                        pipe_error,
                        context.as_str(),
                        READY_TIMEOUT_MS,
                    ) {
                        Ok(_) => {
                            self.phase = StartPhase::Line;
                            StartAction::ReadLine
                        },
                        Err(err) => self.stop(err),
                    }
                },
                Err(err) => self.stop(err),
            },
            StartEvent::Line(read) => match read {
                Ok(line) => {
                    let greeting = match &line {
                        Some(line) => session::check_ready(Some(line.as_str()), self.dmabuf),
                        None => session::check_ready(None, self.dmabuf),
                    };
                    match greeting {
                        Greeting::Ready => {
                            self.phase = StartPhase::End;
                            StartAction::Ready
                        },
                        Greeting::Exited(fallback) => {
                            self.fallback = fallback;
                            self.phase = StartPhase::LastWords;
                            StartAction::ReadStderr
                        },
                        Greeting::Unexpected(err) => self.stop(err),
                    }
                },
                Err(err) => self.stop(err),
            },
            StartEvent::Stderr(stderr) => {
                let err = retry::child_error(stderr.as_str(), self.fallback.as_str());
                self.stop(err)
            },
        }
    }
}

/// A helper is ready exactly when its first line is the greeting, whatever white space
/// is around it.
pub proof fn law_ready_by_the_greeting_alone(
    before: Startup,
    after: Startup,
    event: StartEvent,
    action: StartAction,
)
    requires
        before.goes_on(after, event, action),
    ensures
        action == StartAction::Ready <==> (event matches StartEvent::Line(Ok(Some(line)))
            && text::trimmed(line@) == "ready"@),
        action is Ready || action is Fail <==> after.phase == StartPhase::End,
{
}

/// Each step of a start that goes well leads to the next: the socket, if frames are
/// exported, the process, its connection, its input, its output, and its first line,
/// which it is given two minutes for.
pub proof fn law_start_takes_its_steps(
    before: Startup,
    after: Startup,
    event: StartEvent,
    action: StartAction,
)
    requires
        before.goes_on(after, event, action),
    ensures
        action is Launch <==> (event matches StartEvent::Bound(Ok(_))),
        action matches StartAction::Launch(parts) ==> after.phase == StartPhase::Process && forall|
            executable: Seq<char>,
        | #[trigger]
            helper::spelled(parts@, executable) == helper::command_line(
                before.request@,
                executable,
            ),
        action == StartAction::Look(0) <==> (event matches StartEvent::Launched(Ok(_))) && before.dmabuf,
        action == StartAction::TakeStdin <==> ((event matches StartEvent::Launched(Ok(_)))
            && !before.dmabuf) || (event matches StartEvent::Looked { outcome, .. } && outcome
            == AcceptOutcome::Connected),
        action == StartAction::TakeStdin ==> after.phase == StartPhase::Stdin,
        action == StartAction::TakeStdout <==> event == StartEvent::Stdin(true),
        action == StartAction::TakeStdout ==> after.phase == StartPhase::Stdout,
        action is Wait <==> event == StartEvent::Stdout(true),
        action matches StartAction::Wait(millis) ==> millis == 120000 && after.phase
            == StartPhase::Output,
        action == StartAction::ReadLine <==> (event matches StartEvent::Waited {
            ready: Ok(ready),
            pipe_error,
        } && ready > 0 && !pipe_error),
        action == StartAction::ReadLine ==> after.phase == StartPhase::Line,
        action != StartAction::Bind,
{
}

/// A connection that is not there yet is looked for again every twenty milliseconds, for
/// two minutes, unless the helper exited.
pub proof fn law_connection_is_waited_for(
    before: Startup,
    after: Startup,
    exited: bool,
    elapsed: u64,
    action: StartAction,
)
    requires
        before.goes_on(
            after,
            StartEvent::Looked { outcome: AcceptOutcome::NotYet, exited, elapsed },
            action,
        ),
    ensures
        exited <==> action == StartAction::ReadStderr,
        !exited && elapsed < 120000 <==> action == StartAction::Look(20),
        action == StartAction::Look(20) ==> after == before,
        !exited && elapsed >= 120000 ==> (action matches StartAction::Fail(err) && err@.kind
            == ErrorKind::TimedOut),
{
}

/// Whatever fails ends the start with that failure.
pub proof fn law_start_fails_with_what_failed(
    before: Startup,
    after: Startup,
    event: StartEvent,
    action: StartAction,
    err: Error,
    failure: Error,
)
    requires
        before.goes_on(after, event, action),
    ensures
        event == StartEvent::Bound(Err(err)) || event == StartEvent::Launched(Err(err)) || event
            == StartEvent::Line(Err(err)) || (event matches StartEvent::Looked { outcome, .. }
            && outcome == AcceptOutcome::Failed(err)) || (event matches StartEvent::Waited {
            ready: Err(came),
            ..
        } && came == err) ==> action == StartAction::Fail(err),
        event == StartEvent::Stdin(false) || event == StartEvent::Stdout(false) ==> (
        action matches StartAction::Fail(err) && err@.kind == ErrorKind::BrokenPipe),
        event matches StartEvent::Waited { ready: Ok(ready), pipe_error } ==> (ready == 0 ==> (
        action matches StartAction::Fail(err) && err@.kind == ErrorKind::TimedOut)) && (ready > 0
            && pipe_error ==> (action matches StartAction::Fail(err) && err@.kind
            == ErrorKind::BrokenPipe)),
        event matches StartEvent::Line(Ok(Some(line))) ==> (text::trimmed(line@) != "ready"@ ==> (
        action matches StartAction::Fail(err) && err@.kind == ErrorKind::InvalidData)),
{
}

/// A helper that exited is asked for its last words, which say why the start failed; a
/// helper without any is told by when it exited.
pub proof fn law_last_words_say_why(
    before: Startup,
    after: Startup,
    event: StartEvent,
    action: StartAction,
)
    requires
        before.goes_on(after, event, action),
    ensures
        action == StartAction::ReadStderr <==> event == StartEvent::Line(Ok(None)) || (
        event matches StartEvent::Looked { outcome, exited, .. } && outcome
            == AcceptOutcome::NotYet && exited),
        action == StartAction::ReadStderr ==> after.phase == StartPhase::LastWords,
        event == StartEvent::Line(Ok(None)) ==> after.fallback@ == (if before.dmabuf {
            "kms dmabuf helper"@
        } else {
            "kms helper"@
        }) + " exited before ready"@,
        event matches StartEvent::Stderr(stderr) ==> (action matches StartAction::Fail(err)
            && err@.message == (if text::trimmed(stderr@).len() > 0 {
            text::trimmed(stderr@)
        } else {
            before.fallback@
        }) && (err@.kind == ErrorKind::PermissionDenied <==> retry::client_retries(
            err@.message,
        ))),
{
}

/// A session begins when both pipes are taken and lasts from then on, whatever comes:
/// a start that fails after that moment still owes the helper its leave.
pub proof fn law_session_begins_with_the_output(
    before: Startup,
    after: Startup,
    event: StartEvent,
    action: StartAction,
)
    requires
        before.goes_on(after, event, action),
    ensures
        before.session ==> after.session,
        !before.session ==> (after.session <==> event == StartEvent::Stdout(true)),
        after.request == before.request,
        after.dmabuf == before.dmabuf,
{
}

/// A start begins with the socket exactly if frames are exported to one, and else with
/// the process; the helper is asked for a stream of that display with those rights, and
/// there is no session yet.
pub proof fn law_start_begins_with_the_socket(
    begun: (Startup, StartAction),
    display_name: String,
    socket_path: Option<String>,
    privileged: bool,
)
    requires
        Startup::is_begun(begun, display_name, socket_path, privileged),
    ensures
        !begun.0.session,
        begun.0.dmabuf <==> socket_path is Some,
        begun.1 == StartAction::Bind <==> socket_path is Some,
        begun.1 is Launch <==> socket_path is None,
        begun.0.phase == (if socket_path is Some {
            StartPhase::Socket
        } else {
            StartPhase::Process
        }),
        socket_path matches Some(path) ==> begun.0.request@ == (helper::Request::DmabufStream {
            display_name: display_name@,
            socket_path: path@,
            privileged,
        }),
        socket_path is None ==> begun.0.request@ == (helper::Request::Stream {
            display_name: display_name@,
            privileged,
        }),
        begun.1 matches StartAction::Launch(parts) ==> forall|executable: Seq<char>| #[trigger]
            helper::spelled(parts@, executable) == helper::command_line(
                begun.0.request@,
                executable,
            ),
{
}

} // verus!
