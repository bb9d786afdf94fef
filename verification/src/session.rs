//! A client's session with a helper: waiting for it, checking what it says, and
//! taking leave of it.

use crate::error::{Error, ErrorKind, Failure};
use crate::helper;
use crate::helper::StreamStep;
use crate::retry;
use crate::text;
use vstd::prelude::*;

verus! {

/// How long a helper may take until it is ready, in milliseconds.
pub const READY_TIMEOUT_MS: u64 = 120_000;

/// How long a helper may take for a frame, in milliseconds.
pub const FRAME_TIMEOUT_MS: u64 = 5_000;

/// How long a helper that sent no frame may take to exit, in milliseconds.
pub const EXIT_TIMEOUT_MS: u64 = 200;

/// The line on which a helper captures a frame.
pub const FRAME_LINE: &'static str = "frame\n";

/// The line on which a helper stops.
pub const QUIT_LINE: &'static str = "quit\n";

/// The line with which a helper says that it is ready.
pub const READY_LINE: &'static str = "ready\n";

/// How a kind of helper is called in messages.
pub open spec fn label(dmabuf: bool) -> Seq<char> {
    if dmabuf {
        "kms dmabuf helper"@
    } else {
        "kms helper"@
    }
}

pub fn helper_label(dmabuf: bool) -> (name: &'static str)
    ensures
        name@ == label(dmabuf),
{
    if dmabuf {
        "kms dmabuf helper"
    } else {
        "kms helper"
    }
}

/// A timeout as `poll` takes it.
pub fn poll_timeout(millis: u64) -> (timeout: i32)
    ensures
        timeout == (if millis > i32::MAX {
            i32::MAX as int
        } else {
            millis as int
        }),
{
    if millis > i32::MAX as u64 {
        i32::MAX
    } else {
        millis as i32
    }
}

/// What waiting for a helper's output came to.
pub open spec fn is_poll_outcome(
    outcome: Result<(), Error>,
    ready: u32,
    pipe_error: bool,
    context: Seq<char>,
    millis: u64,
) -> bool {
    match outcome {
        Ok(_) => ready > 0 && !pipe_error,
        Err(err) => if ready == 0 {
            err@ == Failure::of(
                ErrorKind::TimedOut,
                context + " timed out after "@ + text::decimal(millis as nat) + " ms"@,
            )
        } else {
            pipe_error && err@ == Failure::of(ErrorKind::BrokenPipe, context + " pipe error"@)
        },
    }
}

/// What waiting for a helper's output came to: `ready` is the number of
/// descriptors on which something happened.
pub fn poll_outcome(ready: u32, pipe_error: bool, context: &str, millis: u64) -> (outcome: Result<
    (),
    Error,
>)
    ensures
        is_poll_outcome(outcome, ready, pipe_error, context@, millis),
{
    if ready == 0 {
        let millis = text::write_decimal(millis);
        let message = text::join4(context, " timed out after ", millis.as_str(), " ms");
        return Err(Error::with_message(ErrorKind::TimedOut, message));
    }
    if pipe_error {
        return Err(Error::with_detail(ErrorKind::BrokenPipe, context, " pipe error"));
    }
    Ok(())
}

/// A helper's input or output cannot be reached.
pub fn pipe_unavailable(dmabuf: bool, stdin: bool) -> (err: Error)
    ensures
        err@ == Failure::of(
            ErrorKind::BrokenPipe,
            label(dmabuf) + (if stdin {
                " stdin unavailable"@
            } else {
                " stdout unavailable"@
            }),
        ),
{
    Error::with_detail(
        ErrorKind::BrokenPipe,
        helper_label(dmabuf),
        if stdin {
            " stdin unavailable"
        } else {
            " stdout unavailable"
        },
    )
}

/// There is no session to ask for a frame.
pub fn session_unavailable(dmabuf: bool, privileged: bool) -> (err: Error)
    ensures
        err@ == Failure::of(
            ErrorKind::BrokenPipe,
            (if privileged {
                "privileged "@
            } else {
                ""@
            }) + label(dmabuf) + " session unavailable"@,
        ),
{
    let message = text::join3(
        if privileged {
            "privileged "
        } else {
            ""
        },
        helper_label(dmabuf),
        " session unavailable",
    );
    Error::with_message(ErrorKind::BrokenPipe, message)
}

/// What a helper's first line means.
#[derive(Debug)]
pub enum Greeting {
    Ready,
    /// There is no line: the helper exited. What it wrote to its error output
    /// says why, else this does.
    Exited(String),
    Unexpected(Error),
}

pub open spec fn is_ready(line: Seq<char>) -> bool {
    text::trimmed(line) == "ready"@
}

/// What a helper's first line, or its absence, means.
pub open spec fn is_greeting(greeting: Greeting, line: Option<&str>, dmabuf: bool) -> bool {
    match line {
        Some(line) => if is_ready(line@) {
            greeting == Greeting::Ready
        } else {
            greeting matches Greeting::Unexpected(err) && err@ == Failure::of(
                ErrorKind::InvalidData,
                "unexpected "@ + label(dmabuf) + " ready message: "@ + text::trimmed(line@),
            )
        },
        None => greeting matches Greeting::Exited(fallback) && fallback@ == label(dmabuf)
            + " exited before ready"@,
    }
}

/// Checks a helper's first line.
pub fn check_ready(line: Option<&str>, dmabuf: bool) -> (greeting: Greeting)
    ensures
        is_greeting(greeting, line, dmabuf),
{
    match line {
        Some(line) => {
            let word = text::trim(line);
            if text::equals(word, "ready") {
                Greeting::Ready
            } else {
                let message = text::join4(
                    "unexpected ",
                    helper_label(dmabuf),
                    " ready message: ",
                    word,
                );
                Greeting::Unexpected(Error::with_message(ErrorKind::InvalidData, message))
            }
        },
        None => Greeting::Exited(text::join(helper_label(dmabuf), " exited before ready")),
    }
}

/// What stands in for the last words of a helper that exited before a frame.
pub fn exited_before_frame(dmabuf: bool) -> (fallback: String)
    ensures
        fallback@ == label(dmabuf) + (if dmabuf {
            " exited before frame"@
        } else {
            " exited before frame header"@
        }),
{
    text::join(
        helper_label(dmabuf),
        if dmabuf {
            " exited before frame"
        } else {
            " exited before frame header"
        },
    )
}

/// Why no exported frame was received.
pub open spec fn is_receive_failure(err: Error, failure: Error, last_words: Option<&str>) -> bool {
    match last_words {
        Some(stderr) => err@ == retry::child_failure(
            stderr@,
            label(true) + " exited before frame"@,
        ),
        None => err == failure,
    }
}

/// Why no exported frame was received. A helper that exited is to blame, and its
/// last words say why; else what went wrong with receiving is.
pub fn receive_failure(failure: Error, last_words: Option<&str>) -> (err: Error)
    ensures
        is_receive_failure(err, failure, last_words),
{
    match last_words {
        Some(stderr) => {
            let fallback = exited_before_frame(true);
            retry::child_error(stderr, fallback.as_str())
        },
        None => failure,
    }
}

/// The outcome of one look for a helper's connection.
#[derive(Debug)]
pub enum AcceptOutcome {
    Connected,
    NotYet,
    Failed(Error),
}

/// What follows one look for a helper's connection.
#[derive(Debug)]
pub enum AcceptStep {
    Take,
    Fail(Error),
    /// The helper exited. What it wrote to its error output says why, else this
    /// does.
    Exited(String),
    /// Look again after so many milliseconds.
    LookAgain(u64),
}

/// What follows one look for a helper's connection.
pub open spec fn is_accept_step(
    step: AcceptStep,
    outcome: AcceptOutcome,
    exited: bool,
    elapsed: u64,
    timeout: u64,
) -> bool {
    match outcome {
        AcceptOutcome::Connected => step == AcceptStep::Take,
        AcceptOutcome::Failed(err) => step == AcceptStep::Fail(err),
        AcceptOutcome::NotYet => if exited {
            step matches AcceptStep::Exited(fallback) && fallback@
                == "kms dmabuf helper exited before socket connect"@
        } else if elapsed >= timeout {
            step matches AcceptStep::Fail(err) && err@ == Failure::of(
                ErrorKind::TimedOut,
                "kms dmabuf helper socket connect timed out after "@ + text::decimal(
                    timeout as nat,
                ) + " ms"@,
            )
        } else {
            step == AcceptStep::LookAgain(20)
        },
    }
}

/// Decides what follows one look for a helper's connection. Whether the helper
/// exited and how long the wait lasts already only matters while there is none.
pub fn accept_step(outcome: AcceptOutcome, exited: bool, elapsed: u64, timeout: u64) -> (step:
    AcceptStep)
    ensures
        is_accept_step(step, outcome, exited, elapsed, timeout),
{
    match outcome {
        AcceptOutcome::Connected => AcceptStep::Take,
        AcceptOutcome::Failed(err) => AcceptStep::Fail(err),
        AcceptOutcome::NotYet => if exited {
            AcceptStep::Exited("kms dmabuf helper exited before socket connect".to_owned())
        } else if elapsed >= timeout {
            let millis = text::write_decimal(timeout);
            let message = text::join3(
                "kms dmabuf helper socket connect timed out after ",
                millis.as_str(),
                " ms",
            );
            AcceptStep::Fail(Error::with_message(ErrorKind::TimedOut, message))
        } else {
            AcceptStep::LookAgain(20)
        },
    }
}

/// What follows one look whether a helper exited.
#[derive(Clone, Copy, PartialEq, Eq, Debug, Structural)]
pub enum ExitStep {
    Exited,
    /// Look again after so many milliseconds.
    LookAgain(u64),
    StillRunning,
}

/// What follows one look whether a helper exited.
pub open spec fn is_exit_step(step: ExitStep, elapsed: u64, exited: bool, timeout: u64) -> bool {
    step == (if exited {
        ExitStep::Exited
    } else if elapsed < timeout {
        ExitStep::LookAgain(10)
    } else {
        ExitStep::StillRunning
    })
}

/// Decides what follows one look whether a helper exited, made when `elapsed`
/// milliseconds of the time that it has were over.
pub fn exit_step(elapsed: u64, exited: bool, timeout: u64) -> (step: ExitStep)
    ensures
        is_exit_step(step, elapsed, exited, timeout),
{
    if exited {
        ExitStep::Exited
    } else if elapsed < timeout {
        ExitStep::LookAgain(10)
    } else {
        ExitStep::StillRunning
    }
}

/// How many looks a helper that was told to quit is given.
pub const QUIT_LOOKS: u32 = 10;

/// What follows one look at a helper that was told to quit.
pub open spec fn is_quit_step(step: ExitStep, look: u32, exited: bool) -> bool {
    step == (if look == QUIT_LOOKS {
        ExitStep::StillRunning
    } else if exited {
        ExitStep::Exited
    } else {
        ExitStep::LookAgain(20)
    })
}

/// Decides what follows the look number `look`, counted from zero, at a helper
/// that was told to quit. One that is still running after the last pause is
/// killed.
pub fn quit_step(look: u32, exited: bool) -> (step: ExitStep)
    requires
        look <= QUIT_LOOKS,
    ensures
        is_quit_step(step, look, exited),
{
    if look == QUIT_LOOKS {
        ExitStep::StillRunning
    } else if exited {
        ExitStep::Exited
    } else {
        ExitStep::LookAgain(20)
    }
}

/// The name of a socket for exported frames: the process and a number that it
/// uses once tell it from every other.
pub open spec fn socket_file(process: u32, id: u64) -> Seq<char> {
    "rustdesk-kms-dmabuf-"@ + text::decimal(process as nat) + "-"@ + text::decimal(id as nat)
        + ".sock"@
}

pub fn dmabuf_socket_name(process: u32, id: u64) -> (name: String)
    ensures
        name@ == socket_file(process, id),
{
    let process_text = text::write_decimal(process as u64);
    let id_text = text::write_decimal(id);
    let name = text::join4(
        "rustdesk-kms-dmabuf-",
        process_text.as_str(),
        "-",
        id_text.as_str(),
    );
    text::join(name.as_str(), ".sock")
}

/// Two sockets of different processes, or of one process with different numbers,
/// have different names.
pub proof fn law_socket_names_differ(process: u32, id: u64, other_process: u32, other_id: u64)
    requires
        process != other_process || id != other_id,
    ensures
        socket_file(process, id) != socket_file(other_process, other_id),
{
    let prefix = "rustdesk-kms-dmabuf-"@;
    let p = text::decimal(process as nat);
    let q = text::decimal(other_process as nat);
    let a = socket_file(process, id);
    let b = socket_file(other_process, other_id);
    text::lemma_decimal(process as nat);
    text::lemma_decimal(other_process as nat);
    text::lemma_decimal(id as nat);
    text::lemma_decimal(other_id as nat);
    reveal_strlit("-");
    reveal_strlit(".sock");
    if a == b {
        // The hyphen behind the first number stands at one place only.
        assert(a[(prefix.len() + p.len()) as int] == '-');
        assert(b[(prefix.len() + q.len()) as int] == '-');
        if p.len() < q.len() {
            assert(b[(prefix.len() + p.len()) as int] == q[p.len() as int]);
            assert(text::is_digit(q[p.len() as int]));
        }
        if q.len() < p.len() {
            assert(a[(prefix.len() + q.len()) as int] == p[q.len() as int]);
            assert(text::is_digit(p[q.len() as int]));
        }
        let n = prefix.len() as int;
        let m = n + p.len();
        assert(a.subrange(n, m) =~= p);
        assert(b.subrange(n, m) =~= q);
        let i = text::decimal(id as nat);
        let j = text::decimal(other_id as nat);
        assert(a.len() == m + 1 + i.len() + 5);
        assert(b.len() == m + 1 + j.len() + 5);
        assert(a.subrange(m + 1, m + 1 + i.len()) =~= i);
        assert(b.subrange(m + 1, m + 1 + j.len()) =~= j);
        assert(text::decimal_value(p) == process);
        assert(text::decimal_value(q) == other_process);
    }
}

/// A helper understands the lines that a client sends, and a client the line
/// with which a helper greets.
pub proof fn law_lines_are_understood()
    ensures
        helper::stream_step(FRAME_LINE@) == Some(StreamStep::Capture),
        helper::stream_step(QUIT_LINE@) == Some(StreamStep::Stop),
        is_ready(READY_LINE@),
{
    reveal_strlit("frame\n");
    reveal_strlit("quit\n");
    reveal_strlit("ready\n");
    reveal_strlit("frame");
    reveal_strlit("quit");
    reveal_strlit("ready");
    text::lemma_trimmed_line("frame"@);
    text::lemma_trimmed_line("quit"@);
    text::lemma_trimmed_line("ready"@);
    assert("frame\n"@ =~= "frame"@.push('\n'));
    assert("quit\n"@ =~= "quit"@.push('\n'));
    assert("ready\n"@ =~= "ready"@.push('\n'));
    assert("quit"@.len() == 4 && "frame"@.len() == 5);
}

/// A helper that exits for want of rights leaves an error that is reported as a
/// matter of permissions and makes a client try again.
pub proof fn law_rights_missing_in_last_words(stderr: Seq<char>, fallback: Seq<char>)
    requires
        retry::lacks_rights(text::trimmed(stderr)),
    ensures
        retry::child_failure(stderr, fallback) == Failure::of(
            ErrorKind::PermissionDenied,
            text::trimmed(stderr),
        ),
        retry::client_retries(retry::child_failure(stderr, fallback).message),
{
    reveal_strlit("permission denied");
    reveal_strlit("operation not permitted");
    if text::trimmed(stderr).len() == 0 {
        let lower = text::lowered(text::trimmed(stderr));
        assert(lower.len() == 0);
        assert(forall|at: int| !text::occurs_at(lower, "permission denied"@, at));
        assert(forall|at: int| !text::occurs_at(lower, "operation not permitted"@, at));
    }
}

/// Waiting for a helper has a good end exactly if something came and nothing broke;
/// that nothing came in time counts before that something broke.
pub proof fn law_waiting_needs_output(
    outcome: Result<(), Error>,
    ready: u32,
    pipe_error: bool,
    context: Seq<char>,
    millis: u64,
)
    requires
        is_poll_outcome(outcome, ready, pipe_error, context, millis),
    ensures
        outcome is Ok <==> ready != 0 && !pipe_error,
        outcome matches Err(err) ==> (err@.kind == ErrorKind::TimedOut <==> ready == 0) && (err@.kind
            == ErrorKind::BrokenPipe <==> ready != 0) && err@.message == (if ready == 0 {
            context + " timed out after "@ + text::decimal(millis as nat) + " ms"@
        } else {
            context + " pipe error"@
        }),
{
}

/// A helper has greeted exactly if its first line is the word for it, whatever white
/// space is around it; a helper without a line has exited, and any other line is not
/// what a helper says.
pub proof fn law_only_the_word_greets(
    greeting: Greeting,
    line: Option<&str>,
    dmabuf: bool,
)
    requires
        is_greeting(greeting, line, dmabuf),
    ensures
        greeting is Ready <==> (line matches Some(line) && text::trimmed(line@) == "ready"@),
        greeting is Exited <==> line is None,
        greeting matches Greeting::Unexpected(err) ==> err@.kind == ErrorKind::InvalidData
            && err@.message == "unexpected "@ + (if dmabuf {
            "kms dmabuf helper"@
        } else {
            "kms helper"@
        }) + " ready message: "@ + text::trimmed(line.unwrap()@),
        greeting matches Greeting::Exited(fallback) ==> fallback@ == (if dmabuf {
            "kms dmabuf helper"@
        } else {
            "kms helper"@
        }) + " exited before ready"@,
{
}

/// A connection is taken whenever there is one, and a failure is handed on whatever
/// else holds. While there is neither, a helper that exited ends the wait, and one that
/// has not is looked for again as long as there is time.
pub proof fn law_connection_counts_before_all_else(
    step: AcceptStep,
    outcome: AcceptOutcome,
    exited: bool,
    elapsed: u64,
    timeout: u64,
    err: Error,
)
    requires
        is_accept_step(step, outcome, exited, elapsed, timeout),
    ensures
        step == AcceptStep::Take <==> outcome == AcceptOutcome::Connected,
        outcome == AcceptOutcome::Failed(err) ==> step == AcceptStep::Fail(err),
        step is Exited <==> outcome == AcceptOutcome::NotYet && exited,
        step is LookAgain <==> outcome == AcceptOutcome::NotYet && !exited && elapsed < timeout,
        step matches AcceptStep::LookAgain(pause) ==> pause == 20,
        outcome == AcceptOutcome::NotYet && step is Fail ==> step->Fail_0@.kind
            == ErrorKind::TimedOut,
{
}

/// That a helper exited counts however late it is seen; one that has not is looked at
/// again while there is time, and is still running when there is none.
pub proof fn law_exit_is_seen_however_late(
    step: ExitStep,
    elapsed: u64,
    exited: bool,
    timeout: u64,
)
    requires
        is_exit_step(step, elapsed, exited, timeout),
    ensures
        step == ExitStep::Exited <==> exited,
        step == ExitStep::LookAgain(10) <==> !exited && elapsed < timeout,
        step == ExitStep::StillRunning <==> !exited && elapsed >= timeout,
{
}

/// A helper that was told to quit is looked at ten times, twenty milliseconds apart,
/// and counts as running after that whatever it did since.
pub proof fn law_quitting_helper_is_given_ten_looks(step: ExitStep, look: u32, exited: bool)
    requires
        look <= 10,
        is_quit_step(step, look, exited),
    ensures
        step == ExitStep::StillRunning <==> look == 10,
        step == ExitStep::Exited <==> look < 10 && exited,
        step == ExitStep::LookAgain(20) <==> look < 10 && !exited,
{
}

/// What went wrong with receiving is handed on as it is, unless the helper exited: then
/// its last words say why or, if it has none, that it exited.
pub proof fn law_exited_helper_is_to_blame(
    err: Error,
    failure: Error,
    last_words: Option<&str>,
)
    requires
        is_receive_failure(err, failure, last_words),
    ensures
        last_words is None ==> err == failure,
        last_words matches Some(stderr) ==> err@.message == (if text::trimmed(stderr@).len() > 0 {
            text::trimmed(stderr@)
        } else {
            "kms dmabuf helper"@ + " exited before frame"@
        }),
{
}

} // verus!
