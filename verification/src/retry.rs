//! When a failed capture is worth another try with more rights.

use crate::error::{Error, ErrorKind, Failure};
use crate::text;
use vstd::prelude::*;

verus! {

/// The message speaks of missing rights.
pub open spec fn lacks_rights(message: Seq<char>) -> bool {
    let lower = text::lowered(message);
    ||| text::contains(lower, "permission denied"@)
    ||| text::contains(lower, "operation not permitted"@)
}

/// A helper that has no more rights tries again with them where its message
/// speaks of missing rights, or of a buffer that it may not touch.
pub open spec fn helper_retries(message: Seq<char>) -> bool {
    ||| lacks_rights(message)
    ||| text::contains(text::lowered(message), "no accessible gem handle"@)
}

/// A client starts a privileged helper where a helper without rights would try
/// again, and where that helper saw no framebuffer.
pub open spec fn client_retries(message: Seq<char>) -> bool {
    ||| helper_retries(message)
    ||| text::contains(text::lowered(message), "no active framebuffer"@)
}

fn has_helper_phrase(lower: &str) -> (found: bool)
    ensures
        found == (text::contains(lower@, "permission denied"@) || text::contains(
            lower@,
            "operation not permitted"@,
        ) || text::contains(lower@, "no accessible gem handle"@)),
{
    text::has(lower, "permission denied") || text::has(lower, "operation not permitted")
        || text::has(lower, "no accessible gem handle")
}

pub fn should_retry_privileged_message(message: &str) -> (retry: bool)
    ensures
        retry == client_retries(message@),
{
    let lower = text::to_lower(message);
    has_helper_phrase(lower.as_str()) || text::has(lower.as_str(), "no active framebuffer")
}

pub fn should_retry_privileged(err: &Error) -> (retry: bool)
    ensures
        retry == helper_retries(err@.message),
{
    let lower = text::to_lower(err.message.as_str());
    has_helper_phrase(lower.as_str())
}

/// The kind of error that a helper's last words stand for.
pub open spec fn failure_kind(message: Seq<char>) -> ErrorKind {
    if lacks_rights(message) {
        ErrorKind::PermissionDenied
    } else if text::contains(text::lowered(message), "unsupported"@) {
        ErrorKind::Unsupported
    } else {
        ErrorKind::Other
    }
}

/// What a helper said last, or `fallback` where it said nothing.
pub open spec fn last_words(stderr: Seq<char>, fallback: Seq<char>) -> Seq<char> {
    if text::trimmed(stderr).len() == 0 {
        fallback
    } else {
        text::trimmed(stderr)
    }
}

fn words_of(stderr: &str, fallback: &str) -> (message: String)
    ensures
        message@ == last_words(stderr@, fallback@),
{
    let words = text::trim(stderr);
    if words.is_empty() {
        fallback.to_owned()
    } else {
        words.to_owned()
    }
}

/// The error of a helper that ran to its end and failed.
pub fn helper_failure(stderr: &str) -> (err: Error)
    ensures
        err@ == Failure::of(
            failure_kind(last_words(stderr@, "kms helper failed"@)),
            last_words(stderr@, "kms helper failed"@),
        ),
{
    let message = words_of(stderr, "kms helper failed");
    let lower = text::to_lower(message.as_str());
    let kind = if text::has(lower.as_str(), "permission denied") || text::has(
        lower.as_str(),
        "operation not permitted",
    ) {
        ErrorKind::PermissionDenied
    } else if text::has(lower.as_str(), "unsupported") {
        ErrorKind::Unsupported
    } else {
        ErrorKind::Other
    };
    Error::with_message(kind, message)
}

/// The error of a privileged helper that failed.
pub fn privileged_failure(stderr: &str) -> (err: Error)
    ensures
        err@ == Failure::of(
            ErrorKind::PermissionDenied,
            last_words(stderr@, "privileged kms helper failed"@),
        ),
{
    let message = words_of(stderr, "privileged kms helper failed");
    Error::with_message(ErrorKind::PermissionDenied, message)
}

pub open spec fn child_failure(stderr: Seq<char>, fallback: Seq<char>) -> Failure {
    let message = last_words(stderr, fallback);
    Failure::of(
        if client_retries(message) {
            ErrorKind::PermissionDenied
        } else {
            ErrorKind::Other
        },
        message,
    )
}

/// The error of a helper that exited in the middle of a session: a matter of
/// permissions exactly where more rights may help.
pub fn child_error(stderr: &str, fallback: &str) -> (err: Error)
    ensures
        err@ == child_failure(stderr@, fallback@),
{
    let message = words_of(stderr, fallback);
    let kind = if should_retry_privileged_message(message.as_str()) {
        ErrorKind::PermissionDenied
    } else {
        ErrorKind::Other
    };
    Error::with_message(kind, message)
}

/// Every message on which a helper tries again makes a client try again too.
pub proof fn law_client_retries_where_helper_does(message: Seq<char>)
    ensures
        helper_retries(message) ==> client_retries(message),
{
}

/// A buffer that may not be touched is worth another try, on both sides.
pub proof fn law_missing_gem_handle_is_retried()
    ensures
        helper_retries("framebuffer has no accessible GEM handle"@),
{
    reveal_strlit("framebuffer has no accessible GEM handle");
    reveal_strlit("no accessible gem handle");
    let lower = text::lowered("framebuffer has no accessible GEM handle"@);
    assert(lower.subrange(16, 40) =~= "no accessible gem handle"@);
    assert(text::occurs_at(lower, "no accessible gem handle"@, 16));
}

proof fn lemma_lacks(s: Seq<char>, part: Seq<char>, k: int)
    requires
        0 <= k < part.len(),
        !s.contains(part[k]),
    ensures
        !text::contains(s, part),
{
    assert forall|at: int| !text::occurs_at(s, part, at) by {
        if text::occurs_at(s, part, at) {
            assert(s.subrange(at, at + part.len())[k] == s[at + k]);
            assert(s.contains(part[k]));
        }
    }
}

/// A CRTC without a framebuffer is worth another try, for the client alone.
pub proof fn law_missing_framebuffer_is_retried_by_the_client_alone()
    ensures
        client_retries("crtc has no active framebuffer"@),
        !helper_retries("crtc has no active framebuffer"@),
{
    reveal_strlit("crtc has no active framebuffer");
    reveal_strlit("no active framebuffer");
    reveal_strlit("permission denied");
    reveal_strlit("operation not permitted");
    reveal_strlit("no accessible gem handle");
    let lower = text::lowered("crtc has no active framebuffer"@);
    assert(lower =~= "crtc has no active framebuffer"@);
    assert(lower.subrange(9, 30) =~= "no active framebuffer"@);
    assert(text::occurs_at(lower, "no active framebuffer"@, 9));
    assert(!lower.contains('p'));
    assert(!lower.contains('l'));
    lemma_lacks(lower, "permission denied"@, 0);
    lemma_lacks(lower, "operation not permitted"@, 1);
    lemma_lacks(lower, "no accessible gem handle"@, 11);
}

/// No blank of `s` stands first or behind an `n` or an `o`, in either case. Every
/// phrase that calls for another try has such a blank.
pub open spec fn is_quiet(s: Seq<char>) -> bool {
    forall|i: int|
        0 <= i < s.len() && #[trigger] s[i] == ' ' ==> i > 0 && text::lower(s[i - 1]) != 'n'
            && text::lower(s[i - 1]) != 'o'
}

proof fn lemma_quiet_lacks(s: Seq<char>, part: Seq<char>, blank: int)
    requires
        is_quiet(s),
        0 < blank < part.len(),
        part[blank] == ' ',
        part[blank - 1] == 'n' || part[blank - 1] == 'o',
    ensures
        !text::contains(text::lowered(s), part),
{
    let lower = text::lowered(s);
    assert forall|at: int| !text::occurs_at(lower, part, at) by {
        if text::occurs_at(lower, part, at) {
            let window = lower.subrange(at, at + part.len());
            assert(window[blank] == lower[at + blank]);
            assert(window[blank - 1] == lower[at + blank - 1]);
            assert(text::lower(s[at + blank]) == ' ');
            assert(s[at + blank] == ' ');
        }
    }
}

/// A quiet message calls for no other try.
pub proof fn law_quiet_message_is_not_retried(message: Seq<char>)
    requires
        is_quiet(message),
    ensures
        !client_retries(message),
{
    reveal_strlit("permission denied");
    reveal_strlit("operation not permitted");
    reveal_strlit("no accessible gem handle");
    reveal_strlit("no active framebuffer");
    lemma_quiet_lacks(message, "permission denied"@, 10);
    lemma_quiet_lacks(message, "operation not permitted"@, 9);
    lemma_quiet_lacks(message, "no accessible gem handle"@, 2);
    lemma_quiet_lacks(message, "no active framebuffer"@, 2);
}

/// Text without blanks in the middle of two quiet texts leaves them quiet.
pub proof fn lemma_quiet_around(head: Seq<char>, middle: Seq<char>, tail: Seq<char>)
    requires
        is_quiet(head),
        !middle.contains(' '),
        is_quiet(tail),
    ensures
        is_quiet(head + middle + tail),
{
    let s = head + middle + tail;
    assert forall|i: int| 0 <= i < s.len() && #[trigger] s[i] == ' ' implies i > 0 && text::lower(
        s[i - 1],
    ) != 'n' && text::lower(s[i - 1]) != 'o' by {
        if i < head.len() {
            assert(head[i] == ' ');
            assert(s[i - 1] == head[i - 1]);
        } else if i < head.len() + middle.len() {
            assert(middle[i - head.len()] == ' ');
        } else {
            let k = i - head.len() - middle.len();
            assert(tail[k] == ' ');
            assert(s[i - 1] == tail[k - 1]);
        }
    }
}

proof fn lemma_phrase_is_found(
    head: Seq<char>,
    phrase: Seq<char>,
    tail: Seq<char>,
    part: Seq<char>,
)
    requires
        text::lowered(phrase) == part,
    ensures
        text::contains(text::lowered(head + phrase + tail), part),
{
    text::law_contains(part, part, text::lowered(head), text::lowered(tail));
    assert(text::lowered(head + phrase + tail) =~= text::lowered(head) + part + text::lowered(
        tail,
    ));
}

/// A client tries again wherever one of the four phrases stands in the message, in
/// whatever case.
pub proof fn law_phrase_calls_for_another_try(
    head: Seq<char>,
    phrase: Seq<char>,
    tail: Seq<char>,
)
    requires
        ({
            let lower = text::lowered(phrase);
            ||| lower == "permission denied"@
            ||| lower == "operation not permitted"@
            ||| lower == "no accessible gem handle"@
            ||| lower == "no active framebuffer"@
        }),
    ensures
        client_retries(head + phrase + tail),
        text::lowered(phrase) != "no active framebuffer"@ ==> helper_retries(head + phrase + tail),
        text::lowered(phrase) == "permission denied"@ || text::lowered(phrase)
            == "operation not permitted"@ ==> failure_kind(head + phrase + tail)
            == ErrorKind::PermissionDenied,
{
    lemma_phrase_is_found(head, phrase, tail, text::lowered(phrase));
}

/// A message in which none of the phrases stands calls for no other try.
pub proof fn law_other_messages_call_for_none(message: Seq<char>)
    requires
        !text::contains(text::lowered(message), "permission denied"@),
        !text::contains(text::lowered(message), "operation not permitted"@),
        !text::contains(text::lowered(message), "no accessible gem handle"@),
    ensures
        !helper_retries(message),
        client_retries(message) <==> text::contains(
            text::lowered(message),
            "no active framebuffer"@,
        ),
        failure_kind(message) == ErrorKind::Unsupported <==> text::contains(
            text::lowered(message),
            "unsupported"@,
        ),
        failure_kind(message) == ErrorKind::Other <==> !text::contains(
            text::lowered(message),
            "unsupported"@,
        ),
{
}

/// Missing rights go before everything else in the kind of a failure; where a message
/// does not speak of them, it is not a matter of permissions.
pub proof fn law_permissions_need_their_phrase(message: Seq<char>)
    ensures
        failure_kind(message) == ErrorKind::PermissionDenied <==> text::contains(
            text::lowered(message),
            "permission denied"@,
        ) || text::contains(text::lowered(message), "operation not permitted"@),
        failure_kind(message) == ErrorKind::PermissionDenied || failure_kind(message)
            == ErrorKind::Unsupported || failure_kind(message) == ErrorKind::Other,
{
}

/// What a helper said is handed on without the white space around it; where it said
/// nothing, the fallback stands for it.
pub proof fn law_words_are_handed_on(
    head: Seq<char>,
    words: Seq<char>,
    tail: Seq<char>,
    fallback: Seq<char>,
)
    requires
        forall|i: int| 0 <= i < head.len() ==> text::white_space(#[trigger] head[i]),
        forall|i: int| 0 <= i < tail.len() ==> text::white_space(#[trigger] tail[i]),
        words.len() > 0 ==> !text::white_space(words[0]) && !text::white_space(words.last()),
    ensures
        words.len() > 0 ==> last_words(head + words + tail, fallback) == words,
        words.len() == 0 ==> last_words(head + words + tail, fallback) == fallback,
        words.len() > 0 ==> child_failure(head + words + tail, fallback).message == words,
        words.len() == 0 ==> child_failure(head + words + tail, fallback).message == fallback,
        ({
            let failure = child_failure(head + words + tail, fallback);
            &&& failure.kind == ErrorKind::PermissionDenied <==> client_retries(failure.message)
            &&& failure.kind == ErrorKind::Other <==> !client_retries(failure.message)
            &&& failure.cause is None
        }),
{
    text::law_trimming_finds_the_text(head, words, tail);
}

} // verus!
