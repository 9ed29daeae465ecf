//! Copying and deleting a model: the requests that are tried in turn, over
//! the daemon's API first and, where that is allowed, with its command-line
//! tool after it.

use crate::text::{decimal, push_decimal};
use vstd::prelude::*;
use vstd::string::StringExecFns;

verus! {

/// Seconds that a copy request may take: model data can be large.
pub const COPY_TIMEOUT_SECS: u64 = 3600;

/// Seconds that a delete request may take.
pub const DELETE_TIMEOUT_SECS: u64 = 60;

/// What is done to a model.
#[derive(Clone, Copy, PartialEq, Eq, Structural, Debug)]
pub enum Operation {
    Copy,
    Delete,
}

/// The HTTP method of a request.
#[derive(Clone, Copy, PartialEq, Eq, Structural, Debug)]
pub enum Method {
    Post,
    Delete,
}

/// Why a copy or a deletion failed.
#[derive(Clone, Copy, PartialEq, Eq, Structural, Debug)]
pub enum Fault {
    /// The copy request got no answer.
    CopyUnanswered,
    /// The copy request was answered with a status other than success.
    CopyRefused { status: u16 },
    /// Neither delete request made the deletion, and POST got no answer.
    /// `first` is the status that answered DELETE; `None` where it got no
    /// answer either.
    DeleteUnanswered { first: Option<u16> },
    /// Neither delete request made the deletion, and POST was answered with
    /// the status `second`. `first` is the status that answered DELETE;
    /// `None` where it got no answer.
    DeleteRefused { first: Option<u16>, second: u16 },
    /// The command-line tool could not be started.
    ToolNotStarted,
    /// The command-line tool ran and reported a failure.
    ToolFailed(Operation),
}

/// How a copy or a deletion ended.
#[derive(Clone, Copy, PartialEq, Eq, Structural, Debug)]
pub enum Verdict {
    Done,
    Failed(Fault),
}

/// What the caller is to try next.
#[derive(Clone, Copy, PartialEq, Eq, Structural, Debug)]
pub enum Attempt {
    /// POST the two names to the copy endpoint.
    PostCopy,
    /// Send the name to the delete endpoint with DELETE.
    SendDelete,
    /// POST the name to the delete endpoint. DELETE did not make the
    /// deletion: it was answered with the status `first`, or got no answer.
    PostDelete { first: Option<u16> },
    /// Run the tool's copy subcommand.
    RunCopy,
    /// Run the tool's delete subcommand.
    RunRemove,
    /// Stop: the operation has ended.
    Finish(Verdict),
}

/// What came of an attempt.
#[derive(Clone, Copy, PartialEq, Eq, Structural, Debug)]
pub enum Reply {
    /// The request got no answer.
    Unanswered,
    /// The request was answered with this HTTP status.
    Status(u16),
    /// The tool ran; `true` where it exited with success.
    Exited(bool),
    /// The tool could not be started.
    NotStarted,
}

/// An HTTP request to the daemon, but for its body.
#[derive(Clone, Copy, Debug)]
pub struct HttpCall {
    pub method: Method,
    pub path: &'static str,
    pub timeout_secs: u64,
}

/// Whether an HTTP status reports success: 200 to 299.
pub open spec fn is_success(status: u16) -> bool {
    200 <= status <= 299
}

/// Tests whether an HTTP status reports success.
pub fn status_is_success(status: u16) -> (b: bool)
    ensures
        b == is_success(status),
{
    200 <= status && status <= 299
}

impl Attempt {
    /// The place of the attempt in the order in which they are tried.
    pub open spec fn stage(self) -> nat {
        match self {
            Attempt::PostCopy => 0,
            Attempt::SendDelete => 0,
            Attempt::PostDelete { .. } => 1,
            Attempt::RunCopy => 2,
            Attempt::RunRemove => 2,
            Attempt::Finish(_) => 3,
        }
    }

    /// Whether the attempt runs the command-line tool.
    pub open spec fn runs_tool(self) -> bool {
        self is RunCopy || self is RunRemove
    }

    /// The method of the request that the attempt sends, if it sends one.
    pub open spec fn method_of(self) -> Option<Method> {
        match self {
            Attempt::PostCopy => Some(Method::Post),
            Attempt::SendDelete => Some(Method::Delete),
            Attempt::PostDelete { .. } => Some(Method::Post),
            _ => None,
        }
    }

    /// The path of the request that the attempt sends.
    pub open spec fn path_of(self) -> Seq<char> {
        match self {
            Attempt::PostCopy => "/api/copy"@,
            _ => "/api/delete"@,
        }
    }

    /// The seconds that the request of the attempt may take.
    pub open spec fn timeout_of(self) -> u64 {
        match self {
            Attempt::PostCopy => COPY_TIMEOUT_SECS,
            _ => DELETE_TIMEOUT_SECS,
        }
    }

    /// The request that the attempt sends; `None` where it sends none.
    pub fn http_call(&self) -> (call: Option<HttpCall>)
        ensures
            call is Some == self.method_of() is Some,
            call matches Some(c) ==> (self.method_of() == Some(c.method) && c.path@
                == self.path_of() && c.timeout_secs == self.timeout_of()),
    {
        match self {
            Attempt::PostCopy => Some(
                HttpCall {
                    method: Method::Post,
                    path: "/api/copy",
                    timeout_secs: COPY_TIMEOUT_SECS,
                },
            ),
            Attempt::SendDelete => Some(
                HttpCall {
                    method: Method::Delete,
                    path: "/api/delete",
                    timeout_secs: DELETE_TIMEOUT_SECS,
                },
            ),
            Attempt::PostDelete { .. } => Some(
                HttpCall {
                    method: Method::Post,
                    path: "/api/delete",
                    timeout_secs: DELETE_TIMEOUT_SECS,
                },
            ),
            _ => None,
        }
    }

    /// The subcommand of the tool that the attempt runs; `None` where it
    /// runs none.
    pub fn tool_subcommand(&self) -> (sub: Option<&'static str>)
        ensures
            sub is Some == self.runs_tool(),
            *self is RunCopy ==> (sub matches Some(s) && s@ == "cp"@),
            *self is RunRemove ==> (sub matches Some(s) && s@ == "rm"@),
    {
        match self {
            Attempt::RunCopy => Some("cp"),
            Attempt::RunRemove => Some("rm"),
            _ => None,
        }
    }
}

/// The first attempt of an operation: the API comes first.
pub open spec fn first_attempt(operation: Operation) -> Attempt {
    match operation {
        Operation::Copy => Attempt::PostCopy,
        Operation::Delete => Attempt::SendDelete,
    }
}

/// Whether `reply` is of the kind that `attempt` is waiting for.
pub open spec fn replies_to(attempt: Attempt, reply: Reply) -> bool {
    match attempt {
        Attempt::PostCopy | Attempt::SendDelete | Attempt::PostDelete { .. } => reply is Status
            || reply is Unanswered,
        Attempt::RunCopy | Attempt::RunRemove => reply is Exited || reply is NotStarted,
        Attempt::Finish(_) => false,
    }
}

/// What ends an attempt over the API that did not succeed: the tool where
/// the fallback is on, the failure where it is not.
pub open spec fn fall_back(fallback: bool, tool: Attempt, fault: Fault) -> Attempt {
    if fallback {
        tool
    } else {
        Attempt::Finish(Verdict::Failed(fault))
    }
}

/// What ends a run of the tool.
pub open spec fn tool_verdict(operation: Operation, reply: Reply) -> Verdict {
    match reply {
        Reply::Exited(true) => Verdict::Done,
        Reply::NotStarted => Verdict::Failed(Fault::ToolNotStarted),
        _ => Verdict::Failed(Fault::ToolFailed(operation)),
    }
}

/// The attempt that follows `attempt` once `reply` has come in. A status of
/// success ends the operation. A copy that the API did not make goes to the
/// tool. A deletion that DELETE did not make, whether it was answered
/// without success or got no answer, is tried once more with POST; one that
/// POST did not make either goes to the tool. A reply of a kind that
/// `attempt` is not waiting for leaves it as it is.
pub open spec fn following(fallback: bool, attempt: Attempt, reply: Reply) -> Attempt {
    match (attempt, reply) {
        (Attempt::PostCopy, Reply::Status(status)) => if is_success(status) {
            Attempt::Finish(Verdict::Done)
        } else {
            fall_back(fallback, Attempt::RunCopy, Fault::CopyRefused { status })
        },
        (Attempt::PostCopy, Reply::Unanswered) => fall_back(
            fallback,
            Attempt::RunCopy,
            Fault::CopyUnanswered,
        ),
        (Attempt::SendDelete, Reply::Status(status)) => if is_success(status) {
            Attempt::Finish(Verdict::Done)
        } else {
            Attempt::PostDelete { first: Some(status) }
        },
        (Attempt::SendDelete, Reply::Unanswered) => Attempt::PostDelete { first: None },
        (Attempt::PostDelete { first }, Reply::Status(status)) => if is_success(status) {
            Attempt::Finish(Verdict::Done)
        } else {
            fall_back(fallback, Attempt::RunRemove, Fault::DeleteRefused { first, second: status })
        },
        (Attempt::PostDelete { first }, Reply::Unanswered) => fall_back(
            fallback,
            Attempt::RunRemove,
            Fault::DeleteUnanswered { first },
        ),
        (Attempt::RunCopy, Reply::Exited(_)) => Attempt::Finish(
            tool_verdict(Operation::Copy, reply),
        ),
        (Attempt::RunCopy, Reply::NotStarted) => Attempt::Finish(
            tool_verdict(Operation::Copy, reply),
        ),
        (Attempt::RunRemove, Reply::Exited(_)) => Attempt::Finish(
            tool_verdict(Operation::Delete, reply),
        ),
        (Attempt::RunRemove, Reply::NotStarted) => Attempt::Finish(
            tool_verdict(Operation::Delete, reply),
        ),
        _ => attempt,
    }
}

/// The attempts that the caller is given, in order, when it starts with
/// `attempt` and the replies come in as listed.
pub open spec fn tried(fallback: bool, attempt: Attempt, replies: Seq<Reply>) -> Seq<Attempt>
    decreases replies.len(),
{
    if replies.len() == 0 {
        seq![attempt]
    } else if replies_to(attempt, replies[0]) {
        seq![attempt] + tried(fallback, following(fallback, attempt, replies[0]), replies.drop_first())
    } else {
        tried(fallback, attempt, replies.drop_first())
    }
}

/// Every reply moves the operation on to a later stage, a reply of
/// another kind moves nothing, and the tool is never run unless the fallback
/// is on.
pub proof fn lemma_following_moves_on(fallback: bool, attempt: Attempt, reply: Reply)
    ensures
        replies_to(attempt, reply) ==> following(fallback, attempt, reply).stage()
            > attempt.stage(),
        !replies_to(attempt, reply) ==> following(fallback, attempt, reply) == attempt,
        !fallback && !attempt.runs_tool() ==> !following(fallback, attempt, reply).runs_tool(),
{
}

/// A status of success ends the operation at once, and with success.
pub proof fn lemma_success_ends(fallback: bool, attempt: Attempt, status: u16)
    requires
        attempt.method_of() is Some,
        is_success(status),
    ensures
        following(fallback, attempt, Reply::Status(status)) == Attempt::Finish(Verdict::Done),
{
}

/// POST follows every DELETE that did not make the deletion, whether it
/// was answered without success or got no answer; the tool and the failure
/// come only after POST.
pub proof fn lemma_post_follows_delete(fallback: bool, reply: Reply)
    requires
        replies_to(Attempt::SendDelete, reply),
        !(reply matches Reply::Status(status) && is_success(status)),
    ensures
        following(fallback, Attempt::SendDelete, reply) is PostDelete,
        following(fallback, Attempt::SendDelete, reply)->first == match reply {
            Reply::Status(status) => Some(status),
            _ => None,
        },
{
}

/// An operation takes at most three attempts, each at a later stage than
/// the one before; with the fallback off none of them runs the tool.
pub proof fn lemma_tried_in_order(fallback: bool, operation: Operation, replies: Seq<Reply>)
    ensures
        tried(fallback, first_attempt(operation), replies).len() <= 4,
        forall|i: int, j: int|
            0 <= i < j < tried(fallback, first_attempt(operation), replies).len() ==> (
            #[trigger] tried(fallback, first_attempt(operation), replies)[i]).stage() < (
            #[trigger] tried(fallback, first_attempt(operation), replies)[j]).stage(),
        !fallback ==> forall|i: int|
            0 <= i < tried(fallback, first_attempt(operation), replies).len() ==> !(
            #[trigger] tried(fallback, first_attempt(operation), replies)[i]).runs_tool(),
{
    lemma_tried_from(fallback, first_attempt(operation), replies);
    let all = tried(fallback, first_attempt(operation), replies);
    if all.len() > 4 {
        assert(all[0].stage() < all[1].stage());
        assert(all[1].stage() < all[2].stage());
        assert(all[2].stage() < all[3].stage());
        assert(all[3].stage() < all[4].stage());
    }
}

proof fn lemma_tried_from(fallback: bool, attempt: Attempt, replies: Seq<Reply>)
    ensures
        tried(fallback, attempt, replies).len() >= 1,
        tried(fallback, attempt, replies)[0] == attempt,
        forall|i: int, j: int|
            0 <= i < j < tried(fallback, attempt, replies).len() ==> (#[trigger] tried(
                fallback,
                attempt,
                replies,
            )[i]).stage() < (#[trigger] tried(fallback, attempt, replies)[j]).stage(),
        !fallback && !attempt.runs_tool() ==> forall|i: int|
            0 <= i < tried(fallback, attempt, replies).len() ==> !(#[trigger] tried(
                fallback,
                attempt,
                replies,
            )[i]).runs_tool(),
    decreases replies.len(),
{
    if replies.len() == 0 {
    } else if replies_to(attempt, replies[0]) {
        let then = following(fallback, attempt, replies[0]);
        let rest = tried(fallback, then, replies.drop_first());
        lemma_tried_from(fallback, then, replies.drop_first());
        lemma_following_moves_on(fallback, attempt, replies[0]);
        let all = tried(fallback, attempt, replies);
        assert(all == seq![attempt] + rest);
        assert forall|i: int, j: int| 0 <= i < j < all.len() implies (#[trigger] all[i]).stage() < (
        #[trigger] all[j]).stage() by {
            assert(all[j] == rest[j - 1]);
            if i == 0 {
                if j > 1 {
                    assert(rest[0].stage() < rest[j - 1].stage());
                }
            } else {
                assert(all[i] == rest[i - 1]);
            }
        }
        if !fallback && !attempt.runs_tool() {
            assert forall|i: int| 0 <= i < all.len() implies !(#[trigger] all[i]).runs_tool() by {
                if i > 0 {
                    assert(all[i] == rest[i - 1]);
                }
            }
        }
    } else {
        lemma_tried_from(fallback, attempt, replies.drop_first());
    }
}

/// The first attempt of an operation.
pub fn start(operation: Operation) -> (a: Attempt)
    ensures
        a == first_attempt(operation),
{
    match operation {
        Operation::Copy => Attempt::PostCopy,
        Operation::Delete => Attempt::SendDelete,
    }
}

fn or_tool(fallback: bool, tool: Attempt, fault: Fault) -> (a: Attempt)
    ensures
        a == fall_back(fallback, tool, fault),
{
    if fallback {
        tool
    } else {
        Attempt::Finish(Verdict::Failed(fault))
    }
}

fn tool_result(operation: Operation, reply: Reply) -> (v: Verdict)
    ensures
        v == tool_verdict(operation, reply),
{
    match reply {
        Reply::Exited(true) => Verdict::Done,
        Reply::NotStarted => Verdict::Failed(Fault::ToolNotStarted),
        _ => Verdict::Failed(Fault::ToolFailed(operation)),
    }
}

/// Computes the attempt that follows `attempt` once `reply` has come in.
pub fn next_attempt(fallback: bool, attempt: Attempt, reply: Reply) -> (a: Attempt)
    ensures
        a == following(fallback, attempt, reply),
{
    match (attempt, reply) {
        (Attempt::PostCopy, Reply::Status(status)) => {
            if status_is_success(status) {
                Attempt::Finish(Verdict::Done)
            } else {
                or_tool(fallback, Attempt::RunCopy, Fault::CopyRefused { status })
            }
        },
        (Attempt::PostCopy, Reply::Unanswered) => or_tool(
            fallback,
            Attempt::RunCopy,
            Fault::CopyUnanswered,
        ),
        (Attempt::SendDelete, Reply::Status(status)) => {
            if status_is_success(status) {
                Attempt::Finish(Verdict::Done)
            } else {
                Attempt::PostDelete { first: Some(status) }
            }
        },
        (Attempt::SendDelete, Reply::Unanswered) => Attempt::PostDelete { first: None },
        (Attempt::PostDelete { first }, Reply::Status(status)) => {
            if status_is_success(status) {
                Attempt::Finish(Verdict::Done)
            } else {
                or_tool(fallback, Attempt::RunRemove, Fault::DeleteRefused { first, second: status })
            }
        },
        (Attempt::PostDelete { first }, Reply::Unanswered) => or_tool(
            fallback,
            Attempt::RunRemove,
            Fault::DeleteUnanswered { first },
        ),
        (Attempt::RunCopy, Reply::Exited(_)) => Attempt::Finish(tool_result(Operation::Copy, reply)),
        (Attempt::RunCopy, Reply::NotStarted) => Attempt::Finish(
            tool_result(Operation::Copy, reply),
        ),
        (Attempt::RunRemove, Reply::Exited(_)) => Attempt::Finish(
            tool_result(Operation::Delete, reply),
        ),
        (Attempt::RunRemove, Reply::NotStarted) => Attempt::Finish(
            tool_result(Operation::Delete, reply),
        ),
        (pending, _) => pending,
    }
}

/// The fields of the body of a copy request, each with its name.
pub fn copy_fields(source: &str, destination: &str) -> (fields: Vec<(&'static str, String)>)
    ensures
        fields.len() == 2,
        fields[0].0@ == "source"@,
        fields[0].1@ == source@,
        fields[1].0@ == "destination"@,
        fields[1].1@ == destination@,
{
    let mut fields: Vec<(&'static str, String)> = Vec::new();
    fields.push(("source", String::from_str(source)));
    fields.push(("destination", String::from_str(destination)));
    fields
}

/// The fields of the body of a delete request, each with its name.
pub fn delete_fields(model: &str) -> (fields: Vec<(&'static str, String)>)
    ensures
        fields.len() == 1,
        fields[0].0@ == "model"@,
        fields[0].1@ == model@,
{
    let mut fields: Vec<(&'static str, String)> = Vec::new();
    fields.push(("model", String::from_str(model)));
    fields
}

/// What a delete request came back with, in words: the status, or that
/// there was no answer.
pub open spec fn answer_text(status: Option<u16>) -> Seq<char> {
    match status {
        Some(code) => decimal(code as nat),
        None => "no answer"@,
    }
}

/// The text that reports `fault`; `detail` is what the last attempt that
/// failed left behind: the body of the answer, or the words of the error.
pub open spec fn fault_text(fault: Fault, detail: Seq<char>) -> Seq<char> {
    match fault {
        Fault::CopyUnanswered => "POST /api/copy failed: "@ + detail,
        Fault::CopyRefused { status } => "API copy failed: status "@ + decimal(status as nat)
            + " body "@ + detail,
        Fault::DeleteUnanswered { first } => "Delete failed: "@ + answer_text(first)
            + " / no answer: "@ + detail,
        Fault::DeleteRefused { first, second } => "Delete failed: "@ + answer_text(first)
            + " / "@ + decimal(second as nat),
        Fault::ToolNotStarted => "Failed to invoke `ollama` binary: "@ + detail,
        Fault::ToolFailed(Operation::Copy) => "`ollama cp` returned non-zero status"@,
        Fault::ToolFailed(Operation::Delete) => "`ollama rm` returned non-zero status"@,
    }
}

fn push_answer(out: &mut String, status: Option<u16>)
    ensures
        final(out)@ == old(out)@ + answer_text(status),
{
    match status {
        Some(code) => push_decimal(out, code as u64),
        None => out.append("no answer"),
    }
}

/// Writes the text that reports `fault`.
pub fn describe_fault(fault: Fault, detail: &str) -> (r: String)
    ensures
        r@ == fault_text(fault, detail@),
{
    match fault {
        Fault::CopyUnanswered => {
            let mut r = String::from_str("POST /api/copy failed: ");
            r.append(detail);
            r
        },
        Fault::CopyRefused { status } => {
            let mut r = String::from_str("API copy failed: status ");
            push_decimal(&mut r, status as u64);
            r.append(" body ");
            r.append(detail);
            r
        },
        Fault::DeleteUnanswered { first } => {
            let mut r = String::from_str("Delete failed: ");
            push_answer(&mut r, first);
            r.append(" / no answer: ");
            r.append(detail);
            r
        },
        Fault::DeleteRefused { first, second } => {
            let mut r = String::from_str("Delete failed: ");
            push_answer(&mut r, first);
            r.append(" / ");
            push_decimal(&mut r, second as u64);
            r
        },
        Fault::ToolNotStarted => {
            let mut r = String::from_str("Failed to invoke `ollama` binary: ");
            r.append(detail);
            r
        },
        Fault::ToolFailed(Operation::Copy) => String::from_str(
            "`ollama cp` returned non-zero status",
        ),
        Fault::ToolFailed(Operation::Delete) => String::from_str(
            "`ollama rm` returned non-zero status",
        ),
    }
}

/// The line that tells that the tool is tried after the API ended with
/// `fault`.
pub open spec fn fallback_text(fault: Fault, detail: Seq<char>) -> Seq<char> {
    match fault {
        Fault::CopyRefused { status } => "API copy failed ("@ + decimal(status as nat)
            + "). Falling back to CLI..."@,
        Fault::CopyUnanswered => "API copy error: "@ + detail + ". Falling back to CLI..."@,
        Fault::DeleteRefused { .. } | Fault::DeleteUnanswered { .. } => "API delete failed ("@
            + fault_text(fault, detail) + "). Falling back to CLI..."@,
        _ => fault_text(fault, detail),
    }
}

/// Writes the line that tells that the tool is tried after the API ended
/// with `fault`.
pub fn fallback_notice(fault: Fault, detail: &str) -> (r: String)
    ensures
        r@ == fallback_text(fault, detail@),
{
    match fault {
        Fault::CopyRefused { status } => {
            let mut r = String::from_str("API copy failed (");
            push_decimal(&mut r, status as u64);
            r.append("). Falling back to CLI...");
            r
        },
        Fault::CopyUnanswered => {
            let mut r = String::from_str("API copy error: ");
            r.append(detail);
            r.append(". Falling back to CLI...");
            r
        },
        Fault::DeleteRefused { .. } | Fault::DeleteUnanswered { .. } => {
            let told = describe_fault(fault, detail);
            let mut r = String::from_str("API delete failed (");
            r.append(told.as_str());
            r.append("). Falling back to CLI...");
            r
        },
        _ => describe_fault(fault, detail),
    }
}

} // verus!
