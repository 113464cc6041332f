//! Forwarding a request downstream.

use vstd::prelude::*;
use vstd::utf8::*;

use crate::headers::Headers;
use crate::json::{json_read, Json};
use crate::passthrough::Passthrough;
use crate::payload::{build_payload, carries, payload};
use crate::text::{lossy_text, texts};

verus! {

/// Where requests are forwarded to.
#[derive(Clone, Copy, Debug, PartialEq, Eq, Structural)]
pub enum Forwarder {
    /// The standard output of this process.
    Stdout,
    /// The standard input of a subprocess.
    Subprocess,
}

/// How far a request has been forwarded: the operation that is due, or the outcome.
#[derive(Clone, Copy, Debug, PartialEq, Eq, Structural)]
pub enum Step {
    /// Write the payload.
    Write,
    /// Flush what was written.
    Flush,
    /// The payload was forwarded.
    Done,
    /// An operation failed.
    Failed,
}

/// A request that is being forwarded.
pub struct Forwarding {
    /// Where it goes.
    pub to: Forwarder,
    /// What is written.
    pub payload: Vec<u8>,
    /// How far it has been forwarded.
    pub step: Step,
}

/// What a [`Forwarding`] holds.
pub struct ForwardingView {
    /// Where it goes.
    pub to: Forwarder,
    /// What is written.
    pub payload: Seq<u8>,
    /// How far it has been forwarded.
    pub step: Step,
}

impl View for Forwarding {
    type V = ForwardingView;

    open spec fn view(&self) -> ForwardingView {
        ForwardingView { to: self.to, payload: self.payload@, step: self.step }
    }
}

/// The step after the operation of `step` has succeeded or failed. An outcome stays.
pub open spec fn step_after(step: Step, succeeded: bool) -> Step {
    match step {
        Step::Write => if succeeded {
            Step::Flush
        } else {
            Step::Failed
        },
        Step::Flush => if succeeded {
            Step::Done
        } else {
            Step::Failed
        },
        Step::Done => Step::Done,
        Step::Failed => Step::Failed,
    }
}

/// The step after a series of operations, given which of them succeeded.
pub open spec fn steps_after(step: Step, succeeded: Seq<bool>) -> Step
    decreases succeeded.len(),
{
    if succeeded.len() == 0 {
        step
    } else {
        step_after(steps_after(step, succeeded.drop_last()), succeeded.last())
    }
}

impl Forwarder {
    /// Where requests go: into the command where there is one, else to stdout.
    pub fn for_command(command: &Option<String>) -> (res: Forwarder)
        ensures
            res == (if command is Some {
                Forwarder::Subprocess
            } else {
                Forwarder::Stdout
            }),
    {
        match command {
            Some(_) => Forwarder::Subprocess,
            None => Forwarder::Stdout,
        }
    }

    /// Starts to forward a request: its payload is to be written.
    pub fn forward(
        &self,
        passthrough: &Passthrough,
        method: &str,
        path: &str,
        headers: Headers,
        body: Vec<u8>,
    ) -> (res: Forwarding)
        ensures
            res.to == *self,
            res.payload@ == payload(*passthrough, method@, path@, headers@, body@),
            carries(res.payload@, *passthrough, method@, path@, headers@, body@),
            res.step == Step::Write,
            *passthrough == Passthrough::Body ==> res.payload@ == body@ + seq![10u8],
            *passthrough == Passthrough::Full ==> res.payload@.len() > 0
                && res.payload@.last() == 10 && forall|i: int|
                0 <= i < res.payload@.len() - 1 ==> #[trigger] res.payload@[i] >= 32,
            *passthrough == Passthrough::Full
                ==> (json_read(res.payload@.drop_last()) matches Some(Json::Object(members))
                && members.dom() == set![
                    "method"@,
                    "path"@,
                    "headers"@,
                    "body"@,
                ] && members["method"@] == Json::Text(method@)
                    && members["path"@] == Json::Text(path@)
                    && members["body"@] == Json::Text(lossy_text(body@)) && (valid_utf8(body@)
                    ==> members["body"@] == Json::Text(decode_utf8(body@))) && (
                members["headers"@] matches Json::Object(fields)
                    && fields.dom() == headers@.dom() && forall|
                    name: Seq<char>,
                | #[trigger] headers@.dom().contains(name)
                    ==> fields[name] == Json::Text(headers@[name]))),
    {
        let bytes: Vec<u8> = build_payload(passthrough, method, path, headers, body);
        Forwarding { to: *self, payload: bytes, step: Step::Write }
    }
}

impl Forwarding {
    /// Takes note of whether the operation that was due has succeeded.
    pub fn advance(&mut self, succeeded: bool)
        ensures
            final(self).to == old(self).to,
            final(self).payload@ == old(self).payload@,
            final(self).step == step_after(old(self).step, succeeded),
            old(self).step == Step::Write && succeeded ==> final(self).step == Step::Flush,
            old(self).step == Step::Flush && succeeded ==> final(self).step == Step::Done,
            (old(self).step == Step::Write || old(self).step == Step::Flush) && !succeeded
                ==> final(self).step == Step::Failed,
            old(self).step == Step::Done || old(self).step == Step::Failed ==> final(self).step
                == old(self).step,
    {
        self.step = match self.step {
            Step::Write => if succeeded {
                Step::Flush
            } else {
                Step::Failed
            },
            Step::Flush => if succeeded {
                Step::Done
            } else {
                Step::Failed
            },
            Step::Done => Step::Done,
            Step::Failed => Step::Failed,
        };
    }
}

/// The command line that runs `command` in a shell.
pub fn shell_line(command: &str) -> (res: Vec<String>)
    ensures
        texts(res@) == seq!["sh"@, "-c"@, command@],
{
    let mut line: Vec<String> = Vec::new();
    line.push("sh".to_owned());
    line.push("-c".to_owned());
    line.push(command.to_owned());
    line
}

/// A forwarding that has an outcome keeps it.
proof fn lemma_outcome_stays(step: Step, succeeded: Seq<bool>)
    requires
        step == Step::Done || step == Step::Failed,
    ensures
        steps_after(step, succeeded) == step,
    decreases succeeded.len(),
{
    if succeeded.len() > 0 {
        lemma_outcome_stays(step, succeeded.drop_last());
    }
}

/// The steps after one operation and more are those of the more after the one.
proof fn lemma_first_operation(step: Step, succeeded: Seq<bool>)
    requires
        succeeded.len() > 0,
    ensures
        steps_after(step, succeeded) == steps_after(
            step_after(step, succeeded[0]),
            succeeded.drop_first(),
        ),
    decreases succeeded.len(),
{
    let rest = succeeded.drop_first();
    if succeeded.len() == 1 {
        assert(steps_after(step, succeeded.drop_last()) == step);
        assert(rest.len() == 0);
    } else {
        lemma_first_operation(step, succeeded.drop_last());
        assert(succeeded.drop_last().drop_first() =~= rest.drop_last());
        assert(rest.last() == succeeded.last());
    }
}

/// Whatever the operations come to, a request has an outcome after two of them: it is forwarded
/// if and only if the write and the flush both succeed. Nothing is flushed after a write that
/// failed.
pub proof fn forwarded_iff_written_and_flushed(succeeded: Seq<bool>)
    ensures
        steps_after(Step::Write, succeeded) == Step::Done <==> succeeded.len() >= 2 && succeeded[0]
            && succeeded[1],
        steps_after(Step::Write, succeeded) == Step::Failed <==> succeeded.len() >= 1 && (
        !succeeded[0] || (succeeded.len() >= 2 && !succeeded[1])),
        steps_after(Step::Write, succeeded) == Step::Flush <==> succeeded.len() == 1
            && succeeded[0],
{
    if succeeded.len() >= 1 {
        lemma_first_operation(Step::Write, succeeded);
        let rest = succeeded.drop_first();
        if succeeded[0] && rest.len() >= 1 {
            lemma_first_operation(Step::Flush, rest);
            assert(rest[0] == succeeded[1]);
            lemma_outcome_stays(step_after(Step::Flush, rest[0]), rest.drop_first());
        }
        if !succeeded[0] {
            lemma_outcome_stays(Step::Failed, rest);
        }
    }
}

} // verus!
