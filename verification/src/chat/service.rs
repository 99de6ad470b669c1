//! Plain types of the chat service: subscription ids, the outcome of a send,
//! the service's run state, and the content of an interrupted tool call.

use vstd::prelude::*;

verus! {

/// Id of an event subscription (returned on subscribing, used to unsubscribe).
#[derive(Debug, Clone, Copy, PartialEq, Eq, Hash, Structural)]
pub struct SubscriptionId(pub u64);

/// How the conversation started by one send ended.
#[derive(Debug, Clone, PartialEq, Eq)]
pub enum SendOutcome {
    /// Completed (not suspended).
    Completed,
    /// A sub-agent suspended to wait for the user (the run id routes the resume).
    Suspended { run_id: String },
    /// Failed for good (model request failed, channel closed, ...).
    Failed(String),
}

/// What waiting for a send gives: done (completed, stopped or suspended), or
/// the failure.
pub fn wait_result(outcome: SendOutcome) -> (r: Result<(), String>)
    ensures
        match outcome {
            SendOutcome::Failed(e) => r matches Err(x) && x@ == e@,
            _ => r is Ok,
        },
{
    match outcome {
        SendOutcome::Completed => Ok(()),
        SendOutcome::Suspended { .. } => Ok(()),
        SendOutcome::Failed(e) => Err(e),
    }
}

/// The outcome reported when the conversation driver went away before answering.
pub fn driver_gone() -> (o: SendOutcome)
    ensures
        o matches SendOutcome::Failed(e) && e@ == "chat driver 已退出，未收到完成信号"@,
{
    SendOutcome::Failed("chat driver 已退出，未收到完成信号".to_owned())
}

/// What the service is doing.
#[derive(Debug, Clone, Copy, PartialEq, Eq, Structural)]
pub enum RunState {
    /// No conversation running.
    Idle,
    /// A conversation is running.
    Running,
    /// Suspended until the user confirms an action.
    AwaitingUserAction,
}

/// Content of a tool call that was cancelled or interrupted (the same shape
/// is sent live and stored).
#[derive(Debug, Clone, PartialEq, Eq)]
pub struct ToolExecuteError {
    pub error: bool,
    pub cancelled: bool,
    pub message: String,
}

impl ToolExecuteError {
    /// Content with the reason, neither flag set.
    pub fn build(reason: &str) -> (r: ToolExecuteError)
        ensures
            !r.error,
            !r.cancelled,
            r.message@ == reason@,
    {
        ToolExecuteError { error: false, cancelled: false, message: reason.to_owned() }
    }

    /// The content with the error flag set to `v`.
    pub fn set_error(self, v: bool) -> (r: ToolExecuteError)
        ensures
            r.error == v,
            r.cancelled == self.cancelled,
            r.message == self.message,
    {
        let mut s = self;
        s.error = v;
        s
    }

    /// The content with the cancelled flag set to `v`.
    pub fn set_cancelled(self, v: bool) -> (r: ToolExecuteError)
        ensures
            r.cancelled == v,
            r.error == self.error,
            r.message == self.message,
    {
        let mut s = self;
        s.cancelled = v;
        s
    }
}

} // verus!
