//! What the completion queue reports, and how it is read.
//!
//! The device answers every work request with one work completion. Its status
//! is zero where the request succeeded, and otherwise one of the codes that
//! `WCErrorKind` names.

use crate::random::random_u64;
use vstd::prelude::*;

verus! {

/// The identifier under which a work request is posted and its completion is
/// found again.
#[derive(Clone, Copy, Debug, PartialEq, Eq, Hash, Structural)]
pub struct WorkRequestId(pub u64);

impl WorkRequestId {
    /// An identifier drawn at random.
    pub fn new() -> Self {
        WorkRequestId(random_u64())
    }

    /// The identifier as the number that the device carries.
    pub fn raw(&self) -> (raw: u64)
        ensures
            raw == self.0,
    {
        self.0
    }
}

/// The ways in which a work request fails.
#[derive(Clone, Copy, Debug, PartialEq, Eq, Structural)]
pub enum WCErrorKind {
    LocLenErr,
    LocQpOpErr,
    LocEecOpErr,
    LocProtErr,
    WrFlushErr,
    MwBindErr,
    BadRespErr,
    LocAccessErr,
    RemInvReqErr,
    RemAccessErr,
    RemOpErr,
    RetryExcErr,
    RnrRetryExcErr,
    LocRddViolErr,
    RemInvRdReqErr,
    RemAbortErr,
    InvEecnErr,
    InvEecStateErr,
    FatalErr,
    RespTimeoutErr,
    GeneralErr,
}

/// The status of a work request that succeeded.
pub const WC_SUCCESS: u32 = 0;

/// The highest status that has a kind of its own.
pub const WC_GENERAL_ERR: u32 = 21;

impl WCErrorKind {
    /// The status code that the device reports for this kind.
    pub open spec fn code_of(self) -> u32 {
        match self {
            WCErrorKind::LocLenErr => 1,
            WCErrorKind::LocQpOpErr => 2,
            WCErrorKind::LocEecOpErr => 3,
            WCErrorKind::LocProtErr => 4,
            WCErrorKind::WrFlushErr => 5,
            WCErrorKind::MwBindErr => 6,
            WCErrorKind::BadRespErr => 7,
            WCErrorKind::LocAccessErr => 8,
            WCErrorKind::RemInvReqErr => 9,
            WCErrorKind::RemAccessErr => 10,
            WCErrorKind::RemOpErr => 11,
            WCErrorKind::RetryExcErr => 12,
            WCErrorKind::RnrRetryExcErr => 13,
            WCErrorKind::LocRddViolErr => 14,
            WCErrorKind::RemInvRdReqErr => 15,
            WCErrorKind::RemAbortErr => 16,
            WCErrorKind::InvEecnErr => 17,
            WCErrorKind::InvEecStateErr => 18,
            WCErrorKind::FatalErr => 19,
            WCErrorKind::RespTimeoutErr => 20,
            WCErrorKind::GeneralErr => 21,
        }
    }

    /// The kind that a status other than success stands for. A status above
    /// the last named one counts as a general error.
    pub open spec fn of_status(status: u32) -> WCErrorKind {
        if status == 1 {
            WCErrorKind::LocLenErr
        } else if status == 2 {
            WCErrorKind::LocQpOpErr
        } else if status == 3 {
            WCErrorKind::LocEecOpErr
        } else if status == 4 {
            WCErrorKind::LocProtErr
        } else if status == 5 {
            WCErrorKind::WrFlushErr
        } else if status == 6 {
            WCErrorKind::MwBindErr
        } else if status == 7 {
            WCErrorKind::BadRespErr
        } else if status == 8 {
            WCErrorKind::LocAccessErr
        } else if status == 9 {
            WCErrorKind::RemInvReqErr
        } else if status == 10 {
            WCErrorKind::RemAccessErr
        } else if status == 11 {
            WCErrorKind::RemOpErr
        } else if status == 12 {
            WCErrorKind::RetryExcErr
        } else if status == 13 {
            WCErrorKind::RnrRetryExcErr
        } else if status == 14 {
            WCErrorKind::LocRddViolErr
        } else if status == 15 {
            WCErrorKind::RemInvRdReqErr
        } else if status == 16 {
            WCErrorKind::RemAbortErr
        } else if status == 17 {
            WCErrorKind::InvEecnErr
        } else if status == 18 {
            WCErrorKind::InvEecStateErr
        } else if status == 19 {
            WCErrorKind::FatalErr
        } else if status == 20 {
            WCErrorKind::RespTimeoutErr
        } else {
            WCErrorKind::GeneralErr
        }
    }

    /// The status code that the device reports for this kind.
    pub fn code(&self) -> (code: u32)
        ensures
            code == self.code_of(),
            1 <= code <= WC_GENERAL_ERR,
    {
        match self {
            WCErrorKind::LocLenErr => 1,
            WCErrorKind::LocQpOpErr => 2,
            WCErrorKind::LocEecOpErr => 3,
            WCErrorKind::LocProtErr => 4,
            WCErrorKind::WrFlushErr => 5,
            WCErrorKind::MwBindErr => 6,
            WCErrorKind::BadRespErr => 7,
            WCErrorKind::LocAccessErr => 8,
            WCErrorKind::RemInvReqErr => 9,
            WCErrorKind::RemAccessErr => 10,
            WCErrorKind::RemOpErr => 11,
            WCErrorKind::RetryExcErr => 12,
            WCErrorKind::RnrRetryExcErr => 13,
            WCErrorKind::LocRddViolErr => 14,
            WCErrorKind::RemInvRdReqErr => 15,
            WCErrorKind::RemAbortErr => 16,
            WCErrorKind::InvEecnErr => 17,
            WCErrorKind::InvEecStateErr => 18,
            WCErrorKind::FatalErr => 19,
            WCErrorKind::RespTimeoutErr => 20,
            WCErrorKind::GeneralErr => 21,
        }
    }

    /// The kind that `status` stands for; none for success.
    pub fn from_status(status: u32) -> (kind: Option<WCErrorKind>)
        ensures
            kind == if status == WC_SUCCESS {
                None
            } else {
                Some(WCErrorKind::of_status(status))
            },
    {
        match status {
            0 => None,
            1 => Some(WCErrorKind::LocLenErr),
            2 => Some(WCErrorKind::LocQpOpErr),
            3 => Some(WCErrorKind::LocEecOpErr),
            4 => Some(WCErrorKind::LocProtErr),
            5 => Some(WCErrorKind::WrFlushErr),
            6 => Some(WCErrorKind::MwBindErr),
            7 => Some(WCErrorKind::BadRespErr),
            8 => Some(WCErrorKind::LocAccessErr),
            9 => Some(WCErrorKind::RemInvReqErr),
            10 => Some(WCErrorKind::RemAccessErr),
            11 => Some(WCErrorKind::RemOpErr),
            12 => Some(WCErrorKind::RetryExcErr),
            13 => Some(WCErrorKind::RnrRetryExcErr),
            14 => Some(WCErrorKind::LocRddViolErr),
            15 => Some(WCErrorKind::RemInvRdReqErr),
            16 => Some(WCErrorKind::RemAbortErr),
            17 => Some(WCErrorKind::InvEecnErr),
            18 => Some(WCErrorKind::InvEecStateErr),
            19 => Some(WCErrorKind::FatalErr),
            20 => Some(WCErrorKind::RespTimeoutErr),
            _ => Some(WCErrorKind::GeneralErr),
        }
    }

    /// The words that go with this kind.
    pub open spec fn text_of(self) -> Seq<char> {
        match self {
            WCErrorKind::LocLenErr => "local length error"@,
            WCErrorKind::LocQpOpErr => "local QP operation error"@,
            WCErrorKind::LocEecOpErr => "local EE context operation error"@,
            WCErrorKind::LocProtErr => "local protection error"@,
            WCErrorKind::WrFlushErr => "Work Request Flushed Error"@,
            WCErrorKind::MwBindErr => "memory management operation error"@,
            WCErrorKind::BadRespErr => "bad response error"@,
            WCErrorKind::LocAccessErr => "local access error"@,
            WCErrorKind::RemInvReqErr => "remote invalid request error"@,
            WCErrorKind::RemAccessErr => "remote access error"@,
            WCErrorKind::RemOpErr => "remote operation error"@,
            WCErrorKind::RetryExcErr => "transport retry counter exceeded"@,
            WCErrorKind::RnrRetryExcErr => "RNR retry counter exceeded"@,
            WCErrorKind::LocRddViolErr => "local RDD violation error"@,
            WCErrorKind::RemInvRdReqErr => "remote invalid RD request"@,
            WCErrorKind::RemAbortErr => "aborted error"@,
            WCErrorKind::InvEecnErr => "invalid EE context number"@,
            WCErrorKind::InvEecStateErr => "invalid EE context state"@,
            WCErrorKind::FatalErr => "fatal error"@,
            WCErrorKind::RespTimeoutErr => "response timeout error"@,
            WCErrorKind::GeneralErr => "general error"@,
        }
    }

    /// The words that go with this kind.
    pub fn description(&self) -> (text: &'static str)
        ensures
            text@ == self.text_of(),
    {
        match self {
            WCErrorKind::LocLenErr => "local length error",
            WCErrorKind::LocQpOpErr => "local QP operation error",
            WCErrorKind::LocEecOpErr => "local EE context operation error",
            WCErrorKind::LocProtErr => "local protection error",
            WCErrorKind::WrFlushErr => "Work Request Flushed Error",
            WCErrorKind::MwBindErr => "memory management operation error",
            WCErrorKind::BadRespErr => "bad response error",
            WCErrorKind::LocAccessErr => "local access error",
            WCErrorKind::RemInvReqErr => "remote invalid request error",
            WCErrorKind::RemAccessErr => "remote access error",
            WCErrorKind::RemOpErr => "remote operation error",
            WCErrorKind::RetryExcErr => "transport retry counter exceeded",
            WCErrorKind::RnrRetryExcErr => "RNR retry counter exceeded",
            WCErrorKind::LocRddViolErr => "local RDD violation error",
            WCErrorKind::RemInvRdReqErr => "remote invalid RD request",
            WCErrorKind::RemAbortErr => "aborted error",
            WCErrorKind::InvEecnErr => "invalid EE context number",
            WCErrorKind::InvEecStateErr => "invalid EE context state",
            WCErrorKind::FatalErr => "fatal error",
            WCErrorKind::RespTimeoutErr => "response timeout error",
            WCErrorKind::GeneralErr => "general error",
        }
    }
}

/// Every kind is the kind of its own code.
pub proof fn lemma_kind_of_code(kind: WCErrorKind)
    ensures
        1 <= kind.code_of() <= WC_GENERAL_ERR,
        WCErrorKind::of_status(kind.code_of()) == kind,
{
}

/// Every status from the first named one to the last is the code of its kind.
pub proof fn lemma_code_of_kind(status: u32)
    requires
        1 <= status <= WC_GENERAL_ERR,
    ensures
        WCErrorKind::of_status(status).code_of() == status,
{
}

/// A work request that failed: the status that the device reported, and the
/// kind that the status stands for.
#[derive(Clone, Copy, Debug, PartialEq, Eq, Structural)]
pub struct WCError {
    pub status: u32,
    pub kind: WCErrorKind,
}

impl WCError {
    /// The words that go with the error's kind.
    pub fn description(&self) -> (text: &'static str)
        ensures
            text@ == self.kind.text_of(),
    {
        self.kind.description()
    }
}

/// What the device reports of one work request.
#[derive(Clone, Copy, Debug, PartialEq, Eq, Structural)]
pub struct WorkCompletion {
    pub wr_id: u64,
    pub status: u32,
    pub byte_len: u32,
}

impl WorkCompletion {
    /// The completion with these values.
    pub fn new(wr_id: WorkRequestId, status: u32, byte_len: u32) -> (wc: Self)
        ensures
            wc == (WorkCompletion { wr_id: wr_id.0, status, byte_len }),
    {
        WorkCompletion { wr_id: wr_id.0, status, byte_len }
    }

    /// The identifier of the work request that this completion answers.
    pub fn wr_id(&self) -> (id: WorkRequestId)
        ensures
            id == WorkRequestId(self.wr_id),
    {
        WorkRequestId(self.wr_id)
    }

    /// What the completion means to the one who posted the request.
    pub open spec fn outcome(self) -> Result<usize, WCError> {
        if self.status == WC_SUCCESS {
            Ok(self.byte_len as usize)
        } else {
            Err(WCError { status: self.status, kind: WCErrorKind::of_status(self.status) })
        }
    }

    /// The number of bytes moved where the request succeeded; the error with
    /// the reported status and its kind where it did not.
    pub fn err(&self) -> (result: Result<usize, WCError>)
        ensures
            result == self.outcome(),
    {
        match WCErrorKind::from_status(self.status) {
            None => Ok(self.byte_len as usize),
            Some(kind) => Err(WCError { status: self.status, kind }),
        }
    }
}

impl Default for WorkCompletion {
    /// The completion whose fields are all zero.
    fn default() -> (wc: Self)
        ensures
            wc == (WorkCompletion { wr_id: 0, status: 0, byte_len: 0 }),
    {
        WorkCompletion { wr_id: 0, status: 0, byte_len: 0 }
    }
}

/// Why the completion queue could not be used.
#[derive(Clone, Copy, Debug, PartialEq, Eq, Structural)]
pub enum CompletionQueueError {
    /// The queue was made without an event channel, so it cannot be armed.
    NoEventChannel,
    /// The device refused, with this error number.
    Os(i32),
    /// Polling failed.
    PollFailed,
}

/// What one poll of a single entry gave.
#[derive(Clone, Copy, Debug, PartialEq, Eq, Structural)]
pub enum PollOutcome {
    /// One work completion.
    Completion(WorkCompletion),
    /// Nothing was waiting.
    Empty,
    /// The device reported a failure.
    Error,
}

/// A completion queue as the library knows it: how many entries it was made
/// for, and whether an event channel is attached.
#[derive(Clone, Copy, Debug, PartialEq, Eq, Structural)]
pub struct CompletionQueue {
    pub cq_size: u32,
    pub has_channel: bool,
}

impl CompletionQueue {
    /// The queue made for `cq_size` entries.
    pub fn create(cq_size: u32, has_channel: bool) -> (cq: Self)
        ensures
            cq == (CompletionQueue { cq_size, has_channel }),
    {
        CompletionQueue { cq_size, has_channel }
    }

    /// What to hand to the device in order to arm the queue: one to be told
    /// of solicited completions only, zero to be told of all. A queue without
    /// an event channel cannot be armed.
    pub fn req_notify(&self, solicited_only: bool) -> (result: Result<i32, CompletionQueueError>)
        ensures
            result == if !self.has_channel {
                Err::<i32, CompletionQueueError>(CompletionQueueError::NoEventChannel)
            } else if solicited_only {
                Ok(1i32)
            } else {
                Ok(0i32)
            },
    {
        if !self.has_channel {
            return Err(CompletionQueueError::NoEventChannel);
        }
        if solicited_only {
            Ok(1)
        } else {
            Ok(0)
        }
    }

    /// What the device's answer to a request means: zero is success, and
    /// anything else is its error number.
    pub fn check(errno: i32) -> (result: Result<(), CompletionQueueError>)
        ensures
            result == if errno == 0 {
                Ok::<(), CompletionQueueError>(())
            } else {
                Err(CompletionQueueError::Os(errno))
            },
    {
        if errno != 0 {
            return Err(CompletionQueueError::Os(errno));
        }
        Ok(())
    }

    /// The entries that a poll has to be given room for: `num_entries`
    /// completions whose fields are all zero.
    pub fn poll_buffer(num_entries: u32) -> (entries: Vec<WorkCompletion>)
        ensures
            entries@ == Seq::new(
                num_entries as nat,
                |i: int| WorkCompletion { wr_id: 0, status: 0, byte_len: 0 },
            ),
    {
        let mut entries: Vec<WorkCompletion> = Vec::new();
        let mut i: u32 = 0;
        while i < num_entries
            invariant
                i <= num_entries,
                entries@ == Seq::new(
                    i as nat,
                    |i: int| WorkCompletion { wr_id: 0, status: 0, byte_len: 0 },
                ),
            decreases num_entries - i,
        {
            entries.push(WorkCompletion::default());
            i += 1;
        }
        entries
    }

    /// What a poll gave: the device answered `poll_res` after it was handed
    /// `entries` to fill. A negative answer is a failure; any other is the
    /// number of entries that it filled, which are the first ones.
    pub fn poll(poll_res: i32, entries: Vec<WorkCompletion>) -> (result: Result<
        Vec<WorkCompletion>,
        CompletionQueueError,
    >)
        requires
            poll_res <= entries@.len(),
        ensures
            match result {
                Ok(filled) => poll_res >= 0 && filled@ == entries@.take(poll_res as int),
                Err(e) => poll_res < 0 && e == CompletionQueueError::PollFailed,
            },
    {
        if poll_res < 0 {
            return Err(CompletionQueueError::PollFailed);
        }
        let mut filled = entries;
        filled.truncate(poll_res as usize);
        Ok(filled)
    }

    /// What a poll for one entry gave.
    pub fn poll_single(poll_res: i32, entry: WorkCompletion) -> (outcome: PollOutcome)
        ensures
            outcome == if poll_res < 0 {
                PollOutcome::Error
            } else if poll_res == 0 {
                PollOutcome::Empty
            } else {
                PollOutcome::Completion(entry)
            },
    {
        if poll_res < 0 {
            PollOutcome::Error
        } else if poll_res == 0 {
            PollOutcome::Empty
        } else {
            PollOutcome::Completion(entry)
        }
    }
}

} // verus!
