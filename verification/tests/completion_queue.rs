use async_rdma::{
    CompletionQueue, CompletionQueueError, PollOutcome, WCError, WCErrorKind, WorkCompletion,
    WorkRequestId,
};

const KINDS: [(u32, WCErrorKind, &str); 21] = [
    (1, WCErrorKind::LocLenErr, "local length error"),
    (2, WCErrorKind::LocQpOpErr, "local QP operation error"),
    (3, WCErrorKind::LocEecOpErr, "local EE context operation error"),
    (4, WCErrorKind::LocProtErr, "local protection error"),
    (5, WCErrorKind::WrFlushErr, "Work Request Flushed Error"),
    (6, WCErrorKind::MwBindErr, "memory management operation error"),
    (7, WCErrorKind::BadRespErr, "bad response error"),
    (8, WCErrorKind::LocAccessErr, "local access error"),
    (9, WCErrorKind::RemInvReqErr, "remote invalid request error"),
    (10, WCErrorKind::RemAccessErr, "remote access error"),
    (11, WCErrorKind::RemOpErr, "remote operation error"),
    (12, WCErrorKind::RetryExcErr, "transport retry counter exceeded"),
    (13, WCErrorKind::RnrRetryExcErr, "RNR retry counter exceeded"),
    (14, WCErrorKind::LocRddViolErr, "local RDD violation error"),
    (15, WCErrorKind::RemInvRdReqErr, "remote invalid RD request"),
    (16, WCErrorKind::RemAbortErr, "aborted error"),
    (17, WCErrorKind::InvEecnErr, "invalid EE context number"),
    (18, WCErrorKind::InvEecStateErr, "invalid EE context state"),
    (19, WCErrorKind::FatalErr, "fatal error"),
    (20, WCErrorKind::RespTimeoutErr, "response timeout error"),
    (21, WCErrorKind::GeneralErr, "general error"),
];

#[test]
fn every_status_has_its_kind_and_every_kind_its_code() {
    for (code, kind, text) in KINDS {
        assert_eq!(WCErrorKind::from_status(code), Some(kind));
        assert_eq!(kind.code(), code);
        assert_eq!(kind.description(), text);
        let error = WCError { status: code, kind };
        assert_eq!(error.description(), text);
    }
}

#[test]
fn success_is_no_error() {
    assert_eq!(WCErrorKind::from_status(0), None);
}

#[test]
fn a_status_without_a_name_is_a_general_error() {
    assert_eq!(WCErrorKind::from_status(22), Some(WCErrorKind::GeneralErr));
    assert_eq!(
        WCErrorKind::from_status(u32::MAX),
        Some(WCErrorKind::GeneralErr)
    );
    let wc = WorkCompletion::new(WorkRequestId(1), 23, 0);
    assert_eq!(
        wc.err(),
        Err(WCError {
            status: 23,
            kind: WCErrorKind::GeneralErr
        })
    );
}

#[test]
fn a_completion_tells_the_bytes_or_the_error() {
    let ok = WorkCompletion::new(WorkRequestId(9), 0, 16);
    assert_eq!(ok.err(), Ok(16));
    assert_eq!(ok.wr_id(), WorkRequestId(9));
    let failed = WorkCompletion::new(WorkRequestId(9), 12, 16);
    assert_eq!(
        failed.err(),
        Err(WCError {
            status: 12,
            kind: WCErrorKind::RetryExcErr
        })
    );
}

#[test]
fn the_default_completion_is_all_zero() {
    let wc = WorkCompletion::default();
    assert_eq!(
        wc,
        WorkCompletion {
            wr_id: 0,
            status: 0,
            byte_len: 0
        }
    );
    assert_eq!(wc.err(), Ok(0));
}

#[test]
fn identifiers_carry_their_number() {
    assert_eq!(WorkRequestId(77).raw(), 77);
    let drawn = WorkRequestId::new();
    assert_eq!(WorkRequestId(drawn.raw()), drawn);
}

#[test]
fn a_queue_without_a_channel_cannot_be_armed() {
    let cq = CompletionQueue::create(16, false);
    assert_eq!(
        cq.req_notify(false),
        Err(CompletionQueueError::NoEventChannel)
    );
    assert_eq!(
        cq.req_notify(true),
        Err(CompletionQueueError::NoEventChannel)
    );
    let cq = CompletionQueue::create(16, true);
    assert_eq!(cq.req_notify(false), Ok(0));
    assert_eq!(cq.req_notify(true), Ok(1));
    assert_eq!(cq.cq_size, 16);
}

#[test]
fn the_answer_of_the_device_is_an_error_unless_zero() {
    assert_eq!(CompletionQueue::check(0), Ok(()));
    assert_eq!(
        CompletionQueue::check(22),
        Err(CompletionQueueError::Os(22))
    );
    assert_eq!(
        CompletionQueue::check(-1),
        Err(CompletionQueueError::Os(-1))
    );
}

#[test]
fn a_poll_keeps_the_entries_that_were_filled() {
    let mut entries = CompletionQueue::poll_buffer(4);
    assert_eq!(entries, vec![WorkCompletion::default(); 4]);
    entries[0] = WorkCompletion::new(WorkRequestId(1), 0, 8);
    entries[1] = WorkCompletion::new(WorkRequestId(2), 5, 0);
    let filled = CompletionQueue::poll(2, entries.clone()).unwrap();
    assert_eq!(filled, entries[..2].to_vec());
    assert_eq!(CompletionQueue::poll(0, entries.clone()), Ok(vec![]));
    assert_eq!(CompletionQueue::poll(4, entries.clone()), Ok(entries.clone()));
    assert_eq!(
        CompletionQueue::poll(-1, entries),
        Err(CompletionQueueError::PollFailed)
    );
    assert!(CompletionQueue::poll_buffer(0).is_empty());
}

#[test]
fn a_poll_for_one_entry_gives_it_or_nothing_or_fails() {
    let wc = WorkCompletion::new(WorkRequestId(1), 0, 8);
    assert_eq!(
        CompletionQueue::poll_single(1, wc),
        PollOutcome::Completion(wc)
    );
    assert_eq!(CompletionQueue::poll_single(0, wc), PollOutcome::Empty);
    assert_eq!(CompletionQueue::poll_single(-5, wc), PollOutcome::Error);
}
