use async_rdma::queue_pair::default_access;
use async_rdma::rdma::DEFAULT_CQ_SIZE;
use async_rdma::{
    BringUp, Dispatch, Event, Gid, Local, LocalMemoryRegion, MemoryRegion, MemoryRegionError,
    MemoryRegionToken, Opcode, Phase, PollOutcome, QueuePair, QueuePairAttr, QueuePairEndpoint,
    QueuePairError, QueuePairState, Rdma, RdmaBuilder, RdmaError, RemoteMemoryRegion,
    RequestKind, SendMRKind, SendMRRequest, Side, Step, WorkCompletion, WorkRequestId,
};
use std::alloc::Layout;

fn rdma() -> Rdma<u32> {
    Rdma::new(QueuePair::new(7, 3, Gid::new([9; 16]), 5))
}

fn local(len: usize) -> LocalMemoryRegion {
    MemoryRegion::new(0x1000, len, Local::new(11, 22))
}

fn remote(len: usize) -> RemoteMemoryRegion {
    MemoryRegion::new_from_token(MemoryRegionToken {
        addr: 0x8000,
        len,
        rkey: 33,
    })
}

#[test]
fn the_default_options() {
    let builder = RdmaBuilder::default();
    assert_eq!(builder.dev_name(), None);
    assert_eq!(builder.access(), 0xf);
    assert_eq!(builder.access(), default_access());
    assert_eq!(builder.cq_size(), 16);
    assert_eq!(DEFAULT_CQ_SIZE, 16);
}

#[test]
fn the_options_can_be_set() {
    let mut builder = RdmaBuilder::default();
    builder.set_dev("mlx5_0");
    builder.set_cq_size(64);
    assert_eq!(builder.dev_name(), Some("mlx5_0"));
    assert_eq!(builder.cq_size(), 64);
    assert_eq!(builder.access(), 0xf);
}

#[test]
fn the_client_writes_first_and_the_server_reads_first() {
    let client: Vec<BringUp> = (0..6).map(|done| Side::Client.next_step(done)).collect();
    assert_eq!(
        client,
        vec![
            BringUp::SendEndpoint,
            BringUp::ReceiveEndpoint,
            BringUp::ToReadyToReceive,
            BringUp::ToReadyToSend,
            BringUp::StartAgent,
            BringUp::Done,
        ]
    );
    let server: Vec<BringUp> = (0..6).map(|done| Side::Server.next_step(done)).collect();
    assert_eq!(
        server,
        vec![
            BringUp::ReceiveEndpoint,
            BringUp::SendEndpoint,
            BringUp::ToReadyToReceive,
            BringUp::ToReadyToSend,
            BringUp::StartAgent,
            BringUp::Done,
        ]
    );
    assert_eq!(Side::Client.next_step(usize::MAX), BringUp::Done);
}

#[test]
fn a_connection_shakes_hands_with_itself() {
    let mut rdma = rdma();
    let own = rdma.endpoint();
    assert_eq!(
        own,
        QueuePairEndpoint {
            qp_num: 7,
            lid: 3,
            gid: Gid::new([9; 16])
        }
    );
    let mut states = Vec::new();
    while let Some(attr) = rdma.next_attr(0xf, own) {
        states.push(attr.qp_state);
        assert_eq!(rdma.modified(&attr, 0), Ok(()));
    }
    assert_eq!(
        states,
        vec![
            QueuePairState::Init,
            QueuePairState::ReadyToReceive,
            QueuePairState::ReadyToSend
        ]
    );
    assert_eq!(rdma.next_attr(0xf, own), None);
}

#[test]
fn a_failed_step_ends_the_handshake() {
    let mut rdma = rdma();
    let own = rdma.endpoint();
    let init: QueuePairAttr = rdma.next_attr(0xf, own).unwrap();
    assert_eq!(rdma.modified(&init, 0), Ok(()));
    let rtr = rdma.next_attr(0xf, own).unwrap();
    assert_eq!(rdma.modified(&rtr, 110), Err(QueuePairError::Os(110)));
    assert_eq!(rdma.next_attr(0xf, own), None);
}

#[test]
fn a_write_is_registered_and_completed_once() {
    let mut rdma = rdma();
    let lm = local(4);
    let rm = remote(4);
    let mut posted = rdma.write(&lm, &rm).unwrap();
    assert_eq!(posted.request.opcode, Opcode::RdmaWrite);
    assert_eq!(posted.request.remote_addr, 0x8000);
    assert_eq!(posted.request.rkey, 33);
    assert_eq!(posted.request.sg_list.len(), 1);
    let wc = WorkCompletion::new(WorkRequestId(posted.request.wr_id), 0, 4);
    assert_eq!(rdma.complete(wc), Dispatch::Delivered);
    assert_eq!(posted.completion.try_recv().ok(), Some(wc));
    assert_eq!(QueuePair::transferred(&lm, &wc), Ok(()));
    assert_eq!(rdma.complete(wc), Dispatch::Unknown);
}

#[test]
fn sixteen_operations_have_sixteen_identifiers() {
    let mut rdma = rdma();
    let lm = local(16);
    let rm = remote(16);
    let mut posted = Vec::new();
    for i in 0..16 {
        match i % 4 {
            0 => {
                let p = rdma.send(&lm).unwrap();
                assert_eq!(p.request.opcode, Opcode::Send);
                posted.push((p.request.wr_id, p.completion));
            }
            1 => {
                let p = rdma.receive(&lm).unwrap();
                assert_eq!(p.request.sg_list[0].length, 16);
                posted.push((p.request.wr_id, p.completion));
            }
            2 => {
                let p = rdma.read(&lm, &rm).unwrap();
                assert_eq!(p.request.opcode, Opcode::RdmaRead);
                posted.push((p.request.wr_id, p.completion));
            }
            _ => {
                let p = rdma.write(&lm, &rm).unwrap();
                assert_eq!(p.request.opcode, Opcode::RdmaWrite);
                posted.push((p.request.wr_id, p.completion));
            }
        }
    }
    for i in 0..posted.len() {
        for j in 0..i {
            assert_ne!(posted[i].0, posted[j].0);
        }
    }
    for (id, completion) in posted.iter_mut().rev() {
        let wc = WorkCompletion::new(WorkRequestId(*id), 0, 16);
        assert_eq!(rdma.complete(wc), Dispatch::Delivered);
        assert_eq!(completion.try_recv().ok(), Some(wc));
    }
}

#[test]
fn a_region_with_reserved_ranges_is_refused_before_it_is_registered() {
    let mut rdma = rdma();
    let mut lm = local(16);
    let mut rm = remote(16);
    let _sub_l = lm.slice(0..8).unwrap();
    let _sub_r = rm.slice(0..8).unwrap();
    let whole_l = local(16);
    let whole_r = remote(16);
    let refused = RdmaError::Region(MemoryRegionError::NotLeaf);
    assert_eq!(rdma.send(&lm).err(), Some(refused));
    assert_eq!(rdma.receive(&lm).err(), Some(refused));
    assert_eq!(rdma.read(&lm, &whole_r).err(), Some(refused));
    assert_eq!(rdma.read(&whole_l, &rm).err(), Some(refused));
    assert_eq!(rdma.write(&lm, &whole_r).err(), Some(refused));
    assert_eq!(rdma.write(&whole_l, &rm).err(), Some(refused));
}

#[test]
fn the_agent_is_there_once_it_is_started() {
    let mut rdma = rdma();
    let layout = Layout::from_size_align(4, 4).unwrap();
    let token = MemoryRegionToken {
        addr: 0x1000,
        len: 4,
        rkey: 22,
    };
    assert_eq!(
        rdma.alloc_remote_mr(layout).err(),
        Some(RdmaError::NotConnected)
    );
    assert_eq!(rdma.release_mr(token).err(), Some(RdmaError::NotConnected));
    assert_eq!(
        rdma.send_mr(token, Some(1)).err(),
        Some(RdmaError::NotConnected)
    );
    assert!(rdma.take_agent().is_none());
    rdma.start_agent();
    let (request, _rx) = rdma.alloc_remote_mr(layout).unwrap();
    assert!(matches!(request.kind, RequestKind::AllocMR(_)));
    let (request, _rx) = rdma.release_mr(token).unwrap();
    assert!(matches!(request.kind, RequestKind::ReleaseMR(_)));
    let (request, _rx) = rdma.send_mr(token, Some(1)).unwrap();
    assert_eq!(
        request.kind,
        RequestKind::SendMR(SendMRRequest {
            kind: SendMRKind::Local(token)
        })
    );
    let (request, _rx) = rdma.send_mr(token, None).unwrap();
    assert_eq!(
        request.kind,
        RequestKind::SendMR(SendMRRequest {
            kind: SendMRKind::Remote(token)
        })
    );
    let agent = rdma.take_agent().unwrap();
    assert_eq!(agent.owned_len(), 1);
    assert_eq!(agent.waiting_len(), 4);
    assert!(rdma.take_agent().is_none());
}

#[test]
fn the_connection_drives_the_dispatcher() {
    let mut rdma = rdma();
    let lm = local(8);
    let mut posted = rdma.send(&lm).unwrap();
    let wc = WorkCompletion::new(WorkRequestId(posted.request.wr_id), 0, 8);
    assert_eq!(rdma.phase(), Phase::Arm);
    assert_eq!(
        rdma.step(Event::Polled(PollOutcome::Completion(wc))),
        Step::Ignored
    );
    assert!(posted.completion.try_recv().is_err());
    assert_eq!(rdma.step(Event::Armed), Step::Advanced);
    assert_eq!(rdma.phase(), Phase::Wait);
    assert_eq!(rdma.step(Event::Readable), Step::Advanced);
    assert_eq!(rdma.phase(), Phase::Drain);
    assert_eq!(
        rdma.step(Event::Polled(PollOutcome::Completion(wc))),
        Step::Dispatched(Dispatch::Delivered)
    );
    assert_eq!(posted.completion.try_recv().ok(), Some(wc));
    assert_eq!(
        rdma.step(Event::Polled(PollOutcome::Error)),
        Step::PollFailed
    );
    assert_eq!(rdma.phase(), Phase::Drain);
    assert_eq!(
        rdma.step(Event::Polled(PollOutcome::Empty)),
        Step::Advanced
    );
    assert_eq!(rdma.phase(), Phase::Arm);
}

#[test]
fn a_cancelled_work_request_awaits_no_completion() {
    let mut rdma = rdma();
    let lm = local(8);
    let posted = rdma.receive(&lm).unwrap();
    let id = WorkRequestId(posted.request.wr_id);
    assert!(rdma.cancel(id));
    assert!(!rdma.cancel(id));
    assert_eq!(
        rdma.complete(WorkCompletion::new(id, 0, 8)),
        Dispatch::Unknown
    );
}

#[test]
fn an_operation_is_posted_while_nothing_is_in_flight() {
    for _ in 0..50 {
        let mut rdma = rdma();
        let lm = local(8);
        let rm = remote(8);
        let posted = rdma.write(&lm, &rm).unwrap();
        assert!(rdma.cancel(WorkRequestId(posted.request.wr_id)));
        let posted = rdma.read(&lm, &rm).unwrap();
        assert!(rdma.cancel(WorkRequestId(posted.request.wr_id)));
        let posted = rdma.send(&lm).unwrap();
        assert!(rdma.cancel(WorkRequestId(posted.request.wr_id)));
        let posted = rdma.receive(&lm).unwrap();
        assert!(rdma.cancel(WorkRequestId(posted.request.wr_id)));
        rdma.start_agent();
        let layout = Layout::from_size_align(8, 8).unwrap();
        assert!(rdma.alloc_remote_mr(layout).is_ok());
    }
}
