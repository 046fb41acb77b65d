use mayastor::block_device::{
    CoreError, GenericStatusCode, IoCompletionCallback, IoCompletionStatus, IoType,
    NvmeCommandStatus, EINVAL, ENODEV, ENOMEM,
};
use mayastor::nvmx::channel::{
    create_channel, destroy_channel, disconnected_qpair_cb, nvme_poll, qpair_opts, ChannelAction,
    ChannelSetup, IoStats, NvmeBdevOpts, NvmeControllerIoChannel, NvmeIoChannelInner,
};
use mayastor::nvmx::handle::{
    abort_inflight, check_block_count, check_channel_for_io, check_io_args,
    complete_nvme_command, dsm_ranges, unmap_is_bounded,
    io_type_to_err, reset_callback, Completion, DsmRange, IoCtxPool, IoVec, NvmeAdminCommand,
    NvmeCommand, NvmeDeviceHandle, NvmeIoCtx, NvmeNamespace,
};
use mayastor::nvmx::utils::{
    nvme_command_status, nvme_cpl_is_pi_error, nvme_cpl_succeeded, NvmeCompletion,
};

const OPTS: NvmeBdevOpts = NvmeBdevOpts { io_queue_requests: 512, nvme_ioq_poll_period_us: 100 };

const CB: IoCompletionCallback = IoCompletionCallback { cb: 0x1000, cb_arg: 0x2000 };

fn live_channel() -> NvmeIoChannelInner {
    NvmeIoChannelInner {
        qpair: Some(11),
        poller: 33,
        poll_group: 22,
        num_pending_ios: 0,
        stats: IoStats::new(),
    }
}

fn handle() -> NvmeDeviceHandle {
    NvmeDeviceHandle::create(
        "nvmf://127.0.0.1:8420/nqn.2019-05.io.openebs:disk0n1",
        7,
        NvmeNamespace { num_blocks: 65536, block_len: 512, alignment: 9 },
        0,
    )
    .unwrap()
}

/// Drives a setup with the outcomes given, one for each driver call, and
/// gives the calls that were asked for and the result.
fn drive(mut setup: ChannelSetup, outcomes: &[Result<u64, i32>]) -> (Vec<ChannelAction>, i32, ChannelSetup) {
    let mut asked = Vec::new();
    let mut next = 0;
    loop {
        match setup.next() {
            ChannelAction::Done { rc } => return (asked, rc, setup),
            action => {
                asked.push(action);
                let outcome = if next < outcomes.len() { outcomes[next] } else { Ok(0) };
                next += 1;
                setup.advance(outcome);
            }
        }
    }
}

#[test]
fn channel_is_created_step_by_step() {
    let setup = create_channel(Some(128), &OPTS).unwrap();
    let (asked, rc, setup) = drive(setup, &[Ok(11), Ok(22), Ok(0), Ok(33), Ok(0)]);
    let opts = qpair_opts(128, &OPTS);
    assert_eq!(opts.io_queue_requests, 512);
    assert!(opts.create_only);
    assert_eq!(
        asked,
        vec![
            ChannelAction::AllocQpair { opts },
            ChannelAction::CreatePollGroup,
            ChannelAction::AddToPollGroup { poll_group: 22, qpair: 11 },
            ChannelAction::RegisterPoller { period_us: 100 },
            ChannelAction::ConnectQpair { qpair: 11 },
        ]
    );
    assert_eq!(rc, 0);
    let inner = setup.finish().unwrap();
    assert_eq!(inner.qpair, Some(11));
    assert_eq!(inner.poll_group, 22);
    assert_eq!(inner.poller, 33);
    assert_eq!(inner.num_pending_ios, 0);
    assert_eq!(inner.stats, IoStats::new());
}

#[test]
fn queue_options_keep_the_larger_size() {
    assert_eq!(qpair_opts(128, &OPTS).io_queue_requests, 512);
    assert_eq!(qpair_opts(1024, &OPTS).io_queue_requests, 1024);
    assert_eq!(qpair_opts(512, &OPTS).io_queue_requests, 512);
}

#[test]
fn failed_creation_is_unwound_in_reverse() {
    // connect fails: poller, poll group membership, poll group, queue pair
    let setup = create_channel(Some(128), &OPTS).unwrap();
    let (asked, rc, setup) = drive(setup, &[Ok(11), Ok(22), Ok(0), Ok(33), Err(-5)]);
    assert_eq!(rc, 1);
    assert_eq!(
        &asked[5..],
        &[
            ChannelAction::UnregisterPoller { poller: 33 },
            ChannelAction::RemoveFromPollGroup { poll_group: 22, qpair: 11 },
            ChannelAction::DestroyPollGroup { poll_group: 22 },
            ChannelAction::FreeQpair { qpair: 11 },
        ]
    );
    assert_eq!(setup.finish().err(), Some(1));

    // adding to the poll group fails
    let setup = create_channel(Some(128), &OPTS).unwrap();
    let (asked, rc, _) = drive(setup, &[Ok(11), Ok(22), Err(-22)]);
    assert_eq!(rc, 1);
    assert_eq!(
        &asked[3..],
        &[
            ChannelAction::DestroyPollGroup { poll_group: 22 },
            ChannelAction::FreeQpair { qpair: 11 },
        ]
    );

    // no poll group
    let setup = create_channel(Some(128), &OPTS).unwrap();
    let (asked, rc, _) = drive(setup, &[Ok(11), Err(-12)]);
    assert_eq!(rc, 1);
    assert_eq!(&asked[2..], &[ChannelAction::FreeQpair { qpair: 11 }]);

    // no queue pair: nothing to undo
    let setup = create_channel(Some(128), &OPTS).unwrap();
    let (asked, rc, _) = drive(setup, &[Err(-12)]);
    assert_eq!(rc, 1);
    assert_eq!(asked.len(), 1);

    // the controller is not known
    assert_eq!(create_channel(None, &OPTS).err(), Some(1));
}

#[test]
fn channel_is_destroyed_in_order() {
    assert_eq!(
        destroy_channel(&live_channel()),
        vec![
            ChannelAction::RemoveFromPollGroup { poll_group: 22, qpair: 11 },
            ChannelAction::UnregisterPoller { poller: 33 },
            ChannelAction::DestroyPollGroup { poll_group: 22 },
            ChannelAction::FreeQpair { qpair: 11 },
        ]
    );
    let mut cleared = live_channel();
    cleared.qpair = None;
    assert_eq!(
        destroy_channel(&cleared),
        vec![
            ChannelAction::UnregisterPoller { poller: 33 },
            ChannelAction::DestroyPollGroup { poll_group: 22 },
        ]
    );
}

#[test]
fn poller_hint_and_reconnect() {
    assert_eq!(nvme_poll(0), 0);
    assert_eq!(nvme_poll(3), 1);
    assert_eq!(nvme_poll(-1), 0);
    assert_eq!(disconnected_qpair_cb(11), ChannelAction::ReconnectQpair { qpair: 11 });
    assert_eq!(NvmeControllerIoChannel::from_null_checked(0), None);
    assert_eq!(NvmeControllerIoChannel::from_null_checked(5).unwrap().as_ptr(), 5);
}

#[test]
fn reinitialize_keeps_poll_group_and_poller() {
    let mut inner = live_channel();
    let released = inner.clear_qpair();
    assert_eq!(
        released,
        vec![
            ChannelAction::RemoveFromPollGroup { poll_group: 22, qpair: 11 },
            ChannelAction::FreeQpair { qpair: 11 },
        ]
    );
    assert_eq!(inner.qpair, None);

    let (asked, rc, setup) = drive(inner.reinitialize(128, &OPTS), &[Ok(12), Ok(0), Ok(0)]);
    assert_eq!(
        asked,
        vec![
            ChannelAction::AllocQpair { opts: qpair_opts(128, &OPTS) },
            ChannelAction::AddToPollGroup { poll_group: 22, qpair: 12 },
            ChannelAction::ConnectQpair { qpair: 12 },
        ]
    );
    assert_eq!(rc, 0);
    assert_eq!(inner.reinitialized(&setup), 0);
    assert_eq!(inner.qpair, Some(12));
    assert_eq!(inner.poll_group, 22);
    assert_eq!(inner.poller, 33);

    // failures give the errno of the call that failed, and the queue pair is released
    let mut inner = live_channel();
    inner.clear_qpair();
    let (asked, rc, setup) = drive(inner.reinitialize(128, &OPTS), &[Err(-1)]);
    assert_eq!(asked.len(), 1);
    assert_eq!(rc, -ENOMEM);
    assert_eq!(inner.reinitialized(&setup), -ENOMEM);
    assert_eq!(inner.qpair, None);

    let (asked, rc, _) = drive(inner.reinitialize(128, &OPTS), &[Ok(12), Err(-22)]);
    assert_eq!(rc, -22);
    assert_eq!(&asked[2..], &[ChannelAction::FreeQpair { qpair: 12 }]);

    let (asked, rc, setup) = drive(inner.reinitialize(128, &OPTS), &[Ok(12), Ok(0), Err(-111)]);
    assert_eq!(rc, -111);
    assert_eq!(
        &asked[3..],
        &[
            ChannelAction::RemoveFromPollGroup { poll_group: 22, qpair: 12 },
            ChannelAction::FreeQpair { qpair: 12 },
        ]
    );
    assert_eq!(inner.reinitialized(&setup), -111);
    assert_eq!(inner.qpair, None);
}

#[test]
fn completion_entries() {
    let ok = NvmeCompletion { sct: 0, sc: 0 };
    assert!(nvme_cpl_succeeded(&ok));
    assert!(!nvme_cpl_is_pi_error(&ok));
    assert!(!nvme_cpl_succeeded(&NvmeCompletion { sct: 0, sc: 1 }));
    assert!(!nvme_cpl_succeeded(&NvmeCompletion { sct: 1, sc: 0 }));
    assert!(nvme_cpl_is_pi_error(&NvmeCompletion { sct: 2, sc: 0 }));
    assert!(nvme_cpl_is_pi_error(&NvmeCompletion { sct: 0, sc: 0x82 }));
    assert!(nvme_cpl_is_pi_error(&NvmeCompletion { sct: 0, sc: 0x83 }));
    assert!(nvme_cpl_is_pi_error(&NvmeCompletion { sct: 0, sc: 0x84 }));
    assert!(!nvme_cpl_is_pi_error(&NvmeCompletion { sct: 0, sc: 0x85 }));
    assert_eq!(
        nvme_command_status(&NvmeCompletion { sct: 0, sc: 6 }),
        NvmeCommandStatus::GenericCommandStatus(GenericStatusCode::InternalDeviceError)
    );
    assert_eq!(
        nvme_command_status(&NvmeCompletion { sct: 0, sc: 8 }),
        NvmeCommandStatus::GenericCommandStatus(GenericStatusCode::AbortedSubmissionQueueDeleted)
    );
    assert_eq!(
        nvme_command_status(&NvmeCompletion { sct: 0, sc: 0x7f }),
        NvmeCommandStatus::GenericCommandStatus(GenericStatusCode::Other)
    );
    assert_eq!(
        nvme_command_status(&NvmeCompletion { sct: 1, sc: 0 }),
        NvmeCommandStatus::CommandSpecificStatus
    );
    assert_eq!(
        nvme_command_status(&NvmeCompletion { sct: 2, sc: 0x81 }),
        NvmeCommandStatus::MediaErrorStatus
    );
    assert_eq!(nvme_command_status(&NvmeCompletion { sct: 3, sc: 0 }), NvmeCommandStatus::PathStatus);
    assert_eq!(
        nvme_command_status(&NvmeCompletion { sct: 7, sc: 0 }),
        NvmeCommandStatus::VendorSpecific
    );
}

#[test]
fn errno_values() {
    assert_eq!(ENODEV, libc::ENODEV);
    assert_eq!(ENOMEM, libc::ENOMEM);
    assert_eq!(EINVAL, libc::EINVAL);
}

#[test]
fn dispatch_errors_by_kind() {
    assert_eq!(
        io_type_to_err(IoType::Read, EINVAL, 1, 2),
        CoreError::ReadDispatch { source: EINVAL, offset: 1, len: 2 }
    );
    assert_eq!(
        io_type_to_err(IoType::Write, ENOMEM, 3, 4),
        CoreError::WriteDispatch { source: ENOMEM, offset: 3, len: 4 }
    );
    assert_eq!(
        io_type_to_err(IoType::Unmap, ENODEV, 5, 6),
        CoreError::UnmapDispatch { source: ENODEV, offset: 5, len: 6 }
    );
    assert_eq!(
        io_type_to_err(IoType::Flush, ENODEV, 5, 6),
        CoreError::NotSupported { source: ENODEV }
    );
}

#[test]
fn io_arguments_are_checked() {
    let good = [IoVec { iov_base: 0x1000, iov_len: 512 }];
    assert_eq!(check_io_args(IoType::Read, &good, 0, 1), Ok(()));
    assert_eq!(
        check_io_args(IoType::Read, &[], 8, 1),
        Err(CoreError::ReadDispatch { source: EINVAL, offset: 8, len: 1 })
    );
    assert_eq!(
        check_io_args(IoType::Write, &[IoVec { iov_base: 0, iov_len: 512 }], 8, 1),
        Err(CoreError::WriteDispatch { source: EINVAL, offset: 8, len: 1 })
    );
    let mut cleared = live_channel();
    assert_eq!(check_channel_for_io(IoType::Read, &cleared, 0, 1), Ok(()));
    cleared.qpair = None;
    assert_eq!(
        check_channel_for_io(IoType::Unmap, &cleared, 7, 9),
        Err(CoreError::UnmapDispatch { source: ENODEV, offset: 7, len: 9 })
    );
}

#[test]
fn unmap_ranges_cover_the_blocks() {
    const MAX: u64 = 0xffff_ffff;
    assert_eq!(dsm_ranges(0, 0), Ok(vec![]));
    assert_eq!(
        dsm_ranges(100, 1),
        Ok(vec![DsmRange { attributes: 0, length: 1, starting_lba: 100 }])
    );
    assert_eq!(
        dsm_ranges(5, MAX),
        Ok(vec![DsmRange { attributes: 0, length: MAX as u32, starting_lba: 5 }])
    );
    assert_eq!(
        dsm_ranges(5, MAX + 1),
        Ok(vec![
            DsmRange { attributes: 0, length: MAX as u32, starting_lba: 5 },
            DsmRange { attributes: 0, length: 1, starting_lba: 5 + MAX },
        ])
    );
    let ranges = dsm_ranges(0, 3 * MAX).unwrap();
    assert_eq!(ranges.len(), 3);
    assert!(ranges.iter().all(|r| r.length == MAX as u32));
    assert_eq!(ranges[2].starting_lba, 2 * MAX);

    // 256 ranges at most
    let ranges = dsm_ranges(0, 256 * MAX).unwrap();
    assert_eq!(ranges.len(), 256);
    assert_eq!(ranges.iter().map(|r| r.length as u64).sum::<u64>(), 256 * MAX);
    assert_eq!(
        dsm_ranges(0, 256 * MAX + 1),
        Err(CoreError::UnmapDispatch { source: EINVAL, offset: 0, len: 256 * MAX + 1 })
    );
    for &n in &[1u64, 2, MAX - 1, MAX, MAX + 1, 2 * MAX, 2 * MAX + 7, 100 * MAX + 3] {
        let ranges = dsm_ranges(9, n).unwrap();
        assert_eq!(ranges.len() as u64, (n + MAX - 1) / MAX);
        for r in &ranges[..ranges.len() - 1] {
            assert_eq!(r.length, MAX as u32);
        }
        assert_eq!(ranges.iter().map(|r| r.length as u64).sum::<u64>(), n);
    }
}

#[test]
fn handle_caches_the_geometry() {
    let h = handle();
    assert_eq!(h.num_blocks, 65536);
    assert_eq!(h.block_len, 512);
    assert_eq!(h.io_channel.as_ptr(), 7);
    assert_eq!(h.bytes_to_blocks(1024, 4096), (true, 2, 8));
    assert_eq!(h.bytes_to_blocks(1000, 4096), (false, 1, 8));
    assert_eq!(h.bytes_to_blocks(1024, 100), (false, 2, 0));
    assert_eq!(h.bytes_to_blocks(0, 0), (true, 0, 0));
    assert_eq!(
        NvmeDeviceHandle::create("disk0", 0, h.ns, 0),
        Err(CoreError::GetIoChannel { name: String::from("disk0") })
    );
}

#[test]
fn readv_and_writev_dispatch() {
    let h = handle();
    let inner = live_channel();
    let mut pool = IoCtxPool::create(4);

    let one = vec![IoVec { iov_base: 0x10000, iov_len: 1024 }];
    assert_eq!(
        h.readv_blocks(&inner, &mut pool, one.clone(), 16, 2, CB),
        Ok(NvmeCommand::Read { ctx: 0, buffer: 0x10000, lba: 16, lba_count: 2, io_flags: 0 })
    );
    let two = vec![
        IoVec { iov_base: 0x10000, iov_len: 512 },
        IoVec { iov_base: 0x20000, iov_len: 512 },
    ];
    assert_eq!(
        h.readv_blocks(&inner, &mut pool, two.clone(), 16, 2, CB),
        Ok(NvmeCommand::Readv { ctx: 1, lba: 16, lba_count: 2, io_flags: 0 })
    );
    assert_eq!(
        h.writev_blocks(&inner, &mut pool, one.clone(), 3, 2, CB),
        Ok(NvmeCommand::Write { ctx: 2, buffer: 0x10000, lba: 3, lba_count: 2, io_flags: 0 })
    );
    assert_eq!(
        h.writev_blocks(&inner, &mut pool, two.clone(), 3, 2, CB),
        Ok(NvmeCommand::Writev { ctx: 3, lba: 3, lba_count: 2, io_flags: 0 })
    );
    let ctx = pool.slots[1].as_ref().unwrap();
    assert_eq!(ctx.iov, two);
    assert_eq!(ctx.op, IoType::Read);
    assert_eq!(ctx.num_blocks, 2);
    assert_eq!(ctx.channel, 7);
    assert_eq!(ctx.cb, CB);
    assert_eq!((ctx.iovpos, ctx.iov_offset), (0, 0));

    // the pool is exhausted
    assert_eq!(
        h.readv_blocks(&inner, &mut pool, one.clone(), 16, 2, CB),
        Err(CoreError::ReadDispatch { source: ENOMEM, offset: 16, len: 2 })
    );
    assert_eq!(
        h.unmap_blocks(&inner, &mut pool, 16, 2, CB),
        Err(CoreError::UnmapDispatch { source: ENOMEM, offset: 16, len: 2 })
    );
    // bad arguments come first
    assert_eq!(
        h.writev_blocks(&inner, &mut pool, vec![], 16, 2, CB),
        Err(CoreError::WriteDispatch { source: EINVAL, offset: 16, len: 2 })
    );
}

#[test]
fn cleared_queue_pair_refuses_io_and_leaks_no_context() {
    let h = handle();
    let mut inner = live_channel();
    inner.clear_qpair();
    let mut pool = IoCtxPool::create(4);
    let one = vec![IoVec { iov_base: 0x10000, iov_len: 1024 }];

    assert_eq!(
        h.readv_blocks(&inner, &mut pool, one.clone(), 16, 2, CB),
        Err(CoreError::ReadDispatch { source: ENODEV, offset: 16, len: 2 })
    );
    assert_eq!(
        h.writev_blocks(&inner, &mut pool, one.clone(), 16, 2, CB),
        Err(CoreError::WriteDispatch { source: ENODEV, offset: 16, len: 2 })
    );
    assert_eq!(
        h.unmap_blocks(&inner, &mut pool, 16, 2, CB),
        Err(CoreError::UnmapDispatch { source: ENODEV, offset: 16, len: 2 })
    );
    assert_eq!(
        h.write_zeroes(&inner, &mut pool, 16, 2, CB),
        Err(CoreError::UnmapDispatch { source: ENODEV, offset: 16, len: 2 })
    );
    assert_eq!(
        h.read_at(&inner, 1024, 512),
        Err(CoreError::ReadDispatch { source: ENODEV, offset: 2, len: 1 })
    );
    assert_eq!(
        h.write_at(&inner, 1024, 512),
        Err(CoreError::WriteDispatch { source: ENODEV, offset: 2, len: 1 })
    );
    let cmd = NvmeDeviceHandle::nvme_admin_custom(0xcf);
    assert_eq!(
        h.nvme_admin(&mut inner, &cmd),
        Err(CoreError::NvmeAdminDispatch { source: ENODEV, opcode: 0xcf })
    );
    assert!(pool.slots.iter().all(|slot| slot.is_none()));
    assert_eq!(inner.num_pending_ios, 0);
}

#[test]
fn submission_and_completion_are_accounted() {
    let h = handle();
    let mut inner = live_channel();
    let mut pool = IoCtxPool::create(8);
    let one = vec![IoVec { iov_base: 0x10000, iov_len: 1024 }];

    h.readv_blocks(&inner, &mut pool, one.clone(), 16, 2, CB).unwrap();
    assert_eq!(NvmeDeviceHandle::submitted(&mut inner, &mut pool, IoType::Read, 0, 0, 16, 2), Ok(()));
    assert_eq!(inner.num_pending_ios, 1);

    // a failed submission gives the context back
    h.writev_blocks(&inner, &mut pool, one.clone(), 32, 2, CB).unwrap();
    assert_eq!(
        NvmeDeviceHandle::submitted(&mut inner, &mut pool, IoType::Write, 1, -libc::EIO, 32, 2),
        Err(CoreError::WriteDispatch { source: libc::EIO, offset: 32, len: 2 })
    );
    assert!(pool.slots[1].is_none());
    assert_eq!(inner.num_pending_ios, 1);
    h.writev_blocks(&inner, &mut pool, one.clone(), 32, 2, CB).unwrap();
    assert_eq!(
        NvmeDeviceHandle::submitted(&mut inner, &mut pool, IoType::Write, 1, -ENOMEM, 32, 2),
        Err(CoreError::WriteDispatch { source: ENOMEM, offset: 32, len: 2 })
    );
    assert!(pool.slots[1].is_none());

    // success is counted
    let done = complete_nvme_command(&mut inner, &mut pool, 0, &NvmeCompletion { sct: 0, sc: 0 });
    assert_eq!(done, Some(Completion { cb: CB, status: IoCompletionStatus::Success }));
    assert_eq!(inner.num_pending_ios, 0);
    assert_eq!(inner.stats.num_read_ops, 1);
    assert_eq!(inner.stats.blocks_read, 2);
    assert!(pool.slots[0].is_none());
    // the context is gone: nothing more to complete
    assert_eq!(
        complete_nvme_command(&mut inner, &mut pool, 0, &NvmeCompletion { sct: 0, sc: 0 }),
        None
    );
    assert_eq!(
        complete_nvme_command(&mut inner, &mut pool, 100, &NvmeCompletion { sct: 0, sc: 0 }),
        None
    );

    // failure is not
    h.unmap_blocks(&inner, &mut pool, 0, 8, CB).unwrap();
    NvmeDeviceHandle::submitted(&mut inner, &mut pool, IoType::Unmap, 0, 0, 0, 8).unwrap();
    let done = complete_nvme_command(&mut inner, &mut pool, 0, &NvmeCompletion { sct: 2, sc: 0x81 });
    assert_eq!(
        done,
        Some(Completion {
            cb: CB,
            status: IoCompletionStatus::NvmeError(NvmeCommandStatus::MediaErrorStatus)
        })
    );
    assert_eq!(inner.stats.num_unmap_ops, 0);
    assert_eq!(inner.num_pending_ios, 0);

    let mut stats = IoStats::new();
    stats.account_block_io(IoType::Write, 1, 8);
    stats.account_block_io(IoType::Unmap, 2, u64::MAX);
    stats.account_block_io(IoType::Unmap, 2, 5);
    stats.account_block_io(IoType::Flush, 1, 1);
    assert_eq!(
        stats,
        IoStats {
            num_read_ops: 0,
            num_write_ops: 1,
            num_unmap_ops: 4,
            blocks_read: 0,
            blocks_written: 8,
            blocks_unmapped: u64::MAX,
        }
    );
}

#[test]
fn reset_aborts_the_io_in_flight() {
    let h = handle();
    let mut inner = live_channel();
    let mut pool = IoCtxPool::create(16);
    let one = vec![IoVec { iov_base: 0x10000, iov_len: 1024 }];
    for i in 0..4 {
        h.readv_blocks(&inner, &mut pool, one.clone(), 16 * i, 2, CB).unwrap();
        NvmeDeviceHandle::submitted(&mut inner, &mut pool, IoType::Read, i as u32, 0, 16 * i, 2)
            .unwrap();
    }
    for i in 0..4 {
        h.writev_blocks(&inner, &mut pool, one.clone(), 16 * i, 2, CB).unwrap();
        NvmeDeviceHandle::submitted(&mut inner, &mut pool, IoType::Write, 4 + i as u32, 0, 16 * i, 2)
            .unwrap();
    }
    // I/O of another channel
    let ctx = NvmeIoCtx {
        cb: CB,
        iov: vec![],
        iovpos: 0,
        iov_offset: 0,
        op: IoType::Read,
        num_blocks: 1,
        channel: 8,
    };
    assert_eq!(pool.get(ctx), Some(8));
    assert_eq!(inner.num_pending_ios, 8);

    assert_eq!(h.reset(true), Ok(()));
    assert_eq!(
        h.reset(false),
        Err(CoreError::BdevNotFound { name: h.name.clone() })
    );
    inner.clear_qpair();
    let aborted = abort_inflight(&mut inner, &mut pool, 7);
    assert_eq!(aborted.len(), 8);
    for completion in &aborted {
        assert_eq!(
            completion.status,
            IoCompletionStatus::NvmeError(NvmeCommandStatus::GenericCommandStatus(
                GenericStatusCode::AbortedSubmissionQueueDeleted
            ))
        );
        assert_eq!(completion.cb, CB);
    }
    assert_eq!(inner.num_pending_ios, 0);
    assert_eq!(inner.stats, IoStats::new());
    assert!(pool.slots[..8].iter().all(|slot| slot.is_none()));
    assert!(pool.slots[8].is_some());
    assert_eq!(abort_inflight(&mut inner, &mut pool, 7).len(), 0);

    // the reset callback
    assert_eq!(reset_callback(true), IoCompletionStatus::Success);
    assert_eq!(
        reset_callback(false),
        IoCompletionStatus::NvmeError(NvmeCommandStatus::GenericCommandStatus(
            GenericStatusCode::InternalDeviceError
        ))
    );

    // the channel gets a new queue pair and serves I/O again
    let mut setup = inner.reinitialize(128, &OPTS);
    setup.advance(Ok(12));
    setup.advance(Ok(0));
    setup.advance(Ok(0));
    assert_eq!(inner.reinitialized(&setup), 0);
    let (cmd, size) = NvmeDeviceHandle::nvme_identify_ctrlr();
    assert_eq!(cmd, NvmeAdminCommand { opc: 6, nsid: 0xffff_ffff, cdw10: 1 });
    assert_eq!(size, 4096);
    assert_eq!(h.nvme_admin(&mut inner, &cmd), Ok(cmd));
    assert_eq!(inner.num_pending_ios, 1);
    assert_eq!(NvmeDeviceHandle::nvme_admin_completed(&mut inner, &cmd, true), Ok(()));
    assert_eq!(inner.num_pending_ios, 0);
    assert_eq!(
        NvmeDeviceHandle::nvme_admin_completed(&mut inner, &cmd, false),
        Err(CoreError::NvmeAdminFailed { opcode: 6 })
    );
    assert!(h.readv_blocks(&inner, &mut pool, one, 0, 2, CB).is_ok());
}

#[test]
fn read_at_and_write_at() {
    let h = handle();
    let mut inner = live_channel();
    assert_eq!(h.read_at(&inner, 32768, 1024), Ok((64, 2)));
    assert_eq!(h.write_at(&inner, 32768, 1024), Ok((64, 2)));
    assert_eq!(h.read_at(&inner, 100, 1024), Err(CoreError::InvalidOffset { offset: 100 }));
    assert_eq!(h.write_at(&inner, 512, 1000), Err(CoreError::InvalidOffset { offset: 512 }));

    assert_eq!(NvmeDeviceHandle::at_submitted(IoType::Read, &mut inner, 0, 32768, 1024), Ok(()));
    assert_eq!(inner.num_pending_ios, 1);
    assert_eq!(
        NvmeDeviceHandle::at_completed(IoType::Read, &mut inner, true, 2, 32768, 1024),
        Ok(1024)
    );
    assert_eq!(inner.num_pending_ios, 0);
    assert_eq!(inner.stats.num_read_ops, 1);
    assert_eq!(inner.stats.blocks_read, 2);

    // a full queue is no failure
    assert_eq!(
        NvmeDeviceHandle::at_submitted(IoType::Write, &mut inner, -ENOMEM, 32768, 1024),
        Ok(())
    );
    assert_eq!(
        NvmeDeviceHandle::at_completed(IoType::Write, &mut inner, false, 2, 32768, 1024),
        Err(CoreError::WriteFailed { offset: 32768, len: 1024 })
    );
    assert_eq!(inner.stats.num_write_ops, 0);
    assert_eq!(
        NvmeDeviceHandle::at_submitted(IoType::Write, &mut inner, -libc::EIO, 32768, 1024),
        Err(CoreError::WriteFailed { offset: 32768, len: 1024 })
    );
    assert_eq!(
        NvmeDeviceHandle::at_submitted(IoType::Read, &mut inner, -libc::EIO, 32768, 1024),
        Err(CoreError::ReadFailed { offset: 32768, len: 1024 })
    );
    assert_eq!(
        NvmeDeviceHandle::at_completed(IoType::Read, &mut inner, false, 2, 32768, 1024),
        Err(CoreError::ReadFailed { offset: 32768, len: 1024 })
    );
    assert_eq!(inner.num_pending_ios, 0);
}

#[test]
fn scatter_gather_walk() {
    let iov = vec![
        IoVec { iov_base: 0x1000, iov_len: 1024 },
        IoVec { iov_base: 0x8000, iov_len: 512 },
        IoVec { iov_base: 0x9000, iov_len: 128 },
    ];
    let mut ctx = NvmeIoCtx {
        cb: CB,
        iov: iov.clone(),
        iovpos: 0,
        iov_offset: 0,
        op: IoType::Read,
        num_blocks: 13,
        channel: 7,
    };
    assert_eq!(ctx.nvme_queued_next_sge(), (0x1000, 1024));
    assert_eq!(ctx.nvme_queued_next_sge(), (0x8000, 512));
    assert_eq!(ctx.nvme_queued_next_sge(), (0x9000, 128));
    assert_eq!(ctx.iovpos, 3);

    ctx.nvme_queued_reset_sgl(0);
    assert_eq!((ctx.iovpos, ctx.iov_offset), (0, 0));
    ctx.nvme_queued_reset_sgl(1023);
    assert_eq!((ctx.iovpos, ctx.iov_offset), (0, 1023));
    assert_eq!(ctx.nvme_queued_next_sge(), (0x1000 + 1023, 1));
    assert_eq!((ctx.iovpos, ctx.iov_offset), (1, 0));
    ctx.nvme_queued_reset_sgl(1024);
    assert_eq!((ctx.iovpos, ctx.iov_offset), (1, 0));
    ctx.nvme_queued_reset_sgl(1024 + 512 + 100);
    assert_eq!((ctx.iovpos, ctx.iov_offset), (2, 100));
    assert_eq!(ctx.nvme_queued_next_sge(), (0x9000 + 100, 28));
    // rewinding twice gives the same cursor
    ctx.nvme_queued_reset_sgl(1100);
    let first = (ctx.iovpos, ctx.iov_offset);
    ctx.nvme_queued_reset_sgl(1100);
    assert_eq!((ctx.iovpos, ctx.iov_offset), first);
    assert_eq!(first, (1, 76));
    // an offset behind the list
    ctx.nvme_queued_reset_sgl(1024 + 512 + 128 + 5);
    assert_eq!((ctx.iovpos, ctx.iov_offset), (3, 5));
    assert_eq!(ctx.iov, iov);
}

#[test]
fn pool_hands_out_the_first_free_slot() {
    let mut pool = IoCtxPool::create(2);
    let ctx = |n: u64| NvmeIoCtx {
        cb: CB,
        iov: vec![],
        iovpos: 0,
        iov_offset: 0,
        op: IoType::Unmap,
        num_blocks: n,
        channel: 1,
    };
    assert_eq!(pool.get(ctx(1)), Some(0));
    assert_eq!(pool.get(ctx(2)), Some(1));
    assert_eq!(pool.get(ctx(3)), None);
    assert_eq!(pool.put(0).map(|c| c.num_blocks), Some(1));
    assert_eq!(pool.put(0), None);
    assert_eq!(pool.put(5), None);
    assert_eq!(pool.get(ctx(4)), Some(0));
    assert_eq!(pool.slots.len(), 2);
}

/// A device in memory that carries out the commands of the handle.
struct MemoryDevice {
    block_len: usize,
    data: Vec<u8>,
}

impl MemoryDevice {
    fn write(&mut self, lba: u64, bytes: &[u8]) {
        let at = lba as usize * self.block_len;
        self.data[at..at + bytes.len()].copy_from_slice(bytes);
    }

    fn read(&self, lba: u64, blocks: u64) -> &[u8] {
        let at = lba as usize * self.block_len;
        &self.data[at..at + blocks as usize * self.block_len]
    }

    fn run(&mut self, command: &NvmeCommand) {
        match command {
            NvmeCommand::Deallocate { ranges, .. } => {
                for range in ranges {
                    let at = range.starting_lba as usize * self.block_len;
                    let len = range.length as usize * self.block_len;
                    for byte in &mut self.data[at..at + len] {
                        *byte = 0;
                    }
                }
            }
            other => panic!("{:?}", other),
        }
    }
}

fn unmap_between_guards(zeroes: bool) {
    const GUARD: u64 = 2;
    const BLOCKS: u64 = 12;
    let h = handle();
    let mut inner = live_channel();
    let mut pool = IoCtxPool::create(4);
    let mut device = MemoryDevice { block_len: 512, data: vec![0; 65536 * 512] };

    // a guard, data, a guard
    device.write(10, &vec![0xff; GUARD as usize * 512]);
    device.write(10 + GUARD, &vec![0x77; BLOCKS as usize * 512]);
    device.write(10 + GUARD + BLOCKS, &vec![0xff; GUARD as usize * 512]);

    let command = if zeroes {
        h.write_zeroes(&inner, &mut pool, 10 + GUARD, BLOCKS, CB).unwrap()
    } else {
        h.unmap_blocks(&inner, &mut pool, 10 + GUARD, BLOCKS, CB).unwrap()
    };
    NvmeDeviceHandle::submitted(&mut inner, &mut pool, IoType::Unmap, 0, 0, 10 + GUARD, BLOCKS)
        .unwrap();
    device.run(&command);
    let done = complete_nvme_command(&mut inner, &mut pool, 0, &NvmeCompletion { sct: 0, sc: 0 });
    assert_eq!(done, Some(Completion { cb: CB, status: IoCompletionStatus::Success }));
    assert_eq!(inner.stats.num_unmap_ops, 1);
    assert_eq!(inner.stats.blocks_unmapped, BLOCKS);

    assert!(device.read(10, GUARD).iter().all(|&b| b == 0xff));
    assert!(device.read(10 + GUARD, BLOCKS).iter().all(|&b| b == 0x00));
    assert!(device.read(10 + GUARD + BLOCKS, GUARD).iter().all(|&b| b == 0xff));
}

#[test]
fn unmap_leaves_the_guards() {
    unmap_between_guards(false);
}

#[test]
fn write_zeroes_leaves_the_guards() {
    unmap_between_guards(true);
}

#[test]
fn block_count_beyond_32_bits_is_refused() {
    let h = handle();
    let inner = live_channel();
    let mut pool = IoCtxPool::create(2);
    let one = vec![IoVec { iov_base: 0x10000, iov_len: 1024 }];

    // the buffers are sane whatever the count
    assert_eq!(check_io_args(IoType::Read, &one, 0, 0xffff_ffff), Ok(()));
    assert_eq!(check_io_args(IoType::Read, &one, 0, 0x1_0000_0000), Ok(()));
    assert_eq!(check_block_count(IoType::Read, 0, 0xffff_ffff), Ok(()));
    assert_eq!(
        check_block_count(IoType::Read, 0, 0x1_0000_0000),
        Err(CoreError::ReadDispatch { source: EINVAL, offset: 0, len: 0x1_0000_0000 })
    );
    assert_eq!(
        check_block_count(IoType::Write, 7, u64::MAX),
        Err(CoreError::WriteDispatch { source: EINVAL, offset: 7, len: u64::MAX })
    );
    assert_eq!(
        h.readv_blocks(&inner, &mut pool, one.clone(), 8, 0x1_0000_0002, CB),
        Err(CoreError::ReadDispatch { source: EINVAL, offset: 8, len: 0x1_0000_0002 })
    );
    assert_eq!(
        h.writev_blocks(&inner, &mut pool, one.clone(), 8, u64::MAX, CB),
        Err(CoreError::WriteDispatch { source: EINVAL, offset: 8, len: u64::MAX })
    );
    assert!(pool.slots.iter().all(|slot| slot.is_none()));
    // the largest count that fits is passed on whole
    assert_eq!(
        h.readv_blocks(&inner, &mut pool, one, 8, 0xffff_ffff, CB),
        Ok(NvmeCommand::Read {
            ctx: 0,
            buffer: 0x10000,
            lba: 8,
            lba_count: 0xffff_ffff,
            io_flags: 0
        })
    );
}

#[test]
fn dispatch_takes_the_first_free_context() {
    let h = handle();
    let inner = live_channel();
    let mut pool = IoCtxPool::create(4);
    let one = vec![IoVec { iov_base: 0x10000, iov_len: 1024 }];
    for _ in 0..3 {
        h.readv_blocks(&inner, &mut pool, one.clone(), 0, 2, CB).unwrap();
    }
    pool.put(1);
    match h.unmap_blocks(&inner, &mut pool, 0, 2, CB) {
        Ok(NvmeCommand::Deallocate { ctx, .. }) => assert_eq!(ctx, 1),
        other => panic!("{:?}", other),
    }
    pool.put(0);
    pool.put(2);
    assert_eq!(
        h.writev_blocks(&inner, &mut pool, one, 3, 2, CB),
        Ok(NvmeCommand::Write { ctx: 0, buffer: 0x10000, lba: 3, lba_count: 2, io_flags: 0 })
    );
}

#[test]
fn unmap_of_too_many_ranges_is_refused_before_a_context_is_taken() {
    let h = handle();
    let inner = live_channel();
    let mut pool = IoCtxPool::create(1);
    let most: u64 = 256 * 0xffff_ffff;
    assert!(h.unmap_blocks(&inner, &mut pool, 0, most, CB).is_ok());
    pool.put(0);
    assert_eq!(
        h.unmap_blocks(&inner, &mut pool, 0, most + 1, CB),
        Err(CoreError::UnmapDispatch { source: EINVAL, offset: 0, len: most + 1 })
    );
    assert_eq!(
        h.write_zeroes(&inner, &mut pool, 0, most + 1, CB),
        Err(CoreError::UnmapDispatch { source: EINVAL, offset: 0, len: most + 1 })
    );
    assert!(pool.slots.iter().all(|slot| slot.is_none()));
}

#[test]
fn cleared_queue_pair_comes_before_the_block_count() {
    let h = handle();
    let mut inner = live_channel();
    inner.clear_qpair();
    let mut pool = IoCtxPool::create(2);
    let one = vec![IoVec { iov_base: 0x10000, iov_len: 1024 }];

    assert_eq!(
        h.readv_blocks(&inner, &mut pool, one.clone(), 8, 0x1_0000_0000, CB),
        Err(CoreError::ReadDispatch { source: ENODEV, offset: 8, len: 0x1_0000_0000 })
    );
    assert_eq!(
        h.writev_blocks(&inner, &mut pool, one.clone(), 8, u64::MAX, CB),
        Err(CoreError::WriteDispatch { source: ENODEV, offset: 8, len: u64::MAX })
    );
    // bad buffers come before the channel
    assert_eq!(
        h.readv_blocks(&inner, &mut pool, vec![], 8, u64::MAX, CB),
        Err(CoreError::ReadDispatch { source: EINVAL, offset: 8, len: u64::MAX })
    );
    assert_eq!(
        h.writev_blocks(&inner, &mut pool, vec![IoVec { iov_base: 0, iov_len: 512 }], 8, 1, CB),
        Err(CoreError::WriteDispatch { source: EINVAL, offset: 8, len: 1 })
    );
    assert!(pool.slots.iter().all(|slot| slot.is_none()));
    assert_eq!(inner.num_pending_ios, 0);

    // the block count comes before the pool
    let live = live_channel();
    let mut full = IoCtxPool::create(1);
    h.readv_blocks(&live, &mut full, one.clone(), 0, 1, CB).unwrap();
    assert_eq!(
        h.readv_blocks(&live, &mut full, one.clone(), 8, 0x1_0000_0000, CB),
        Err(CoreError::ReadDispatch { source: EINVAL, offset: 8, len: 0x1_0000_0000 })
    );
    assert_eq!(
        h.readv_blocks(&live, &mut full, one, 8, 0xffff_ffff, CB),
        Err(CoreError::ReadDispatch { source: ENOMEM, offset: 8, len: 0xffff_ffff })
    );
}

#[test]
fn unmap_of_too_many_ranges_is_refused_wherever_it_starts() {
    let h = handle();
    let inner = live_channel();
    let mut pool = IoCtxPool::create(1);
    let most: u64 = 256 * 0xffff_ffff;
    assert!(unmap_is_bounded(u64::MAX, most + 1));
    assert!(unmap_is_bounded(u64::MAX, u64::MAX));
    assert!(unmap_is_bounded(u64::MAX - most, most));
    assert!(!unmap_is_bounded(u64::MAX - most + 1, most));
    assert!(!unmap_is_bounded(u64::MAX, 1));
    assert!(unmap_is_bounded(u64::MAX, 0));
    assert_eq!(
        h.unmap_blocks(&inner, &mut pool, u64::MAX, most + 1, CB),
        Err(CoreError::UnmapDispatch { source: EINVAL, offset: u64::MAX, len: most + 1 })
    );
    assert_eq!(
        h.write_zeroes(&inner, &mut pool, u64::MAX, u64::MAX, CB),
        Err(CoreError::UnmapDispatch { source: EINVAL, offset: u64::MAX, len: u64::MAX })
    );
    assert_eq!(
        dsm_ranges(1 << 63, u64::MAX),
        Err(CoreError::UnmapDispatch { source: EINVAL, offset: 1 << 63, len: u64::MAX })
    );
    assert!(pool.slots.iter().all(|slot| slot.is_none()));
    // the last blocks that 64 bits count
    match h.unmap_blocks(&inner, &mut pool, u64::MAX - most, most, CB) {
        Ok(NvmeCommand::Deallocate { ranges, .. }) => {
            assert_eq!(ranges.len(), 256);
            assert_eq!(ranges[255].starting_lba, u64::MAX - 0xffff_ffff);
            assert_eq!(ranges[255].length, 0xffff_ffff);
        }
        other => panic!("{:?}", other),
    }
}
