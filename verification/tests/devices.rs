use rasterkv::allocation::Memory;
use rasterkv::device::buffer::aligned_start;
use rasterkv::device::local_files::{
    EntryType, FileCall, FileReply, FileTask, FoundEntry, HandleKind, HandleTable, LockRefusal,
    Progress,
};
use rasterkv::device::memory::{MemoryDevice, MemoryDeviceFactory, MemoryFault};
use rasterkv::device::metadata::DirectorySnapshot;
use rasterkv::device::null::NullDeviceFactory;
use rasterkv::device::path::DevicePath;
use rasterkv::device::thread_pool::{Job, Step, ThreadPoolDeviceFactory, WorkQueue};
use rasterkv::device::uring::UringDeviceFactory;
use rasterkv::device::windows::WindowsDeviceFactory;
use rasterkv::device::{
    AlignedBuffer, CompletionRoute, Device, DeviceFactory, DeviceOpenOptions, DirectoryEntry,
    DirectoryEntryKind, FileId, FileLockMode, IoCompletion, IoOperation, IoOutcome, IoRequest,
};
use rasterkv::types::{Deadline, Error, Generation, IoErrorKind, IoId, PollBudget};
use std::time::{Duration, Instant};

fn path(name: &str) -> Vec<u8> {
    name.as_bytes().to_vec()
}

fn buffer(bytes: &[u8]) -> AlignedBuffer {
    let mut buffer = AlignedBuffer::new_zeroed(bytes.len(), 1).unwrap();
    buffer.as_mut_slice().copy_from_slice(bytes);
    buffer
}

fn request(operation: IoOperation) -> IoRequest {
    IoRequest {
        route: CompletionRoute(7),
        operation,
    }
}

fn options() -> DeviceOpenOptions {
    DeviceOpenOptions {
        root: path("root"),
        create_new: true,
    }
}

fn run(device: &mut MemoryDevice, operation: IoOperation) -> IoCompletion {
    let id = device.submit(request(operation)).unwrap();
    let mut output = Vec::new();
    device.poll(PollBudget::default(), &mut output).unwrap();
    let done = output.pop().unwrap();
    assert_eq!(done.id, id);
    assert_eq!(done.route, CompletionRoute(7));
    assert!(output.is_empty());
    done
}

fn open(device: &mut MemoryDevice, name: &str, create_new: bool) -> FileId {
    match run(
        device,
        IoOperation::Open {
            path: path(name),
            create_new,
        },
    )
    .result
    {
        Ok(IoOutcome::Opened(file)) => file,
        other => panic!("not opened: {other:?}"),
    }
}

fn write(device: &mut MemoryDevice, file: FileId, offset: u64, bytes: &[u8]) -> IoCompletion {
    run(
        device,
        IoOperation::Write {
            file,
            offset,
            buffer: buffer(bytes),
        },
    )
}

fn read(device: &mut MemoryDevice, file: FileId, offset: u64, len: usize) -> (usize, Vec<u8>) {
    let done = run(
        device,
        IoOperation::Read {
            file,
            offset,
            buffer: AlignedBuffer::new_zeroed(len, 1).unwrap(),
        },
    );
    let count = match done.result {
        Ok(IoOutcome::Transferred(count)) => count,
        other => panic!("not read: {other:?}"),
    };
    (count, done.buffer.unwrap().as_slice().to_vec())
}

fn is_io(done: &IoCompletion, kind: IoErrorKind) -> bool {
    matches!(&done.result, Err(Error::Io(found)) if *found == kind)
}

#[test]
fn a_buffer_starts_where_the_address_is_aligned_and_prints_no_bytes() {
    for (address, offset) in [(4096, 0), (4097, 7), (4103, 1), (4100, 4)] {
        let storage: Vec<u8> = (0..16 + 8 - 1).collect();
        let mut buffer = AlignedBuffer::placed(storage, address, 16, 8);
        let expected: Vec<u8> = (offset..offset + 16).collect();
        assert_eq!(buffer.as_slice(), expected.as_slice());
        assert_eq!((address + offset as usize) % 8, 0);
        buffer.as_mut_slice()[0] = 200;
        assert_eq!(buffer.as_slice()[0], 200);
        assert_eq!(
            format!("{:?}", buffer),
            "AlignedBuffer { length: 16, alignment: 8, .. }"
        );
    }
}

#[test]
fn a_buffer_is_aligned_zeroed_and_refuses_an_alignment_that_is_no_power_of_two() {
    for alignment in [1usize, 2, 8, 64, 4096] {
        let mut buffer = AlignedBuffer::new_zeroed(100, alignment).unwrap();
        assert_eq!((buffer.len(), buffer.alignment()), (100, alignment));
        assert!(!buffer.is_empty());
        assert_eq!(buffer.as_slice().as_ptr() as usize % alignment, 0);
        assert!(buffer.as_slice().iter().all(|byte| *byte == 0));
        buffer.as_mut_slice()[99] = 5;
        assert_eq!(buffer.as_slice()[99], 5);
    }
    for alignment in [0usize, 3, 12] {
        assert!(AlignedBuffer::new_zeroed(1, alignment).is_err());
    }
    assert!(AlignedBuffer::new_zeroed(usize::MAX, 8).is_err());
    assert!(matches!(
        AlignedBuffer::new_zeroed_from(8, 8, Memory::Refused),
        Err(Error::OutOfMemory)
    ));
    assert_eq!(aligned_start(4097, 4096), 4095);
    assert_eq!(aligned_start(8192, 4096), 0);
}

#[test]
fn only_a_path_below_the_root_is_a_path() {
    assert_eq!(DevicePath::parse(b"a/b").unwrap().len(), 2);
    assert_eq!(DevicePath::parse(b"a/b").unwrap().name(), path("b"));
    for wrong in ["", "/", "/a", "..", "a/..", "a/../b", "./a"] {
        assert!(DevicePath::parse(wrong.as_bytes()).is_none(), "{wrong}");
    }
    let child = DevicePath::parse(b"a/b").unwrap();
    let parent = DevicePath::parse(b"a").unwrap();
    assert!(child.is_child_of(&parent));
    assert!(!parent.is_child_of(&child));
    assert!(parent.is_child_of(&DevicePath::root()));
    assert!(DevicePath::root().is_root());
}

#[test]
fn what_is_written_is_read_back_and_the_gap_before_it_is_zero() {
    let mut device = MemoryDevice::new(8, 1024).unwrap();
    let file = open(&mut device, "file", true);
    let done = write(&mut device, file, 4, b"abcd");
    assert!(matches!(done.result, Ok(IoOutcome::Transferred(4))));
    assert_eq!(done.buffer.unwrap().as_slice(), b"abcd");
    assert_eq!(read(&mut device, file, 0, 8), (8, b"\0\0\0\0abcd".to_vec()));
    assert_eq!(read(&mut device, file, 6, 4), (2, b"cd\0\0".to_vec()));
    assert_eq!(read(&mut device, file, 100, 4), (0, vec![0; 4]));
    assert!(matches!(
        run(&mut device, IoOperation::SetLen { file, length: 5 }).result,
        Ok(IoOutcome::Done)
    ));
    assert_eq!(read(&mut device, file, 0, 8).0, 5);
    let again = open(&mut device, "file", false);
    assert_ne!(again, file);
    assert_eq!(read(&mut device, again, 4, 1), (1, b"a".to_vec()));
}

#[test]
fn a_missing_file_a_wrong_path_and_a_closed_handle_are_errors() {
    let mut device = MemoryDevice::new(8, 1024).unwrap();
    let done = run(
        &mut device,
        IoOperation::Open {
            path: path("file"),
            create_new: false,
        },
    );
    assert!(is_io(&done, IoErrorKind::NotFound));
    let file = open(&mut device, "file", true);
    let done = run(
        &mut device,
        IoOperation::Open {
            path: path("file"),
            create_new: true,
        },
    );
    assert!(is_io(&done, IoErrorKind::AlreadyExists));
    let done = run(&mut device, IoOperation::RemoveFile(path("../file")));
    assert!(done.result.is_err());
    assert!(run(&mut device, IoOperation::Close(file)).result.is_ok());
    let done = write(&mut device, file, 0, b"x");
    assert!(matches!(done.result, Err(Error::RangeTruncated)));
    assert_eq!(done.buffer.unwrap().as_slice(), b"x");
}

#[test]
fn a_write_beyond_the_byte_budget_changes_nothing() {
    let mut device = MemoryDevice::new(8, 8).unwrap();
    let file = open(&mut device, "file", true);
    assert!(write(&mut device, file, 0, b"12345678").result.is_ok());
    let done = write(&mut device, file, 4, b"abcde");
    assert!(matches!(done.result, Err(Error::CapacityExceeded)));
    assert_eq!(
        read(&mut device, file, 0, 8),
        (8, b"12345678".to_vec())
    );
}

#[test]
fn an_injected_fault_meets_the_next_accepted_request_only() {
    let mut device = MemoryDevice::new(8, 1024).unwrap();
    let file = open(&mut device, "file", true);
    device
        .inject_next(MemoryFault::Fail(IoErrorKind::PermissionDenied))
        .unwrap();
    assert!(matches!(
        device.inject_next(MemoryFault::Short(1)),
        Err(Error::Busy)
    ));
    let done = write(&mut device, file, 0, b"abcd");
    assert!(is_io(&done, IoErrorKind::PermissionDenied));
    assert_eq!(read(&mut device, file, 0, 4).0, 0);
    device.inject_next(MemoryFault::Short(3)).unwrap();
    assert!(matches!(
        write(&mut device, file, 0, b"abcd").result,
        Ok(IoOutcome::Transferred(3))
    ));
    assert_eq!(read(&mut device, file, 0, 4), (3, b"abc\0".to_vec()));
}

#[test]
fn a_poll_fails_only_where_there_is_no_room_for_what_waits() {
    let mut device = MemoryDevice::new(4, 64).unwrap();
    let budget = PollBudget::default();
    let mut output = Vec::new();
    device.poll(budget, &mut output).unwrap();
    device
        .poll_from(budget, &mut output, Memory::Refused)
        .unwrap();
    for name in ["a", "b", "c"] {
        device
            .submit(request(IoOperation::CreateDirectory(path(name))))
            .unwrap();
    }
    assert_eq!(
        device.poll_from(budget, &mut output, Memory::Refused),
        Err(Error::OutOfMemory)
    );
    assert!(output.is_empty());
    let two = PollBudget::new(2).unwrap();
    device.poll_from(two, &mut output, Memory::Granted).unwrap();
    assert_eq!(output.len(), 2);
    device.poll_from(two, &mut output, Memory::Granted).unwrap();
    assert_eq!(output.len(), 3);
    assert!(output
        .iter()
        .all(|done| matches!(done.result, Ok(IoOutcome::Done))));
    device
        .poll_from(two, &mut output, Memory::Refused)
        .unwrap();
    assert_eq!(output.len(), 3);
}

#[test]
fn requests_complete_in_order_or_in_reverse_and_a_cancelled_one_is_interrupted() {
    for reverse in [false, true] {
        let mut device = MemoryDevice::new(4, 64).unwrap();
        device.set_reverse(reverse).unwrap();
        let first = device
            .submit(request(IoOperation::CreateDirectory(path("a"))))
            .unwrap();
        let second = device
            .submit(request(IoOperation::CreateDirectory(path("b"))))
            .unwrap();
        let mut output = Vec::new();
        device.poll(PollBudget::new(1).unwrap(), &mut output).unwrap();
        assert_eq!(output.len(), 1);
        device.poll(PollBudget::default(), &mut output).unwrap();
        let ids: Vec<IoId> = output.iter().map(|done| done.id).collect();
        assert_eq!(
            ids,
            if reverse {
                vec![second, first]
            } else {
                vec![first, second]
            }
        );
    }
    for reverse in [false, true] {
        let mut device = MemoryDevice::new(4, 64).unwrap();
        device.set_reverse(reverse).unwrap();
        let target = device
            .submit(request(IoOperation::CreateDirectory(path("a"))))
            .unwrap();
        device
            .submit(request(IoOperation::Cancel(target)))
            .unwrap();
        let mut output = Vec::new();
        device.poll(PollBudget::default(), &mut output).unwrap();
        assert!(matches!(output[0].result, Ok(IoOutcome::Done)));
        if reverse {
            assert_eq!(output[1].id, target);
            assert!(is_io(&output[1], IoErrorKind::Interrupted));
        } else {
            assert_eq!(output[0].id, target);
            assert!(matches!(output[1].result, Ok(IoOutcome::Done)));
        }
    }
}

#[test]
fn a_full_queue_is_busy_and_a_stopped_device_takes_nothing_but_gives_everything_back() {
    let mut device = MemoryDevice::new(2, 64).unwrap();
    for name in ["a", "b"] {
        device
            .submit(request(IoOperation::CreateDirectory(path(name))))
            .unwrap();
    }
    let rejected = device
        .submit(request(IoOperation::CreateDirectory(path("c"))))
        .unwrap_err();
    assert!(matches!(rejected.reason, Error::Busy));
    assert!(matches!(
        rejected.request.operation,
        IoOperation::CreateDirectory(name) if name == path("c")
    ));
    device
        .shutdown(Deadline(Instant::now() + Duration::from_secs(5)))
        .unwrap();
    assert!(matches!(
        device
            .submit(request(IoOperation::CreateDirectory(path("d"))))
            .unwrap_err()
            .reason,
        Error::InvalidState(_)
    ));
    let mut output = Vec::new();
    device.poll(PollBudget::default(), &mut output).unwrap();
    assert_eq!(output.len(), 2);
}

#[test]
fn a_shutdown_that_comes_too_late_says_so_and_loses_nothing() {
    let mut device = MemoryDevice::new(2, 64).unwrap();
    device
        .submit(request(IoOperation::CreateDirectory(path("a"))))
        .unwrap();
    assert!(matches!(
        device.shutdown(Deadline(Instant::now())),
        Err(Error::DeadlineExceeded)
    ));
    let mut output = Vec::new();
    device.poll(PollBudget::default(), &mut output).unwrap();
    assert_eq!(output.len(), 1);
}

#[test]
fn directories_are_listed_in_the_order_of_their_names_within_both_budgets() {
    let mut device = MemoryDevice::new(8, 64).unwrap();
    for name in ["d", "d/b", "d/a"] {
        assert!(run(&mut device, IoOperation::CreateDirectory(path(name)))
            .result
            .is_ok());
    }
    open(&mut device, "d/c", true);
    let list = |device: &mut MemoryDevice, max_entries, max_name_bytes| {
        run(
            device,
            IoOperation::ReadDirectory {
                path: path("d"),
                max_entries,
                max_name_bytes,
            },
        )
        .result
    };
    match list(&mut device, 3, 3) {
        Ok(IoOutcome::Directory(entries)) => {
            let found: Vec<(Vec<u8>, DirectoryEntryKind)> = entries
                .into_iter()
                .map(|entry| (entry.name, entry.kind))
                .collect();
            assert_eq!(
                found,
                vec![
                    (path("a"), DirectoryEntryKind::Directory),
                    (path("b"), DirectoryEntryKind::Directory),
                    (path("c"), DirectoryEntryKind::File),
                ]
            );
        }
        other => panic!("not listed: {other:?}"),
    }
    assert!(matches!(
        list(&mut device, 2, 3),
        Err(Error::CapacityExceeded)
    ));
    assert!(matches!(
        list(&mut device, 3, 2),
        Err(Error::CapacityExceeded)
    ));
}

#[test]
fn a_renamed_file_keeps_its_bytes_and_an_open_handle_keeps_a_removed_one() {
    let mut device = MemoryDevice::new(8, 64).unwrap();
    let file = open(&mut device, "a", true);
    write(&mut device, file, 0, b"data");
    assert!(run(
        &mut device,
        IoOperation::Rename {
            source: path("a"),
            destination: path("b"),
        },
    )
    .result
    .is_ok());
    let renamed = open(&mut device, "b", false);
    assert_eq!(read(&mut device, renamed, 0, 4), (4, b"data".to_vec()));
    assert!(run(&mut device, IoOperation::RemoveFile(path("b")))
        .result
        .is_ok());
    assert_eq!(read(&mut device, file, 0, 4), (4, b"data".to_vec()));
    let done = run(
        &mut device,
        IoOperation::Open {
            path: path("b"),
            create_new: false,
        },
    );
    assert!(is_io(&done, IoErrorKind::NotFound));
}

#[test]
fn devices_say_what_they_can_do() {
    let memory = MemoryDeviceFactory.open(options()).unwrap();
    assert!(memory.capabilities().supports_files);
    let mut null = NullDeviceFactory.open(options()).unwrap();
    assert!(!null.capabilities().supports_files);
    assert!(matches!(
        null.submit(request(IoOperation::CreateDirectory(path("a"))))
            .unwrap_err()
            .reason,
        Error::UnsupportedDurability
    ));
    assert!(matches!(
        UringDeviceFactory { queue_depth: 1 }.open(options()),
        Err(Error::Unimplemented("device::uring"))
    ));
    assert!(matches!(
        WindowsDeviceFactory { queue_capacity: 1 }.open(options()),
        Err(Error::Unimplemented(_))
    ));
    assert!(MemoryDevice::new(0, 1).is_err());
    assert!(MemoryDevice::new(1, 0).is_err());
}

#[test]
fn a_listing_beyond_a_budget_is_refused_entry_by_entry() {
    let entry = |name: &str| DirectoryEntry {
        name: path(name),
        kind: DirectoryEntryKind::File,
    };
    let mut listing = DirectorySnapshot::new(2, 4);
    listing.push(entry("bb")).unwrap();
    assert!(matches!(
        listing.push(entry("ccc")),
        Err(Error::CapacityExceeded)
    ));
    assert!(matches!(
        listing.push_from(entry("a"), Memory::Refused),
        Err(Error::OutOfMemory)
    ));
    listing.push(entry("aa")).unwrap();
    assert!(matches!(
        listing.push(entry("")),
        Err(Error::CapacityExceeded)
    ));
    match listing.finish() {
        IoOutcome::Directory(entries) => {
            assert_eq!(entries, vec![entry("aa"), entry("bb")]);
        }
        other => panic!("no listing: {other:?}"),
    }
}

fn queue(capacity: usize) -> WorkQueue {
    WorkQueue::new(
        &ThreadPoolDeviceFactory {
            workers: 1,
            queue_capacity: capacity,
        },
        Memory::Granted,
    )
    .unwrap()
}

#[test]
fn a_worker_takes_the_oldest_request_and_every_request_is_completed_once() {
    let mut queue = queue(3);
    queue.worker_starts();
    assert!(matches!(queue.next_job(), Job::Wait));
    let first = queue
        .submit(request(IoOperation::CreateDirectory(path("a"))))
        .unwrap();
    let second = queue
        .submit(request(IoOperation::CreateDirectory(path("b"))))
        .unwrap();
    queue.submit(request(IoOperation::Cancel(second))).unwrap();
    assert!(matches!(
        queue
            .submit(request(IoOperation::CreateDirectory(path("c"))))
            .unwrap_err()
            .reason,
        Error::Busy
    ));
    queue.close();
    assert!(matches!(queue.shutdown_step(false), Ok(false)));
    assert!(matches!(
        queue.shutdown_step(true),
        Err(Error::DeadlineExceeded)
    ));
    for expected in [first, second, IoId(2)] {
        let queued = match queue.next_job() {
            Job::Run(queued) => queued,
            _ => panic!("nothing to run"),
        };
        assert_eq!(queued.id, expected);
        assert_eq!(queue.inflight(), 1);
        let done = match queue.decide(queued) {
            Step::Complete(done) => done,
            Step::Files { id, request } => {
                assert_eq!(id, first);
                IoCompletion {
                    id,
                    route: request.route,
                    result: Ok(IoOutcome::Done),
                    buffer: None,
                }
            }
        };
        queue.complete(done);
    }
    assert!(matches!(queue.next_job(), Job::Exit));
    assert_eq!(queue.alive(), 0);
    assert!(matches!(queue.shutdown_step(true), Ok(true)));
    let mut output = Vec::new();
    assert!(queue
        .poll(PollBudget::default(), &mut output, Memory::Refused)
        .is_err());
    queue
        .poll(PollBudget::default(), &mut output, Memory::Granted)
        .unwrap();
    assert_eq!(output.len(), 3);
    queue
        .poll(PollBudget::default(), &mut output, Memory::Refused)
        .unwrap();
    assert_eq!(output.len(), 3);
    assert!(is_io(&output[1], IoErrorKind::Interrupted));
    assert!(queue.capabilities().supports_file_locks);
}

#[test]
fn a_pool_without_workers_or_places_is_refused() {
    for (workers, queue_capacity) in [(0, 1), (1, 0)] {
        assert!(matches!(
            WorkQueue::new(
                &ThreadPoolDeviceFactory {
                    workers,
                    queue_capacity,
                },
                Memory::Granted,
            ),
            Err(Error::InvalidConfig { .. })
        ));
    }
    let mut queue = queue(1);
    queue.worker_starts();
    queue.worker_failed();
    assert!(matches!(
        queue
            .submit(request(IoOperation::CreateDirectory(path("a"))))
            .unwrap_err()
            .reason,
        Error::InvalidState(_)
    ));
}

fn ask(progress: Progress) -> FileTask {
    match progress {
        Progress::Ask(task) => task,
        Progress::Done(done) => panic!("done: {:?}", done.result),
    }
}

fn done(progress: Progress) -> IoCompletion {
    match progress {
        Progress::Ask(_) => panic!("not done"),
        Progress::Done(done) => done,
    }
}

fn start(table: &mut HandleTable, operation: IoOperation) -> Progress {
    FileTask::start(table, IoId(3), request(operation))
}

#[test]
fn opening_a_file_keeps_a_handle_only_when_it_worked() {
    let mut table = HandleTable::new(1).unwrap();
    assert!(HandleTable::new(0).is_err());
    let open = || IoOperation::Open {
        path: path("a/b"),
        create_new: true,
    };
    let task = ask(start(&mut table, open()));
    assert_eq!(task.call, FileCall::Open { create_new: true });
    assert_eq!(task.path, path("a/b"));
    let refused = done(task.resume(
        &mut table,
        FileReply::Done(Err(IoErrorKind::AlreadyExists)),
        Memory::Granted,
    ));
    assert!(is_io(&refused, IoErrorKind::AlreadyExists));
    assert!(table.first().is_none());
    let task = ask(start(&mut table, open()));
    let opened = done(task.resume(&mut table, FileReply::Done(Ok(())), Memory::Granted));
    let file = match opened.result {
        Ok(IoOutcome::Opened(file)) => file,
        other => panic!("not opened: {other:?}"),
    };
    assert_eq!(table.first(), Some((file.slot, HandleKind::Data)));
    assert!(table.is_full());
    assert!(matches!(
        done(start(&mut table, open())).result,
        Err(Error::CapacityExceeded)
    ));
    let task = ask(start(
        &mut table,
        IoOperation::Write {
            file,
            offset: 4,
            buffer: buffer(b"xy"),
        },
    ));
    assert_eq!(
        task.call,
        FileCall::Write {
            slot: file.slot,
            offset: 4
        }
    );
    let written = done(task.resume(&mut table, FileReply::Moved(Ok(2)), Memory::Granted));
    assert!(matches!(written.result, Ok(IoOutcome::Transferred(2))));
    assert_eq!(written.buffer.unwrap().as_slice(), b"xy");
    let stale = FileId {
        slot: file.slot,
        generation: Generation(1),
    };
    let rejected = done(start(
        &mut table,
        IoOperation::Read {
            file: stale,
            offset: 0,
            buffer: buffer(b"z"),
        },
    ));
    assert!(matches!(rejected.result, Err(Error::RangeTruncated)));
    assert_eq!(rejected.buffer.unwrap().as_slice(), b"z");
}

#[test]
fn a_path_that_leaves_the_root_never_reaches_the_file_system() {
    let mut table = HandleTable::new(1).unwrap();
    for operation in [
        IoOperation::RemoveFile(path("../a")),
        IoOperation::CreateDirectory(path("/a")),
        IoOperation::Rename {
            source: path("a"),
            destination: path(".."),
        },
    ] {
        assert!(done(start(&mut table, operation)).result.is_err());
    }
}

#[test]
fn a_lock_is_taken_once_carries_no_data_and_is_unlocked_before_it_is_closed() {
    let mut table = HandleTable::new(2).unwrap();
    let lock = || IoOperation::TryLock {
        path: path("lock"),
        mode: FileLockMode::Exclusive,
    };
    let mode = FileLockMode::Exclusive;
    let mut task = ask(start(&mut table, lock()));
    for (call, reply) in [
        (FileCall::Inspect { mode }, FileReply::Is(Ok(true))),
        (FileCall::OpenLock { mode }, FileReply::Done(Ok(()))),
        (FileCall::InspectLock { mode }, FileReply::Is(Ok(true))),
    ] {
        assert_eq!(task.call, call);
        task = ask(task.resume(&mut table, reply, Memory::Granted));
    }
    assert_eq!(task.call, FileCall::Lock { mode });
    let busy = done(task.resume(
        &mut table,
        FileReply::Locked(Err(LockRefusal::WouldBlock)),
        Memory::Granted,
    ));
    assert!(matches!(busy.result, Err(Error::Busy)));
    assert!(table.first().is_none());
    let mut task = ask(start(&mut table, lock()));
    for reply in [
        FileReply::Is(Err(IoErrorKind::NotFound)),
        FileReply::Done(Ok(())),
        FileReply::Is(Ok(true)),
    ] {
        task = ask(task.resume(&mut table, reply, Memory::Granted));
    }
    let held = done(task.resume(&mut table, FileReply::Locked(Ok(())), Memory::Granted));
    let file = match held.result {
        Ok(IoOutcome::Locked(file)) => file,
        other => panic!("not locked: {other:?}"),
    };
    assert!(matches!(
        done(start(&mut table, IoOperation::SyncFile { file, metadata: true })).result,
        Err(Error::InvalidState(_))
    ));
    let task = ask(start(&mut table, IoOperation::Close(file)));
    assert_eq!(task.call, FileCall::Unlock { slot: file.slot });
    let kept = done(task.resume(
        &mut table,
        FileReply::Done(Err(IoErrorKind::PermissionDenied)),
        Memory::Granted,
    ));
    assert!(is_io(&kept, IoErrorKind::PermissionDenied));
    assert_eq!(table.first(), Some((file.slot, HandleKind::Lock)));
    table.unlocked(file.slot, Ok(())).unwrap();
    assert!(table.first().is_none());
}

#[test]
fn a_listing_of_files_is_collected_and_sorted() {
    let mut table = HandleTable::new(1).unwrap();
    let found = |name: &str, file: bool| {
        FileReply::Entry(Some(Ok(FoundEntry {
            name: path(name),
            entry_type: Ok(EntryType {
                symlink: false,
                file,
                directory: !file,
            }),
        })))
    };
    let mut task = ask(start(
        &mut table,
        IoOperation::ReadDirectory {
            path: path(""),
            max_entries: 2,
            max_name_bytes: 2,
        },
    ));
    assert_eq!(task.call, FileCall::List);
    for reply in [
        FileReply::Done(Ok(())),
        found("b", true),
        found("a", false),
    ] {
        task = ask(task.resume(&mut table, reply, Memory::Granted));
        assert_eq!(task.call, FileCall::NextEntry);
    }
    match done(task.resume(&mut table, FileReply::Entry(None), Memory::Granted)).result {
        Ok(IoOutcome::Directory(entries)) => {
            assert_eq!(entries[0].name, path("a"));
            assert_eq!(entries[0].kind, DirectoryEntryKind::Directory);
            assert_eq!(entries[1].name, path("b"));
            assert_eq!(entries.len(), 2);
        }
        other => panic!("no listing: {other:?}"),
    }
}
