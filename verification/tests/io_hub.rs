use rasterkv::device::memory::MemoryDevice;
use rasterkv::device::{AlignedBuffer, CompletionRoute, Device, FileId, IoOperation, IoRequest};
use rasterkv::engine::io_hub::CompletionHub;
use rasterkv::types::{
    Error, Generation, IoId, PollBudget, RequestId, SessionId, StoreId,
};

fn hub(store: u8, capacity: usize, instance: u64) -> CompletionHub {
    CompletionHub::new(StoreId([store; 16]), capacity, instance).unwrap()
}

fn device(requests: usize) -> MemoryDevice {
    MemoryDevice::new(requests, 64).unwrap()
}

fn make_directory(device: &mut MemoryDevice, route: CompletionRoute, name: &str) -> IoId {
    device
        .submit(IoRequest {
            route,
            operation: IoOperation::CreateDirectory(name.as_bytes().to_vec()),
        })
        .unwrap()
}

fn other_session_polls() {
    let mut hub = hub(1, 2, 1);
    let mut device = device(4);
    let first = hub.reserve(SessionId([1; 16])).unwrap();
    let second = hub.reserve(SessionId([2; 16])).unwrap();
    assert!(matches!(hub.reserve(SessionId([3; 16])), Err(Error::Busy)));
    for id in [first, second] {
        make_directory(
            &mut device,
            CompletionHub::route(id),
            &format!("directory{}", id.slot),
        );
    }
    assert_eq!(hub.poll(&mut device, PollBudget::default()).unwrap(), 2);
    let mut wrong = first;
    wrong.session = second.session;
    assert!(hub.take(wrong).is_err());
    assert!(hub.release(wrong).is_err());
    assert!(hub.take(second).unwrap().unwrap().result.is_ok());
    assert!(hub.take(first).unwrap().unwrap().result.is_ok());
    assert!(hub.take(first).unwrap().is_none());
    hub.release(first).unwrap();
    let next = hub.reserve(first.session).unwrap();
    assert!(next.slot > second.slot);
}

fn late_completion() {
    let mut hub = hub(1, 1, 1);
    let mut device = device(4);
    let old = hub.reserve(SessionId([1; 16])).unwrap();
    device
        .submit(IoRequest {
            route: CompletionHub::route(old),
            operation: IoOperation::Read {
                file: FileId {
                    slot: 999,
                    generation: Generation(0),
                },
                offset: 0,
                buffer: AlignedBuffer::new_zeroed(8, 8).unwrap(),
            },
        })
        .unwrap();
    hub.release(old).unwrap();
    let new = hub.reserve(old.session).unwrap();
    hub.poll(&mut device, PollBudget::default()).unwrap();
    assert!(hub.take(new).unwrap().is_none());
}

fn repeated_and_unknown() {
    let mut hub = hub(1, 4, 1);
    let mut device = device(4);
    let first = hub.reserve(SessionId([1; 16])).unwrap();
    let second = hub.reserve(SessionId([2; 16])).unwrap();
    let first_io = make_directory(&mut device, CompletionHub::route(first), "first time");
    make_directory(&mut device, CompletionHub::route(first), "Repeat");
    let second_io = make_directory(&mut device, CompletionHub::route(second), "another session");
    assert!(matches!(
        hub.poll(&mut device, PollBudget::default()),
        Err(Error::InvalidState(_))
    ));
    assert_eq!(hub.take(first).unwrap().unwrap().id, first_io);
    assert!(hub.take(first).unwrap().is_none());
    assert_eq!(hub.take(second).unwrap().unwrap().id, second_io);
    make_directory(&mut device, CompletionRoute(999), "unknown route");
    assert!(matches!(
        hub.poll(&mut device, PollBudget::default()),
        Err(Error::InvalidState(_))
    ));
    assert!(hub.take(first).unwrap().is_none());
    assert!(hub.take(second).unwrap().is_none());
}

#[test]
fn io_hub_after_other_session_polling_the_results_will_remain_in_the_original_mailbox_and_cannot_be_collected_if_the_identity_is_wrong()
{
    other_session_polls();
}

#[test]
fn io_hub_late_completion_after_logging_out_only_recycles_the_buffer_and_does_not_accidentally_throw_new_requests()
{
    late_completion();
}

#[test]
fn io_hub_repeated_uncollected_completion_and_unknown_routing_errors_are_reported_but_other_mailboxes_are_not_covered_or_lost()
{
    repeated_and_unknown();
}

#[test]
fn tests_after_other_session_polling_the_results_will_remain_in_the_original_mailbox_and_cannot_be_collected_if_the_identity_is_wrong()
{
    other_session_polls();
}

#[test]
fn tests_late_completion_after_logging_out_only_recycles_the_buffer_and_does_not_accidentally_throw_new_requests()
{
    late_completion();
}

#[test]
fn tests_repeated_uncollected_completion_and_unknown_routing_errors_are_reported_but_other_mailboxes_are_not_covered_or_lost()
{
    repeated_and_unknown();
}

#[test]
fn unregistered_operations_and_registered_io_share_one_capacity() {
    let mut hub = hub(1, 2, 1);
    let session = SessionId([1; 16]);
    let mut operation = hub.reserve_operation(session).unwrap();
    assert!(operation.registered_id().is_none());
    assert_eq!(hub.mailbox_count(), 0);
    let io = hub.reserve(session).unwrap();
    assert!(matches!(hub.reserve(session), Err(Error::Busy)));
    assert!(matches!(hub.reserve_operation(session), Err(Error::Busy)));
    assert_eq!(hub.next_route(), 2);
    hub.activate_operation(&mut operation).unwrap();
    hub.activate_operation(&mut operation).unwrap();
    assert_eq!(hub.mailbox_count(), 2);
    assert!(hub.take(operation.id()).unwrap().is_none());
    hub.release_operation(&mut operation).unwrap();
    assert!(hub.release_operation(&mut operation).is_err());
    assert!(hub.activate_operation(&mut operation).is_err());
    hub.release(io).unwrap();
    assert_eq!(hub.occupied(), 0);
    let mut next = hub.reserve_operation(session).unwrap();
    assert!(next.id().slot > io.slot);
    hub.release_operation(&mut next).unwrap();
    assert_eq!(hub.occupied(), 0);
}

#[test]
fn operation_route_exhaustion_and_wrong_owner_do_not_lose_capacity() {
    let mut other = hub(2, 2, 2);
    let mut hub = hub(1, 2, 1);
    hub.skip_to(u64::MAX - 1);
    let mut route = hub.reserve_operation(SessionId([1; 16])).unwrap();
    assert_eq!(route.id().slot, u64::MAX - 1);
    assert!(other.activate_operation(&mut route).is_err());
    assert!(other.release_operation(&mut route).is_err());
    assert!(matches!(
        hub.reserve_operation(route.id().session),
        Err(Error::CapacityExceeded)
    ));
    assert_eq!(hub.occupied(), 1);
    assert_eq!(other.occupied(), 0);
    hub.release_operation(&mut route).unwrap();
    assert!(matches!(
        hub.reserve(route.id().session),
        Err(Error::CapacityExceeded)
    ));
    assert_eq!(hub.occupied(), 0);
}

#[test]
fn released_inline_routes_cannot_consume_late_completions_or_displace_overflow() {
    let mut hub = hub(1, 7, 1);
    let mut device = device(16);
    let session = SessionId([2; 16]);
    let original: Vec<RequestId> = (0..7).map(|_| hub.reserve(session).unwrap()).collect();
    assert!(matches!(hub.reserve(session), Err(Error::Busy)));
    for id in &original {
        make_directory(
            &mut device,
            CompletionHub::route(*id),
            &format!("route-{}", id.slot),
        );
    }
    hub.release(original[0]).unwrap();
    hub.release(original[3]).unwrap();
    let first = hub.reserve(session).unwrap();
    let second = hub.reserve(session).unwrap();
    assert!(first.slot > original[6].slot && second.slot > first.slot);
    assert!(matches!(hub.reserve(session), Err(Error::Busy)));
    assert_eq!(hub.poll(&mut device, PollBudget::default()).unwrap(), 7);
    for id in [first, second] {
        assert!(hub.take(id).unwrap().is_none());
        assert_eq!(hub.completion_count(id).unwrap(), 0);
    }
    for index in [1, 2, 4, 5, 6] {
        let id = original[index];
        assert!(hub.take(id).unwrap().unwrap().result.is_ok());
        assert_eq!(hub.completion_count(id).unwrap(), 1);
        hub.release(id).unwrap();
    }
    for id in [first, second] {
        hub.release(id).unwrap();
    }
    assert!(hub.release(original[0]).is_err());
    assert_eq!(hub.mailbox_count(), 0);
}

#[test]
fn unused_reservations_preserve_capacity_and_published_routes_cannot_be_reused() {
    let other = hub(2, 1, 2);
    let mut hub = hub(1, 1, 1);
    let session = SessionId([3; 16]);
    let mut old = hub.reserve_operation(session).unwrap();
    let old_id = old.id();
    assert!(other.retain_operation(&mut old).is_none());
    let mut held = hub.retain_operation(&mut old).unwrap();
    assert!(hub.retain_operation(&mut old).is_none());
    assert!(hub.release_operation(&mut old).is_err());
    assert!(hub.reuse_operation(&mut old, session).is_err());
    assert!(other.reuse_operation(&mut held, session).is_err());
    assert!(hub.reuse_operation(&mut held, SessionId([4; 16])).is_err());
    assert_eq!(hub.next_route(), 1);
    assert!(matches!(hub.reserve(session), Err(Error::Busy)));
    hub.reuse_operation(&mut held, session).unwrap();
    assert_eq!(held.id(), old_id);
    assert_eq!(hub.occupied(), 1);
    assert_eq!(hub.capacity_acquisitions(), 1);
    hub.activate_operation(&mut held).unwrap();
    assert!(hub.retain_operation(&mut held).is_none());
    assert!(hub.reuse_operation(&mut held, session).is_err());
    assert!(hub.take(old_id).unwrap().is_none());
    hub.release_operation(&mut held).unwrap();
    assert_eq!(hub.occupied(), 0);
    assert_eq!(other.occupied(), 0);
}

#[test]
fn local_routes_and_global_work_respect_one_reserved_capacity() {
    let mut hub = hub(1, 3, 1);
    assert!(matches!(
        hub.session_routes(SessionId([2; 16]), 0),
        Err(Error::CapacityExceeded)
    ));
    assert!(matches!(
        hub.session_routes(SessionId([2; 16]), 4),
        Err(Error::Busy)
    ));
    assert_eq!(hub.occupied(), 0);
    let routes = hub.session_routes(SessionId([2; 16]), 2).unwrap();
    let mut first = routes.reserve(&mut hub).unwrap();
    let mut second = routes.reserve(&mut hub).unwrap();
    assert!(matches!(routes.reserve(&mut hub), Err(Error::Busy)));
    let global = hub.reserve(SessionId([3; 16])).unwrap();
    assert!(matches!(hub.reserve(global.session), Err(Error::Busy)));
    assert_eq!(hub.occupied(), 3);
    first.activate(&mut hub).unwrap();
    first.activate(&mut hub).unwrap();
    second.activate(&mut hub).unwrap();
    assert_eq!(hub.mailbox_count(), 3);
    assert_eq!(hub.next_route(), 3);
    first.release(&mut hub).unwrap();
    assert!(first.release(&mut hub).is_err());
    assert!(first.activate(&mut hub).is_err());
    // A released route keeps its credit until it is given up.
    assert!(matches!(routes.reserve(&mut hub), Err(Error::Busy)));
    first.abandon(&mut hub);
    let third = routes.reserve(&mut hub).unwrap();
    assert!(third.id().slot > global.slot);
    hub.release(global).unwrap();
    assert_eq!(hub.occupied(), 2);
    routes.close(&mut hub);
    assert_eq!(hub.occupied(), 2);
    // Giving a route up releases its mailbox too.
    second.abandon(&mut hub);
    third.abandon(&mut hub);
    assert_eq!(hub.occupied(), 0);
    assert_eq!(hub.mailbox_count(), 0);
}

#[test]
fn foreign_hubs_and_exhausted_ids_leave_the_quota_and_route_intact() {
    let mut other = hub(1, 1, 2);
    let mut hub = hub(1, 1, 1);
    let routes = hub.session_routes(SessionId([2; 16]), 1).unwrap();
    let mut route = routes.reserve(&mut hub).unwrap();
    assert!(route.activate(&mut other).is_err());
    assert!(route.release(&mut other).is_err());
    assert!(route.registered_id().is_none());
    route.activate(&mut hub).unwrap();
    route.release(&mut hub).unwrap();
    route.abandon(&mut hub);
    hub.skip_to(u64::MAX);
    assert!(matches!(
        routes.reserve(&mut hub),
        Err(Error::CapacityExceeded)
    ));
    assert_eq!(hub.next_route(), u64::MAX);
    assert_eq!(hub.occupied(), 1);
    routes.close(&mut hub);
    assert_eq!(hub.occupied(), 0);
    assert_eq!(other.occupied(), 0);
}

#[test]
fn retained_route_identity_cannot_match_hubs_created_after_its_owner_dies() {
    let mut route = {
        let mut hub = hub(1, 1, 0);
        let routes = hub.session_routes(SessionId([2; 16]), 1).unwrap();
        let route = routes.reserve(&mut hub).unwrap();
        routes.close(&mut hub);
        route
    };
    for instance in 1..129 {
        let mut replacement = hub(1, 1, instance);
        assert!(route.activate(&mut replacement).is_err());
        assert!(route.release(&mut replacement).is_err());
        assert_eq!(replacement.occupied(), 0);
    }
}

#[test]
fn a_hub_without_capacity_is_refused_and_identities_must_not_be_zero() {
    assert!(matches!(
        CompletionHub::new(StoreId([0; 16]), 1, 0),
        Err(Error::InvalidFormat(_))
    ));
    assert!(CompletionHub::new(StoreId([1; 16]), 0, 0).is_err());
    assert!(matches!(
        hub(1, 1, 0).reserve(SessionId([0; 16])),
        Err(Error::InvalidFormat(_))
    ));
}

#[test]
fn a_stopped_device_leaves_no_completion_in_any_mailbox() {
    let mut hub = hub(1, 2, 1);
    let mut device = device(4);
    let id = hub.reserve(SessionId([1; 16])).unwrap();
    make_directory(&mut device, CompletionHub::route(id), "directory");
    hub.poll(&mut device, PollBudget::default()).unwrap();
    hub.discard_completions();
    assert!(hub.take(id).unwrap().is_none());
    assert_eq!(hub.occupied(), 1);
}

#[test]
fn after_the_device_has_stopped_nothing_is_delivered_and_nothing_waits_to_be_collected() {
    let mut hub = hub(1, 2, 1);
    let mut device = device(4);
    let first = hub.reserve(SessionId([1; 16])).unwrap();
    let second = hub.reserve(SessionId([2; 16])).unwrap();
    make_directory(&mut device, CompletionHub::route(first), "collected");
    assert_eq!(hub.poll(&mut device, PollBudget::default()).unwrap(), 1);
    make_directory(&mut device, CompletionHub::route(second), "dropped");
    hub.discard_after_device_shutdown(&mut device).unwrap();
    assert!(hub.take(first).unwrap().is_none());
    assert!(hub.take(second).unwrap().is_none());
    assert_eq!(hub.completion_count(first).unwrap(), 1);
    assert_eq!(hub.completion_count(second).unwrap(), 0);
    assert_eq!(hub.poll(&mut device, PollBudget::default()).unwrap(), 0);
    assert_eq!(hub.occupied(), 2);
}
