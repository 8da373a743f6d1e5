// The submission/completion protocol, driven as the host would drive it:
// admission, checkout, seeding, kernel accept or reject, delivery or
// recycling, and the permit balance across all of it.

use tokio_linux_aio::context::AioContextInner;
use tokio_linux_aio::errors::AioCommandError;
use tokio_linux_aio::file::{classify_completion, submit_accepted, AioFile};
use tokio_linux_aio::requests::Slot;
use tokio_linux_aio::SyncLevel;

fn addrs(n: usize) -> Vec<u64> {
    // Synthetic, distinct control-block addresses, as an arena would yield.
    (0..n as u64).map(|i| 0x1000 + 64 * i).collect()
}

fn ctx(capacity: usize) -> AioContextInner {
    AioContextInner::new(5, &addrs(capacity))
}

// One full successful operation; returns the delivered code classification.
fn run_one(ctx: &mut AioContextInner, file: &AioFile, code: i64) -> Result<i64, AioCommandError> {
    assert!(ctx.available_slots() > 0);
    ctx.acquire();
    let id = ctx.take();
    let command = file.read(0, 0x2000, 8192);
    ctx.seed(id, file.fd, command);
    assert!(submit_accepted(1));
    ctx.submit_ok(id);
    // The kernel completes; the pump routes by user-data and delivers.
    let user_data = ctx.requests.entries[id].iocb.user_data;
    let routed = ctx.find_outstanding(user_data).unwrap();
    assert_eq!(routed, id);
    ctx.complete_delivered(id);
    classify_completion(code)
}

#[test]
fn basic_read_returns_all_slots() {
    let mut c = ctx(10);
    assert_eq!(c.available_slots(), 10);
    let file = AioFile::new(7);
    let r = run_one(&mut c, &file, 8192);
    assert_eq!(r.unwrap(), 8192);
    assert_eq!(c.available_slots(), 10);
    assert!(c.requests.all_ready());
}

#[test]
fn basic_write_returns_all_slots() {
    let mut c = ctx(10);
    let file = AioFile::new(7);
    c.acquire();
    let id = c.take();
    let command = file.write(16384, 0x3000, 8192);
    c.seed(id, file.fd, command);
    c.submit_ok(id);
    assert_eq!(c.requests.entries[id].iocb.offset, 16384);
    assert_eq!(c.requests.entries[id].iocb.opcode, 1);
    c.complete_delivered(id);
    assert_eq!(classify_completion(8192).unwrap(), 8192);
    assert_eq!(c.available_slots(), 10);
}

#[test]
fn sequential_writes_at_capacity_two() {
    let mut c = ctx(2);
    let file = AioFile::new(9);
    for (key, offset) in [(65u64, 16384u64), (66, 32768), (67, 49152)] {
        assert_eq!(c.available_slots(), 2);
        c.acquire();
        let id = c.take();
        let command = file.write_sync(offset, 0x4000 + key, 8192, SyncLevel::NoSync);
        c.seed(id, file.fd, command);
        c.submit_ok(id);
        c.complete_delivered(id);
        assert_eq!(classify_completion(8192).unwrap(), 8192);
    }
    assert_eq!(c.available_slots(), 2);
}

#[test]
fn invalid_offset_is_a_result_error() {
    let mut c = ctx(10);
    let file = AioFile::new(7);
    c.acquire();
    let id = c.take();
    let command = file.read(1000000, 0x2000, 8192);
    c.seed(id, file.fd, command);
    c.submit_ok(id);
    c.complete_delivered(id);
    // The kernel reports an invalid argument as a negative completion code;
    // the request is still reclaimed normally.
    let res = classify_completion(-22);
    assert_eq!(res, Err(AioCommandError::BadResult(22)));
    assert_eq!(c.available_slots(), 10);
}

#[test]
fn cancellation_recycles_through_the_pump() {
    let num_slots = 10;
    let mut c = ctx(num_slots);
    let file = AioFile::new(7);
    c.acquire();
    let id = c.take();
    let command = file.read(0, 0x2000, 8192);
    c.seed(id, file.fd, command);
    c.submit_ok(id);
    // The waiter is dropped before the completion arrives: nothing happens
    // to the pool yet, and the slot is still held.
    assert_eq!(c.available_slots(), num_slots - 1);
    assert_eq!(c.requests.entries[id].slot, Slot::Outstanding);
    // The kernel later completes; delivery fails, so the pump recycles the
    // request and releases the orphaned permit. The event's user-data word
    // is the request's own control-block address.
    let user_data = c.requests.entries[id].aio_addr();
    let routed = c.find_outstanding(user_data).unwrap();
    assert_eq!(routed, id);
    c.complete_recycled(routed);
    assert_eq!(c.available_slots(), num_slots);
    // The context stays usable.
    let r = run_one(&mut c, &file, 4096);
    assert_eq!(r.unwrap(), 4096);
    assert_eq!(c.available_slots(), num_slots);
}

#[test]
fn failed_submission_restores_slot_and_request() {
    let mut c = ctx(4);
    let file = AioFile::new(7);
    c.acquire();
    let id = c.take();
    let command = file.sync();
    c.seed(id, file.fd, command);
    // The submit syscall accepted zero requests.
    assert!(!submit_accepted(0));
    c.submit_failed(id);
    assert_eq!(c.available_slots(), 4);
    assert!(c.requests.all_ready());
}

#[test]
fn overcommit_waves_return_to_capacity() {
    let num_slots = 7;
    let mut c = ctx(num_slots);
    let file = AioFile::new(7);
    for _wave in 0..50 {
        let mut remaining = 100u32;
        while remaining > 0 {
            // Admit as many of the wave as there are free slots; the rest
            // wait on the semaphore.
            let batch = (c.available_slots() as u32).min(remaining);
            let mut in_flight = Vec::new();
            for k in 0..batch {
                c.acquire();
                let id = c.take();
                let offset = (u64::from(k) * 8192) % (1024 * 512);
                let command = file.read(offset, 0x2000, 8192);
                c.seed(id, file.fd, command);
                c.submit_ok(id);
                in_flight.push(id);
            }
            assert_eq!(c.available_slots(), num_slots - batch as usize);
            for id in in_flight {
                c.complete_delivered(id);
                assert_eq!(classify_completion(8192).unwrap(), 8192);
            }
            remaining -= batch;
        }
        // All slots have been returned between waves.
        assert_eq!(c.available_slots(), num_slots);
    }
}

#[test]
fn pool_containment_across_phases() {
    let mut c = ctx(3);
    let file = AioFile::new(7);
    // All ready at rest.
    assert!(c.requests.all_ready());
    assert_eq!(c.requests.ready.len(), 3);
    c.acquire();
    let id = c.take();
    // One detached, two ready, none outstanding.
    assert!(!c.requests.all_ready());
    assert_eq!(c.requests.ready.len(), 2);
    assert_eq!(c.requests.entries[id].slot, Slot::Detached);
    let command = file.data_sync();
    c.seed(id, file.fd, command);
    c.submit_ok(id);
    // One outstanding, two ready, none detached.
    assert_eq!(c.requests.ready.len(), 2);
    assert_eq!(c.requests.entries[id].slot, Slot::Outstanding);
    c.complete_delivered(id);
    assert!(c.requests.all_ready());
    assert_eq!(c.requests.ready.len(), 3);
}

#[test]
fn take_pops_the_ready_head() {
    let mut c = ctx(3);
    let head = *c.requests.ready.last().unwrap();
    c.acquire();
    let id = c.take();
    assert_eq!(id, head);
}
