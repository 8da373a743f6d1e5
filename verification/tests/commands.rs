// Commands, kernel constants, control-block seeding, the event-descriptor
// counter, and the typed errors.

use tokio_linux_aio::abi;
use tokio_linux_aio::context::AioContextInner;
use tokio_linux_aio::errors::{AioCommandError, AioFileError, ContextError};
use tokio_linux_aio::file::{classify_completion, classify_delivery, completion_count_ok, AioFile};
use tokio_linux_aio::{Opcode, SyncLevel};

#[test]
fn opcodes_match_the_kernel_abi() {
    assert_eq!(Opcode::Pread.aio_const(), 0);
    assert_eq!(Opcode::Pwrite.aio_const(), 1);
    assert_eq!(Opcode::Fsync.aio_const(), 2);
    assert_eq!(Opcode::Fdsync.aio_const(), 3);
}

#[test]
fn sync_levels_encode_write_flags() {
    assert_eq!(SyncLevel::NoSync.flag_bits(), 0);
    assert_eq!(SyncLevel::Data.flag_bits(), abi::RWF_DSYNC);
    assert_eq!(SyncLevel::Full.flag_bits(), abi::RWF_SYNC);
    assert_eq!(abi::RWF_DSYNC, 2);
    assert_eq!(abi::RWF_SYNC, 4);
}

#[test]
fn read_command_fields() {
    let file = AioFile::new(5);
    let c = file.read(12345, 0xA000, 8192);
    assert_eq!(c.opcode, abi::IOCB_CMD_PREAD);
    assert_eq!(c.offset, 12345);
    assert_eq!(c.buf, 0xA000);
    assert_eq!(c.len, 8192);
    assert_eq!(c.flags, 0);
}

#[test]
fn write_sync_command_fields() {
    let file = AioFile::new(5);
    let c = file.write_sync(16384, 0xB000, 8192, SyncLevel::Full);
    assert_eq!(c.opcode, abi::IOCB_CMD_PWRITE);
    assert_eq!(c.flags, abi::RWF_SYNC);
    let d = file.write(16384, 0xB000, 8192);
    assert_eq!(d.opcode, abi::IOCB_CMD_PWRITE);
    assert_eq!(d.flags, 0);
}

#[test]
fn sync_commands_have_no_buffer() {
    let file = AioFile::new(5);
    let s = file.sync();
    assert_eq!((s.opcode, s.buf, s.len, s.offset, s.flags), (abi::IOCB_CMD_FSYNC, 0, 0, 0, 0));
    let d = file.data_sync();
    assert_eq!((d.opcode, d.buf, d.len, d.offset, d.flags), (abi::IOCB_CMD_FDSYNC, 0, 0, 0, 0));
}

#[test]
fn seeding_stamps_the_control_block() {
    let addrs: Vec<u64> = vec![0x7000, 0x7040];
    let eventfd = 11;
    let mut c = AioContextInner::new(eventfd, &addrs);
    let file = AioFile::new(9);
    c.acquire();
    let id = c.take();
    let command = file.write_sync(32768, 0xC000, 4096, SyncLevel::Data);
    c.seed(id, file.fd, command);
    let e = &c.requests.entries[id];
    // The user-data word is the request's own control-block address.
    assert_eq!(e.iocb.user_data, e.addr);
    assert_eq!(e.iocb.opcode, abi::IOCB_CMD_PWRITE);
    assert_eq!(e.iocb.fd, 9);
    assert_eq!(e.iocb.buf, 0xC000);
    assert_eq!(e.iocb.len, 4096);
    assert_eq!(e.iocb.offset, 32768);
    // The event-descriptor signal bit is always set, beside the sync bits.
    assert_eq!(e.iocb.flags, abi::IOCB_FLAG_RESFD | abi::RWF_DSYNC);
    assert_eq!(e.iocb.resfd, eventfd as u32);
    assert!(e.has_sender);
}

#[test]
fn eventfd_counter_is_little_endian() {
    assert_eq!(abi::eventfd_counter(&[1, 0, 0, 0, 0, 0, 0, 0]), 1);
    assert_eq!(abi::eventfd_counter(&[0x78, 0x56, 0x34, 0x12, 0, 0, 0, 0]), 0x12345678);
    assert_eq!(
        abi::eventfd_counter(&[0xff, 0xff, 0xff, 0xff, 0xff, 0xff, 0xff, 0xff]),
        u64::MAX
    );
    assert_eq!(abi::eventfd_counter(&7u64.to_le_bytes()), 7);
}

#[test]
fn completion_count_bounds() {
    assert!(!completion_count_ok(0, 10));
    assert!(completion_count_ok(1, 10));
    assert!(completion_count_ok(10, 10));
    assert!(!completion_count_ok(11, 10));
}

#[test]
fn negative_codes_classify_as_bad_result() {
    assert_eq!(classify_completion(-22), Err(AioCommandError::BadResult(22)));
    assert_eq!(classify_completion(-1), Err(AioCommandError::BadResult(1)));
    assert_eq!(classify_completion(0), Ok(0));
    assert_eq!(classify_completion(8192), Ok(8192));
}

#[test]
fn closed_channel_classifies_as_stopped() {
    assert_eq!(classify_delivery(None), Err(AioCommandError::AioStopped));
    assert_eq!(classify_delivery(Some(-5)), Err(AioCommandError::BadResult(5)));
    assert_eq!(classify_delivery(Some(512)), Ok(512));
}

#[test]
fn error_values_are_distinct() {
    assert_ne!(
        AioCommandError::IoSubmit(22),
        AioCommandError::BadResult(22)
    );
    assert_ne!(ContextError::EventFd(1), ContextError::IoSetup(1));
    assert_ne!(ContextError::IoSetup(1), ContextError::PoolAlloc);
    assert_eq!(AioFileError::System(2), AioFileError::System(2));
}

#[test]
fn zeroed_submission_is_all_zero() {
    let z = abi::Submission::zeroed();
    assert_eq!(z.user_data, 0);
    assert_eq!(z.opcode, 0);
    assert_eq!(z.fd, 0);
    assert_eq!(z.buf, 0);
    assert_eq!(z.len, 0);
    assert_eq!(z.offset, 0);
    assert_eq!(z.flags, 0);
    assert_eq!(z.resfd, 0);
}
