//! Always-on co-processor ring framing and EPIC dispatch decisions.

use asahi::afk::{advance_rptr, align_up, alloc_call_tag, classify_ipc, parse_ring_buf,
    qe_payload_start, tx_has_room, AFKRingBuffer, IpcAction, QEHeader, EPIC_CATEGORY_NOTIFY,
    EPIC_CATEGORY_REPLY, EPIC_CATEGORY_REPORT, EPIC_SUBTYPE_FAKEHID_REPORT, EPIC_SUBTYPE_RETCODE,
    EPIC_SUBTYPE_RETCODE_PAYLOAD, EPIC_SUBTYPE_STD_SERVICE, QE_MAGIC1, QE_MAGIC2};
use asahi::DriverError;

#[test]
fn alignment_rounds_up_to_the_block() {
    assert_eq!(align_up(0, 0x40), 0);
    assert_eq!(align_up(1, 0x40), 0x40);
    assert_eq!(align_up(0x40, 0x40), 0x40);
    assert_eq!(align_up(0x41, 0x40), 0x80);
}

#[test]
fn ring_announcements_decode_geometry() {
    // 0x100 blocks total at block offset 0x10; the data area takes
    // 0x2800 bytes, leaving three 0x800-byte control blocks.
    let msg: u64 = (0x10u64 << 32) | (0x100u64 << 16);
    let rb = parse_ring_buf(msg, 0x2800).unwrap();
    assert_eq!(
        rb,
        AFKRingBuffer { offset: 0x400, block_size: 0x800, buf_size: 0x2800 }
    );
    // A data size beyond the announced total is a protocol error.
    assert_eq!(parse_ring_buf(msg, 0x4001), Err(DriverError::Io));
}

#[test]
fn queue_entries_wrap_when_the_payload_would_cross_the_end() {
    let h = QEHeader { magic: QE_MAGIC1, size: 0x20, channel: 1, ty: 0 };
    assert!(h.magic_valid());
    let h2 = QEHeader { magic: QE_MAGIC2, ..h };
    assert!(h2.magic_valid());
    let bad = QEHeader { magic: 0x1234, ..h };
    assert!(!bad.magic_valid());

    // Fits: payload right after the header.
    assert_eq!(qe_payload_start(0x100, 0x20, 0x800), Some(0x110));
    // Would cross the end: the entry restarts at offset zero.
    assert_eq!(qe_payload_start(0x7f0, 0x20, 0x800), None);

    // The consumer pointer advances block-aligned, modulo the area.
    assert_eq!(advance_rptr(0x100, 0x20, 0x40, 0x800), 0x140);
    assert_eq!(advance_rptr(0x7c0, 0x30, 0x40, 0x800), 0);
}

#[test]
fn epic_messages_classify_by_category_and_subtype() {
    let calls = vec![true, false, true];
    assert_eq!(
        classify_ipc(EPIC_CATEGORY_REPORT, EPIC_SUBTYPE_STD_SERVICE, 0, 0, &calls),
        IpcAction::ServiceAnnounce
    );
    assert_eq!(
        classify_ipc(EPIC_CATEGORY_REPORT, EPIC_SUBTYPE_FAKEHID_REPORT, 0, 8, &calls),
        IpcAction::FakehidReport
    );
    assert_eq!(
        classify_ipc(EPIC_CATEGORY_REPORT, 0x99, 0, 0, &calls),
        IpcAction::Reject
    );
    // A retcode completes the in-flight call its tag names.
    assert_eq!(
        classify_ipc(EPIC_CATEGORY_REPLY, EPIC_SUBTYPE_RETCODE, 1, 4, &calls),
        IpcAction::Retcode { index: 0 }
    );
    assert_eq!(
        classify_ipc(EPIC_CATEGORY_REPLY, EPIC_SUBTYPE_RETCODE_PAYLOAD, 3, 16, &calls),
        IpcAction::Retcode { index: 2 }
    );
    // Too-short payloads, tag zero, stale or out-of-range tags reject.
    assert_eq!(
        classify_ipc(EPIC_CATEGORY_REPLY, EPIC_SUBTYPE_RETCODE, 1, 3, &calls),
        IpcAction::Reject
    );
    assert_eq!(
        classify_ipc(EPIC_CATEGORY_REPLY, EPIC_SUBTYPE_RETCODE, 0, 4, &calls),
        IpcAction::Reject
    );
    assert_eq!(
        classify_ipc(EPIC_CATEGORY_REPLY, EPIC_SUBTYPE_RETCODE, 2, 4, &calls),
        IpcAction::Reject
    );
    assert_eq!(
        classify_ipc(EPIC_CATEGORY_REPLY, EPIC_SUBTYPE_RETCODE, 4, 4, &calls),
        IpcAction::Reject
    );
    // Notifications are never received.
    assert_eq!(
        classify_ipc(EPIC_CATEGORY_NOTIFY, EPIC_SUBTYPE_RETCODE, 1, 4, &calls),
        IpcAction::Reject
    );
}

#[test]
fn call_tags_take_the_first_free_slot() {
    assert_eq!(alloc_call_tag(&vec![false, false]), Some(1));
    assert_eq!(alloc_call_tag(&vec![true, false, true]), Some(2));
    assert_eq!(alloc_call_tag(&vec![true, true]), None);
}

#[test]
fn transmit_refuses_to_catch_the_consumer() {
    assert!(tx_has_room(0, 0x100));
    assert!(tx_has_room(0x200, 0x300));
    // Writing a header immediately behind the consumer is refused.
    assert!(!tx_has_room(0x110, 0x100));
    assert!(tx_has_room(0x200, 0x100));
}

#[test]
fn bootargs_entries_decode_and_patch_little_endian() {
    // One entry: key "EC0p" (LE), size 4, payload 0xdeadbeef.
    let bytes: Vec<u8> = vec![
        0x45, 0x43, 0x30, 0x70, // key
        0x04, 0x00, 0x00, 0x00, // size
        0xef, 0xbe, 0xad, 0xde, // payload
    ];
    let (key, size, payload) = asahi::afk::bootargs_entry(&bytes, 0).unwrap();
    assert_eq!(key, 0x7030_4345);
    assert_eq!(size, 4);
    assert_eq!(payload, 8);
    assert_eq!(asahi::afk::read_le32(&bytes, payload), 0xdead_beef);

    // Truncated headers and over-long payloads are protocol errors.
    assert_eq!(
        asahi::afk::bootargs_entry(&bytes, 8),
        Err(DriverError::Invalid)
    );
    let short: Vec<u8> = vec![0x45, 0x43, 0x30, 0x70, 0x08, 0x00, 0x00, 0x00, 0x01];
    assert_eq!(
        asahi::afk::bootargs_entry(&short, 0),
        Err(DriverError::Invalid)
    );

    // Patching writes the value little-endian, truncated to the width.
    let mut patched = bytes.clone();
    asahi::afk::write_le_value(&mut patched, payload, size as usize, 0x0102_0304);
    assert_eq!(&patched[8..12], &[0x04, 0x03, 0x02, 0x01]);
    assert_eq!(&patched[0..8], &bytes[0..8]);

    let mut wide = vec![0u8; 8];
    asahi::afk::write_le_value(&mut wide, 0, 8, 0x1122_3344_5566_7788);
    assert_eq!(wide, vec![0x88, 0x77, 0x66, 0x55, 0x44, 0x33, 0x22, 0x11]);
    let mut narrow = vec![0xffu8; 3];
    asahi::afk::write_le_value(&mut narrow, 0, 2, 0x0102_0304);
    assert_eq!(narrow, vec![0x04, 0x03, 0xff]);
}
