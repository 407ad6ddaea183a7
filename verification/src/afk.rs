//! Ring-buffer framing and message classification for the always-on
//! co-processor endpoints: buffer geometry decoding, queue-entry
//! framing with its wrap rule, and EPIC message dispatch decisions.

use vstd::prelude::*;
use crate::DriverError;

verus! {

/// Ring geometry and offsets advance in 0x40-byte blocks.
pub const AFK_RB_BLOCK_STEP: u64 = 0x40;

/// Queue-entry magic " POI", little endian.
pub const QE_MAGIC1: u32 = 0x494f_5020;

/// Queue-entry magic " POA", little endian.
pub const QE_MAGIC2: u32 = 0x414f_5020;

/// EPIC message categories.
pub const EPIC_CATEGORY_REPORT: u8 = 0x00;
pub const EPIC_CATEGORY_NOTIFY: u8 = 0x10;
pub const EPIC_CATEGORY_REPLY: u8 = 0x20;

/// EPIC message subtypes.
pub const EPIC_SUBTYPE_STD_SERVICE: u16 = 0xc0;
pub const EPIC_SUBTYPE_FAKEHID_REPORT: u16 = 0xc4;
pub const EPIC_SUBTYPE_RETCODE: u16 = 0x84;
pub const EPIC_SUBTYPE_RETCODE_PAYLOAD: u16 = 0xa0;

/// Size of a queue-entry header in bytes.
pub const QE_HEADER_SIZE: u64 = 16;

/// Round `v` up to the next multiple of `a`.
pub fn align_up(v: u64, a: u64) -> (r: u64)
    requires
        a > 0,
        v + a <= u64::MAX,
    ensures
        r == ((v + a - 1) / (a as int)) * (a as int),
        (r as int) % (a as int) == 0,
        v <= r < v + a,
{
    proof {
        vstd::arithmetic::div_mod::lemma_fundamental_div_mod((v + a - 1) as int, a as int);
        vstd::arithmetic::div_mod::lemma_mod_multiples_basic(
            ((v + a - 1) as int) / (a as int),
            a as int,
        );
        vstd::arithmetic::div_mod::lemma_mod_division_less_than_divisor(
            (v + a - 1) as int,
            a as int,
        );
        let q = ((v + a - 1) as int) / (a as int);
        let x = (v + a - 1) as int;
        assert(q * (a as int) == x - x % (a as int)) by (nonlinear_arith)
            requires
                x == (a as int) * q + x % (a as int),
        ;
    }
    ((v + a - 1) / a) * a
}

/// Geometry of one AFK ring buffer inside its endpoint's shared buffer.
#[derive(Clone, Copy, Debug, PartialEq, Eq, Structural)]
pub struct AFKRingBuffer {
    /// Byte offset of the ring's control blocks.
    pub offset: u64,
    /// Size of one control block; data begins after three of them.
    pub block_size: u64,
    /// Size of the data area in bytes.
    pub buf_size: u64,
}

/// Decode a ring-buffer announcement message: bits 16..32 carry the
/// total size and bits 32..48 the offset, both in 0x40-byte blocks; the
/// data size is read from the buffer itself, and the rest splits into
/// the three control blocks. A data size beyond the total is a fatal
/// protocol error.
pub fn parse_ring_buf(msg: u64, buf_size: u64) -> (r: Result<AFKRingBuffer, DriverError>)
    ensures
        ({
            let total = ((msg / 0x1_0000) % 0x1_0000) * 0x40;
            let offset = ((msg / 0x1_0000_0000) % 0x1_0000) * 0x40;
            &&& (buf_size > total ==> r == Err::<AFKRingBuffer, DriverError>(DriverError::Io))
            &&& (buf_size <= total ==> r == Ok::<AFKRingBuffer, DriverError>(
                (AFKRingBuffer {
                    offset: offset as u64,
                    block_size: (((total - buf_size) as int) / 3) as u64,
                    buf_size,
                }),
            ))
        }),
{
    proof {
        assert(((msg >> 16) & 0xffff) <= 0xffff) by (bit_vector);
        assert(((msg >> 32) & 0xffff) <= 0xffff) by (bit_vector);
    }
    let total = ((msg >> 16) & 0xffff) * AFK_RB_BLOCK_STEP;
    let offset = ((msg >> 32) & 0xffff) * AFK_RB_BLOCK_STEP;
    proof {
        assert(((msg >> 16) & 0xffff) == (msg / 0x1_0000) % 0x1_0000) by (bit_vector);
        assert(((msg >> 32) & 0xffff) == (msg / 0x1_0000_0000) % 0x1_0000) by (bit_vector);
        assert((msg / 0x1_0000) % 0x1_0000 < 0x1_0000);
        assert((msg / 0x1_0000_0000) % 0x1_0000 < 0x1_0000);
    }
    if buf_size > total {
        return Err(DriverError::Io);
    }
    let block_size = (total - buf_size) / 3;
    Ok(AFKRingBuffer { offset, block_size, buf_size })
}

/// A queue-entry header as read off a ring.
#[derive(Clone, Copy, Debug, PartialEq, Eq, Structural)]
pub struct QEHeader {
    pub magic: u32,
    pub size: u32,
    pub channel: u32,
    pub ty: u32,
}

impl QEHeader {
    /// Whether the header carries one of the two valid magics.
    pub fn magic_valid(&self) -> (r: bool)
        ensures
            r == (self.magic == QE_MAGIC1 || self.magic == QE_MAGIC2),
    {
        self.magic == QE_MAGIC1 || self.magic == QE_MAGIC2
    }
}

/// Where the consumer finds the payload of the entry at `rptr`: an
/// entry whose payload would cross the end of the data area instead
/// starts over at offset zero (its header is rewritten there).
///
/// Returns the payload's start offset, or `None` for the wrap rule.
pub fn qe_payload_start(rptr: u64, size: u32, buf_size: u64) -> (r: Option<u64>)
    requires
        rptr + QE_HEADER_SIZE <= buf_size,
    ensures
        size + QE_HEADER_SIZE + rptr <= buf_size ==> r == Some((rptr + QE_HEADER_SIZE) as u64),
        size + QE_HEADER_SIZE + rptr > buf_size ==> r is None,
{
    if (size as u64) <= buf_size - rptr - QE_HEADER_SIZE {
        Some(rptr + QE_HEADER_SIZE)
    } else {
        None
    }
}

/// The consumer pointer after reading one entry of `size` payload bytes
/// at `rptr`: header plus payload, rounded up to the block size, modulo
/// the data area.
pub fn advance_rptr(rptr: u64, size: u32, block_size: u64, buf_size: u64) -> (r: u64)
    requires
        block_size > 0,
        buf_size > 0,
        rptr <= buf_size,
        rptr + QE_HEADER_SIZE + size + block_size <= u64::MAX,
    ensures
        r == (((rptr + QE_HEADER_SIZE + size + block_size - 1) / (block_size as int)) * (
        block_size as int)) % (buf_size as int),
        r < buf_size,
{
    let aligned = align_up(rptr + QE_HEADER_SIZE + size as u64, block_size);
    proof {
        vstd::arithmetic::div_mod::lemma_mod_division_less_than_divisor(
            aligned as int,
            buf_size as int,
        );
    }
    aligned % buf_size
}

/// What to do with one received EPIC message.
#[derive(Clone, Copy, Debug, PartialEq, Eq, Structural)]
pub enum IpcAction {
    /// A report announcing a standard service: register it.
    ServiceAnnounce,
    /// A report carrying an input-device event: hand it to listeners.
    FakehidReport,
    /// A reply completing the in-flight call at this index.
    Retcode { index: usize },
    /// Anything else is a protocol error.
    Reject,
}

/// Classify one received EPIC message. Reports announce services or
/// carry input events; replies carry return codes, which must name an
/// in-flight call by tag and hold at least four payload bytes; every
/// other category or subtype is rejected.
pub fn classify_ipc(category: u8, subtype: u16, tag: u16, data_len: usize, calls: &Vec<bool>) -> (r:
    IpcAction)
    ensures
        category == EPIC_CATEGORY_REPORT && subtype == EPIC_SUBTYPE_STD_SERVICE ==> r
            == IpcAction::ServiceAnnounce,
        category == EPIC_CATEGORY_REPORT && subtype == EPIC_SUBTYPE_FAKEHID_REPORT ==> r
            == IpcAction::FakehidReport,
        category == EPIC_CATEGORY_REPORT && subtype != EPIC_SUBTYPE_STD_SERVICE && subtype
            != EPIC_SUBTYPE_FAKEHID_REPORT ==> r == IpcAction::Reject,
        category == EPIC_CATEGORY_REPLY && (subtype == EPIC_SUBTYPE_RETCODE || subtype
            == EPIC_SUBTYPE_RETCODE_PAYLOAD) ==> ({
            let ok = data_len >= 4 && tag != 0 && tag <= calls.len() && calls@[tag - 1];
            &&& (ok ==> r == (IpcAction::Retcode { index: (tag - 1) as usize }))
            &&& (!ok ==> r == IpcAction::Reject)
        }),
        category == EPIC_CATEGORY_REPLY && subtype != EPIC_SUBTYPE_RETCODE && subtype
            != EPIC_SUBTYPE_RETCODE_PAYLOAD ==> r == IpcAction::Reject,
        category != EPIC_CATEGORY_REPORT && category != EPIC_CATEGORY_REPLY ==> r
            == IpcAction::Reject,
{
    if category == EPIC_CATEGORY_REPORT {
        if subtype == EPIC_SUBTYPE_STD_SERVICE {
            IpcAction::ServiceAnnounce
        } else if subtype == EPIC_SUBTYPE_FAKEHID_REPORT {
            IpcAction::FakehidReport
        } else {
            IpcAction::Reject
        }
    } else if category == EPIC_CATEGORY_REPLY {
        if subtype == EPIC_SUBTYPE_RETCODE || subtype == EPIC_SUBTYPE_RETCODE_PAYLOAD {
            if data_len >= 4 && tag != 0 && (tag as usize) <= calls.len() && calls[(tag - 1)
                as usize] {
                IpcAction::Retcode { index: (tag - 1) as usize }
            } else {
                IpcAction::Reject
            }
        } else {
            IpcAction::Reject
        }
    } else {
        IpcAction::Reject
    }
}

/// Pick a tag for a new outgoing call: the first free in-flight slot,
/// or `None` when too many calls are in flight. Tags are the slot index
/// plus one; tag zero never names a call.
pub fn alloc_call_tag(calls: &Vec<bool>) -> (r: Option<u16>)
    requires
        calls.len() < 0x1_0000,
    ensures
        match r {
            Some(tag) => 1 <= tag <= calls.len() && !calls@[tag - 1] && (forall|j: int|
                0 <= j < tag - 1 ==> calls@[j]),
            None => forall|j: int| 0 <= j < calls.len() ==> calls@[j],
        },
{
    let mut i: usize = 0;
    while i < calls.len()
        invariant
            i <= calls.len(),
            calls.len() < 0x1_0000,
            forall|j: int| 0 <= j < i ==> calls@[j],
        decreases calls.len() - i,
    {
        if !calls[i] {
            return Some((i + 1) as u16);
        }
        i = i + 1;
    }
    None
}

/// 256 to the `k`.
pub open spec fn spec_pow256(k: int) -> int
    decreases k,
{
    if k <= 0 {
        1
    } else {
        256 * spec_pow256(k - 1)
    }
}

/// Powers of 256 are positive.
pub proof fn lemma_pow256_pos(k: int)
    ensures
        spec_pow256(k) > 0,
    decreases k,
{
    if k > 0 {
        lemma_pow256_pos(k - 1);
    }
}

/// Byte `k` of a value in little-endian order.
pub open spec fn spec_le_byte(value: u64, k: int) -> int {
    ((value as int) / spec_pow256(k)) % 256
}

/// Read one little-endian 32-bit word out of a byte buffer.
pub fn read_le32(bytes: &Vec<u8>, off: usize) -> (r: u32)
    requires
        off + 4 <= bytes.len(),
    ensures
        r == crate::iomem::spec_le32(
            bytes@[off as int],
            bytes@[off + 1],
            bytes@[off + 2],
            bytes@[off + 3],
        ),
{
    (bytes[off] as u32) + (bytes[off + 1] as u32) * 0x100 + (bytes[off + 2] as u32) * 0x1_0000 + (
    bytes[off + 3] as u32) * 0x100_0000
}

/// Decode one boot-arguments entry at `idx`: a 32-bit key, a 32-bit
/// payload size, then the payload. An entry that does not fit the area
/// is a protocol error.
pub fn bootargs_entry(bytes: &Vec<u8>, idx: usize) -> (r: Result<(u32, u32, usize), DriverError>)
    requires
        idx <= bytes.len(),
    ensures
        idx + 8 > bytes.len() ==> r is Err,
        idx + 8 <= bytes.len() ==> ({
            let key = crate::iomem::spec_le32(
                bytes@[idx as int],
                bytes@[idx + 1],
                bytes@[idx + 2],
                bytes@[idx + 3],
            );
            let size = crate::iomem::spec_le32(
                bytes@[idx + 4],
                bytes@[idx + 5],
                bytes@[idx + 6],
                bytes@[idx + 7],
            );
            &&& (idx + 8 + size > bytes.len() ==> r is Err)
            &&& (idx + 8 + size <= bytes.len() ==> r == Ok::<(u32, u32, usize), DriverError>(
                ((key as u32), (size as u32), (idx + 8) as usize),
            ))
        }),
        r is Err ==> r == Err::<(u32, u32, usize), DriverError>(DriverError::Invalid),
{
    if bytes.len() - idx < 8 {
        return Err(DriverError::Invalid);
    }
    let key = read_le32(bytes, idx);
    let size = read_le32(bytes, idx + 4);
    if (size as u64) > (bytes.len() - idx - 8) as u64 {
        return Err(DriverError::Invalid);
    }
    Ok((key, size, idx + 8))
}

/// Overwrite `size` bytes at `off` with the little-endian encoding of
/// `value`, truncated to that width; everything else stays.
pub fn write_le_value(bytes: &mut Vec<u8>, off: usize, size: usize, value: u64)
    requires
        off + size <= old(bytes).len(),
        size <= 8,
    ensures
        final(bytes).len() == old(bytes).len(),
        forall|j: int| 0 <= j < size ==> final(bytes)@[off + j] == spec_le_byte(value, j),
        forall|j: int|
            0 <= j < old(bytes).len() && !(off <= j < off + size) ==> final(bytes)@[j] == old(
                bytes,
            )@[j],
{
    let ghost pre = bytes@;
    let mut v: u64 = value;
    let mut j: usize = 0;
    while j < size
        invariant
            j <= size,
            off + size <= bytes.len(),
            bytes.len() == pre.len(),
            v == (value as int) / spec_pow256(j as int),
            forall|k: int| 0 <= k < j ==> bytes@[off + k] == spec_le_byte(value, k),
            forall|k: int| 0 <= k < pre.len() && !(off <= k < off + j) ==> bytes@[k] == pre[k],
        decreases size - j,
    {
        bytes.set(off + j, (v % 256) as u8);
        proof {
            lemma_pow256_pos(j as int);
            vstd::arithmetic::div_mod::lemma_div_denominator(
                value as int,
                spec_pow256(j as int),
                256,
            );
            assert(spec_pow256(j + 1) == 256 * spec_pow256(j as int));
        }
        v = v / 256;
        j = j + 1;
    }
}

/// Whether a producer may write an entry at `wptr`: writing the header
/// just behind the consumer would make a full ring look empty, so that
/// spot is refused.
pub fn tx_has_room(rptr: u64, wptr: u64) -> (r: bool)
    requires
        wptr + QE_HEADER_SIZE <= u64::MAX,
    ensures
        r == !(wptr < rptr && wptr + QE_HEADER_SIZE >= rptr),
{
    !(wptr < rptr && wptr + QE_HEADER_SIZE >= rptr)
}

} // verus!
