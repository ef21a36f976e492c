//! Decoding of the CAN-specific part of a netlink link-info attribute
//! (`IFLA_INFO_DATA` of a CAN device), as laid out by the Linux kernel's
//! `include/uapi/linux/can/netlink.h`.

use vstd::prelude::*;
use netlink_packet_utils::byteorder::{ByteOrder, NativeEndian};

verus! {

/// The value of four bytes read as an unsigned 32-bit integer in the
/// given byte order.
pub open spec fn u32_from_bytes(endian: vstd::endian::Endian, b: Seq<u8>) -> int {
    match endian {
        vstd::endian::Endian::Little => b[0] + 256 * b[1] + 65536 * b[2] + 16777216 * b[3],
        vstd::endian::Endian::Big => b[3] + 256 * b[2] + 65536 * b[1] + 16777216 * b[0],
    }
}

/// The native-endian `u32` stored at `offset` in `buffer`.
pub open spec fn native_u32_at(buffer: Seq<u8>, offset: int) -> int {
    u32_from_bytes(vstd::endian::endianness(), buffer.subrange(offset, offset + 4))
}

/// Calls `byteorder`'s `NativeEndian::read_u32`. Its source reads the first
/// four bytes of `buf` with `u32::from_le_bytes` on little-endian targets and
/// with `u32::from_be_bytes` on big-endian ones, and panics when `buf` holds
/// fewer than four bytes; the contract states exactly that, with the
/// hardware's byte order taken from vstd's `endianness()`.
#[verifier::external_body]
fn read_native_u32(buf: &[u8]) -> (value: u32)
    requires
        buf@.len() >= 4,
    ensures
        value as int == native_u32_at(buf@, 0),
{
    NativeEndian::read_u32(buf)
}

/// Bit timing of a CAN controller (`struct can_bittiming`).
#[derive(Debug)]
pub struct BitTiming {
    pub bitrate: u32,
    pub sample_point: u32,
    pub tq: u32,
    pub prop_seq: u32,
    pub phase_seg1: u32,
    pub phase_seg2: u32,
    pub sjw: u32,
    pub brp: u32,
}

impl BitTiming {
    /// The bit timing whose eight fields are the consecutive native-endian
    /// `u32` values of `buffer`.
    pub open spec fn decoded(self, buffer: Seq<u8>) -> bool {
        &&& self.bitrate as int == native_u32_at(buffer, 0)
        &&& self.sample_point as int == native_u32_at(buffer, 4)
        &&& self.tq as int == native_u32_at(buffer, 8)
        &&& self.prop_seq as int == native_u32_at(buffer, 12)
        &&& self.phase_seg1 as int == native_u32_at(buffer, 16)
        &&& self.phase_seg2 as int == native_u32_at(buffer, 20)
        &&& self.sjw as int == native_u32_at(buffer, 24)
        &&& self.brp as int == native_u32_at(buffer, 28)
    }

    pub fn create(buffer: &[u8]) -> (timing: BitTiming)
        requires
            buffer@.len() == 32,
        ensures
            timing.decoded(buffer@),
    {
        let bitrate = read_native_u32(&buffer[0..4]);
        let sample_point = read_native_u32(&buffer[4..8]);
        let tq = read_native_u32(&buffer[8..12]);
        let prop_seq = read_native_u32(&buffer[12..16]);
        let phase_seg1 = read_native_u32(&buffer[16..20]);
        let phase_seg2 = read_native_u32(&buffer[20..24]);
        let sjw = read_native_u32(&buffer[24..28]);
        let brp = read_native_u32(&buffer[28..32]);
        proof {
            assert(buffer@.subrange(0, 4).subrange(0, 4) =~= buffer@.subrange(0, 4));
        }
        BitTiming { bitrate, sample_point, tq, prop_seq, phase_seg1, phase_seg2, sjw, brp }
    }
}


/// What `String::from_utf8_lossy` makes of a byte sequence: its UTF-8
/// decoding, with each invalid sequence replaced by U+FFFD.
pub uninterp spec fn lossy_utf8(bytes: Seq<u8>) -> Seq<char>;

/// Calls `String::from_utf8_lossy` and takes the owned string out of the
/// returned `Cow`. The result is named `lossy_utf8` of the bytes; as the
/// documentation says, a byte sequence that is valid UTF-8 is decoded
/// unchanged. How invalid sequences are replaced is left to the name.
#[verifier::external_body]
fn from_utf8_lossy(bytes: &[u8]) -> (text: String)
    ensures
        text@ == lossy_utf8(bytes@),
        vstd::utf8::valid_utf8(bytes@) ==> text@ == vstd::utf8::decode_utf8(bytes@),
{
    String::from_utf8_lossy(bytes).into_owned()
}

/// The characters of `text` with every NUL character left out.
pub open spec fn without_nul(text: Seq<char>) -> Seq<char> {
    text.filter(|c: char| c != '\0')
}

/// Calls `str::replace(text, '\0', "")`, which by its documentation replaces
/// every NUL character with the empty string, that is, leaves them out.
#[verifier::external_body]
fn remove_nul(text: &str) -> (result: String)
    ensures
        result@ == without_nul(text@),
{
    text.replace('\0', "")
}

/// The timing limits of a CAN controller (`struct can_bittiming_const`).
#[derive(Debug)]
pub struct BitTimingConst {
    pub name: String,
    pub tseg1_min: u32,
    pub tseg1_max: u32,
    pub tseg2_min: u32,
    pub tseg2_max: u32,
    pub sjw_min: u32,
    pub sjw_max: u32,
    pub brp_min: u32,
    pub brp_max: u32,
    pub brp_inc: u32,
}

impl BitTimingConst {
    /// The limits decoded from `buffer`: a 16-byte controller name, read as
    /// UTF-8 with its NUL padding removed, then eight native-endian `u32`
    /// values; the kernel structure has no `sjw_min`, which is always 1.
    pub open spec fn decoded(self, buffer: Seq<u8>) -> bool {
        &&& self.name@ == without_nul(lossy_utf8(buffer.subrange(0, 16)))
        &&& vstd::utf8::valid_utf8(buffer.subrange(0, 16))
            ==> self.name@ == without_nul(vstd::utf8::decode_utf8(buffer.subrange(0, 16)))
        &&& self.tseg1_min as int == native_u32_at(buffer, 16)
        &&& self.tseg1_max as int == native_u32_at(buffer, 20)
        &&& self.tseg2_min as int == native_u32_at(buffer, 24)
        &&& self.tseg2_max as int == native_u32_at(buffer, 28)
        &&& self.sjw_min == 1
        &&& self.sjw_max as int == native_u32_at(buffer, 32)
        &&& self.brp_min as int == native_u32_at(buffer, 36)
        &&& self.brp_max as int == native_u32_at(buffer, 40)
        &&& self.brp_inc as int == native_u32_at(buffer, 44)
    }

    pub fn create(buffer: &[u8]) -> (limits: BitTimingConst)
        requires
            buffer@.len() == 52,
        ensures
            limits.decoded(buffer@),
    {
        let name = from_utf8_lossy(&buffer[0..16]);
        let name = remove_nul(name.as_str());
        let tseg1_min = read_native_u32(&buffer[16..20]);
        let tseg1_max = read_native_u32(&buffer[20..24]);
        let tseg2_min = read_native_u32(&buffer[24..28]);
        let tseg2_max = read_native_u32(&buffer[28..32]);
        let sjw_min: u32 = 1;
        let sjw_max = read_native_u32(&buffer[32..36]);
        let brp_min = read_native_u32(&buffer[36..40]);
        let brp_max = read_native_u32(&buffer[40..44]);
        let brp_inc = read_native_u32(&buffer[44..48]);
        BitTimingConst {
            name,
            tseg1_min,
            tseg1_max,
            tseg2_min,
            tseg2_max,
            sjw_min,
            sjw_max,
            brp_min,
            brp_max,
            brp_inc,
        }
    }
}

/// The control-mode flags of a CAN device. The associated constants are the
/// bits of the single flags (`CAN_CTRLMODE_*`).
#[derive(Debug, Clone, Copy, PartialEq, Eq)]
pub struct CtrlModeFlags(pub u32);

impl CtrlModeFlags {
    /// Loopback mode.
    pub const CAN_CTRLMODE_LOOPBACK: u32 = 0x01;
    /// Listen-only mode.
    pub const CAN_CTRLMODE_LISTENONLY: u32 = 0x02;
    /// Triple sampling mode.
    pub const CAN_CTRLMODE_3_SAMPLES: u32 = 0x04;
    /// One-shot mode.
    pub const CAN_CTRLMODE_ONE_SHOT: u32 = 0x08;
    /// Bus-error reporting.
    pub const CAN_CTRLMODE_BERR_REPORTING: u32 = 0x10;
    /// CAN FD mode.
    pub const CAN_CTRLMODE_FD: u32 = 0x20;
    /// Ignore missing CAN ACKs.
    pub const CAN_CTRLMODE_PRESUME_ACK: u32 = 0x40;
    /// CAN FD in non-ISO mode.
    pub const CAN_CTRLMODE_FD_NON_ISO: u32 = 0x80;
    /// Classic CAN DLC option.
    pub const CAN_CTRLMODE_CC_LEN8_DLC: u32 = 0x100;
    /// The transceiver calculates the TDCV automatically.
    pub const CAN_CTRLMODE_TDC_AUTO: u32 = 0x200;
    /// The TDCV is set up manually.
    pub const CAN_CTRLMODE_TDC_MANUAL: u32 = 0x400;

    pub fn bits(&self) -> (bits: u32)
        ensures
            bits == self.0,
    {
        self.0
    }

    pub fn from_bits_retain(bits: u32) -> (flags: CtrlModeFlags)
        ensures
            flags.0 == bits,
    {
        CtrlModeFlags(bits)
    }

    pub fn empty() -> (flags: CtrlModeFlags)
        ensures
            flags.0 == 0,
    {
        CtrlModeFlags(0)
    }

    pub fn is_empty(&self) -> (empty: bool)
        ensures
            empty == (self.0 == 0),
    {
        self.0 == 0
    }

    /// Whether every flag of `other` is set in `self`.
    pub fn contains(&self, other: CtrlModeFlags) -> (contained: bool)
        ensures
            contained == (self.0 & other.0 == other.0),
    {
        self.0 & other.0 == other.0
    }

    /// Whether `self` and `other` share a flag.
    pub fn intersects(&self, other: CtrlModeFlags) -> (shared: bool)
        ensures
            shared == (self.0 & other.0 != 0),
    {
        self.0 & other.0 != 0
    }

    /// The flags set in both.
    pub fn intersection(self, other: CtrlModeFlags) -> (flags: CtrlModeFlags)
        ensures
            flags.0 == self.0 & other.0,
    {
        CtrlModeFlags(self.0 & other.0)
    }

    /// The flags set in either.
    pub fn union(self, other: CtrlModeFlags) -> (flags: CtrlModeFlags)
        ensures
            flags.0 == self.0 | other.0,
    {
        CtrlModeFlags(self.0 | other.0)
    }
}

impl core::ops::BitAnd for CtrlModeFlags {
    type Output = CtrlModeFlags;

    fn bitand(self, other: CtrlModeFlags) -> (flags: CtrlModeFlags)
        ensures
            flags.0 == self.0 & other.0,
    {
        CtrlModeFlags(self.0 & other.0)
    }
}

impl vstd::std_specs::ops::BitAndSpecImpl for CtrlModeFlags {
    open spec fn obeys_bitand_spec() -> bool {
        true
    }

    open spec fn bitand_req(self, other: CtrlModeFlags) -> bool {
        true
    }

    open spec fn bitand_spec(self, other: CtrlModeFlags) -> CtrlModeFlags {
        CtrlModeFlags(self.0 & other.0)
    }
}

/// The control mode of a CAN device (`struct can_ctrlmode`): which flags
/// the request changes, and their values.
#[derive(Debug)]
pub struct CtrlMode {
    pub mask: u32,
    pub flags: CtrlModeFlags,
}

impl Clone for CtrlMode {
    fn clone(&self) -> (copy: CtrlMode)
        ensures
            copy == *self,
    {
        CtrlMode { mask: self.mask, flags: self.flags }
    }
}

impl CtrlMode {
    pub fn create(buffer: &[u8]) -> (mode: CtrlMode)
        requires
            buffer@.len() == 8,
        ensures
            mode.mask as int == native_u32_at(buffer@, 0),
            mode.flags.0 as int == native_u32_at(buffer@, 4),
    {
        let mask = read_native_u32(&buffer[0..4]);
        let flags = read_native_u32(&buffer[4..8]);
        let flags = CtrlModeFlags(flags);
        CtrlMode { mask, flags }
    }
}

/// The CAN attributes of a link, read from the fixed positions at which they
/// stand in the link-info data of the kernel's CAN driver.
#[derive(Debug)]
pub struct CanLinkInfoData {
    /// The first four bytes of the data: in the kernel's layout, the header
    /// (length and type) of the bit-timing attribute that follows.
    pub unspec: u32,
    pub bit_timing: BitTiming,
    pub bit_timing_const: BitTimingConst,
    pub clock: u32,
    /// The value of the `IFLA_CAN_STATE` attribute (the state of the controller).
    pub state: u32,
    pub ctrl_mode: CtrlMode,
    pub restart_ms: u32,
    pub data_bit_timing: BitTiming,
}

impl CanLinkInfoData {
    /// The link-info data decoded from `buffer`, each attribute from its
    /// position.
    pub open spec fn decoded(self, buffer: Seq<u8>) -> bool {
        &&& self.unspec as int == native_u32_at(buffer, 0)
        &&& self.bit_timing.decoded(buffer.subrange(4, 36))
        &&& self.bit_timing_const.decoded(buffer.subrange(40, 92))
        &&& self.clock as int == native_u32_at(buffer, 92)
        &&& self.state as int == native_u32_at(buffer, 100)
        &&& self.ctrl_mode.mask as int == native_u32_at(buffer, 108)
        &&& self.ctrl_mode.flags.0 as int == native_u32_at(buffer, 112)
        &&& self.restart_ms as int == native_u32_at(buffer, 120)
        &&& self.data_bit_timing.decoded(buffer.subrange(136, 168))
    }

    pub fn create(buffer: &[u8]) -> (data: CanLinkInfoData)
        requires
            buffer@.len() >= 168,
        ensures
            data.decoded(buffer@),
    {
        let unspec = read_native_u32(&buffer[0..4]);
        let bit_timing = BitTiming::create(&buffer[4..36]);
        let bit_timing_const = BitTimingConst::create(&buffer[40..92]);
        let clock = read_native_u32(&buffer[92..96]);
        let state = read_native_u32(&buffer[100..104]);
        let ctrl_mode = CtrlMode::create(&buffer[108..116]);
        let restart_ms = read_native_u32(&buffer[120..124]);
        let data_bit_timing = BitTiming::create(&buffer[136..136 + 32]);
        proof {
            assert(buffer@.subrange(108, 116).subrange(0, 4) =~= buffer@.subrange(108, 112));
            assert(buffer@.subrange(108, 116).subrange(4, 8) =~= buffer@.subrange(112, 116));
        }
        CanLinkInfoData {
            unspec,
            bit_timing,
            bit_timing_const,
            clock,
            state,
            ctrl_mode,
            restart_ms,
            data_bit_timing,
        }
    }
}

/// The `count` consecutive native-endian `u32` words of `buffer` that start
/// at `offset`, in order.
pub open spec fn native_u32_words(buffer: Seq<u8>, offset: int, count: nat) -> Seq<int> {
    Seq::new(count, |k: int| native_u32_at(buffer, offset + 4 * k))
}

/// A word read from a part of a buffer is the word at the same place of the
/// whole buffer.
pub proof fn lemma_native_u32_at_subrange(buffer: Seq<u8>, start: int, end: int, offset: int)
    requires
        0 <= start <= end <= buffer.len(),
        0 <= offset,
        offset + 4 <= end - start,
    ensures
        native_u32_at(buffer.subrange(start, end), offset) == native_u32_at(buffer, start + offset),
{
    assert(buffer.subrange(start, end).subrange(offset, offset + 4)
        =~= buffer.subrange(start + offset, start + offset + 4));
}

/// The words read from a part of a buffer are the words at the same places
/// of the whole buffer.
pub proof fn lemma_native_u32_words_subrange(buffer: Seq<u8>, start: int, end: int, offset: int, count: nat)
    requires
        0 <= start <= end <= buffer.len(),
        0 <= offset,
        offset + 4 * count <= end - start,
    ensures
        native_u32_words(buffer.subrange(start, end), offset, count) == native_u32_words(buffer, start + offset, count),
{
    let part = native_u32_words(buffer.subrange(start, end), offset, count);
    let whole = native_u32_words(buffer, start + offset, count);
    assert forall|k: int| 0 <= k < count implies #[trigger] part[k] == whole[k] by {
        lemma_native_u32_at_subrange(buffer, start, end, offset + 4 * k);
    }
    assert(part =~= whole);
}

impl BitTiming {
    /// The fields in the order of `struct can_bittiming`: bitrate, sample
    /// point, time quantum, propagation segment, phase segments 1 and 2,
    /// synchronisation jump width, bit-rate prescaler.
    pub open spec fn fields(self) -> Seq<int> {
        seq![
            self.bitrate as int, self.sample_point as int, self.tq as int, self.prop_seq as int,
            self.phase_seg1 as int, self.phase_seg2 as int, self.sjw as int, self.brp as int,
        ]
    }
}

impl BitTimingConst {
    /// The limits in the order of the words of `struct can_bittiming_const`
    /// after the name: tseg1 min and max, tseg2 min and max, the largest
    /// synchronisation jump width, and the prescaler's min, max and step.
    pub open spec fn limits(self) -> Seq<int> {
        seq![
            self.tseg1_min as int, self.tseg1_max as int, self.tseg2_min as int, self.tseg2_max as int,
            self.sjw_max as int, self.brp_min as int, self.brp_max as int, self.brp_inc as int,
        ]
    }
}

/// A decoded bit timing has the eight words of the buffer as its fields,
/// one after the other in the order of `struct can_bittiming`: in
/// particular the synchronisation jump width is the seventh word (bytes
/// 24..28) and the prescaler the eighth (bytes 28..32).
pub proof fn lemma_bit_timing_layout(timing: BitTiming, buffer: Seq<u8>)
    requires
        buffer.len() == 32,
        timing.decoded(buffer),
    ensures
        timing.fields() == native_u32_words(buffer, 0, 8),
        timing.sjw as int == native_u32_at(buffer, 24),
        timing.brp as int == native_u32_at(buffer, 28),
{
    assert(timing.fields() =~= native_u32_words(buffer, 0, 8));
}

/// Decoded timing limits have, after the 16 bytes of the name, the eight
/// words of the buffer as their limits, in the order of
/// `struct can_bittiming_const`: in particular the largest synchronisation
/// jump width is the word at bytes 32..36, right after `tseg2_max`; the
/// smallest is always 1. The name holds no NUL character, and where the 16
/// name bytes are valid UTF-8 it is their text with the NUL padding left out.
pub proof fn lemma_bit_timing_const_layout(limits: BitTimingConst, buffer: Seq<u8>)
    requires
        buffer.len() == 52,
        limits.decoded(buffer),
    ensures
        limits.limits() == native_u32_words(buffer, 16, 8),
        limits.tseg2_max as int == native_u32_at(buffer, 28),
        limits.sjw_max as int == native_u32_at(buffer, 32),
        limits.sjw_min == 1,
        forall|i: int| 0 <= i < limits.name@.len() ==> #[trigger] limits.name@[i] != '\0',
        vstd::utf8::valid_utf8(buffer.subrange(0, 16))
            ==> limits.name@ == vstd::utf8::decode_utf8(buffer.subrange(0, 16)).filter(|c: char| c != '\0'),
{
    assert(limits.limits() =~= native_u32_words(buffer, 16, 8));
    let text = lossy_utf8(buffer.subrange(0, 16));
    assert forall|i: int| 0 <= i < limits.name@.len() implies #[trigger] limits.name@[i] != '\0' by {
        text.lemma_filter_pred(|c: char| c != '\0', i);
    }
}

/// Where decoded link-info data takes each attribute from: the clock at
/// bytes 92..96, the state at 100..104, the control mode's mask at
/// 108..112 and its flags at 112..116 (the order of `struct can_ctrlmode`),
/// the restart delay at 120..124, and the two bit timings and the timing
/// limits as the consecutive words at 4, 136 and 56.
pub proof fn lemma_link_info_layout(data: CanLinkInfoData, buffer: Seq<u8>)
    requires
        buffer.len() >= 168,
        data.decoded(buffer),
    ensures
        data.unspec as int == native_u32_at(buffer, 0),
        data.clock as int == native_u32_at(buffer, 92),
        data.state as int == native_u32_at(buffer, 100),
        data.ctrl_mode.mask as int == native_u32_at(buffer, 108),
        data.ctrl_mode.flags.0 as int == native_u32_at(buffer, 112),
        seq![data.ctrl_mode.mask as int, data.ctrl_mode.flags.0 as int] == native_u32_words(buffer, 108, 2),
        data.restart_ms as int == native_u32_at(buffer, 120),
        data.bit_timing.fields() == native_u32_words(buffer, 4, 8),
        data.data_bit_timing.fields() == native_u32_words(buffer, 136, 8),
        data.bit_timing_const.limits() == native_u32_words(buffer, 56, 8),
{
    assert(seq![data.ctrl_mode.mask as int, data.ctrl_mode.flags.0 as int] =~= native_u32_words(buffer, 108, 2));
    lemma_native_u32_words_subrange(buffer, 4, 36, 0, 8);
    lemma_native_u32_words_subrange(buffer, 136, 168, 0, 8);
    lemma_native_u32_words_subrange(buffer, 40, 92, 16, 8);
    lemma_bit_timing_layout(data.bit_timing, buffer.subrange(4, 36));
    lemma_bit_timing_layout(data.data_bit_timing, buffer.subrange(136, 168));
    lemma_bit_timing_const_layout(data.bit_timing_const, buffer.subrange(40, 92));
    assert(data.bit_timing.fields() =~= native_u32_words(buffer, 4, 8));
    assert(data.data_bit_timing.fields() =~= native_u32_words(buffer, 136, 8));
    assert(data.bit_timing_const.limits() =~= native_u32_words(buffer, 56, 8));
}

/// The control mode in decoded link-info data is the one that
/// `CtrlMode::create` reads from the eight bytes 108..116: the same mask and
/// the same flags.
pub proof fn lemma_link_info_ctrl_mode(data: CanLinkInfoData, buffer: Seq<u8>, mode: CtrlMode)
    requires
        buffer.len() >= 168,
        data.decoded(buffer),
        mode.mask as int == native_u32_at(buffer.subrange(108, 116), 0),
        mode.flags.0 as int == native_u32_at(buffer.subrange(108, 116), 4),
    ensures
        data.ctrl_mode == mode,
{
    lemma_native_u32_at_subrange(buffer, 108, 116, 0);
    lemma_native_u32_at_subrange(buffer, 108, 116, 4);
    lemma_link_info_layout(data, buffer);
}

} // verus!
