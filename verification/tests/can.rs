use netlink_packet_utils::byteorder::{ByteOrder, NativeEndian};
use opendut::can::{BitTiming, BitTimingConst, CanLinkInfoData, CtrlMode, CtrlModeFlags};

const CAN0_LINK_INFO_DATA: [u8; 204] = [36, 0, 1, 0, 32, 161, 7, 0, 188, 2, 0, 0, 25, 0, 0, 0, 27, 0, 0, 0, 28, 0, 0, 0, 24, 0, 0, 0, 1, 0, 0, 0, 1, 0, 0, 0, 52, 0, 2, 0, 109, 99, 112, 50, 53, 49, 120, 102, 100, 0, 0, 0, 0, 0, 0, 0, 2, 0, 0, 0, 0, 1, 0, 0, 1, 0, 0, 0, 128, 0, 0, 0, 128, 0, 0, 0, 1, 0, 0, 0, 0, 1, 0, 0, 1, 0, 0, 0, 8, 0, 3, 0, 0, 90, 98, 2, 8, 0, 4, 0, 2, 0, 0, 0, 12, 0, 5, 0, 0, 0, 0, 0, 0, 0, 0, 0, 8, 0, 6, 0, 0, 0, 0, 0, 8, 0, 8, 0, 128, 0, 0, 0, 52, 0, 10, 0, 109, 99, 112, 50, 53, 49, 120, 102, 100, 0, 0, 0, 0, 0, 0, 0, 1, 0, 0, 0, 32, 0, 0, 0, 1, 0, 0, 0, 16, 0, 0, 0, 16, 0, 0, 0, 1, 0, 0, 0, 0, 1, 0, 0, 1, 0, 0, 0, 8, 0, 15, 0, 0, 0, 0, 0, 12, 0, 17, 128, 8, 0, 1, 0, 179, 1, 0, 0];
const CAN1_LINK_INFO_DATA: [u8; 240] = [36, 0, 1, 0, 64, 66, 15, 0, 238, 2, 0, 0, 25, 0, 0, 0, 14, 0, 0, 0, 15, 0, 0, 0, 10, 0, 0, 0, 1, 0, 0, 0, 1, 0, 0, 0, 52, 0, 2, 0, 109, 99, 112, 50, 53, 49, 120, 102, 100, 0, 0, 0, 0, 0, 0, 0, 2, 0, 0, 0, 0, 1, 0, 0, 1, 0, 0, 0, 128, 0, 0, 0, 128, 0, 0, 0, 1, 0, 0, 0, 0, 1, 0, 0, 1, 0, 0, 0, 8, 0, 3, 0, 0, 90, 98, 2, 8, 0, 4, 0, 0, 0, 0, 0, 12, 0, 5, 0, 0, 0, 0, 0, 48, 0, 0, 0, 8, 0, 6, 0, 232, 3, 0, 0, 8, 0, 8, 0, 0, 0, 0, 0, 36, 0, 9, 0, 0, 18, 122, 0, 88, 2, 0, 0, 25, 0, 0, 0, 1, 0, 0, 0, 1, 0, 0, 0, 2, 0, 0, 0, 1, 0, 0, 0, 1, 0, 0, 0, 52, 0, 10, 0, 109, 99, 112, 50, 53, 49, 120, 102, 100, 0, 0, 0, 0, 0, 0, 0, 1, 0, 0, 0, 32, 0, 0, 0, 1, 0, 0, 0, 16, 0, 0, 0, 16, 0, 0, 0, 1, 0, 0, 0, 0, 1, 0, 0, 1, 0, 0, 0, 8, 0, 15, 0, 0, 0, 0, 0, 12, 0, 17, 128, 8, 0, 1, 0, 179, 1, 0, 0];

#[test]
fn test_convert_bitrate() {
    let bitrate_slice = &CAN1_LINK_INFO_DATA[4..8];
    let bitrate_array: [u8; 4] = [64, 66, 15, 0];
    let result_slice = NativeEndian::read_u32(bitrate_slice);
    let result_array = NativeEndian::read_u32(&bitrate_array);
    println!("bitrate_slice: {:?}", result_slice);
    assert_eq!(1000000, result_array);
    assert_eq!(result_slice, result_array);
}

#[test]
fn test_decode_unspec() {
    let bitrate_slice = &CAN1_LINK_INFO_DATA[0..4];
    let result_slice = NativeEndian::read_u32(bitrate_slice);
    println!("bitrate_slice: {:?}", result_slice);
}

#[test]
fn test_decode_sample_point() {
    let sample_point_slice = &CAN1_LINK_INFO_DATA[8..12];
    let result_slice = NativeEndian::read_u32(sample_point_slice) as f32 / 1000.0;
    println!("sample_point_slice: {:?}", result_slice);
    assert_eq!(result_slice, 0.75);
}

#[test]
fn test_bit_timing() {
    let bit_timing = BitTiming::create(&CAN1_LINK_INFO_DATA[4..36]);

    println!("Bit timing: {:?}", bit_timing);
    assert_eq!(bit_timing.sample_point, 750);
}

#[test]
fn test_bit_timing_const() {
    let bit_timing = BitTimingConst::create(&CAN1_LINK_INFO_DATA[40..92]);

    println!("Bit timing const: {:?}", bit_timing);
    assert_eq!(bit_timing.name, "mcp251xfd".to_string());
}

#[test]
fn test_ctrl_mode_flags() {
    for i in 0..190 {
        let ctrl_mode = CtrlMode::create(&CAN1_LINK_INFO_DATA[i..i + 8]);
        let mut result = ctrl_mode.flags.contains(CtrlModeFlags::from_bits_retain(CtrlModeFlags::CAN_CTRLMODE_BERR_REPORTING));
        result &= ctrl_mode.flags.contains(CtrlModeFlags::from_bits_retain(CtrlModeFlags::CAN_CTRLMODE_FD));
        result &= (
            ctrl_mode.flags.clone() &
                CtrlModeFlags::from_bits_retain(CtrlModeFlags::CAN_CTRLMODE_LOOPBACK) &
                CtrlModeFlags::from_bits_retain(CtrlModeFlags::CAN_CTRLMODE_LISTENONLY) &
                CtrlModeFlags::from_bits_retain(CtrlModeFlags::CAN_CTRLMODE_3_SAMPLES) &
                CtrlModeFlags::from_bits_retain(CtrlModeFlags::CAN_CTRLMODE_ONE_SHOT) &
                CtrlModeFlags::from_bits_retain(CtrlModeFlags::CAN_CTRLMODE_PRESUME_ACK) &
                CtrlModeFlags::from_bits_retain(CtrlModeFlags::CAN_CTRLMODE_FD_NON_ISO) &
                CtrlModeFlags::from_bits_retain(CtrlModeFlags::CAN_CTRLMODE_CC_LEN8_DLC) &
                CtrlModeFlags::from_bits_retain(CtrlModeFlags::CAN_CTRLMODE_TDC_AUTO) &
                CtrlModeFlags::from_bits_retain(CtrlModeFlags::CAN_CTRLMODE_TDC_MANUAL)
        ).is_empty();
        if result {
            println!("Ctrl mode found at position: {:?}", i);
        }
    }
}

#[test]
fn test_read_entire_buffer() {
    let can1_link_info_data = CanLinkInfoData::create(&CAN0_LINK_INFO_DATA);
    println!("Link info data CAN1: {:?}", can1_link_info_data);
}

#[test]
fn bit_timing_reads_every_field() {
    let timing = BitTiming::create(&CAN1_LINK_INFO_DATA[4..36]);
    assert_eq!(timing.bitrate, 1_000_000);
    assert_eq!(timing.sample_point, 750);
    assert_eq!(timing.tq, 25);
    assert_eq!(timing.prop_seq, 14);
    assert_eq!(timing.phase_seg1, 15);
    assert_eq!(timing.phase_seg2, 10);
    assert_eq!(timing.sjw, 1);
    assert_eq!(timing.brp, 1);
}

#[test]
fn bit_timing_const_reads_limits_and_fixes_sjw_min() {
    let limits = BitTimingConst::create(&CAN1_LINK_INFO_DATA[40..92]);
    assert_eq!(limits.name, "mcp251xfd");
    assert_eq!(limits.tseg1_min, 2);
    assert_eq!(limits.tseg1_max, 256);
    assert_eq!(limits.tseg2_min, 1);
    assert_eq!(limits.tseg2_max, 128);
    assert_eq!(limits.sjw_min, 1);
    assert_eq!(limits.sjw_max, 128);
    assert_eq!(limits.brp_min, 1);
    assert_eq!(limits.brp_max, 256);
    assert_eq!(limits.brp_inc, 1);
}

#[test]
fn bit_timing_const_removes_nul_inside_the_name() {
    let mut buffer = [0u8; 52];
    buffer[0] = b'a';
    buffer[2] = b'b';
    let limits = BitTimingConst::create(&buffer);
    assert_eq!(limits.name, "ab");
}

#[test]
fn ctrl_mode_reads_mask_and_flags() {
    let mode = CtrlMode::create(&[0x30, 0, 0, 0, 0x10, 0, 0, 0]);
    assert_eq!(mode.mask, 0x30);
    assert_eq!(mode.flags.bits(), 0x10);
    assert!(mode.flags.contains(CtrlModeFlags::from_bits_retain(CtrlModeFlags::CAN_CTRLMODE_BERR_REPORTING)));
    assert!(!mode.flags.contains(CtrlModeFlags::from_bits_retain(CtrlModeFlags::CAN_CTRLMODE_FD)));
    assert!(mode.flags.intersects(CtrlModeFlags::from_bits_retain(0x30)));
}

#[test]
fn ctrl_mode_flags_combine_bitwise() {
    let fd = CtrlModeFlags::from_bits_retain(CtrlModeFlags::CAN_CTRLMODE_FD);
    let loopback = CtrlModeFlags::from_bits_retain(CtrlModeFlags::CAN_CTRLMODE_LOOPBACK);
    let both = fd.union(loopback);
    assert_eq!(both.bits(), 0x21);
    assert!(both.contains(fd));
    assert_eq!((both & fd).bits(), 0x20);
    assert!((fd & loopback).is_empty());
    assert!(CtrlModeFlags::empty().is_empty());
    assert_eq!(both.intersection(loopback).bits(), 0x01);
}

#[test]
fn link_info_data_reads_each_attribute_from_its_position() {
    let data = CanLinkInfoData::create(&CAN0_LINK_INFO_DATA);
    assert_eq!(data.unspec, 0x0001_0024);
    assert_eq!(data.bit_timing.bitrate, 500_000);
    assert_eq!(data.bit_timing.sample_point, 700);
    assert_eq!(data.bit_timing_const.name, "mcp251xfd");
    assert_eq!(data.clock, 40_000_000);
    assert_eq!(data.state, 2);
    assert_eq!(data.ctrl_mode.mask, 0);
    assert_eq!(data.ctrl_mode.flags.bits(), 0);
    assert_eq!(data.restart_ms, 0);
    assert_eq!(data.data_bit_timing.bitrate, 0x3270_636d);
}
