use x86_emu::prefix_zeroed;
use x86_emu::ElfMemoryMap;
use x86_emu::Fault;
use x86_emu::MemoryMap;
use x86_emu::Segment;

fn segment(vaddr: u64, memsz: u64, data: Vec<u8>) -> Segment {
    Segment::new(1, 5, vaddr, vaddr, memsz, 0x1000, data)
}

fn two_segments() -> ElfMemoryMap {
    let first = segment(0x1000, 0x10, vec![0x11, 0x22, 0x33, 0x44, 0x55, 0x66, 0x77, 0x88]);
    let second = segment(0x2000, 0x40, (1..=0x40).collect());
    ElfMemoryMap::new(vec![first, second], 64, 0x1000)
}

fn segfault<T>(addr: u64) -> Result<T, Fault> {
    Err(Fault::SegmentationFault { addr })
}

#[test]
fn read_u8_returns_the_data_byte() {
    let map = two_segments();
    assert_eq!(map.read_u8(0x1000), Ok(0x11));
    assert_eq!(map.read_u8(0x1007), Ok(0x88));
    assert_eq!(map.read_u8(0x2000), Ok(1));
    assert_eq!(map.read_u8(0x203F), Ok(0x40));
}

#[test]
fn read_u8_past_the_data_is_zero() {
    let map = two_segments();
    assert_eq!(map.read_u8(0x1008), Ok(0));
    assert_eq!(map.read_u8(0x100F), Ok(0));
}

#[test]
fn read_u8_outside_every_segment_faults() {
    let map = two_segments();
    assert_eq!(map.read_u8(0x0FFF), segfault(0x0FFF));
    assert_eq!(map.read_u8(0x1010), segfault(0x1010));
    assert_eq!(map.read_u8(0x2040), segfault(0x2040));
    assert_eq!(map.read_u8(u64::MAX), segfault(u64::MAX));
}

#[test]
fn wide_reads_are_little_endian() {
    let map = two_segments();
    assert_eq!(map.read_u16(0x1000), Ok(0x2211));
    assert_eq!(map.read_u32(0x1000), Ok(0x4433_2211));
    assert_eq!(map.read_u64(0x1000), Ok(0x8877_6655_4433_2211));
    assert_eq!(map.read_u16(0x1001), Ok(0x3322));
    assert_eq!(map.read_u32(0x1003), Ok(0x7766_5544));
}

#[test]
fn wide_reads_concatenate_the_single_bytes() {
    let map = two_segments();
    for addr in [0x1000u64, 0x1002, 0x1006, 0x1008, 0x2000, 0x2011, 0x2038] {
        let byte = |k: u64| map.read_u8(addr + k).unwrap();
        let mut expected: u64 = 0;
        for k in (0..8).rev() {
            expected = expected << 8 | byte(k) as u64;
        }
        assert_eq!(map.read_u64(addr), Ok(expected));
        assert_eq!(map.read_u32(addr), Ok(expected as u32));
        assert_eq!(map.read_u16(addr), Ok(expected as u16));
    }
}

#[test]
fn wide_reads_run_into_the_zero_tail() {
    let map = two_segments();
    assert_eq!(map.read_u32(0x1006), Ok(0x0000_8877));
    assert_eq!(map.read_u64(0x1004), Ok(0x0000_0000_8877_6655));
    assert_eq!(map.read_u64(0x1008), Ok(0));
}

#[test]
fn xmmword_and_ymmword_hold_the_bytes_in_address_order() {
    let map = two_segments();
    let xmm = map.read_xmmword(0x2000).unwrap();
    let expected: Vec<u8> = (1..=16).collect();
    assert_eq!(xmm.to_bytes().to_vec(), expected);
    let ymm = map.read_ymmword(0x2008).unwrap();
    let expected: Vec<u8> = (9..=40).collect();
    assert_eq!(ymm.to_bytes().to_vec(), expected);
    for k in 0..32 {
        assert_eq!(Ok(ymm.i8(k)), map.read_u8(0x2008 + k as u64));
    }
    let padded = map.read_xmmword(0x1000).unwrap();
    assert_eq!(
        padded.to_bytes(),
        [0x11, 0x22, 0x33, 0x44, 0x55, 0x66, 0x77, 0x88, 0, 0, 0, 0, 0, 0, 0, 0]
    );
}

#[test]
fn a_read_that_straddles_the_end_of_a_segment_faults() {
    let map = two_segments();
    assert_eq!(map.read_u32(0x100E), segfault(0x100E));
    assert_eq!(map.read_u16(0x100F), segfault(0x100F));
    assert_eq!(map.read_u64(0x1009), segfault(0x1009));
    assert_eq!(map.read_u64(0x2039), segfault(0x2039));
    assert!(map.read_xmmword(0x1001).is_err());
    assert!(map.read_ymmword(0x2021).is_err());
    assert_eq!(map.read_u32(0x100C), Ok(0));
    assert!(map.read_ymmword(0x2020).is_ok());
}

#[test]
fn a_straddling_read_does_not_merge_adjacent_segments() {
    let low = segment(0x1000, 4, vec![1, 2, 3, 4]);
    let high = segment(0x1004, 4, vec![5, 6, 7, 8]);
    let map = ElfMemoryMap::new(vec![low, high], 64, 0);
    assert_eq!(map.read_u32(0x1000), Ok(0x0403_0201));
    assert_eq!(map.read_u32(0x1004), Ok(0x0807_0605));
    assert_eq!(map.read_u32(0x1002), segfault(0x1002));
    assert_eq!(map.read_u16(0x1003), segfault(0x1003));
}

#[test]
fn write_u8_then_read_u8_yields_the_byte() {
    let mut map = two_segments();
    for addr in [0x1000u64, 0x1007, 0x1008, 0x100F, 0x2000, 0x203F] {
        assert!(map.read_u8(addr).is_ok());
        assert_eq!(map.write_u8(addr, 0xA5), Ok(()));
        assert_eq!(map.read_u8(addr), Ok(0xA5));
    }
}

#[test]
fn every_width_round_trips() {
    let mut map = two_segments();
    assert_eq!(map.write_u16(0x2002, 0xBEEF), Ok(()));
    assert_eq!(map.read_u16(0x2002), Ok(0xBEEF));
    assert_eq!(map.write_u32(0x2010, 0xDEAD_BEEF), Ok(()));
    assert_eq!(map.read_u32(0x2010), Ok(0xDEAD_BEEF));
    assert_eq!(map.write_u64(0x2020, 0x0123_4567_89AB_CDEF), Ok(()));
    assert_eq!(map.read_u64(0x2020), Ok(0x0123_4567_89AB_CDEF));
    assert_eq!(map.write_u64(0x1008, 0xFEDC_BA98_7654_3210), Ok(()));
    assert_eq!(map.read_u64(0x1008), Ok(0xFEDC_BA98_7654_3210));
}

#[test]
fn writes_are_little_endian() {
    let mut map = two_segments();
    assert_eq!(map.write_u32(0x2000, 0x0A0B_0C0D), Ok(()));
    assert_eq!(map.read_u8(0x2000), Ok(0x0D));
    assert_eq!(map.read_u8(0x2001), Ok(0x0C));
    assert_eq!(map.read_u8(0x2002), Ok(0x0B));
    assert_eq!(map.read_u8(0x2003), Ok(0x0A));
    assert_eq!(map.write_u16(0x2004, 0x0102), Ok(()));
    assert_eq!(map.read_u8(0x2004), Ok(0x02));
    assert_eq!(map.read_u8(0x2005), Ok(0x01));
    assert_eq!(map.write_u64(0x2008, 0x0102_0304_0506_0708), Ok(()));
    assert_eq!(map.read_u8(0x2008), Ok(0x08));
    assert_eq!(map.read_u8(0x200F), Ok(0x01));
}

#[test]
fn a_write_touches_nothing_else() {
    let mut map = two_segments();
    assert_eq!(map.write_u16(0x1003, 0xFFFF), Ok(()));
    assert_eq!(map.read_u64(0x1000), Ok(0x8877_66FF_FF33_2211));
    assert_eq!(map.read_u64(0x1008), Ok(0));
    assert_eq!(map.read_u8(0x2000), Ok(1));
}

#[test]
fn a_write_into_the_zero_tail_leaves_the_gap_zero() {
    let mut map = two_segments();
    assert_eq!(map.write_u8(0x100D, 0x7E), Ok(()));
    assert_eq!(map.read_u8(0x100C), Ok(0));
    assert_eq!(map.read_u8(0x100D), Ok(0x7E));
    assert_eq!(map.read_u8(0x100E), Ok(0));
    assert_eq!(map.read_u64(0x1008), Ok(0x0000_7E00_0000_0000));
    assert_eq!(map.read_u64(0x1000), Ok(0x8877_6655_4433_2211));
}

#[test]
fn a_write_outside_or_across_a_segment_faults_and_changes_nothing() {
    let mut map = two_segments();
    assert_eq!(map.write_u8(0x3000, 1), segfault(0x3000));
    assert_eq!(map.write_u32(0x100E, 0xFFFF_FFFF), segfault(0x100E));
    assert_eq!(map.write_u64(0x203C, u64::MAX), segfault(0x203C));
    assert_eq!(map.write_u16(0x0FFF, 0xFFFF), segfault(0x0FFF));
    assert_eq!(map.read_u16(0x100E), Ok(0));
    assert_eq!(map.read_u32(0x203C), Ok(0x403F_3E3D));
    assert_eq!(map.read_u8(0x1000), Ok(0x11));
}

#[test]
fn the_first_segment_that_contains_an_address_answers() {
    let narrow = segment(0x1000, 2, vec![0xAA, 0xBB]);
    let wide = segment(0x1000, 8, vec![1, 2, 3, 4, 5, 6, 7, 8]);
    let mut map = ElfMemoryMap::new(vec![narrow, wide], 64, 0);
    assert_eq!(map.read_u8(0x1000), Ok(0xAA));
    assert_eq!(map.read_u8(0x1002), Ok(3));
    assert_eq!(map.read_u32(0x1000), segfault(0x1000));
    assert_eq!(map.read_u32(0x1002), Ok(0x0605_0403));
    assert_eq!(map.write_u8(0x1001, 0xCC), Ok(()));
    assert_eq!(map.read_u16(0x1000), Ok(0xCCAA));
}

#[test]
fn data_past_the_extent_is_out_of_reach() {
    let map = ElfMemoryMap::new(vec![segment(0x1000, 2, vec![1, 2, 3, 4])], 64, 0);
    assert_eq!(map.read_u16(0x1000), Ok(0x0201));
    assert_eq!(map.read_u8(0x1002), segfault(0x1002));
    assert_eq!(map.read_u32(0x1000), segfault(0x1000));
}

#[test]
fn an_empty_segment_contains_nothing() {
    let mut map = ElfMemoryMap::new(vec![segment(0x1000, 0, vec![])], 64, 0);
    assert_eq!(map.read_u8(0x1000), segfault(0x1000));
    assert_eq!(map.write_u8(0x1000, 1), segfault(0x1000));
}

#[test]
fn an_access_cannot_run_past_the_last_address() {
    let top = segment(u64::MAX - 3, 16, vec![1, 2, 3, 4, 5, 6, 7, 8]);
    let mut map = ElfMemoryMap::new(vec![top], 64, 0);
    assert_eq!(map.read_u8(u64::MAX), Ok(4));
    assert_eq!(map.read_u32(u64::MAX - 3), Ok(0x0403_0201));
    assert_eq!(map.read_u16(u64::MAX), segfault(u64::MAX));
    assert_eq!(map.read_u64(u64::MAX - 3), segfault(u64::MAX - 3));
    assert_eq!(map.write_u32(u64::MAX - 2, 1), segfault(u64::MAX - 2));
    assert_eq!(map.write_u16(u64::MAX - 1, 0xABCD), Ok(()));
    assert_eq!(map.read_u16(u64::MAX - 1), Ok(0xABCD));
}

#[test]
fn the_map_reports_what_it_was_made_with() {
    let map = ElfMemoryMap::new(vec![], 32, 0x0804_8000);
    assert_eq!(map.bits(), 32);
    assert_eq!(map.entry_point(), 0x0804_8000);
    assert_eq!(map.starting_stack(), 0x7FFF_FFF8);
    let map = two_segments();
    assert_eq!(map.bits(), 64);
    assert_eq!(map.entry_point(), 0x1000);
    assert_eq!(map.starting_stack(), 0x7FFF_FFF8);
}

#[test]
fn prefix_zeroed_takes_the_head_of_a_long_slice() {
    let bytes = [9u8, 8, 7, 6, 5, 4, 3, 2, 1];
    assert_eq!(prefix_zeroed::<4>(&bytes), [9, 8, 7, 6]);
    assert_eq!(prefix_zeroed::<1>(&bytes), [9]);
    assert_eq!(prefix_zeroed::<9>(&bytes), bytes);
    assert_eq!(prefix_zeroed::<0>(&bytes), []);
}

#[test]
fn prefix_zeroed_pads_a_short_slice_with_zeros() {
    assert_eq!(prefix_zeroed::<4>(&[0xAB, 0xCD]), [0xAB, 0xCD, 0, 0]);
    assert_eq!(prefix_zeroed::<8>(&[]), [0u8; 8]);
    assert_eq!(prefix_zeroed::<3>(&[1, 2]), [1, 2, 0]);
    assert_eq!(prefix_zeroed::<0>(&[]), []);
}
