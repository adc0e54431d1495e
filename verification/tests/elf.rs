use x86_emu::ByteSource;
use x86_emu::ElfError;
use x86_emu::ElfFile;
use x86_emu::ElfFileLoader;
use x86_emu::Fault;
use x86_emu::FileLoader;
use x86_emu::LoadableFile;
use x86_emu::MemoryMap;
use x86_emu::ReadSeek;

struct Ph {
    p_type: u32,
    flags: u32,
    vaddr: u64,
    paddr: u64,
    memsz: u64,
    align: u64,
    data: Vec<u8>,
}

fn load_segment(vaddr: u64, memsz: u64, data: Vec<u8>) -> Ph {
    Ph { p_type: 1, flags: 5, vaddr, paddr: vaddr, memsz, align: 0x1000, data }
}

fn ident(class: u8) -> Vec<u8> {
    vec![0x7F, 0x45, 0x4C, 0x46, class, 1, 1, 3, 9, 0, 0, 0, 0, 0, 0, 0]
}

fn elf64(machine: u16, entry: u64, phs: &[Ph]) -> Vec<u8> {
    let mut image = ident(2);
    image.extend_from_slice(&2u16.to_le_bytes());
    image.extend_from_slice(&machine.to_le_bytes());
    image.extend_from_slice(&1u32.to_le_bytes());
    image.extend_from_slice(&entry.to_le_bytes());
    image.extend_from_slice(&64u64.to_le_bytes());
    image.extend_from_slice(&0u64.to_le_bytes());
    image.extend_from_slice(&0x1234_5678u32.to_le_bytes());
    image.extend_from_slice(&64u16.to_le_bytes());
    image.extend_from_slice(&56u16.to_le_bytes());
    image.extend_from_slice(&(phs.len() as u16).to_le_bytes());
    image.extend_from_slice(&[0u8; 6]);
    assert_eq!(image.len(), 64);
    let mut offset = 64 + 56 * phs.len() as u64;
    for ph in phs {
        image.extend_from_slice(&ph.p_type.to_le_bytes());
        image.extend_from_slice(&ph.flags.to_le_bytes());
        image.extend_from_slice(&offset.to_le_bytes());
        image.extend_from_slice(&ph.vaddr.to_le_bytes());
        image.extend_from_slice(&ph.paddr.to_le_bytes());
        image.extend_from_slice(&(ph.data.len() as u64).to_le_bytes());
        image.extend_from_slice(&ph.memsz.to_le_bytes());
        image.extend_from_slice(&ph.align.to_le_bytes());
        offset += ph.data.len() as u64;
    }
    for ph in phs {
        image.extend_from_slice(&ph.data);
    }
    image
}

fn elf32(machine: u16, entry: u32, phs: &[Ph]) -> Vec<u8> {
    let mut image = ident(1);
    image.extend_from_slice(&2u16.to_le_bytes());
    image.extend_from_slice(&machine.to_le_bytes());
    image.extend_from_slice(&1u32.to_le_bytes());
    image.extend_from_slice(&entry.to_le_bytes());
    image.extend_from_slice(&52u32.to_le_bytes());
    image.extend_from_slice(&0u32.to_le_bytes());
    image.extend_from_slice(&0x0BAD_CAFEu32.to_le_bytes());
    image.extend_from_slice(&52u16.to_le_bytes());
    image.extend_from_slice(&32u16.to_le_bytes());
    image.extend_from_slice(&(phs.len() as u16).to_le_bytes());
    image.extend_from_slice(&[0u8; 6]);
    assert_eq!(image.len(), 52);
    let mut offset = 52 + 32 * phs.len() as u32;
    for ph in phs {
        image.extend_from_slice(&ph.p_type.to_le_bytes());
        image.extend_from_slice(&offset.to_le_bytes());
        image.extend_from_slice(&(ph.vaddr as u32).to_le_bytes());
        image.extend_from_slice(&(ph.paddr as u32).to_le_bytes());
        image.extend_from_slice(&(ph.data.len() as u32).to_le_bytes());
        image.extend_from_slice(&(ph.memsz as u32).to_le_bytes());
        image.extend_from_slice(&ph.flags.to_le_bytes());
        image.extend_from_slice(&(ph.align as u32).to_le_bytes());
        offset += ph.data.len() as u32;
    }
    for ph in phs {
        image.extend_from_slice(&ph.data);
    }
    image
}

fn load(image: Vec<u8>) -> Result<ElfFile, ElfError> {
    ElfFile::load(&mut ByteSource::new(image))
}

fn error_of(image: Vec<u8>) -> ElfError {
    match load(image) {
        Ok(_) => panic!("the file was loaded"),
        Err(error) => error,
    }
}

fn minimal() -> Vec<u8> {
    elf64(0x3E, 0x400000, &[load_segment(0x400000, 3, vec![0x0F, 0x1E, 0xFA])])
}

#[test]
fn can_load_takes_the_magic_and_the_version() {
    let loader = ElfFileLoader {};
    assert!(loader.can_load(&mut ByteSource::new(minimal())));
    assert!(loader.can_load(&mut ByteSource::new(vec![0x7F, 0x45, 0x4C, 0x46, 0xEE, 0xFF, 1])));
    assert!(loader.can_load(&mut ByteSource::new(elf32(3, 0, &[]))));
}

#[test]
fn can_load_refuses_other_files() {
    let loader = ElfFileLoader {};
    assert!(!loader.can_load(&mut ByteSource::new(vec![])));
    assert!(!loader.can_load(&mut ByteSource::new(vec![0x7F, 0x45, 0x4C, 0x46, 2, 1])));
    assert!(!loader.can_load(&mut ByteSource::new(vec![0x7F, 0x45, 0x4C, 0x46, 2, 1, 2])));
    assert!(!loader.can_load(&mut ByteSource::new(vec![0x7E, 0x45, 0x4C, 0x46, 2, 1, 1])));
    assert!(!loader.can_load(&mut ByteSource::new(vec![0x7F, 0x44, 0x4C, 0x46, 2, 1, 1])));
    assert!(!loader.can_load(&mut ByteSource::new(vec![0x7F, 0x45, 0x4D, 0x46, 2, 1, 1])));
    assert!(!loader.can_load(&mut ByteSource::new(vec![0x7F, 0x45, 0x4C, 0x47, 2, 1, 1])));
    assert!(!loader.can_load(&mut ByteSource::new(b"#!/bin/sh\n".to_vec())));
}

#[test]
fn can_load_leaves_the_source_at_its_start() {
    let loader = ElfFileLoader {};
    for image in [minimal(), vec![], vec![1, 2, 3], b"not an executable".to_vec()] {
        let mut source = ByteSource::new(image);
        loader.can_load(&mut source);
        assert_eq!(source.stream_position(), 0);
        source.seek(5);
        loader.can_load(&mut source);
        assert_eq!(source.stream_position(), 0);
    }
}

#[test]
fn can_load_does_not_depend_on_the_position() {
    let loader = ElfFileLoader {};
    let mut source = ByteSource::new(minimal());
    source.seek(40);
    assert!(loader.can_load(&mut source));
    source.seek(1_000_000);
    assert!(loader.can_load(&mut source));
}

#[test]
fn the_registry_finds_the_elf_loader() {
    let mut source = ByteSource::new(minimal());
    source.seek(17);
    assert!(source.loader().is_some());
    assert_eq!(source.stream_position(), 0);
    let mut other = ByteSource::new(b"MZ\x90\x00\x03\x00\x00\x00".to_vec());
    other.seek(2);
    assert!(other.loader().is_none());
    assert_eq!(other.stream_position(), 0);
}

#[test]
fn probe_returns_the_first_loader_that_can_load() {
    let loaders = [ElfFileLoader {}, ElfFileLoader {}];
    let mut source = ByteSource::new(minimal());
    assert_eq!(x86_emu::loader::probe(&loaders, &mut source), Some(0));
    let mut other = ByteSource::new(vec![0; 64]);
    assert_eq!(x86_emu::loader::probe(&loaders, &mut other), None);
    let none: [ElfFileLoader; 0] = [];
    source.seek(9);
    assert_eq!(x86_emu::loader::probe(&none, &mut source), None);
    assert_eq!(source.stream_position(), 9);
}

#[test]
fn a_64_bit_file_loads() {
    let file = load(minimal()).unwrap();
    assert_eq!(file.bits, 64);
    assert_eq!(file.abi, 3);
    assert_eq!(file.abiver, 9);
    assert_eq!(file.bin_type, 2);
    assert_eq!(file.isa, 0x3E);
    assert_eq!(file.flags, 0x1234_5678);
    assert_eq!(file.e_entry, 0x400000);
    assert_eq!(file.prghead.len(), 2);
    assert!(file.secthead.is_empty());
}

#[test]
fn the_loaded_map_holds_the_segment_and_the_stack() {
    let map = ElfFileLoader {}.load(&mut ByteSource::new(minimal())).ok().unwrap();
    assert_eq!(map.bits(), 64);
    assert_eq!(map.entry_point(), 0x400000);
    assert_eq!(map.starting_stack(), 0x7FFF_FFF8);
    assert_eq!(map.read_u8(0x400000), Ok(0x0F));
    assert_eq!(map.read_u8(0x400001), Ok(0x1E));
    assert_eq!(map.read_u8(0x400002), Ok(0xFA));
    assert_eq!(map.read_u8(0x400003), Err(Fault::SegmentationFault { addr: 0x400003 }));
    assert_eq!(map.read_u8(0x3FFFFF), Err(Fault::SegmentationFault { addr: 0x3FFFFF }));
}

#[test]
fn the_stack_spans_64_kib_of_zeros() {
    let mut map = ElfFileLoader {}.load(&mut ByteSource::new(minimal())).ok().unwrap();
    assert_eq!(map.read_u64(0x7FFF_0000), Ok(0));
    assert_eq!(map.read_u64(0x7FFF_FFF8), Ok(0));
    assert_eq!(map.read_u8(0x7FFF_FFFF), Ok(0));
    assert_eq!(map.read_u8(0x8000_0000), Err(Fault::SegmentationFault { addr: 0x8000_0000 }));
    assert_eq!(map.read_u8(0x7FFE_FFFF), Err(Fault::SegmentationFault { addr: 0x7FFE_FFFF }));
    assert_eq!(map.read_u64(0x7FFF_FFF9), Err(Fault::SegmentationFault { addr: 0x7FFF_FFF9 }));
    assert_eq!(map.write_u64(0x7FFF_FFF0, 0x1122_3344_5566_7788), Ok(()));
    assert_eq!(map.read_u64(0x7FFF_FFF0), Ok(0x1122_3344_5566_7788));
}

#[test]
fn the_load_leaves_the_source_at_its_start() {
    let mut source = ByteSource::new(minimal());
    source.seek(33);
    assert!(ElfFile::load(&mut source).is_ok());
    assert_eq!(source.stream_position(), 0);
    let mut broken = ByteSource::new(vec![0x7F, 0x45]);
    broken.seek(1);
    assert!(ElfFile::load(&mut broken).is_err());
    assert_eq!(broken.stream_position(), 0);
}

#[test]
fn memory_past_the_file_size_reads_as_zero() {
    let image = elf64(0x3E, 0x600000, &[load_segment(0x600000, 0x20, vec![1, 2, 3, 4])]);
    let mut map = ElfFileLoader {}.load(&mut ByteSource::new(image)).ok().unwrap();
    assert_eq!(map.read_u32(0x600000), Ok(0x0403_0201));
    assert_eq!(map.read_u8(0x600004), Ok(0));
    assert_eq!(map.read_u64(0x600018), Ok(0));
    assert_eq!(map.read_u8(0x60001F), Ok(0));
    assert_eq!(map.read_u8(0x600020), Err(Fault::SegmentationFault { addr: 0x600020 }));
    assert_eq!(map.write_u32(0x60001C, 0xCAFE_F00D), Ok(()));
    assert_eq!(map.read_u32(0x60001C), Ok(0xCAFE_F00D));
    assert_eq!(map.read_u32(0x600018), Ok(0));
}

#[test]
fn every_program_header_becomes_a_segment_in_order() {
    let image = elf64(
        0x3E,
        0x1000,
        &[
            load_segment(0x1000, 4, vec![0xA1, 0xA2, 0xA3, 0xA4]),
            Ph { p_type: 4, flags: 4, vaddr: 0x3000, paddr: 0, memsz: 2, align: 4, data: vec![0xB1, 0xB2] },
            load_segment(0x2000, 8, vec![0xC1]),
        ],
    );
    let file = load(image.clone()).unwrap();
    assert_eq!(file.prghead.len(), 4);
    let map = ElfFileLoader {}.load(&mut ByteSource::new(image)).ok().unwrap();
    assert_eq!(map.read_u32(0x1000), Ok(0xA4A3_A2A1));
    assert_eq!(map.read_u16(0x3000), Ok(0xB2B1));
    assert_eq!(map.read_u64(0x2000), Ok(0xC1));
    assert_eq!(map.read_u8(0x7FFF_8000), Ok(0));
}

#[test]
fn a_32_bit_file_loads_with_its_own_field_order() {
    let image = elf32(
        3,
        0x0804_8000,
        &[Ph {
            p_type: 1,
            flags: 6,
            vaddr: 0x0804_8000,
            paddr: 0x0804_8000,
            memsz: 0x10,
            align: 0x1000,
            data: vec![0xDE, 0xAD, 0xBE, 0xEF, 0x01],
        }],
    );
    let file = load(image.clone()).unwrap();
    assert_eq!(file.bits, 32);
    assert_eq!(file.isa, 3);
    assert_eq!(file.bin_type, 2);
    assert_eq!(file.flags, 0x0BAD_CAFE);
    assert_eq!(file.e_entry, 0x0804_8000);
    assert_eq!(file.prghead.len(), 2);
    let map = ElfFileLoader {}.load(&mut ByteSource::new(image)).ok().unwrap();
    assert_eq!(map.bits(), 32);
    assert_eq!(map.entry_point(), 0x0804_8000);
    assert_eq!(map.read_u32(0x0804_8000), Ok(0xEFBE_ADDE));
    assert_eq!(map.read_u8(0x0804_8004), Ok(1));
    assert_eq!(map.read_u8(0x0804_8005), Ok(0));
    assert_eq!(map.read_u8(0x0804_800F), Ok(0));
    assert_eq!(map.read_u8(0x0804_8010), Err(Fault::SegmentationFault { addr: 0x0804_8010 }));
    assert_eq!(map.read_u64(0x7FFF_0000), Ok(0));
}

#[test]
fn segments_keep_what_their_program_headers_say() {
    let image = elf64(
        0x3E,
        0x1000,
        &[Ph {
            p_type: 0x6474_E551,
            flags: 6,
            vaddr: 0x1000,
            paddr: 0x9000,
            memsz: 0x30,
            align: 0x10,
            data: vec![1, 2, 3],
        }],
    );
    let file = load(image).unwrap();
    let segment = &file.prghead[0];
    assert_eq!(segment.ph_type(), 0x6474_E551);
    assert_eq!(segment.flags(), 6);
    assert_eq!(segment.vaddr(), 0x1000);
    assert_eq!(segment.paddr(), 0x9000);
    assert_eq!(segment.memsz(), 0x30);
    assert_eq!(segment.align(), 0x10);
    let stack = &file.prghead[1];
    assert_eq!(stack.ph_type(), 0xFFFF_FFFF);
    assert_eq!(stack.flags(), 3);
    assert_eq!(stack.vaddr(), 0x7FFF_0000);
    assert_eq!(stack.paddr(), 0);
    assert_eq!(stack.memsz(), 0x10000);
    assert_eq!(stack.align(), 1);
}

#[test]
fn a_32_bit_segment_keeps_what_its_program_header_says() {
    let image = elf32(
        3,
        0,
        &[Ph {
            p_type: 7,
            flags: 0xA5A5_0004,
            vaddr: 0x8000_1000,
            paddr: 0x8000_2000,
            memsz: 0xFFFF_FFF0,
            align: 0x40,
            data: vec![9; 5],
        }],
    );
    let file = load(image).unwrap();
    let segment = &file.prghead[0];
    assert_eq!(segment.ph_type(), 7);
    assert_eq!(segment.flags(), 0xA5A5_0004);
    assert_eq!(segment.vaddr(), 0x8000_1000);
    assert_eq!(segment.paddr(), 0x8000_2000);
    assert_eq!(segment.memsz(), 0xFFFF_FFF0);
    assert_eq!(segment.align(), 0x40);
}

#[test]
fn a_file_without_program_headers_has_only_the_stack() {
    let file = load(elf64(0x3E, 0, &[])).unwrap();
    assert_eq!(file.prghead.len(), 1);
    let header_only: Vec<u8> = elf64(0x3E, 0, &[])[..58].to_vec();
    assert_eq!(load(header_only).unwrap().prghead.len(), 1);
    let header_only: Vec<u8> = elf32(3, 0, &[])[..46].to_vec();
    assert_eq!(load(header_only).unwrap().prghead.len(), 1);
}

#[test]
fn another_machine_is_rejected() {
    let image = elf64(0x28, 0x400000, &[load_segment(0x400000, 3, vec![0x0F, 0x1E, 0xFA])]);
    assert!(ElfFileLoader {}.can_load(&mut ByteSource::new(image.clone())));
    assert_eq!(error_of(image.clone()), ElfError::UnsupportedMachine { machine: 0x28 });
    assert_eq!(
        ElfFileLoader {}.load(&mut ByteSource::new(image)).err(),
        Some(ElfError::UnsupportedMachine { machine: 0x28 })
    );
    assert_eq!(error_of(elf32(0, 0, &[])), ElfError::UnsupportedMachine { machine: 0 });
}

#[test]
fn a_machine_that_contradicts_the_class_is_rejected() {
    assert_eq!(error_of(elf64(3, 0, &[])), ElfError::MachineMismatch { class: 2, machine: 3 });
    assert_eq!(
        error_of(elf32(0x3E, 0, &[])),
        ElfError::MachineMismatch { class: 1, machine: 0x3E }
    );
}

#[test]
fn a_wrong_magic_is_rejected() {
    for at in 0..4 {
        let mut image = minimal();
        image[at] ^= 0x20;
        assert_eq!(error_of(image), ElfError::BadMagic);
    }
}

#[test]
fn an_unknown_class_is_rejected() {
    let mut image = minimal();
    image[4] = 0;
    assert_eq!(error_of(image), ElfError::UnsupportedClass { class: 0 });
    let mut image = minimal();
    image[4] = 3;
    assert_eq!(error_of(image), ElfError::UnsupportedClass { class: 3 });
}

#[test]
fn a_big_endian_file_is_rejected() {
    let mut image = minimal();
    image[5] = 2;
    assert_eq!(error_of(image), ElfError::NotLittleEndian { data: 2 });
}

#[test]
fn a_wrong_version_is_rejected() {
    let mut image = minimal();
    image[6] = 0;
    assert_eq!(error_of(image), ElfError::BadVersion { version: 0 });
    let mut image = minimal();
    image[20] = 2;
    assert_eq!(error_of(image), ElfError::BadVersion { version: 2 });
    let mut image = minimal();
    image[23] = 1;
    assert_eq!(error_of(image), ElfError::BadVersion { version: 0x0100_0001 });
}

#[test]
fn the_first_defect_in_file_order_is_reported() {
    let mut image = elf64(0x28, 0, &[]);
    image[5] = 2;
    image[20] = 7;
    assert_eq!(error_of(image.clone()), ElfError::NotLittleEndian { data: 2 });
    image[5] = 1;
    assert_eq!(error_of(image.clone()), ElfError::UnsupportedMachine { machine: 0x28 });
    image[18] = 0x3E;
    assert_eq!(error_of(image.clone()), ElfError::BadVersion { version: 7 });
    image[0] = 0;
    assert_eq!(error_of(image), ElfError::BadMagic);
}

#[test]
fn a_truncated_header_is_rejected() {
    let image = minimal();
    for len in [0, 1, 7, 15, 16, 19, 20, 23, 24, 57] {
        assert_eq!(error_of(image[..len].to_vec()), ElfError::Truncated);
    }
    let image = elf32(3, 0, &[]);
    for len in [15, 19, 23, 45] {
        assert_eq!(error_of(image[..len].to_vec()), ElfError::Truncated);
    }
    let arm = elf64(0x28, 0, &[]);
    assert_eq!(error_of(arm[..20].to_vec()), ElfError::UnsupportedMachine { machine: 0x28 });
}

#[test]
fn a_truncated_program_header_or_segment_is_rejected() {
    let image = minimal();
    let whole = image.len();
    assert_eq!(whole, 64 + 56 + 3);
    for len in [58, 64, 100, 119, 120, 122] {
        assert_eq!(error_of(image[..len].to_vec()), ElfError::Truncated);
    }
    assert!(load(image[..whole].to_vec()).is_ok());
    let mut far = minimal();
    far[32..40].copy_from_slice(&u64::MAX.to_le_bytes());
    assert_eq!(error_of(far), ElfError::Truncated);
    let mut huge = minimal();
    huge[64 + 32..64 + 40].copy_from_slice(&u64::MAX.to_le_bytes());
    assert_eq!(error_of(huge), ElfError::Truncated);
    let mut beyond = minimal();
    beyond[64 + 8..64 + 16].copy_from_slice(&(u64::MAX - 1).to_le_bytes());
    assert_eq!(error_of(beyond), ElfError::Truncated);
}

#[test]
fn program_headers_are_found_at_the_offset_that_the_header_gives() {
    let mut image = minimal();
    let headers: Vec<u8> = image[64..120].to_vec();
    image.extend_from_slice(&[0xEE; 5]);
    let moved = image.len() as u64;
    image.extend_from_slice(&headers);
    image[32..40].copy_from_slice(&moved.to_le_bytes());
    let map = ElfFileLoader {}.load(&mut ByteSource::new(image)).ok().unwrap();
    assert_eq!(map.read_u8(0x400002), Ok(0xFA));
}
