use rkbpf::bytecode::{BpfInsn, BpfProgType};
use rkbpf::loader::elf::ElfParser;
use rkbpf::loader::error::LoadError;
use rkbpf::loader::object::{
    extract_instructions, serialize_instructions, BpfObject, LoadedMap, LoadedProgram,
};
use rkbpf::loader::reloc::helper_name_to_id;
use rkbpf::maps::{MapDef, MapType};

fn minimal_bpf_elf() -> Vec<u8> {
    let mut data = vec![0u8; 128];

    data[0..4].copy_from_slice(&[0x7f, b'E', b'L', b'F']);
    data[4] = 2; // 64-bit
    data[5] = 1; // little endian
    data[6] = 1;
    data[18..20].copy_from_slice(&247u16.to_le_bytes());
    data[40..48].copy_from_slice(&64u64.to_le_bytes());
    data[60..62].copy_from_slice(&1u16.to_le_bytes());
    data[62..64].copy_from_slice(&0u16.to_le_bytes());

    data
}

#[test]
fn parse_minimal_elf() {
    let data = minimal_bpf_elf();
    let parser = ElfParser::new(&data);
    assert!(parser.is_ok());
}

#[test]
fn reject_invalid_magic() {
    let mut data = minimal_bpf_elf();
    data[0] = 0x00;
    let result = ElfParser::new(&data);
    assert!(matches!(result, Err(LoadError::InvalidMagic)));
}

#[test]
fn reject_32bit_elf() {
    let mut data = minimal_bpf_elf();
    data[4] = 1;
    let result = ElfParser::new(&data);
    assert!(matches!(result, Err(LoadError::UnsupportedClass)));
}

#[test]
fn reject_non_bpf_machine() {
    let mut data = minimal_bpf_elf();
    data[18..20].copy_from_slice(&62u16.to_le_bytes());
    let result = ElfParser::new(&data);
    assert!(matches!(result, Err(LoadError::UnsupportedMachine)));
}

#[test]
fn reject_too_small() {
    let data = [0u8; 32];
    let result = ElfParser::new(&data);
    assert!(matches!(result, Err(LoadError::ElfTooSmall)));
}

#[test]
fn reject_bad_endian() {
    let mut data = minimal_bpf_elf();
    data[5] = 3;
    let result = ElfParser::new(&data);
    assert!(matches!(result, Err(LoadError::UnsupportedEndian)));
}

#[test]
fn loaded_program_basics() {
    let insns = vec![BpfInsn::mov64_imm(0, 42), BpfInsn::exit()];
    let prog = LoadedProgram::new(
        "test_prog".to_string(),
        BpfProgType::SocketFilter,
        insns.clone(),
    );

    assert_eq!(prog.name(), "test_prog");
    assert_eq!(prog.prog_type(), BpfProgType::SocketFilter);
    assert_eq!(prog.insn_count(), 2);
    assert_eq!(prog.insns().as_slice(), &insns[..]);
}

#[test]
fn bpf_object_basics() {
    let programs = vec![LoadedProgram::new(
        "prog1".to_string(),
        BpfProgType::SocketFilter,
        vec![],
    )];

    let maps = vec![LoadedMap {
        name: "map1".to_string(),
        def: MapDef::new(MapType::Array, 4, 8, 100),
    }];

    let obj = BpfObject::new(programs, maps, Some("GPL".to_string()));

    assert_eq!(obj.program_count(), 1);
    assert_eq!(obj.map_count(), 1);
    assert_eq!(obj.license().as_deref(), Some("GPL"));

    assert!(obj.program("prog1").is_some());
    assert!(obj.program("nonexistent").is_none());
    assert!(obj.map("map1").is_some());
}

#[test]
fn helper_name_mapping() {
    assert_eq!(helper_name_to_id("bpf_map_lookup_elem"), Some(1));
    assert_eq!(helper_name_to_id("bpf_ktime_get_ns"), Some(5));
    assert_eq!(helper_name_to_id("bpf_ringbuf_output"), Some(130));
    assert_eq!(helper_name_to_id("bpf_motor_emergency_stop"), Some(200));
    assert_eq!(helper_name_to_id("unknown_helper"), None);
}

#[test]
fn insn_stream_round_trip() {
    // instruction bytes -> records -> bytes reproduces the stream exactly
    let insns = vec![
        BpfInsn::mov64_imm(0, 42),
        BpfInsn::add64_imm(0, -5),
        BpfInsn::mov64_reg(3, 4),
        BpfInsn::call(201),
        BpfInsn::exit(),
    ];
    let bytes = serialize_instructions(&insns);
    assert_eq!(bytes.len(), 40);
    let parsed = extract_instructions(&bytes).unwrap();
    assert_eq!(parsed, insns);
    let again = serialize_instructions(&parsed);
    assert_eq!(again, bytes);
}

#[test]
fn insn_stream_rejects_ragged_bytes() {
    let bytes = [0u8; 12];
    assert_eq!(
        extract_instructions(&bytes).unwrap_err(),
        LoadError::InvalidInstructionData
    );
}

#[test]
fn map_type_vocabulary() {
    assert_eq!(MapType::from_code(1), Some(MapType::Hash));
    assert_eq!(MapType::from_code(2), Some(MapType::Array));
    assert_eq!(MapType::from_code(27), Some(MapType::RingBuf));
    assert_eq!(MapType::from_code(29), None);
}

#[test]
fn find_license_in_object() {
    // an ELF with one license section: section 0 is the shstrtab itself
    let mut data = vec![0u8; 400];
    data[0..4].copy_from_slice(&[0x7f, b'E', b'L', b'F']);
    data[4] = 2;
    data[5] = 1;
    data[18..20].copy_from_slice(&247u16.to_le_bytes());
    data[40..48].copy_from_slice(&64u64.to_le_bytes()); // section headers at 64
    data[60..62].copy_from_slice(&2u16.to_le_bytes()); // two sections
    data[62..64].copy_from_slice(&0u16.to_le_bytes()); // shstrtab is section 0

    // section 0: the string table, type 3, at 192, size 10: "\0license\0"
    let sh0 = 64;
    data[sh0..sh0 + 4].copy_from_slice(&0u32.to_le_bytes()); // name
    data[sh0 + 4..sh0 + 8].copy_from_slice(&3u32.to_le_bytes()); // type strtab
    data[sh0 + 24..sh0 + 32].copy_from_slice(&192u64.to_le_bytes());
    data[sh0 + 32..sh0 + 40].copy_from_slice(&9u64.to_le_bytes());
    data[192..201].copy_from_slice(b"\0license\0");

    // section 1: progbits named "license" (offset 1 in shstrtab), at 208, size 4: "GPL\0"
    let sh1 = 128;
    data[sh1..sh1 + 4].copy_from_slice(&1u32.to_le_bytes());
    data[sh1 + 4..sh1 + 8].copy_from_slice(&1u32.to_le_bytes()); // progbits
    data[sh1 + 24..sh1 + 32].copy_from_slice(&208u64.to_le_bytes());
    data[sh1 + 32..sh1 + 40].copy_from_slice(&4u64.to_le_bytes());
    data[208..212].copy_from_slice(b"GPL\0");

    let parser = ElfParser::new(&data).unwrap();
    let license = parser.find_license().unwrap();
    assert_eq!(license.as_deref(), Some("GPL"));
}

#[test]
fn object_name_listings_and_take() {
    let programs = vec![
        LoadedProgram::new("a".to_string(), BpfProgType::Kprobe, vec![BpfInsn::exit()]),
        LoadedProgram::new("b".to_string(), BpfProgType::Xdp, vec![BpfInsn::exit()]),
    ];
    let maps = vec![LoadedMap {
        name: "events".to_string(),
        def: MapDef::new(MapType::RingBuf, 0, 0, 65536),
    }];
    let mut obj = BpfObject::new(programs, maps, None);
    assert_eq!(obj.program_names(), vec!["a".to_string(), "b".to_string()]);
    assert_eq!(obj.map_names(), vec!["events".to_string()]);
    let taken = obj.take_program("a").unwrap();
    assert_eq!(taken.name(), "a");
    assert_eq!(obj.program_count(), 1);
    assert!(obj.take_program("a").is_none());
    assert_eq!(taken.into_insns(), vec![BpfInsn::exit()]);
}
