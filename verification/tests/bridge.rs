use rkbpf::abi::BpfAttr;
use rkbpf::heapsize::HeapSizes;
use rkbpf::publish::{OutputFormat, PublisherConfig};
use rkbpf::syscall::{decode_bpf_command, BpfCommand, SYS_ERR};

#[test]
fn test_format_conversion() {
    assert!(matches!(OutputFormat::from_name("json"), Some(OutputFormat::Json)));
    assert!(matches!(
        OutputFormat::from_name("json-lines"),
        Some(OutputFormat::JsonLines)
    ));
    assert!(matches!(OutputFormat::from_name("text"), Some(OutputFormat::Text)));
    assert!(OutputFormat::from_name("yaml").is_none());
    assert!(OutputFormat::from_name("").is_none());
}

#[test]
fn test_publisher_config_default() {
    let config = PublisherConfig::default();
    assert_eq!(config.topic, "/rk/events");
    assert_eq!(config.rate_limit, 0);
}

#[test]
fn syscall_decode_map_create() {
    let mut attr = BpfAttr::new_zeroed();
    attr.prog_type = 27; // the map type rides in prog_type
    attr.insn_cnt = 4; // the key size rides in insn_cnt
    attr.insns = (1024u64 << 32) | 8; // max entries and value size packed
    let cmd = decode_bpf_command(0, &attr).unwrap();
    assert_eq!(
        cmd,
        BpfCommand::MapCreate { map_type: 27, key_size: 4, value_size: 8, max_entries: 1024 }
    );
}

#[test]
fn syscall_decode_prog_load_bounds() {
    let mut attr = BpfAttr::new_zeroed();
    attr.insns = 0x1000;
    attr.insn_cnt = 2;
    assert_eq!(
        decode_bpf_command(5, &attr).unwrap(),
        BpfCommand::ProgLoad { insns_ptr: 0x1000, insn_cnt: 2 }
    );
    attr.insn_cnt = 5000;
    assert_eq!(decode_bpf_command(5, &attr).unwrap_err(), SYS_ERR);
    attr.insn_cnt = 0;
    assert_eq!(decode_bpf_command(5, &attr).unwrap_err(), SYS_ERR);
    attr.insn_cnt = 2;
    attr.insns = 0;
    assert_eq!(decode_bpf_command(5, &attr).unwrap_err(), SYS_ERR);
}

#[test]
fn syscall_decode_rejects_null_keys_and_unknown_commands() {
    let attr = BpfAttr::new_zeroed();
    assert_eq!(decode_bpf_command(1, &attr).unwrap_err(), SYS_ERR);
    assert_eq!(decode_bpf_command(3, &attr).unwrap_err(), SYS_ERR);
    assert_eq!(decode_bpf_command(99, &attr).unwrap_err(), SYS_ERR);
    let mut attr2 = BpfAttr::new_zeroed();
    attr2.key = 0x2000;
    attr2.value = 0x3000;
    attr2.map_fd = 7;
    assert_eq!(
        decode_bpf_command(1, &attr2).unwrap(),
        BpfCommand::MapLookup { map_id: 7, key_ptr: 0x2000, value_ptr: 0x3000 }
    );
}

#[test]
fn heap_sizes_follow_ram() {
    // 8 GiB of RAM: the initial heap is 8 MiB, the total 32 MiB
    let s = HeapSizes::from_physical_memory(8 * 1024 * 1024 * 1024);
    assert_eq!(s.initial(), 8 * 1024 * 1024);
    assert_eq!(s.total(), 32 * 1024 * 1024);
    // tiny RAM still clamps up to the 2 MiB floor and keeps a gap
    let t = HeapSizes::from_physical_memory(1024 * 1024);
    assert_eq!(t.initial(), 2 * 1024 * 1024);
    assert_eq!(t.total(), 4 * 1024 * 1024);
    // both sizes are whole 2 MiB units
    assert_eq!(s.initial() % (2 * 1024 * 1024), 0);
    assert_eq!(s.total() % (2 * 1024 * 1024), 0);
}
