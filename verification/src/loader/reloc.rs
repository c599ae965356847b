//! Relocation handling: map-reference and helper-call patches.
//!
//! Two relocation types are honored: a map reference (type 1) patches the
//! wide load's immediate with the map's index and sets the source nibble to
//! the map-reference sentinel 1; a helper call (type 10) patches the call's
//! immediate with the helper id from the fixed name table. Unknown helper
//! names are left intact; other relocation types are ignored.

use vstd::prelude::*;
use crate::bytecode::BpfInsn;
use crate::loader::error::{LoadError, LoadResult};
use crate::loader::elf::{spec_table_name, ElfParser};
use crate::loader::object::{spec_find_map, LoadedMap};

verus! {

/// The fixed helper-name table: standard eBPF helpers 1..=50, ring-buffer
/// helpers 130..=134, and the robotics-private range 200..=202.
pub open spec fn spec_helper_id(s: Seq<char>) -> Option<i32> {
    if s == "bpf_map_lookup_elem"@ {
        Some(1i32)
    } else if s == "bpf_map_update_elem"@ {
        Some(2i32)
    } else if s == "bpf_map_delete_elem"@ {
        Some(3i32)
    } else if s == "bpf_probe_read"@ {
        Some(4i32)
    } else if s == "bpf_ktime_get_ns"@ {
        Some(5i32)
    } else if s == "bpf_trace_printk"@ {
        Some(6i32)
    } else if s == "bpf_get_prandom_u32"@ {
        Some(7i32)
    } else if s == "bpf_get_smp_processor_id"@ {
        Some(8i32)
    } else if s == "bpf_skb_store_bytes"@ {
        Some(9i32)
    } else if s == "bpf_l3_csum_replace"@ {
        Some(10i32)
    } else if s == "bpf_l4_csum_replace"@ {
        Some(11i32)
    } else if s == "bpf_tail_call"@ {
        Some(12i32)
    } else if s == "bpf_clone_redirect"@ {
        Some(13i32)
    } else if s == "bpf_get_current_pid_tgid"@ {
        Some(14i32)
    } else if s == "bpf_get_current_uid_gid"@ {
        Some(15i32)
    } else if s == "bpf_get_current_comm"@ {
        Some(16i32)
    } else if s == "bpf_get_cgroup_classid"@ {
        Some(17i32)
    } else if s == "bpf_skb_vlan_push"@ {
        Some(18i32)
    } else if s == "bpf_skb_vlan_pop"@ {
        Some(19i32)
    } else if s == "bpf_skb_get_tunnel_key"@ {
        Some(20i32)
    } else if s == "bpf_skb_set_tunnel_key"@ {
        Some(21i32)
    } else if s == "bpf_perf_event_read"@ {
        Some(22i32)
    } else if s == "bpf_redirect"@ {
        Some(23i32)
    } else if s == "bpf_get_route_realm"@ {
        Some(24i32)
    } else if s == "bpf_perf_event_output"@ {
        Some(25i32)
    } else if s == "bpf_skb_load_bytes"@ {
        Some(26i32)
    } else if s == "bpf_get_stackid"@ {
        Some(27i32)
    } else if s == "bpf_csum_diff"@ {
        Some(28i32)
    } else if s == "bpf_skb_get_tunnel_opt"@ {
        Some(29i32)
    } else if s == "bpf_skb_set_tunnel_opt"@ {
        Some(30i32)
    } else if s == "bpf_skb_change_proto"@ {
        Some(31i32)
    } else if s == "bpf_skb_change_type"@ {
        Some(32i32)
    } else if s == "bpf_skb_under_cgroup"@ {
        Some(33i32)
    } else if s == "bpf_get_hash_recalc"@ {
        Some(34i32)
    } else if s == "bpf_get_current_task"@ {
        Some(35i32)
    } else if s == "bpf_probe_write_user"@ {
        Some(36i32)
    } else if s == "bpf_current_task_under_cgroup"@ {
        Some(37i32)
    } else if s == "bpf_skb_change_tail"@ {
        Some(38i32)
    } else if s == "bpf_skb_pull_data"@ {
        Some(39i32)
    } else if s == "bpf_csum_update"@ {
        Some(40i32)
    } else if s == "bpf_set_hash_invalid"@ {
        Some(41i32)
    } else if s == "bpf_get_numa_node_id"@ {
        Some(42i32)
    } else if s == "bpf_skb_change_head"@ {
        Some(43i32)
    } else if s == "bpf_xdp_adjust_head"@ {
        Some(44i32)
    } else if s == "bpf_probe_read_str"@ {
        Some(45i32)
    } else if s == "bpf_get_socket_cookie"@ {
        Some(46i32)
    } else if s == "bpf_get_socket_uid"@ {
        Some(47i32)
    } else if s == "bpf_set_hash"@ {
        Some(48i32)
    } else if s == "bpf_setsockopt"@ {
        Some(49i32)
    } else if s == "bpf_skb_adjust_room"@ {
        Some(50i32)
    } else if s == "bpf_ringbuf_output"@ {
        Some(130i32)
    } else if s == "bpf_ringbuf_reserve"@ {
        Some(131i32)
    } else if s == "bpf_ringbuf_submit"@ {
        Some(132i32)
    } else if s == "bpf_ringbuf_discard"@ {
        Some(133i32)
    } else if s == "bpf_ringbuf_query"@ {
        Some(134i32)
    } else if s == "bpf_motor_emergency_stop"@ {
        Some(200i32)
    } else if s == "bpf_timeseries_push"@ {
        Some(201i32)
    } else if s == "bpf_sensor_last_timestamp"@ {
        Some(202i32)
    } else {
        None
    }
}

/// Looks a helper name up in the fixed table.
pub fn helper_name_to_id(name: &str) -> (r: Option<i32>)
    ensures
        r == spec_helper_id(name@),
{
    let nm = String::from_str(name);
    if nm == String::from_str("bpf_map_lookup_elem") {
        Some(1)
    } else if nm == String::from_str("bpf_map_update_elem") {
            Some(2)
        } else if nm == String::from_str("bpf_map_delete_elem") {
            Some(3)
        } else if nm == String::from_str("bpf_probe_read") {
            Some(4)
        } else if nm == String::from_str("bpf_ktime_get_ns") {
            Some(5)
        } else if nm == String::from_str("bpf_trace_printk") {
            Some(6)
        } else if nm == String::from_str("bpf_get_prandom_u32") {
            Some(7)
        } else if nm == String::from_str("bpf_get_smp_processor_id") {
            Some(8)
        } else if nm == String::from_str("bpf_skb_store_bytes") {
            Some(9)
        } else if nm == String::from_str("bpf_l3_csum_replace") {
            Some(10)
        } else if nm == String::from_str("bpf_l4_csum_replace") {
            Some(11)
        } else if nm == String::from_str("bpf_tail_call") {
            Some(12)
        } else if nm == String::from_str("bpf_clone_redirect") {
            Some(13)
        } else if nm == String::from_str("bpf_get_current_pid_tgid") {
            Some(14)
        } else if nm == String::from_str("bpf_get_current_uid_gid") {
            Some(15)
        } else if nm == String::from_str("bpf_get_current_comm") {
            Some(16)
        } else if nm == String::from_str("bpf_get_cgroup_classid") {
            Some(17)
        } else if nm == String::from_str("bpf_skb_vlan_push") {
            Some(18)
        } else if nm == String::from_str("bpf_skb_vlan_pop") {
            Some(19)
        } else if nm == String::from_str("bpf_skb_get_tunnel_key") {
            Some(20)
        } else if nm == String::from_str("bpf_skb_set_tunnel_key") {
            Some(21)
        } else if nm == String::from_str("bpf_perf_event_read") {
            Some(22)
        } else if nm == String::from_str("bpf_redirect") {
            Some(23)
        } else if nm == String::from_str("bpf_get_route_realm") {
            Some(24)
        } else if nm == String::from_str("bpf_perf_event_output") {
            Some(25)
        } else if nm == String::from_str("bpf_skb_load_bytes") {
            Some(26)
        } else if nm == String::from_str("bpf_get_stackid") {
            Some(27)
        } else if nm == String::from_str("bpf_csum_diff") {
            Some(28)
        } else if nm == String::from_str("bpf_skb_get_tunnel_opt") {
            Some(29)
        } else if nm == String::from_str("bpf_skb_set_tunnel_opt") {
            Some(30)
        } else if nm == String::from_str("bpf_skb_change_proto") {
            Some(31)
        } else if nm == String::from_str("bpf_skb_change_type") {
            Some(32)
        } else if nm == String::from_str("bpf_skb_under_cgroup") {
            Some(33)
        } else if nm == String::from_str("bpf_get_hash_recalc") {
            Some(34)
        } else if nm == String::from_str("bpf_get_current_task") {
            Some(35)
        } else if nm == String::from_str("bpf_probe_write_user") {
            Some(36)
        } else if nm == String::from_str("bpf_current_task_under_cgroup") {
            Some(37)
        } else if nm == String::from_str("bpf_skb_change_tail") {
            Some(38)
        } else if nm == String::from_str("bpf_skb_pull_data") {
            Some(39)
        } else if nm == String::from_str("bpf_csum_update") {
            Some(40)
        } else if nm == String::from_str("bpf_set_hash_invalid") {
            Some(41)
        } else if nm == String::from_str("bpf_get_numa_node_id") {
            Some(42)
        } else if nm == String::from_str("bpf_skb_change_head") {
            Some(43)
        } else if nm == String::from_str("bpf_xdp_adjust_head") {
            Some(44)
        } else if nm == String::from_str("bpf_probe_read_str") {
            Some(45)
        } else if nm == String::from_str("bpf_get_socket_cookie") {
            Some(46)
        } else if nm == String::from_str("bpf_get_socket_uid") {
            Some(47)
        } else if nm == String::from_str("bpf_set_hash") {
            Some(48)
        } else if nm == String::from_str("bpf_setsockopt") {
            Some(49)
        } else if nm == String::from_str("bpf_skb_adjust_room") {
            Some(50)
        } else if nm == String::from_str("bpf_ringbuf_output") {
            Some(130)
        } else if nm == String::from_str("bpf_ringbuf_reserve") {
            Some(131)
        } else if nm == String::from_str("bpf_ringbuf_submit") {
            Some(132)
        } else if nm == String::from_str("bpf_ringbuf_discard") {
            Some(133)
        } else if nm == String::from_str("bpf_ringbuf_query") {
            Some(134)
        } else if nm == String::from_str("bpf_motor_emergency_stop") {
            Some(200)
        } else if nm == String::from_str("bpf_timeseries_push") {
            Some(201)
        } else if nm == String::from_str("bpf_sensor_last_timestamp") {
            Some(202)
    } else {
        None
    }
}

/// One map-reference patch: the instruction's immediate becomes the map
/// index, its source nibble becomes the sentinel 1, and the second slot of a
/// wide load has its immediate zeroed.
pub open spec fn spec_map_patch(insns: Seq<BpfInsn>, idx: int, mi: int) -> Seq<BpfInsn> {
    let insn = insns[idx];
    let p1 = insns.update(
        idx,
        BpfInsn {
            opcode: insn.opcode,
            regs: ((insn.regs & 0x0f) | 0x10) as u8,
            offset: insn.offset,
            imm: mi as i32,
        },
    );
    if idx + 1 < insns.len() && insn.opcode == 0x18 {
        p1.update(
            idx + 1,
            BpfInsn {
                opcode: p1[idx + 1].opcode,
                regs: p1[idx + 1].regs,
                offset: p1[idx + 1].offset,
                imm: 0i32,
            },
        )
    } else {
        p1
    }
}

/// One helper-call patch: the instruction's immediate becomes the helper id.
pub open spec fn spec_call_patch(insns: Seq<BpfInsn>, idx: int, id: i32) -> Seq<BpfInsn> {
    let insn = insns[idx];
    insns.update(
        idx,
        BpfInsn { opcode: insn.opcode, regs: insn.regs, offset: insn.offset, imm: id },
    )
}

/// The whole relocation pass over `rels`, from entry `i` on: each record
/// resolves its symbol name from the string table and patches its target
/// instruction — a map reference (type 1) writes the named map's index and
/// the sentinel nibble, a helper call (type 10) writes the helper id (an
/// unknown name patches nothing), and every other type is ignored. A target
/// outside the program, a symbol index outside the table, an unresolvable
/// name, or a map name not in the table stops the pass with its error.
pub open spec fn spec_apply_relocs(
    maps: Seq<LoadedMap>,
    data: Seq<u8>,
    strtab: Option<(usize, usize)>,
    syms: Seq<crate::loader::elf::Symbol>,
    insns: Seq<BpfInsn>,
    rels: Seq<crate::loader::elf::Relocation>,
    i: int,
) -> Result<Seq<BpfInsn>, LoadError>
    decreases rels.len() - i,
{
    if i < 0 || i >= rels.len() {
        Ok(insns)
    } else {
        let rel = rels[i];
        let idx = rel.offset as int / 8;
        if idx >= insns.len() {
            Err(LoadError::InvalidRelocation)
        } else if rel.sym_idx as int >= syms.len() {
            Err(LoadError::UndefinedSymbol)
        } else {
            match spec_table_name(data, strtab, syms[rel.sym_idx as int].name_offset as int) {
                None => Err(LoadError::InvalidStringTable),
                Some(nm) => if rel.rel_type == 1 {
                    match spec_find_map(maps, nm, 0) {
                        Some(mi) => spec_apply_relocs(
                            maps,
                            data,
                            strtab,
                            syms,
                            spec_map_patch(insns, idx, mi),
                            rels,
                            i + 1,
                        ),
                        None => Err(LoadError::UndefinedSymbol),
                    }
                } else if rel.rel_type == 10 {
                    match crate::loader::reloc::spec_helper_id(nm) {
                        Some(id) => spec_apply_relocs(
                            maps,
                            data,
                            strtab,
                            syms,
                            spec_call_patch(insns, idx, id),
                            rels,
                            i + 1,
                        ),
                        None => spec_apply_relocs(maps, data, strtab, syms, insns, rels, i + 1),
                    }
                } else {
                    spec_apply_relocs(maps, data, strtab, syms, insns, rels, i + 1)
                },
            }
        }
    }
}

/// The relocation handler, holding the object's map table for symbol
/// lookups.
pub struct Relocator<'a> {
    maps: &'a Vec<LoadedMap>,
}

impl<'a> Relocator<'a> {
    /// The map table.
    pub closed spec fn spec_maps(&self) -> Seq<LoadedMap> {
        self.maps@
    }

    /// A relocator over the given map table.
    pub fn new(maps: &'a Vec<LoadedMap>) -> (r: Self)
        ensures
            r.spec_maps() == maps@,
    {
        Relocator { maps }
    }

    /// Patches a map reference: writes the index of the map named
    /// `sym_name` into the instruction's immediate and sets the source
    /// nibble to the sentinel 1; the second slot of a wide load is zeroed.
    /// Fails exactly when no map has that name.
    fn relocate_map_ref(&self, insns: &mut Vec<BpfInsn>, insn_idx: usize, sym_name: &String) -> (r:
        LoadResult<()>)
        requires
            insn_idx < old(insns)@.len(),
            old(insns)@.len() <= 0x100000,
            self.spec_maps().len() <= 0x10000,
        ensures
            match spec_find_map(self.spec_maps(), sym_name@, 0) {
                Some(mi) => r is Ok && final(insns)@ == spec_map_patch(
                    old(insns)@,
                    insn_idx as int,
                    mi,
                ),
                None => r == Err::<(), LoadError>(LoadError::UndefinedSymbol) && *final(insns)
                    == *old(insns),
            },
            final(insns)@.len() == old(insns)@.len(),
    {
        let nmaps = self.maps.len();
        let mut mi: usize = 0;
        while mi < nmaps
            invariant
                mi <= nmaps,
                nmaps == self.spec_maps().len(),
                nmaps <= 0x10000,
                insn_idx < insns@.len(),
                insns@.len() <= 0x100000,
                *insns == *old(insns),
                spec_find_map(self.spec_maps(), sym_name@, 0) == spec_find_map(
                    self.spec_maps(),
                    sym_name@,
                    mi as int,
                ),
            decreases nmaps - mi,
        {
            if *self.maps[mi].name() == *sym_name {
                let insn = insns[insn_idx];
                let new_regs = (insn.regs & 0x0f) | 0x10;
                let new_insn = BpfInsn {
                    opcode: insn.opcode,
                    regs: new_regs,
                    offset: insn.offset,
                    imm: mi as i32,
                };
                insns.set(insn_idx, new_insn);
                if insn_idx + 1 < insns.len() && insn.opcode == 0x18 {
                    let next = insns[insn_idx + 1];
                    insns.set(
                        insn_idx + 1,
                        BpfInsn { opcode: next.opcode, regs: next.regs, offset: next.offset, imm: 0 },
                    );
                }
                proof {
                    assert(spec_find_map(self.spec_maps(), sym_name@, 0) == Some(mi as int));
                    assert(insns@ =~= spec_map_patch(old(insns)@, insn_idx as int, mi as int));
                }
                return Ok(());
            }
            mi = mi + 1;
        }
        Err(LoadError::UndefinedSymbol)
    }

    /// Patches a helper call: writes the helper id of `sym_name` into the
    /// immediate; an unknown name leaves the instruction intact.
    fn relocate_call(&self, insns: &mut Vec<BpfInsn>, insn_idx: usize, sym_name: &String) -> (r:
        LoadResult<()>)
        requires
            insn_idx < old(insns)@.len(),
        ensures
            r is Ok,
            final(insns)@.len() == old(insns)@.len(),
            match spec_helper_id(sym_name@) {
                Some(id) => final(insns)@ == spec_call_patch(old(insns)@, insn_idx as int, id),
                None => *final(insns) == *old(insns),
            },
    {
        match helper_name_to_id(sym_name.as_str()) {
            Some(id) => {
                let insn = insns[insn_idx];
                insns.set(
                    insn_idx,
                    BpfInsn { opcode: insn.opcode, regs: insn.regs, offset: insn.offset, imm: id },
                );
            },
            None => {},
        }
        Ok(())
    }

    /// Applies every relocation of the section named `section_name` to the
    /// instruction sequence: map references (type 1) and helper calls (type
    /// 10) are patched, absolute types (2 and 3) and unknown types are
    /// ignored. The result is exactly the relocation pass over the section's
    /// records, symbol table and map table.
    pub fn relocate(
        &self,
        section_name: &str,
        insns: Vec<BpfInsn>,
        parser: &ElfParser,
    ) -> (r: LoadResult<Vec<BpfInsn>>)
        requires
            parser.wf(),
            self.spec_maps().len() <= 0x10000,
        ensures
            r is Ok ==> r->Ok_0@.len() == insns@.len(),
            insns@.len() > 0x100000 ==> r == Err::<Vec<BpfInsn>, LoadError>(
                LoadError::InvalidRelocation,
            ),
            insns@.len() <= 0x100000 ==> match parser.spec_find_section(section_name@, 0) {
                None => r == Err::<Vec<BpfInsn>, LoadError>(LoadError::InvalidRelocation),
                Some(si) => match spec_table_name(
                    parser.spec_data(),
                    parser.spec_shstrtab(),
                    parser.spec_sections()[si].name_offset as int,
                ) {
                    None => r == Err::<Vec<BpfInsn>, LoadError>(LoadError::InvalidStringTable),
                    Some(own) => match parser.spec_collect_rels(0, si, ".rel"@ + own) {
                        Err(e) => r == Err::<Vec<BpfInsn>, LoadError>(e),
                        Ok(rels) => if rels.len() == 0 {
                            r is Ok && r->Ok_0@ == insns@
                        } else if !parser.spec_has_symtab() {
                            r == Err::<Vec<BpfInsn>, LoadError>(LoadError::NoSymbolTable)
                        } else if parser.spec_symtab().offset + parser.spec_symtab().size
                            > parser.spec_data().len() {
                            r == Err::<Vec<BpfInsn>, LoadError>(LoadError::SectionDataOutOfBounds)
                        } else {
                            match spec_apply_relocs(
                                self.spec_maps(),
                                parser.spec_data(),
                                parser.spec_strtab(),
                                parser.spec_symbols(),
                                insns@,
                                rels,
                                0,
                            ) {
                                Ok(out) => r is Ok && r->Ok_0@ == out,
                                Err(e) => r == Err::<Vec<BpfInsn>, LoadError>(e),
                            }
                        },
                    },
                },
            },
    {
        let mut out = insns;
        if out.len() > 0x100000 {
            return Err(LoadError::InvalidRelocation);
        }
        let ghost insns0 = out@;
        let section = match parser.find_section(section_name) {
            Ok(Some(s)) => s,
            Ok(None) => {
                return Err(LoadError::InvalidRelocation);
            },
            Err(_) => {
                proof {
                    assert(false);
                }
                return Err(LoadError::InvalidRelocation);
            },
        };
        let section_idx = section.index;
        let ghost si = parser.spec_find_section(section_name@, 0)->Some_0;
        proof {
            parser.lemma_find_section_range(section_name@, 0);
            assert(section == parser.spec_sections()[si]);
            parser.lemma_section_index(si);
        }
        let relocs = match parser.relocations(section_idx) {
            Ok(rs) => rs,
            Err(e) => {
                return Err(e);
            },
        };
        let ghost gown = spec_table_name(
            parser.spec_data(),
            parser.spec_shstrtab(),
            parser.spec_sections()[si].name_offset as int,
        )->Some_0;
        if relocs.len() == 0 {
            return Ok(out);
        }
        let symbols = match parser.symbols() {
            Ok(ss) => ss,
            Err(e) => {
                return Err(e);
            },
        };
        let ghost grels = relocs@;
        let ghost gsyms = symbols@;
        let nrel = relocs.len();
        let mut ri: usize = 0;
        while ri < nrel
            invariant
                ri <= nrel,
                parser.wf(),
                nrel == grels.len(),
                grels.len() > 0,
                relocs@ == grels,
                symbols@ == gsyms,
                gsyms == parser.spec_symbols(),
                self.spec_maps().len() <= 0x10000,
                insns0 == insns@,
                out@.len() == insns0.len(),
                insns0.len() <= 0x100000,
                parser.spec_find_section(section_name@, 0) == Some(si),
                spec_table_name(
                    parser.spec_data(),
                    parser.spec_shstrtab(),
                    parser.spec_sections()[si].name_offset as int,
                ) == Some(gown),
                parser.spec_collect_rels(0, si, ".rel"@ + gown) == Ok::<
                    Seq<crate::loader::elf::Relocation>,
                    LoadError,
                >(grels),
                parser.spec_has_symtab(),
                parser.spec_symtab().offset + parser.spec_symtab().size
                    <= parser.spec_data().len(),
                spec_apply_relocs(
                    self.spec_maps(),
                    parser.spec_data(),
                    parser.spec_strtab(),
                    gsyms,
                    insns0,
                    grels,
                    0,
                ) == spec_apply_relocs(
                    self.spec_maps(),
                    parser.spec_data(),
                    parser.spec_strtab(),
                    gsyms,
                    out@,
                    grels,
                    ri as int,
                ),
            decreases nrel - ri,
        {
            let reloc = &relocs[ri];
            if reloc.offset / 8 >= out.len() as u64 {
                return Err(LoadError::InvalidRelocation);
            }
            let insn_idx = (reloc.offset / 8) as usize;
            if reloc.sym_idx as usize >= symbols.len() {
                return Err(LoadError::UndefinedSymbol);
            }
            let sym_name = match parser.symbol_name(&symbols[reloc.sym_idx as usize]) {
                Ok(nm) => nm,
                Err(e) => {
                    return Err(e);
                },
            };
            if reloc.rel_type == 1 {
                match self.relocate_map_ref(&mut out, insn_idx, &sym_name) {
                    Ok(()) => {},
                    Err(e) => {
                        return Err(e);
                    },
                }
            } else if reloc.rel_type == 10 {
                match self.relocate_call(&mut out, insn_idx, &sym_name) {
                    Ok(()) => {},
                    Err(e) => {
                        return Err(e);
                    },
                }
            }
            ri = ri + 1;
        }
        Ok(out)
    }
}

} // verus!
