//! A minimal ELF64 parser for BPF object files.
//!
//! Acceptance: magic `\x7fELF`, 64-bit class, either endianness (applied to
//! every multi-byte field), machine 247 (BPF).

use vstd::prelude::*;
use crate::loader::error::{LoadError, LoadResult};

verus! {

/// The classification of an ELF section.
#[derive(Debug, Clone, Copy, PartialEq, Eq, Structural)]
pub enum SectionType {
    Null,
    Program,
    Data,
    SymTab,
    StrTab,
    Rel,
    Bss,
    License,
    Maps,
    Btf,
    BtfExt,
    Unknown,
}

/// One parsed section header.
#[derive(Debug, Clone, Copy, PartialEq, Eq, Structural)]
pub struct SectionHeader {
    pub name_offset: u32,
    pub section_type: SectionType,
    pub flags: u64,
    pub addr: u64,
    pub offset: u64,
    pub size: u64,
    pub link: u32,
    pub info: u32,
    pub addralign: u64,
    pub entsize: u64,
    pub index: usize,
}

/// One symbol table entry.
#[derive(Debug, Clone, Copy, PartialEq, Eq, Structural)]
pub struct Symbol {
    pub name_offset: u32,
    pub info: u8,
    pub other: u8,
    pub shndx: u16,
    pub value: u64,
    pub size: u64,
}

impl Symbol {
    /// The symbol's type: the low info nibble.
    pub fn sym_type(&self) -> (r: u8)
        ensures
            r == self.info & 0xf,
    {
        self.info & 0xf
    }

    /// The symbol's binding: the high info nibble.
    pub fn binding(&self) -> (r: u8)
        ensures
            r == self.info >> 4,
    {
        self.info >> 4
    }
}

/// One relocation entry.
#[derive(Debug, Clone, Copy, PartialEq, Eq, Structural)]
pub struct Relocation {
    pub offset: u64,
    pub sym_idx: u32,
    pub rel_type: u32,
}

/// The 16-bit field at `off`, read in the file's byte order.
pub open spec fn spec_read_u16(d: Seq<u8>, off: int, le: bool) -> int {
    if le {
        d[off] + 256 * d[off + 1]
    } else {
        d[off + 1] + 256 * d[off]
    }
}

/// The 32-bit field at `off`, read in the file's byte order.
pub open spec fn spec_read_u32(d: Seq<u8>, off: int, le: bool) -> int {
    if le {
        d[off] + 256 * (d[off + 1] + 256 * (d[off + 2] + 256 * d[off + 3]))
    } else {
        d[off + 3] + 256 * (d[off + 2] + 256 * (d[off + 1] + 256 * d[off]))
    }
}

/// The 64-bit field at `off`, read in the file's byte order.
pub open spec fn spec_read_u64(d: Seq<u8>, off: int, le: bool) -> int {
    if le {
        d[off] + 256 * (d[off + 1] + 256 * (d[off + 2] + 256 * (d[off + 3] + 256 * (d[off + 4]
            + 256 * (d[off + 5] + 256 * (d[off + 6] + 256 * d[off + 7]))))))
    } else {
        d[off + 7] + 256 * (d[off + 6] + 256 * (d[off + 5] + 256 * (d[off + 4] + 256 * (d[off + 3]
            + 256 * (d[off + 2] + 256 * (d[off + 1] + 256 * d[off]))))))
    }
}

/// Whether `d` starts with the ELF magic.
pub open spec fn spec_elf_magic_ok(d: Seq<u8>) -> bool {
    d[0] == 0x7fu8 && d[1] == 0x45u8 && d[2] == 0x4cu8 && d[3] == 0x46u8
}

/// The classification of a raw section type and flag word.
pub open spec fn spec_section_type(sh_type: int, sh_flags: int) -> SectionType {
    if sh_type == 0 {
        SectionType::Null
    } else if sh_type == 1 {
        if sh_flags % 8 >= 4 {
            SectionType::Program
        } else {
            SectionType::Data
        }
    } else if sh_type == 2 {
        SectionType::SymTab
    } else if sh_type == 3 {
        SectionType::StrTab
    } else if sh_type == 9 {
        SectionType::Rel
    } else if sh_type == 8 {
        SectionType::Bss
    } else {
        SectionType::Unknown
    }
}

/// A valid ELF header for this loader: long enough, right magic, 64-bit
/// class, a known byte order, and the BPF machine.
pub open spec fn spec_elf_header_ok(d: Seq<u8>) -> bool {
    d.len() >= 64 && spec_elf_magic_ok(d) && d[4] == 2 && (d[5] == 1 || d[5] == 2)
        && spec_read_u16(d, 18, d[5] == 1) == 247
}

/// Whether every section header record lies inside the file.
pub open spec fn spec_elf_sections_fit(d: Seq<u8>) -> bool {
    let le = d[5] == 1;
    let shoff = spec_read_u64(d, 40, le);
    let shnum = spec_read_u16(d, 60, le);
    shnum == 0 || shoff + shnum * 64 <= d.len()
}

/// The section header parsed from the 64 bytes at `off`.
pub open spec fn spec_parse_section(d: Seq<u8>, off: int, le: bool, index: int) -> SectionHeader {
    SectionHeader {
        name_offset: spec_read_u32(d, off, le) as u32,
        section_type: spec_section_type(
            spec_read_u32(d, off + 4, le),
            spec_read_u64(d, off + 8, le),
        ),
        flags: spec_read_u64(d, off + 8, le) as u64,
        addr: spec_read_u64(d, off + 16, le) as u64,
        offset: spec_read_u64(d, off + 24, le) as u64,
        size: spec_read_u64(d, off + 32, le) as u64,
        link: spec_read_u32(d, off + 40, le) as u32,
        info: spec_read_u32(d, off + 44, le) as u32,
        addralign: spec_read_u64(d, off + 48, le) as u64,
        entsize: spec_read_u64(d, off + 56, le) as u64,
        index: index as usize,
    }
}

/// The bytes from `start` up to the first NUL byte, or to `end`.
pub open spec fn spec_cstr_bytes(d: Seq<u8>, start: int, end: int) -> Seq<u8>
    decreases end - start,
{
    if start < 0 || start >= end || end > d.len() {
        Seq::empty()
    } else if d[start] == 0 {
        Seq::empty()
    } else {
        seq![d[start]] + spec_cstr_bytes(d, start + 1, end)
    }
}

/// A NUL-terminated scan equals the plain byte range before its first NUL.
proof fn lemma_cstr_of_range(d: Seq<u8>, start: int, stop: int, end: int)
    requires
        0 <= start <= stop <= end <= d.len(),
        forall|j: int| start <= j < stop ==> d[j] != 0,
        stop == end || d[stop] == 0,
    ensures
        spec_cstr_bytes(d, start, end) == d.subrange(start, stop),
    decreases stop - start,
{
    if start < stop {
        lemma_cstr_of_range(d, start + 1, stop, end);
        assert(spec_cstr_bytes(d, start, end) =~= d.subrange(start, stop));
    } else {
        assert(spec_cstr_bytes(d, start, end) =~= d.subrange(start, stop));
    }
}

/// The name at `off` of a string table span: `None` when the table is
/// absent, the offset is outside it, or its bytes are not valid UTF-8.
pub open spec fn spec_table_name(d: Seq<u8>, tab: Option<(usize, usize)>, off: int) -> Option<
    Seq<char>,
> {
    match tab {
        None => None,
        Some((s, e)) => if off < 0 || off >= e - s {
            None
        } else {
            let b = spec_cstr_bytes(d, s + off, e as int);
            if vstd::utf8::valid_utf8(b) {
                Some(vstd::utf8::decode_utf8(b))
            } else {
                None
            }
        },
    }
}

/// The symbol record parsed from the 24 bytes at `off`.
pub open spec fn spec_parse_symbol(d: Seq<u8>, off: int, le: bool) -> Symbol {
    Symbol {
        name_offset: spec_read_u32(d, off, le) as u32,
        info: d[off + 4],
        other: d[off + 5],
        shndx: spec_read_u16(d, off + 6, le) as u16,
        value: spec_read_u64(d, off + 8, le) as u64,
        size: spec_read_u64(d, off + 16, le) as u64,
    }
}

/// The relocation record parsed from the 16 bytes at `off`: the target
/// offset, then an info word whose high half is the symbol index and low
/// half the relocation type.
pub open spec fn spec_parse_reloc(d: Seq<u8>, off: int, le: bool) -> Relocation {
    Relocation {
        offset: spec_read_u64(d, off, le) as u64,
        sym_idx: (spec_read_u64(d, off + 8, le) as u64 / 0x100000000) as u32,
        rel_type: (spec_read_u64(d, off + 8, le) as u64 % 0x100000000) as u32,
    }
}

/// Relies on `String::from_utf8`: it accepts exactly the valid UTF-8 byte
/// strings and decodes them.
#[verifier::external_body]
fn string_from_utf8(v: Vec<u8>) -> (r: Option<String>)
    ensures
        r is Some <==> vstd::utf8::valid_utf8(v@),
        r is Some ==> r->Some_0@ == vstd::utf8::decode_utf8(v@),
{
    std::string::String::from_utf8(v).ok()
}

pub fn read_u16_at(d: &Vec<u8>, off: usize, le: bool) -> (r: u16)
    requires
        off + 2 <= d@.len(),
    ensures
        r == spec_read_u16(d@, off as int, le),
{
    let dl = d.len();
    if le {
        d[off] as u16 + 256 * (d[off + 1] as u16)
    } else {
        d[off + 1] as u16 + 256 * (d[off] as u16)
    }
}

pub fn read_u32_at(d: &Vec<u8>, off: usize, le: bool) -> (r: u32)
    requires
        off + 4 <= d@.len(),
    ensures
        r == spec_read_u32(d@, off as int, le),
{
    let dl = d.len();
    if le {
        d[off] as u32 + 256 * (d[off + 1] as u32 + 256 * (d[off + 2] as u32 + 256 * (d[off
            + 3] as u32)))
    } else {
        d[off + 3] as u32 + 256 * (d[off + 2] as u32 + 256 * (d[off + 1] as u32 + 256 * (
        d[off] as u32)))
    }
}

pub fn read_u64_at(d: &Vec<u8>, off: usize, le: bool) -> (r: u64)
    requires
        off + 8 <= d@.len(),
    ensures
        r == spec_read_u64(d@, off as int, le),
{
    let dl = d.len();
    if le {
        d[off] as u64 + 256 * (d[off + 1] as u64 + 256 * (d[off + 2] as u64 + 256 * (d[off
            + 3] as u64 + 256 * (d[off + 4] as u64 + 256 * (d[off + 5] as u64 + 256 * (d[off
            + 6] as u64 + 256 * (d[off + 7] as u64)))))))
    } else {
        d[off + 7] as u64 + 256 * (d[off + 6] as u64 + 256 * (d[off + 5] as u64 + 256 * (d[off
            + 4] as u64 + 256 * (d[off + 3] as u64 + 256 * (d[off + 2] as u64 + 256 * (d[off
            + 1] as u64 + 256 * (d[off] as u64)))))))
    }
}

/// The parser: the object bytes, the decoded header fields, the parsed
/// section table, and the located string tables.
pub struct ElfParser {
    data: Vec<u8>,
    little_endian: bool,
    shoff: u64,
    shnum: u16,
    shstrndx: u16,
    sections: Vec<SectionHeader>,
    strtab: Option<(usize, usize)>,
    shstrtab: Option<(usize, usize)>,
    symtab_idx: Option<usize>,
}

impl ElfParser {
    /// The object bytes.
    pub closed spec fn spec_data(&self) -> Seq<u8> {
        self.data@
    }

    /// Whether the file is little-endian.
    pub closed spec fn spec_le(&self) -> bool {
        self.little_endian
    }

    /// The parsed section table.
    pub closed spec fn spec_sections(&self) -> Seq<SectionHeader> {
        self.sections@
    }

    /// Whether the object carries a symbol table.
    pub closed spec fn spec_has_symtab(&self) -> bool {
        self.symtab_idx is Some
    }

    /// The symbol table's section header (meaningful when one exists).
    pub closed spec fn spec_symtab(&self) -> SectionHeader {
        self.sections@[self.symtab_idx->Some_0 as int]
    }

    /// The section-name string table span.
    pub closed spec fn spec_shstrtab(&self) -> Option<(usize, usize)> {
        self.shstrtab
    }

    /// The symbol string table span.
    pub closed spec fn spec_strtab(&self) -> Option<(usize, usize)> {
        self.strtab
    }

    /// The parser's internal consistency: every section was parsed from its
    /// 64-byte header record, and the string table ranges lie in the data.
    pub closed spec fn wf(&self) -> bool {
        &&& self.spec_sections().len() == self.shnum
        &&& forall|i: int|
            0 <= i < self.spec_sections().len() ==> #[trigger] self.spec_sections()[i]
                == spec_parse_section(self.spec_data(), self.shoff + i * 64, self.spec_le(), i)
        &&& self.shnum > 0 ==> self.shoff + self.shnum * 64 <= self.spec_data().len()
        &&& match self.shstrtab {
            Some((s, e)) => s <= e <= self.spec_data().len(),
            None => true,
        }
        &&& match self.strtab {
            Some((s, e)) => s <= e <= self.spec_data().len(),
            None => true,
        }
        &&& match self.symtab_idx {
            Some(i) => i < self.spec_sections().len(),
            None => true,
        }
    }

    /// Parses the ELF header and section table. Fails, in order, on: a file
    /// shorter than the 64-byte header; a wrong magic; a class other than
    /// 64-bit; an unknown byte order; a machine other than BPF (247); and a
    /// section header record outside the file.
    pub fn new(data: &[u8]) -> (r: LoadResult<Self>)
        ensures
            data@.len() < 64 ==> r == Err::<Self, LoadError>(LoadError::ElfTooSmall),
            data@.len() >= 64 && !spec_elf_magic_ok(data@) ==> r == Err::<Self, LoadError>(
                LoadError::InvalidMagic,
            ),
            data@.len() >= 64 && spec_elf_magic_ok(data@) && data@[4] != 2 ==> r == Err::<
                Self,
                LoadError,
            >(LoadError::UnsupportedClass),
            data@.len() >= 64 && spec_elf_magic_ok(data@) && data@[4] == 2 && data@[5] != 1
                && data@[5] != 2 ==> r == Err::<Self, LoadError>(LoadError::UnsupportedEndian),
            data@.len() >= 64 && spec_elf_magic_ok(data@) && data@[4] == 2 && (data@[5] == 1
                || data@[5] == 2) && spec_read_u16(data@, 18, data@[5] == 1) != 247 ==> r == Err::<
                Self,
                LoadError,
            >(LoadError::UnsupportedMachine),
            r is Ok ==> r->Ok_0.wf() && r->Ok_0.spec_data() == data@ && r->Ok_0.spec_le() == (
            data@[5] == 1),
            spec_elf_header_ok(data@) && spec_elf_sections_fit(data@) ==> r is Ok,
            spec_elf_header_ok(data@) && !spec_elf_sections_fit(data@) ==> r == Err::<
                Self,
                LoadError,
            >(LoadError::SectionOutOfBounds),
    {
        let dlen = data.len();
        if dlen < 64 {
            return Err(LoadError::ElfTooSmall);
        }
        if !(data[0] == 0x7f && data[1] == 0x45 && data[2] == 0x4c && data[3] == 0x46) {
            return Err(LoadError::InvalidMagic);
        }
        if data[4] != 2 {
            return Err(LoadError::UnsupportedClass);
        }
        let little_endian = if data[5] == 1 {
            true
        } else if data[5] == 2 {
            false
        } else {
            return Err(LoadError::UnsupportedEndian);
        };
        let mut owned: Vec<u8> = Vec::new();
        let mut ci: usize = 0;
        while ci < dlen
            invariant
                ci <= dlen,
                dlen == data@.len(),
                owned@ == data@.subrange(0, ci as int),
            decreases dlen - ci,
        {
            owned.push(data[ci]);
            proof {
                assert(owned@ =~= data@.subrange(0, ci as int + 1));
            }
            ci = ci + 1;
        }
        proof {
            assert(owned@ =~= data@);
        }
        let e_machine = read_u16_at(&owned, 18, little_endian);
        if e_machine != 247 {
            return Err(LoadError::UnsupportedMachine);
        }
        let shoff = read_u64_at(&owned, 40, little_endian);
        let shnum = read_u16_at(&owned, 60, little_endian);
        let shstrndx = read_u16_at(&owned, 62, little_endian);
        let mut parser = ElfParser {
            data: owned,
            little_endian,
            shoff,
            shnum,
            shstrndx,
            sections: Vec::new(),
            strtab: None,
            shstrtab: None,
            symtab_idx: None,
        };
        match parser.parse_sections() {
            Ok(()) => {},
            Err(e) => {
                return Err(e);
            },
        }
        parser.find_string_tables();
        Ok(parser)
    }

    /// Parses all `shnum` section header records.
    fn parse_sections(&mut self) -> (r: LoadResult<()>)
        requires
            old(self).sections@.len() == 0,
            old(self).symtab_idx is None,
        ensures
            r is Ok <==> (old(self).shnum == 0 || old(self).shoff + old(self).shnum * 64 <= old(
                self,
            ).data@.len()),
            r is Err ==> r == Err::<(), LoadError>(LoadError::SectionOutOfBounds),
            r is Ok ==> final(self).spec_sections().len() == final(self).shnum
                && (final(self).shnum > 0 ==> final(self).shoff + final(self).shnum * 64
                <= final(self).spec_data().len()) && (forall|i: int|
                0 <= i < final(self).spec_sections().len()
                    ==> #[trigger] final(self).spec_sections()[i] == spec_parse_section(
                    final(self).spec_data(),
                    final(self).shoff + i * 64,
                    final(self).spec_le(),
                    i,
                )) && (match final(self).symtab_idx {
                Some(k) => k < final(self).spec_sections().len(),
                None => true,
            }),
            final(self).data == old(self).data,
            final(self).little_endian == old(self).little_endian,
            final(self).shoff == old(self).shoff,
            final(self).shnum == old(self).shnum,
            final(self).shstrndx == old(self).shstrndx,
            final(self).strtab == old(self).strtab,
            final(self).shstrtab == old(self).shstrtab,
    {
        let dlen = self.data.len();
        let n = self.shnum as usize;
        let mut i: usize = 0;
        while i < n
            invariant
                n == self.shnum,
                dlen == self.spec_data().len(),
                i <= n,
                self.sections@.len() == i,
                i > 0 ==> self.shoff + i * 64 <= dlen,
                forall|j: int|
                    0 <= j < i ==> #[trigger] self.sections@[j] == spec_parse_section(
                        self.spec_data(),
                        self.shoff + j * 64,
                        self.spec_le(),
                        j,
                    ),
                match self.symtab_idx {
                    Some(k) => k < i,
                    None => true,
                },
                self.data == old(self).data,
                self.little_endian == old(self).little_endian,
                self.shoff == old(self).shoff,
                self.shnum == old(self).shnum,
                self.shstrndx == old(self).shstrndx,
                self.strtab == old(self).strtab,
                self.shstrtab == old(self).shstrtab,
            decreases n - i,
        {
            if self.shoff >= dlen as u64 || (dlen as u64 - self.shoff) < (i as u64) * 64 + 64 {
                proof {
                    assert((i + 1) * 64 <= self.shnum * 64) by (nonlinear_arith)
                        requires
                            i < self.shnum,
                    ;
                }
                return Err(LoadError::SectionOutOfBounds);
            }
            let base = self.shoff as usize;
            let off = base + i * 64;
            let le = self.little_endian;
            let sh_name = read_u32_at(&self.data, off, le);
            let sh_type = read_u32_at(&self.data, off + 4, le);
            let sh_flags = read_u64_at(&self.data, off + 8, le);
            let sh_addr = read_u64_at(&self.data, off + 16, le);
            let sh_offset = read_u64_at(&self.data, off + 24, le);
            let sh_size = read_u64_at(&self.data, off + 32, le);
            let sh_link = read_u32_at(&self.data, off + 40, le);
            let sh_info = read_u32_at(&self.data, off + 44, le);
            let sh_addralign = read_u64_at(&self.data, off + 48, le);
            let sh_entsize = read_u64_at(&self.data, off + 56, le);
            let section_type: SectionType = if sh_type == 0 {
                SectionType::Null
            } else if sh_type == 1 {
                if sh_flags % 8 >= 4 {
                    SectionType::Program
                } else {
                    SectionType::Data
                }
            } else if sh_type == 2 {
                if matches!(self.symtab_idx, None) {
                    self.symtab_idx = Some(i);
                }
                SectionType::SymTab
            } else if sh_type == 3 {
                SectionType::StrTab
            } else if sh_type == 9 {
                SectionType::Rel
            } else if sh_type == 8 {
                SectionType::Bss
            } else {
                SectionType::Unknown
            };
            let header = SectionHeader {
                name_offset: sh_name,
                section_type,
                flags: sh_flags,
                addr: sh_addr,
                offset: sh_offset,
                size: sh_size,
                link: sh_link,
                info: sh_info,
                addralign: sh_addralign,
                entsize: sh_entsize,
                index: i,
            };
            self.sections.push(header);
            proof {
                assert(self.sections@[i as int] == spec_parse_section(
                    self.spec_data(),
                    base + i * 64,
                    self.spec_le(),
                    i as int,
                ));
            }
            i = i + 1;
        }
        Ok(())
    }

    /// Locates the section-name string table (via the header's index) and
    /// the symbol string table (via the symtab's link).
    fn find_string_tables(&mut self)
        requires
            old(self).sections@.len() == old(self).shnum,
            old(self).shnum > 0 ==> old(self).shoff + old(self).shnum * 64 <= old(self).data@.len(),
            forall|i: int|
                0 <= i < old(self).sections@.len() ==> #[trigger] old(self).sections@[i]
                    == spec_parse_section(
                    old(self).data@,
                    old(self).shoff + i * 64,
                    old(self).little_endian,
                    i,
                ),
            match old(self).symtab_idx {
                Some(k) => k < old(self).sections@.len(),
                None => true,
            },
        ensures
            final(self).wf(),
            final(self).data == old(self).data,
            final(self).little_endian == old(self).little_endian,
            final(self).sections == old(self).sections,
            final(self).shoff == old(self).shoff,
            final(self).shnum == old(self).shnum,
            final(self).symtab_idx == old(self).symtab_idx,
    {
        let dlen = self.data.len();
        if (self.shstrndx as usize) < self.sections.len() {
            let s = &self.sections[self.shstrndx as usize];
            let start = s.offset;
            let size = s.size;
            if start <= dlen as u64 && size <= dlen as u64 - start {
                self.shstrtab = Some((start as usize, (start + size) as usize));
            } else {
                self.shstrtab = None;
            }
        } else {
            self.shstrtab = None;
        }
        let sym = self.symtab_idx;
        match sym {
            Some(k) => {
                let link = self.sections[k].link as usize;
                if link < self.sections.len() {
                    let s = &self.sections[link];
                    let start = s.offset;
                    let size = s.size;
                    if start <= dlen as u64 && size <= dlen as u64 - start {
                        self.strtab = Some((start as usize, (start + size) as usize));
                    } else {
                        self.strtab = None;
                    }
                } else {
                    self.strtab = None;
                }
            },
            None => {
                self.strtab = None;
            },
        }
    }

    /// The parsed section table.
    pub fn sections(&self) -> (r: LoadResult<&Vec<SectionHeader>>)
        ensures
            r is Ok && r->Ok_0@ == self.spec_sections(),
    {
        Ok(&self.sections)
    }

    /// Reads the NUL-terminated name at `offset` of a string table range.
    /// Succeeds exactly when the offset lies inside the table and the bytes
    /// up to the first NUL are valid UTF-8, and then returns that name.
    fn name_at_range(&self, range: (usize, usize), offset: u32) -> (r: LoadResult<String>)
        requires
            self.wf(),
            range.0 <= range.1 <= self.spec_data().len(),
        ensures
            match spec_table_name(self.spec_data(), Some(range), offset as int) {
                Some(nm) => r is Ok && r->Ok_0@ == nm,
                None => r == Err::<String, LoadError>(LoadError::InvalidStringTable),
            },
    {
        let (start0, end) = range;
        let off = offset as usize;
        if off >= end - start0 {
            return Err(LoadError::InvalidStringTable);
        }
        let start = start0 + off;
        let mut bytes: Vec<u8> = Vec::new();
        let mut i: usize = start;
        while i < end
            invariant_except_break
                start <= i <= end,
                end <= self.spec_data().len(),
                bytes@ == self.spec_data().subrange(start as int, i as int),
                forall|j: int| start <= j < i ==> self.spec_data()[j] != 0,
            ensures
                start <= i <= end,
                end <= self.spec_data().len(),
                bytes@ == self.spec_data().subrange(start as int, i as int),
                forall|j: int| start <= j < i ==> self.spec_data()[j] != 0,
                i == end || self.spec_data()[i as int] == 0,
            decreases end - i,
        {
            let b = self.data[i];
            if b == 0 {
                break ;
            }
            bytes.push(b);
            proof {
                assert(bytes@ =~= self.spec_data().subrange(start as int, i as int + 1));
            }
            i = i + 1;
        }
        proof {
            lemma_cstr_of_range(self.spec_data(), start as int, i as int, end as int);
        }
        match string_from_utf8(bytes) {
            Some(s) => Ok(s),
            None => Err(LoadError::InvalidStringTable),
        }
    }

    /// The section's name, from the section-name string table.
    pub fn section_name(&self, section: &SectionHeader) -> (r: LoadResult<String>)
        requires
            self.wf(),
        ensures
            match spec_table_name(
                self.spec_data(),
                self.spec_shstrtab(),
                section.name_offset as int,
            ) {
                Some(nm) => r is Ok && r->Ok_0@ == nm,
                None => r == Err::<String, LoadError>(LoadError::InvalidStringTable),
            },
    {
        self.section_name_at(section.name_offset)
    }

    /// The name at `offset` of the section-name string table.
    pub fn section_name_at(&self, offset: u32) -> (r: LoadResult<String>)
        requires
            self.wf(),
        ensures
            match spec_table_name(self.spec_data(), self.spec_shstrtab(), offset as int) {
                Some(nm) => r is Ok && r->Ok_0@ == nm,
                None => r == Err::<String, LoadError>(LoadError::InvalidStringTable),
            },
    {
        let range = match self.shstrtab {
            Some(rg) => rg,
            None => {
                return Err(LoadError::InvalidStringTable);
            },
        };
        self.name_at_range(range, offset)
    }

    /// The symbol's name, from the symbol string table.
    pub fn symbol_name(&self, sym: &Symbol) -> (r: LoadResult<String>)
        requires
            self.wf(),
        ensures
            match spec_table_name(self.spec_data(), self.spec_strtab(), sym.name_offset as int) {
                Some(nm) => r is Ok && r->Ok_0@ == nm,
                None => r == Err::<String, LoadError>(LoadError::InvalidStringTable),
            },
    {
        let range = match self.strtab {
            Some(rg) => rg,
            None => {
                return Err(LoadError::InvalidStringTable);
            },
        };
        self.name_at_range(range, sym.name_offset)
    }

    /// The section's raw contents; fails when they reach past the file.
    pub fn section_data(&self, section: &SectionHeader) -> (r: LoadResult<Vec<u8>>)
        requires
            self.wf(),
        ensures
            section.offset + section.size <= self.spec_data().len() <==> r is Ok,
            r is Ok ==> r->Ok_0@ == self.spec_data().subrange(
                section.offset as int,
                section.offset + section.size,
            ),
            r is Err ==> r == Err::<Vec<u8>, LoadError>(LoadError::SectionDataOutOfBounds),
    {
        let dlen = self.data.len();
        if section.offset > dlen as u64 || section.size > dlen as u64 - section.offset {
            return Err(LoadError::SectionDataOutOfBounds);
        }
        let start = section.offset as usize;
        let end = (section.offset + section.size) as usize;
        let mut out: Vec<u8> = Vec::new();
        let mut i: usize = start;
        while i < end
            invariant
                start <= i <= end,
                end <= self.spec_data().len(),
                out@ == self.spec_data().subrange(start as int, i as int),
            decreases end - i,
        {
            out.push(self.data[i]);
            proof {
                assert(out@ =~= self.spec_data().subrange(start as int, i as int + 1));
            }
            i = i + 1;
        }
        Ok(out)
    }

    /// Whether section `si`'s name resolves and equals `name`.
    pub open spec fn spec_section_named(&self, si: int, name: Seq<char>) -> bool {
        spec_table_name(
            self.spec_data(),
            self.spec_shstrtab(),
            self.spec_sections()[si].name_offset as int,
        ) == Some(name)
    }

    /// The first section index at or after `i` whose name is `name`.
    pub open spec fn spec_find_section(&self, name: Seq<char>, i: int) -> Option<int>
        decreases self.spec_sections().len() - i,
    {
        if i < 0 || i >= self.spec_sections().len() {
            None
        } else if self.spec_section_named(i, name) {
            Some(i)
        } else {
            self.spec_find_section(name, i + 1)
        }
    }

    /// A parsed section header stores its own position.
    pub proof fn lemma_section_index(&self, i: int)
        requires
            self.wf(),
            0 <= i < self.spec_sections().len(),
        ensures
            self.spec_sections()[i].index == i,
    {
        assert(self.spec_sections()[i] == spec_parse_section(
            self.spec_data(),
            self.shoff + i * 64,
            self.spec_le(),
            i,
        ));
    }

    /// A found section index is in range and names the sought name.
    pub proof fn lemma_find_section_range(&self, name: Seq<char>, i: int)
        ensures
            match self.spec_find_section(name, i) {
                Some(k) => i <= k < self.spec_sections().len() && self.spec_section_named(k, name),
                None => true,
            },
        decreases self.spec_sections().len() - i,
    {
        if 0 <= i < self.spec_sections().len() {
            self.lemma_find_section_range(name, i + 1);
        }
    }

    /// Finds the first section with the given name, or `None` when no
    /// section's name resolves to it.
    pub fn find_section(&self, name: &str) -> (r: LoadResult<Option<SectionHeader>>)
        requires
            self.wf(),
        ensures
            match self.spec_find_section(name@, 0) {
                Some(i) => r == Ok::<Option<SectionHeader>, LoadError>(
                    Some(self.spec_sections()[i]),
                ),
                None => r == Ok::<Option<SectionHeader>, LoadError>(None),
            },
    {
        let needle = String::from_str(name);
        let n = self.sections.len();
        let mut i: usize = 0;
        while i < n
            invariant
                self.wf(),
                i <= n,
                needle@ == name@,
                n == self.spec_sections().len(),
                self.spec_find_section(name@, 0) == self.spec_find_section(name@, i as int),
            decreases n - i,
        {
            match self.section_name(&self.sections[i]) {
                Ok(sname) => {
                    if sname == needle {
                        let s = self.sections[i];
                        proof {
                            assert(self.spec_section_named(i as int, name@));
                        }
                        return Ok(Some(s));
                    }
                },
                Err(_) => {},
            }
            i = i + 1;
        }
        Ok(None)
    }

    /// Finds the license string: the NUL-terminated, UTF-8 contents of the
    /// first section named `license`. `None` when no such section exists;
    /// an error when its bytes lie outside the file or are not UTF-8.
    pub fn find_license(&self) -> (r: LoadResult<Option<String>>)
        requires
            self.wf(),
        ensures
            match self.spec_find_section("license"@, 0) {
                None => r == Ok::<Option<String>, LoadError>(None),
                Some(i) => {
                    let sec = self.spec_sections()[i];
                    if sec.offset + sec.size > self.spec_data().len() {
                        r == Err::<Option<String>, LoadError>(LoadError::SectionDataOutOfBounds)
                    } else {
                        let b = spec_cstr_bytes(
                            self.spec_data(),
                            sec.offset as int,
                            sec.offset + sec.size,
                        );
                        if vstd::utf8::valid_utf8(b) {
                            r is Ok && r->Ok_0 is Some && r->Ok_0->Some_0@
                                == vstd::utf8::decode_utf8(b)
                        } else {
                            r == Err::<Option<String>, LoadError>(LoadError::InvalidLicense)
                        }
                    }
                },
            },
    {
        let section = match self.find_section("license") {
            Ok(Some(s)) => s,
            Ok(None) => {
                return Ok(None);
            },
            Err(e) => {
                return Err(e);
            },
        };
        let data = match self.section_data(&section) {
            Ok(d) => d,
            Err(e) => {
                return Err(e);
            },
        };
        let ghost soff = section.offset as int;
        let mut bytes: Vec<u8> = Vec::new();
        let n = data.len();
        let mut i: usize = 0;
        while i < n
            invariant_except_break
                i <= n,
                n == data@.len(),
                data@ == self.spec_data().subrange(soff, soff + n),
                0 <= soff,
                soff + n <= self.spec_data().len(),
                bytes@ == self.spec_data().subrange(soff, soff + i),
                forall|j: int| soff <= j < soff + i ==> self.spec_data()[j] != 0,
            ensures
                i <= n,
                n == data@.len(),
                0 <= soff,
                soff + n <= self.spec_data().len(),
                bytes@ == self.spec_data().subrange(soff, soff + i),
                forall|j: int| soff <= j < soff + i ==> self.spec_data()[j] != 0,
                i == n || self.spec_data()[soff + i] == 0,
            decreases n - i,
        {
            let b = data[i];
            if b == 0 {
                break ;
            }
            bytes.push(b);
            proof {
                assert(bytes@ =~= self.spec_data().subrange(soff, soff + i + 1));
            }
            i = i + 1;
        }
        proof {
            lemma_cstr_of_range(self.spec_data(), soff, soff + i, soff + n);
        }
        match string_from_utf8(bytes) {
            Some(s) => Ok(Some(s)),
            None => Err(LoadError::InvalidLicense),
        }
    }

    /// The relocation records of section `si`: one per whole 16-byte record,
    /// in order.
    pub open spec fn spec_section_rels(&self, si: int) -> Seq<Relocation> {
        let sec = self.spec_sections()[si];
        Seq::new(
            (sec.size as int / 16) as nat,
            |j: int| spec_parse_reloc(self.spec_data(), sec.offset + 16 * j, self.spec_le()),
        )
    }

    /// Whether section `si` contributes relocations for the target section:
    /// it is a relocation section and either its name is `rel_name` or its
    /// info field links it to the target.
    pub open spec fn spec_rel_contributes(&self, si: int, target: int, rel_name: Seq<char>) -> bool {
        &&& self.spec_sections()[si].section_type is Rel
        &&& (spec_table_name(
            self.spec_data(),
            self.spec_shstrtab(),
            self.spec_sections()[si].name_offset as int,
        ) == Some(rel_name) || self.spec_sections()[si].info == target)
    }

    /// The concatenated records of every contributing section from `si` on,
    /// or the bounds error of the first contributing section whose contents
    /// lie outside the file.
    pub open spec fn spec_collect_rels(&self, si: int, target: int, rel_name: Seq<char>) -> Result<
        Seq<Relocation>,
        LoadError,
    >
        decreases self.spec_sections().len() - si,
    {
        if si < 0 || si >= self.spec_sections().len() {
            Ok(Seq::empty())
        } else if self.spec_rel_contributes(si, target, rel_name) {
            let sec = self.spec_sections()[si];
            if sec.offset + sec.size > self.spec_data().len() {
                Err(LoadError::SectionDataOutOfBounds)
            } else {
                match self.spec_collect_rels(si + 1, target, rel_name) {
                    Ok(rest) => Ok(self.spec_section_rels(si) + rest),
                    Err(e) => Err(e),
                }
            }
        } else {
            self.spec_collect_rels(si + 1, target, rel_name)
        }
    }

    /// The relocation entries that affect section `section_idx`: the
    /// concatenated records of every relocation section named `.rel<name>`
    /// or linked to it via its info field.
    pub fn relocations(&self, section_idx: usize) -> (r: LoadResult<Vec<Relocation>>)
        requires
            self.wf(),
            section_idx < self.spec_sections().len(),
        ensures
            match spec_table_name(
                self.spec_data(),
                self.spec_shstrtab(),
                self.spec_sections()[section_idx as int].name_offset as int,
            ) {
                None => r == Err::<Vec<Relocation>, LoadError>(LoadError::InvalidStringTable),
                Some(own) => match self.spec_collect_rels(
                    0,
                    section_idx as int,
                    ".rel"@ + own,
                ) {
                    Ok(rs) => r is Ok && r->Ok_0@ == rs,
                    Err(e) => r == Err::<Vec<Relocation>, LoadError>(e),
                },
            },
    {
        let own_name = match self.section_name(&self.sections[section_idx]) {
            Ok(nm) => nm,
            Err(e) => {
                return Err(e);
            },
        };
        let mut rel_name = String::from_str(".rel");
        rel_name.append(own_name.as_str());
        proof {
            reveal_strlit(".rel");
        }
        let ghost target = section_idx as int;
        let ghost gown = own_name@;
        let ghost gname = rel_name@;
        let mut relocs: Vec<Relocation> = Vec::new();
        let n = self.sections.len();
        let mut si: usize = 0;
        while si < n
            invariant
                self.wf(),
                si <= n,
                n == self.spec_sections().len(),
                section_idx < n,
                target == section_idx as int,
                gname == rel_name@,
                gname == ".rel"@ + gown,
                spec_table_name(
                    self.spec_data(),
                    self.spec_shstrtab(),
                    self.spec_sections()[target].name_offset as int,
                ) == Some(gown),
                self.spec_collect_rels(0, target, gname) == (match self.spec_collect_rels(
                    si as int,
                    target,
                    gname,
                ) {
                    Ok(rest) => Ok::<Seq<Relocation>, LoadError>(relocs@ + rest),
                    Err(e) => Err::<Seq<Relocation>, LoadError>(e),
                }),
            decreases n - si,
        {
            let is_rel = matches!(self.sections[si].section_type, SectionType::Rel);
            let name_matches = if is_rel {
                match self.section_name(&self.sections[si]) {
                    Ok(nm) => nm == rel_name,
                    Err(_) => false,
                }
            } else {
                false
            };
            let contributes = is_rel && (name_matches || self.sections[si].info as usize
                == section_idx);
            proof {
                assert(contributes == self.spec_rel_contributes(si as int, target, gname));
            }
            if contributes {
                let section = self.sections[si];
                let data = match self.section_data(&section) {
                    Ok(d) => d,
                    Err(e) => {
                        return Err(e);
                    },
                };
                let ghost soff = section.offset as int;
                let ghost base = relocs@;
                let le = self.little_endian;
                let m = data.len();
                let mut o: usize = 0;
                while m - o >= 16
                    invariant
                        o <= m,
                        m == data@.len(),
                        le == self.spec_le(),
                        data@ == self.spec_data().subrange(soff, soff + m),
                        0 <= soff,
                        soff + m <= self.spec_data().len(),
                        o == 16 * (relocs@.len() - base.len()),
                        base.len() <= relocs@.len(),
                        relocs@.subrange(0, base.len() as int) == base,
                        forall|j: int|
                            base.len() <= j < relocs@.len() ==> #[trigger] relocs@[j]
                                == spec_parse_reloc(
                                self.spec_data(),
                                soff + 16 * (j - base.len()),
                                le,
                            ),
                    decreases m - o,
                {
                    let r_offset = read_u64_at(&data, o, le);
                    let r_info = read_u64_at(&data, o + 8, le);
                    let sym_idx = (r_info / 0x100000000) as u32;
                    let rel_type = (r_info % 0x100000000) as u32;
                    let ghost before = relocs@;
                    relocs.push(Relocation { offset: r_offset, sym_idx, rel_type });
                    proof {
                        assert forall|x: int| 0 <= x < 16 implies #[trigger] data@[o + x]
                            == self.spec_data()[soff + o + x] by {}
                        assert(relocs@[before.len() as int] == spec_parse_reloc(
                            self.spec_data(),
                            soff + 16 * (before.len() - base.len()),
                            le,
                        ));
                        assert(relocs@.subrange(0, base.len() as int) =~= base);
                    }
                    o = o + 16;
                }
                proof {
                    vstd::arithmetic::div_mod::lemma_fundamental_div_mod_converse(
                        m as int,
                        16,
                        relocs@.len() - base.len(),
                        m - o,
                    );
                    assert(m == self.spec_sections()[si as int].size);
                    assert(relocs@ =~= base + self.spec_section_rels(si as int));
                    match self.spec_collect_rels(si as int + 1, target, gname) {
                        Ok(rest) => {
                            assert(base + (self.spec_section_rels(si as int) + rest) =~= relocs@
                                + rest);
                        },
                        Err(_) => {},
                    }
                }
            }
            si = si + 1;
        }
        proof {
            assert(self.spec_collect_rels(si as int, target, gname) == Ok::<
                Seq<Relocation>,
                LoadError,
            >(Seq::empty()));
            assert(relocs@ + Seq::<Relocation>::empty() =~= relocs@);
        }
        Ok(relocs)
    }

    /// The parsed symbol table: one entry per whole 24-byte record, in
    /// order (meaningful when a symbol table exists and is in bounds).
    pub open spec fn spec_symbols(&self) -> Seq<Symbol> {
        Seq::new(
            (self.spec_symtab().size as int / 24) as nat,
            |j: int|
                spec_parse_symbol(self.spec_data(), self.spec_symtab().offset + 24 * j, self.spec_le()),
        )
    }

    /// The symbol table's entries, one per whole 24-byte record, in order;
    /// fails when the object has no symbol table or its contents lie
    /// outside the file.
    pub fn symbols(&self) -> (r: LoadResult<Vec<Symbol>>)
        requires
            self.wf(),
        ensures
            !self.spec_has_symtab() ==> r == Err::<Vec<Symbol>, LoadError>(
                LoadError::NoSymbolTable,
            ),
            self.spec_has_symtab() && self.spec_symtab().offset + self.spec_symtab().size
                > self.spec_data().len() ==> r == Err::<Vec<Symbol>, LoadError>(
                LoadError::SectionDataOutOfBounds,
            ),
            self.spec_has_symtab() && self.spec_symtab().offset + self.spec_symtab().size
                <= self.spec_data().len() ==> r is Ok && r->Ok_0@.len() == self.spec_symtab().size
                as int / 24 && (forall|j: int|
                0 <= j < r->Ok_0@.len() ==> #[trigger] r->Ok_0@[j] == spec_parse_symbol(
                    self.spec_data(),
                    self.spec_symtab().offset + 24 * j,
                    self.spec_le(),
                )) && r->Ok_0@ == self.spec_symbols(),
    {
        let k = match self.symtab_idx {
            Some(k) => k,
            None => {
                return Err(LoadError::NoSymbolTable);
            },
        };
        let section = self.sections[k];
        let data = match self.section_data(&section) {
            Ok(d) => d,
            Err(e) => {
                return Err(e);
            },
        };
        let ghost soff = section.offset as int;
        let le = self.little_endian;
        let m = data.len();
        let mut symbols: Vec<Symbol> = Vec::new();
        let mut o: usize = 0;
        while m - o >= 24
            invariant
                o <= m,
                m == data@.len(),
                le == self.spec_le(),
                data@ == self.spec_data().subrange(soff, soff + m),
                0 <= soff,
                soff + m <= self.spec_data().len(),
                o == 24 * symbols@.len(),
                forall|j: int|
                    0 <= j < symbols@.len() ==> #[trigger] symbols@[j] == spec_parse_symbol(
                        self.spec_data(),
                        soff + 24 * j,
                        le,
                    ),
            decreases m - o,
        {
            let name_offset = read_u32_at(&data, o, le);
            let info = data[o + 4];
            let other = data[o + 5];
            let shndx = read_u16_at(&data, o + 6, le);
            let value = read_u64_at(&data, o + 8, le);
            let size = read_u64_at(&data, o + 16, le);
            let ghost before = symbols@.len() as int;
            symbols.push(Symbol { name_offset, info, other, shndx, value, size });
            proof {
                assert forall|x: int| 0 <= x < 24 implies #[trigger] data@[o + x]
                    == self.spec_data()[soff + o + x] by {}
                assert(symbols@[before] == spec_parse_symbol(self.spec_data(), soff + 24 * before, le));
            }
            o = o + 24;
        }
        proof {
            vstd::arithmetic::div_mod::lemma_fundamental_div_mod_converse(
                m as int,
                24,
                symbols@.len() as int,
                m - o,
            );
            assert(symbols@ =~= self.spec_symbols());
        }
        Ok(symbols)
    }
}

} // verus!
