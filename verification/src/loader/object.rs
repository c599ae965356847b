//! Loaded objects: programs, maps, and the instruction stream codec.

use vstd::prelude::*;
use crate::bytecode::{BpfInsn, BpfProgType};
use crate::loader::error::{LoadError, LoadResult};
use crate::maps::MapDef;

verus! {

/// A program extracted from an object: its section name, type, and
/// relocated instruction sequence.
#[derive(Debug, Clone)]
pub struct LoadedProgram {
    name: String,
    prog_type: BpfProgType,
    insns: Vec<BpfInsn>,
}

impl LoadedProgram {
    /// The program name.
    pub closed spec fn spec_name(&self) -> Seq<char> {
        self.name@
    }

    /// The instruction sequence.
    pub closed spec fn spec_insns(&self) -> Seq<BpfInsn> {
        self.insns@
    }

    /// The program type.
    pub closed spec fn spec_prog_type(&self) -> BpfProgType {
        self.prog_type
    }

    /// Builds a loaded program.
    pub fn new(name: String, prog_type: BpfProgType, insns: Vec<BpfInsn>) -> (r: Self)
        ensures
            r.spec_name() == name@,
            r.spec_prog_type() == prog_type,
            r.spec_insns() == insns@,
    {
        LoadedProgram { name, prog_type, insns }
    }

    /// The program name.
    pub fn name(&self) -> (r: &String)
        ensures
            r@ == self.spec_name(),
    {
        &self.name
    }

    /// The program type.
    pub fn prog_type(&self) -> (r: BpfProgType)
        ensures
            r == self.spec_prog_type(),
    {
        self.prog_type
    }

    /// The instructions.
    pub fn insns(&self) -> (r: &Vec<BpfInsn>)
        ensures
            r@ == self.spec_insns(),
    {
        &self.insns
    }

    /// Number of instruction slots.
    pub fn insn_count(&self) -> (r: usize)
        ensures
            r == self.spec_insns().len(),
    {
        self.insns.len()
    }

    /// Takes the instructions out of the program.
    pub fn into_insns(self) -> (r: Vec<BpfInsn>)
        ensures
            r@ == self.spec_insns(),
    {
        self.insns
    }
}

/// A map pulled from an object: its name and definition.
#[derive(Debug, Clone)]
pub struct LoadedMap {
    pub name: String,
    pub def: MapDef,
}

impl LoadedMap {
    /// The map name.
    pub fn name(&self) -> (r: &String)
        ensures
            r == &self.name,
    {
        &self.name
    }

    /// The map definition.
    pub fn def(&self) -> (r: &MapDef)
        ensures
            r == &self.def,
    {
        &self.def
    }
}

/// A loaded object: its programs, its maps, and an optional license.
#[derive(Debug)]
pub struct BpfObject {
    programs: Vec<LoadedProgram>,
    maps: Vec<LoadedMap>,
    license: Option<String>,
}

/// The first index at or after `i` whose program is named `name`.
pub open spec fn spec_find_program(progs: Seq<LoadedProgram>, name: Seq<char>, i: int) -> Option<
    int,
>
    decreases progs.len() - i,
{
    if i < 0 || i >= progs.len() {
        None
    } else if progs[i].spec_name() == name {
        Some(i)
    } else {
        spec_find_program(progs, name, i + 1)
    }
}

/// The first index at or after `i` whose map is named `name`.
pub open spec fn spec_find_map(maps: Seq<LoadedMap>, name: Seq<char>, i: int) -> Option<int>
    decreases maps.len() - i,
{
    if i < 0 || i >= maps.len() {
        None
    } else if maps[i].name@ == name {
        Some(i)
    } else {
        spec_find_map(maps, name, i + 1)
    }
}

impl BpfObject {
    /// The programs.
    pub closed spec fn spec_programs(&self) -> Seq<LoadedProgram> {
        self.programs@
    }

    /// The maps.
    pub closed spec fn spec_maps(&self) -> Seq<LoadedMap> {
        self.maps@
    }

    /// The license.
    pub closed spec fn spec_license(&self) -> Option<String> {
        self.license
    }

    /// Builds an object from its parts.
    pub fn new(programs: Vec<LoadedProgram>, maps: Vec<LoadedMap>, license: Option<String>) -> (r:
        Self)
        ensures
            r.spec_programs() == programs@,
            r.spec_maps() == maps@,
            r.spec_license() == license,
    {
        BpfObject { programs, maps, license }
    }

    /// All programs.
    pub fn programs(&self) -> (r: &Vec<LoadedProgram>)
        ensures
            r@ == self.spec_programs(),
    {
        &self.programs
    }

    /// The first program with the given name, or `None` when no program has
    /// it.
    pub fn program(&self, name: &str) -> (r: Option<&LoadedProgram>)
        ensures
            match spec_find_program(self.spec_programs(), name@, 0) {
                Some(i) => r is Some && *r->Some_0 == self.spec_programs()[i],
                None => r is None,
            },
    {
        let needle = String::from_str(name);
        let n = self.programs.len();
        let mut i: usize = 0;
        while i < n
            invariant
                i <= n,
                n == self.spec_programs().len(),
                needle@ == name@,
                spec_find_program(self.spec_programs(), name@, 0) == spec_find_program(
                    self.spec_programs(),
                    name@,
                    i as int,
                ),
            decreases n - i,
        {
            if *self.programs[i].name() == needle {
                return Some(&self.programs[i]);
            }
            i = i + 1;
        }
        None
    }

    /// All maps.
    pub fn maps(&self) -> (r: &Vec<LoadedMap>)
        ensures
            r@ == self.spec_maps(),
    {
        &self.maps
    }

    /// The first map with the given name, or `None` when no map has it.
    pub fn map(&self, name: &str) -> (r: Option<&LoadedMap>)
        ensures
            match spec_find_map(self.spec_maps(), name@, 0) {
                Some(i) => r is Some && *r->Some_0 == self.spec_maps()[i],
                None => r is None,
            },
    {
        let needle = String::from_str(name);
        let n = self.maps.len();
        let mut i: usize = 0;
        while i < n
            invariant
                i <= n,
                n == self.spec_maps().len(),
                needle@ == name@,
                spec_find_map(self.spec_maps(), name@, 0) == spec_find_map(
                    self.spec_maps(),
                    name@,
                    i as int,
                ),
            decreases n - i,
        {
            if *self.maps[i].name() == needle {
                return Some(&self.maps[i]);
            }
            i = i + 1;
        }
        None
    }

    /// The license string.
    pub fn license(&self) -> (r: &Option<String>)
        ensures
            r == &self.spec_license(),
    {
        &self.license
    }

    /// Number of programs.
    pub fn program_count(&self) -> (r: usize)
        ensures
            r == self.spec_programs().len(),
    {
        self.programs.len()
    }

    /// Number of maps.
    pub fn map_count(&self) -> (r: usize)
        ensures
            r == self.spec_maps().len(),
    {
        self.maps.len()
    }

    /// The program names, in order.
    pub fn program_names(&self) -> (r: Vec<String>)
        ensures
            r@.len() == self.spec_programs().len(),
            forall|i: int|
                0 <= i < r@.len() ==> (#[trigger] r@[i])@ == self.spec_programs()[i].spec_name(),
    {
        let n = self.programs.len();
        let mut out: Vec<String> = Vec::new();
        let mut i: usize = 0;
        while i < n
            invariant
                i <= n,
                n == self.spec_programs().len(),
                out@.len() == i,
                forall|j: int|
                    0 <= j < i ==> (#[trigger] out@[j])@ == self.spec_programs()[j].spec_name(),
            decreases n - i,
        {
            out.push(self.programs[i].name().clone());
            i = i + 1;
        }
        out
    }

    /// The map names, in order.
    pub fn map_names(&self) -> (r: Vec<String>)
        ensures
            r@.len() == self.spec_maps().len(),
            forall|i: int|
                0 <= i < r@.len() ==> (#[trigger] r@[i])@ == self.spec_maps()[i].name@,
    {
        let n = self.maps.len();
        let mut out: Vec<String> = Vec::new();
        let mut i: usize = 0;
        while i < n
            invariant
                i <= n,
                n == self.spec_maps().len(),
                out@.len() == i,
                forall|j: int| 0 <= j < i ==> (#[trigger] out@[j])@ == self.spec_maps()[j].name@,
            decreases n - i,
        {
            out.push(self.maps[i].name().clone());
            i = i + 1;
        }
        out
    }

    /// Removes and returns the first program with the given name; the other
    /// programs keep their order and the maps and license are untouched.
    pub fn take_program(&mut self, name: &str) -> (r: Option<LoadedProgram>)
        ensures
            match spec_find_program(old(self).spec_programs(), name@, 0) {
                Some(i) => r is Some && r->Some_0 == old(self).spec_programs()[i]
                    && final(self).spec_programs() == old(self).spec_programs().remove(i),
                None => r is None && *final(self) == *old(self),
            },
            final(self).spec_maps() == old(self).spec_maps(),
            final(self).spec_license() == old(self).spec_license(),
    {
        let needle = String::from_str(name);
        let n = self.programs.len();
        let mut i: usize = 0;
        while i < n
            invariant
                n == self.spec_programs().len(),
                needle@ == name@,
                *self == *old(self),
                i <= n,
                spec_find_program(self.spec_programs(), name@, 0) == spec_find_program(
                    self.spec_programs(),
                    name@,
                    i as int,
                ),
            decreases n - i,
        {
            if *self.programs[i].name() == needle {
                let p = self.programs.remove(i);
                return Some(p);
            }
            i = i + 1;
        }
        None
    }
}

/// The wire bytes of a whole instruction sequence: each 8-byte record in
/// order.
pub open spec fn spec_insn_stream_bytes(insns: Seq<BpfInsn>) -> Seq<u8>
    decreases insns.len(),
{
    if insns.len() == 0 {
        Seq::empty()
    } else {
        insns[0].spec_bytes() + spec_insn_stream_bytes(insns.drop_first())
    }
}

/// The stream bytes are 8 per instruction, and record `i` occupies bytes
/// `8 i .. 8 i + 8`.
pub proof fn lemma_insn_stream_layout(insns: Seq<BpfInsn>)
    ensures
        spec_insn_stream_bytes(insns).len() == 8 * insns.len(),
        forall|i: int|
            0 <= i < insns.len() ==> #[trigger] spec_insn_stream_bytes(insns).subrange(
                8 * i,
                8 * i + 8,
            ) == insns[i].spec_bytes(),
    decreases insns.len(),
{
    if insns.len() > 0 {
        lemma_insn_stream_layout(insns.drop_first());
        let b = spec_insn_stream_bytes(insns);
        let rest = spec_insn_stream_bytes(insns.drop_first());
        assert forall|i: int| 0 <= i < insns.len() implies #[trigger] b.subrange(8 * i, 8 * i + 8)
            == insns[i].spec_bytes() by {
            if i == 0 {
                assert(b.subrange(0, 8) =~= insns[0].spec_bytes());
            } else {
                assert(rest.subrange(8 * (i - 1), 8 * (i - 1) + 8) == insns.drop_first()[i
                    - 1].spec_bytes());
                assert(b.subrange(8 * i, 8 * i + 8) =~= rest.subrange(8 * (i - 1), 8 * (i - 1) + 8));
                assert(insns.drop_first()[i - 1] == insns[i]);
            }
        }
    }
}

/// Parses an instruction stream: the bytes must be a whole number of 8-byte
/// records.
pub fn extract_instructions(data: &[u8]) -> (r: LoadResult<Vec<BpfInsn>>)
    ensures
        data@.len() % 8 != 0 ==> r == Err::<Vec<BpfInsn>, LoadError>(
            LoadError::InvalidInstructionData,
        ),
        data@.len() % 8 == 0 ==> r is Ok && r->Ok_0@.len() * 8 == data@.len() && (forall|i: int|
            0 <= i < r->Ok_0@.len() ==> (#[trigger] r->Ok_0@[i]).spec_bytes() == data@.subrange(
                8 * i,
                8 * i + 8,
            )),
{
    let dlen = data.len();
    if dlen % 8 != 0 {
        return Err(LoadError::InvalidInstructionData);
    }
    let n = dlen / 8;
    let mut out: Vec<BpfInsn> = Vec::new();
    let mut i: usize = 0;
    while i < n
        invariant
            i <= n,
            dlen == data@.len(),
            n * 8 == dlen,
            out@.len() == i,
            forall|j: int|
                0 <= j < i ==> (#[trigger] out@[j]).spec_bytes() == data@.subrange(
                    8 * j,
                    8 * j + 8,
                ),
        decreases n - i,
    {
        proof {
            assert(8 * i + 8 <= dlen) by (nonlinear_arith)
                requires
                    i < n,
                    n * 8 == dlen,
            ;
        }
        let mut chunk: Vec<u8> = Vec::new();
        let mut k: usize = 0;
        while k < 8
            invariant
                k <= 8,
                dlen == data@.len(),
                8 * i + 8 <= dlen,
                chunk@ == data@.subrange(8 * i as int, 8 * i + k as int),
            decreases 8 - k,
        {
            chunk.push(data[8 * i + k]);
            proof {
                assert(chunk@ =~= data@.subrange(8 * i as int, 8 * i + k as int + 1));
            }
            k = k + 1;
        }
        match BpfInsn::from_bytes(chunk.as_slice()) {
            Some(insn) => {
                out.push(insn);
            },
            None => {
                proof {
                    assert(false);
                }
            },
        }
        i = i + 1;
    }
    Ok(out)
}

/// Serializes an instruction sequence back to its wire bytes.
pub fn serialize_instructions(insns: &Vec<BpfInsn>) -> (r: Vec<u8>)
    ensures
        r@ == spec_insn_stream_bytes(insns@),
{
    let n = insns.len();
    let mut out: Vec<u8> = Vec::new();
    let mut i: usize = 0;
    while i < n
        invariant
            i <= n,
            n == insns@.len(),
            out@.len() == 8 * i,
            forall|j: int|
                0 <= j < i ==> #[trigger] out@.subrange(8 * j, 8 * j + 8) == insns@[j].spec_bytes(),
        decreases n - i,
    {
        let b = insns[i].to_bytes();
        let mut k: usize = 0;
        while k < 8
            invariant
                k <= 8,
                b@.len() == 8,
                b@ == insns@[i as int].spec_bytes(),
                i < n,
                n == insns@.len(),
                out@.len() == 8 * i + k,
                out@.subrange(8 * i as int, out@.len() as int) =~= b@.subrange(0, k as int),
                forall|j: int|
                    0 <= j < i ==> #[trigger] out@.subrange(8 * j, 8 * j + 8)
                        == insns@[j].spec_bytes(),
            decreases 8 - k,
        {
            let ghost prev = out@;
            out.push(b[k]);
            proof {
                assert(out@.subrange(8 * i as int, out@.len() as int) =~= b@.subrange(
                    0,
                    k as int + 1,
                ));
                assert forall|j: int| 0 <= j < i implies #[trigger] out@.subrange(8 * j, 8 * j + 8)
                    == insns@[j].spec_bytes() by {
                    assert(prev.subrange(8 * j, 8 * j + 8) == insns@[j].spec_bytes());
                    assert(out@.subrange(8 * j, 8 * j + 8) =~= prev.subrange(8 * j, 8 * j + 8));
                }
            }
            k = k + 1;
        }
        proof {
            assert(out@.subrange(8 * i as int, 8 * i + 8) =~= insns@[i as int].spec_bytes());
            assert forall|j: int| 0 <= j < i + 1 implies #[trigger] out@.subrange(8 * j, 8 * j + 8)
                == insns@[j].spec_bytes() by {}
        }
        i = i + 1;
    }
    proof {
        lemma_insn_stream_layout(insns@);
        assert(out@ =~= spec_insn_stream_bytes(insns@)) by {
            assert forall|x: int| 0 <= x < out@.len() implies out@[x] == spec_insn_stream_bytes(
                insns@,
            )[x] by {
                let j = x / 8;
                let m = x % 8;
                assert(0 <= m < 8 && x == 8 * j + m) by (nonlinear_arith)
                    requires
                        x >= 0,
                        j == x / 8,
                        m == x % 8,
                ;
                assert(j < insns@.len()) by (nonlinear_arith)
                    requires
                        x < 8 * insns@.len(),
                        0 <= m < 8,
                        x == 8 * j + m,
                ;
                assert(out@.subrange(8 * j, 8 * j + 8) == insns@[j].spec_bytes());
                assert(spec_insn_stream_bytes(insns@).subrange(8 * j, 8 * j + 8)
                    == insns@[j].spec_bytes());
                assert(out@[x] == out@.subrange(8 * j, 8 * j + 8)[m]);
                assert(spec_insn_stream_bytes(insns@)[x] == spec_insn_stream_bytes(
                    insns@,
                ).subrange(8 * j, 8 * j + 8)[m]);
            }
        }
    }
    out
}

/// Law: extracting an instruction stream and re-serializing it reproduces
/// the bytes exactly.
pub proof fn lemma_insn_stream_round_trip(data: Seq<u8>, insns: Seq<BpfInsn>)
    requires
        data.len() % 8 == 0,
        insns.len() * 8 == data.len(),
        forall|i: int|
            0 <= i < insns.len() ==> (#[trigger] insns[i]).spec_bytes() == data.subrange(
                8 * i,
                8 * i + 8,
            ),
    ensures
        spec_insn_stream_bytes(insns) == data,
{
    lemma_insn_stream_layout(insns);
    let b = spec_insn_stream_bytes(insns);
    assert(b =~= data) by {
        assert forall|x: int| 0 <= x < b.len() implies b[x] == data[x] by {
            let j = x / 8;
            let m = x % 8;
            assert(0 <= m < 8 && x == 8 * j + m) by (nonlinear_arith)
                requires
                    x >= 0,
                    j == x / 8,
                    m == x % 8,
            ;
            assert(j < insns.len()) by (nonlinear_arith)
                requires
                    x < 8 * insns.len(),
                    0 <= m < 8,
                    x == 8 * j + m,
            ;
            assert(b.subrange(8 * j, 8 * j + 8) == insns[j].spec_bytes());
            assert(insns[j].spec_bytes() == data.subrange(8 * j, 8 * j + 8));
            assert(b[x] == b.subrange(8 * j, 8 * j + 8)[m]);
            assert(data[x] == data.subrange(8 * j, 8 * j + 8)[m]);
        }
    }
}

} // verus!
