//! Loading a program into the virtual machine: reading the constants, the
//! layout metadata and the entry point from its bytecode.
use vstd::prelude::*;
use vstd::utf8::{decode_utf8, valid_utf8};

use crate::codegen::constants::{Constant, ConstantModel};
use crate::codegen::encoding::{read_u16, read_u64, u16_from, u64_from};
use crate::runtime::loader::{
    load_program, take_constant_value, take_constants, take_header, take_info_block, take_info_entries,
    take_info_entry, take_map, take_n, take_positions, take_u16, take_u8, skip_name, ProgramModel,
};
use crate::runtime::opcodes::{CONST_END_FLAG, CONST_FLOAT_FLAG, CONST_INT_FLAG, CONST_STRING_FLAG};

verus! {

/// The size and pointer mapping of each item of an information block.
pub type MetadataBlock = Vec<(usize, Vec<u8>)>;

/// Layout information the machine needs at run time.
#[derive(Debug)]
pub struct Metadata {
    pub types_sizes: Vec<usize>,
    pub types_pointer_mapping: Vec<Vec<usize>>,
    pub lists_item_sizes: Vec<usize>,
    pub lists_pointer_mapping: Vec<Vec<usize>>,
    pub function_args_sizes: Vec<usize>,
    pub functions_pointer_mapping: Vec<Vec<usize>>,
    /// Start position of each function, with the function's index.
    pub function_positions: Vec<(usize, usize)>,
}

/// A loaded program, positioned at the start of its code.
#[derive(Debug)]
pub struct Vm {
    ip: usize,
    pub program: Vec<u8>,
    pub constants: Vec<Constant>,
    pub metadata: Metadata,
    pub entry: usize,
}

/// The sizes of a block are its items' sizes, and its pointer mappings the
/// items' mappings.
pub open spec fn block_matches(sizes: Seq<usize>, maps: Seq<Vec<usize>>, block: Seq<(u16, Seq<u8>)>) -> bool {
    &&& sizes.len() == block.len()
    &&& maps.len() == block.len()
    &&& forall|i: int| 0 <= i < block.len() ==> {
        &&& #[trigger] sizes[i] == block[i].0
        &&& maps[i]@ == block[i].1.map_values(|x: u8| x as usize)
    }
}

impl Metadata {
    /// The metadata holds what `m` describes.
    pub open spec fn matches(&self, m: ProgramModel) -> bool {
        &&& block_matches(self.types_sizes@, self.types_pointer_mapping@, m.types)
        &&& block_matches(self.lists_item_sizes@, self.lists_pointer_mapping@, m.lists)
        &&& block_matches(self.function_args_sizes@, self.functions_pointer_mapping@, m.functions)
        &&& self.function_positions@ == Seq::new(m.positions.len(), |i: int| (m.positions[i] as usize, i as usize))
    }
}

impl Vm {
    /// Position of the next byte to read.
    pub closed spec fn position(&self) -> int {
        self.ip as int
    }

    /// The bytecode of the program.
    pub closed spec fn program_view(&self) -> Seq<u8> {
        self.program@
    }

    /// The constants of the program.
    pub closed spec fn constants_view(&self) -> Seq<ConstantModel> {
        self.constants@.map_values(|c: Constant| c@)
    }

    /// The layout metadata of the program.
    pub closed spec fn meta(&self) -> Metadata {
        self.metadata
    }

    /// Start position of the entry function.
    pub closed spec fn entry_view(&self) -> usize {
        self.entry
    }

    /// The bytes not read yet.
    pub closed spec fn rest(&self) -> Seq<u8> {
        self.program@.skip(self.position())
    }

    pub closed spec fn wf(&self) -> bool {
        self.ip <= self.program@.len()
    }

    fn read_opcode(&mut self) -> (r: Option<u8>)
        requires
            old(self).wf(),
        ensures
            final(self).wf(),
            final(self).program == old(self).program,
            match take_u8(old(self).rest()) {
                Some((b, rest)) => r == Some(b) && final(self).rest() == rest,
                None => r is None,
            },
    {
        if self.ip < self.program.len() {
            let byte = self.program[self.ip];
            let ghost before = self.rest();
            self.ip = self.ip + 1;
            assert(self.rest() =~= before.skip(1));
            Some(byte)
        } else {
            None
        }
    }

    fn read_u16_value(&mut self) -> (r: Option<u16>)
        requires
            old(self).wf(),
        ensures
            final(self).wf(),
            final(self).program == old(self).program,
            match take_u16(old(self).rest()) {
                Some((v, rest)) => r == Some(v) && final(self).rest() == rest,
                None => r is None,
            },
    {
        if self.program.len() - self.ip >= 2 {
            let ghost before = self.rest();
            let v = read_u16(self.program[self.ip], self.program[self.ip + 1]);
            self.ip = self.ip + 2;
            assert(self.rest() =~= before.skip(2));
            Some(v)
        } else {
            None
        }
    }

    fn read_bytes(&mut self, num: usize) -> (r: Option<Vec<u8>>)
        requires
            old(self).wf(),
        ensures
            final(self).wf(),
            final(self).program == old(self).program,
            match take_n(old(self).rest(), num as int) {
                Some((bytes, rest)) => r matches Some(v) && v@ == bytes && final(self).rest() == rest,
                None => r is None,
            },
    {
        if self.program.len() - self.ip >= num {
            let ghost before = self.rest();
            let mut bytes: Vec<u8> = Vec::new();
            let mut i: usize = 0;
            let n = self.program.len();
            while i < num
                invariant
                    i <= num,
                    n == self.program@.len(),
                    self.ip + num <= n,
                    before == self.program@.skip(self.ip as int),
                    bytes@ == before.take(i as int),
                decreases num - i,
            {
                bytes.push(self.program[self.ip + i]);
                i = i + 1;
                assert(bytes@ =~= before.take(i as int));
            }
            self.ip = self.ip + num;
            assert(self.rest() =~= before.skip(num as int));
            Some(bytes)
        } else {
            None
        }
    }

    fn check_header(&mut self) -> (r: bool)
        requires
            old(self).wf(),
        ensures
            final(self).wf(),
            final(self).program == old(self).program,
            match take_header(old(self).rest()) {
                Some(rest) => r && final(self).rest() == rest,
                None => !r,
            },
    {
        if self.program.len() - self.ip >= 2 && self.program[self.ip] == 0xffu8 && self.program[self.ip + 1] == 0xffu8 {
            let ghost before = self.rest();
            self.ip = self.ip + 2;
            assert(self.rest() =~= before.skip(2));
            true
        } else {
            false
        }
    }
}


impl Vm {
    fn read_constant_value(&mut self, flag: u8) -> (r: Option<Constant>)
        requires
            old(self).wf(),
        ensures
            final(self).wf(),
            final(self).program == old(self).program,
            match take_constant_value(flag, old(self).rest()) {
                Some((c, rest)) => r matches Some(v) && v@ == c && final(self).rest() == rest,
                None => r is None,
            },
    {
        if flag == CONST_INT_FLAG {
            match self.read_bytes(8) {
                Some(bytes) => Some(Constant::Int(read_u64(bytes.as_slice()) as i64)),
                None => None,
            }
        } else if flag == CONST_FLOAT_FLAG {
            match self.read_bytes(8) {
                Some(bytes) => Some(Constant::Float(read_u64(bytes.as_slice()))),
                None => None,
            }
        } else if flag == CONST_STRING_FLAG {
            match self.read_u16_value() {
                Some(len) => match self.read_bytes(len as usize) {
                    Some(bytes) => match crate::text::utf8_text(bytes.as_slice()) {
                        Some(text) => Some(Constant::String(text)),
                        None => None,
                    },
                    None => None,
                },
                None => None,
            }
        } else {
            None
        }
    }

    fn load_consts(&mut self) -> (r: Option<Vec<Constant>>)
        requires
            old(self).wf(),
        ensures
            final(self).wf(),
            final(self).program == old(self).program,
            match take_constants(old(self).rest()) {
                Some((cs, rest)) => r matches Some(v) && v@.map_values(|c: Constant| c@) == cs && final(self).rest() == rest,
                None => r is None,
            },
    {
        let ghost start = self.rest();
        let mut constants: Vec<Constant> = Vec::new();
        loop
            invariant
                self.wf(),
                self.program == old(self).program,
                start == old(self).rest(),
                take_constants(start) == match take_constants(self.rest()) {
                    Some((cs, rest)) => Some((constants@.map_values(|c: Constant| c@) + cs, rest)),
                    None => None::<(Seq<ConstantModel>, Seq<u8>)>,
                },
            decreases self.rest().len(),
        {
            let ghost current = self.rest();
            let flag = match self.read_opcode() {
                Some(f) => f,
                None => {
                    return None;
                },
            };
            if flag == CONST_END_FLAG {
                assert(constants@.map_values(|c: Constant| c@) + Seq::<ConstantModel>::empty() =~= constants@.map_values(|c: Constant| c@));
                return Some(constants);
            }
            let ghost after_flag = self.rest();
            match self.read_constant_value(flag) {
                Some(c) => {
                    let ghost cv = c@;
                    let ghost before = constants@.map_values(|c: Constant| c@);
                    proof {
                        assert(self.rest().len() < current.len());
                        match take_constants(self.rest()) {
                            Some((cs, rest)) => {
                                assert(before.push(cv) + cs =~= before + (seq![cv] + cs));
                            },
                            None => {},
                        }
                    }
                    constants.push(c);
                    assert(constants@.map_values(|c: Constant| c@) =~= before.push(cv));
                },
                None => {
                    return None;
                },
            }
        }
    }
}


/// The block items as read from the bytecode.
pub open spec fn block_model(block: Seq<(usize, Vec<u8>)>) -> Seq<(u16, Seq<u8>)> {
    block.map_values(|e: (usize, Vec<u8>)| (e.0 as u16, e.1@))
}

impl Vm {
    fn read_info_entry(&mut self) -> (r: Option<(usize, Vec<u8>)>)
        requires
            old(self).wf(),
        ensures
            final(self).wf(),
            final(self).program == old(self).program,
            match take_info_entry(old(self).rest()) {
                Some((e, rest)) => r matches Some(v) && v.0 == e.0 && v.1@ == e.1 && final(self).rest() == rest,
                None => r is None,
            },
    {
        // The name is skipped: the machine has no use for it.
        let name_len = match self.read_u16_value() {
            Some(n) => n,
            None => {
                return None;
            },
        };
        if self.read_bytes(name_len as usize).is_none() {
            return None;
        }
        let flag = match self.read_u16_value() {
            Some(n) => n,
            None => {
                return None;
            },
        };
        let pointers_amount = match self.read_opcode() {
            Some(n) => n,
            None => {
                return None;
            },
        };
        match self.read_bytes(pointers_amount as usize) {
            Some(pointer_mapping) => Some((flag as usize, pointer_mapping)),
            None => None,
        }
    }

    fn read_metadata_block(&mut self) -> (r: Option<MetadataBlock>)
        requires
            old(self).wf(),
        ensures
            final(self).wf(),
            final(self).program == old(self).program,
            match take_info_block(old(self).rest()) {
                Some((es, rest)) => r matches Some(v) && block_model(v@) == es && final(self).rest() == rest
                    && forall|i: int| 0 <= i < v@.len() ==> (#[trigger] v@[i]).0 < 65536,
                None => r is None,
            },
    {
        let amount = match self.read_opcode() {
            Some(n) => n,
            None => {
                return None;
            },
        };
        let ghost start = self.rest();
        let mut res: MetadataBlock = Vec::new();
        let mut i: u8 = 0;
        while i < amount
            invariant
                self.wf(),
                self.program == old(self).program,
                i <= amount,
                take_u8(old(self).rest()) == Some((amount, start)),
                forall|j: int| 0 <= j < res@.len() ==> (#[trigger] res@[j]).0 < 65536,
                take_info_entries(start, amount as nat) == match take_info_entries(self.rest(), (amount - i) as nat) {
                    Some((es, rest)) => Some((block_model(res@) + es, rest)),
                    None => None::<(Seq<(u16, Seq<u8>)>, Seq<u8>)>,
                },
            decreases amount - i,
        {
            let ghost current = self.rest();
            let ghost before = block_model(res@);
            match self.read_info_entry() {
                Some(entry) => {
                    proof {
                        match take_info_entries(self.rest(), (amount - i - 1) as nat) {
                            Some((es, rest)) => {
                                assert(before.push((entry.0 as u16, entry.1@)) + es =~= before + (seq![(entry.0 as u16, entry.1@)] + es));
                            },
                            None => {},
                        }
                    }
                    res.push(entry);
                    assert(block_model(res@) =~= before.push((entry.0 as u16, entry.1@)));
                },
                None => {
                    assert(take_info_entries(current, (amount - i) as nat) is None);
                    return None;
                },
            }
            i = i + 1;
        }
        assert(block_model(res@) + Seq::<(u16, Seq<u8>)>::empty() =~= block_model(res@));
        if self.check_header() {
            Some(res)
        } else {
            None
        }
    }
}


/// The sizes and pointer mappings of the items of a block.
fn block_parts(block: &MetadataBlock) -> (r: (Vec<usize>, Vec<Vec<usize>>))
    requires
        forall|i: int| 0 <= i < block@.len() ==> (#[trigger] block@[i]).0 < 65536,
    ensures
        block_matches(r.0@, r.1@, block_model(block@)),
{
    let mut sizes: Vec<usize> = Vec::new();
    let mut maps: Vec<Vec<usize>> = Vec::new();
    let mut i: usize = 0;
    while i < block.len()
        invariant
            i <= block@.len(),
            forall|j: int| 0 <= j < block@.len() ==> (#[trigger] block@[j]).0 < 65536,
            sizes@.len() == i,
            maps@.len() == i,
            forall|j: int| 0 <= j < i ==> {
                &&& #[trigger] sizes@[j] == block_model(block@)[j].0
                &&& maps@[j]@ == block_model(block@)[j].1.map_values(|x: u8| x as usize)
            },
        decreases block@.len() - i,
    {
        let (size, bytes) = (block[i].0, &block[i].1);
        let mut map: Vec<usize> = Vec::new();
        let mut k: usize = 0;
        while k < bytes.len()
            invariant
                k <= bytes@.len(),
                map@ == bytes@.take(k as int).map_values(|x: u8| x as usize),
            decreases bytes@.len() - k,
        {
            map.push(bytes[k] as usize);
            k = k + 1;
            assert(map@ =~= bytes@.take(k as int).map_values(|x: u8| x as usize));
        }
        assert(bytes@.take(bytes@.len() as int) =~= bytes@);
        assert(block@[i as int].0 < 65536);
        sizes.push(size);
        maps.push(map);
        i = i + 1;
    }
    (sizes, maps)
}

impl Vm {
    fn load_positions(&mut self, count: usize) -> (r: Option<Vec<(usize, usize)>>)
        requires
            old(self).wf(),
        ensures
            final(self).wf(),
            final(self).program == old(self).program,
            match take_positions(old(self).rest(), count as nat) {
                Some((ps, rest)) => r matches Some(v) && v@ == Seq::new(ps.len(), |i: int| (ps[i] as usize, i as usize))
                    && final(self).rest() == rest,
                None => r is None,
            },
    {
        let ghost start = self.rest();
        let mut positions: Vec<(usize, usize)> = Vec::new();
        let mut i: usize = 0;
        let ghost mut read: Seq<u16> = Seq::empty();
        while i < count
            invariant
                self.wf(),
                self.program == old(self).program,
                start == old(self).rest(),
                i <= count,
                read.len() == i,
                positions@ == Seq::new(read.len(), |j: int| (read[j] as usize, j as usize)),
                take_positions(start, count as nat) == match take_positions(self.rest(), (count - i) as nat) {
                    Some((ps, rest)) => Some((read + ps, rest)),
                    None => None::<(Seq<u16>, Seq<u8>)>,
                },
            decreases count - i,
        {
            let ghost current = self.rest();
            match self.read_u16_value() {
                Some(pos) => {
                    proof {
                        match take_positions(self.rest(), (count - i - 1) as nat) {
                            Some((ps, rest)) => {
                                assert(read.push(pos) + ps =~= read + (seq![pos] + ps));
                            },
                            None => {},
                        }
                        read = read.push(pos);
                    }
                    positions.push((pos as usize, i));
                    assert(positions@ =~= Seq::new(read.len(), |j: int| (read[j] as usize, j as usize)));
                },
                None => {
                    assert(take_positions(current, (count - i) as nat) is None);
                    return None;
                },
            }
            i = i + 1;
        }
        assert(read + Seq::<u16>::empty() =~= read);
        Some(positions)
    }

    /// Loads `program`: reads its constants, the layout metadata of its
    /// types, list kinds and functions, the start position of each function
    /// and the entry position, and stands at the start of its code. There is
    /// no machine when `program` is not a well-formed program (see
    /// `load_program`).
    pub fn setup(program: Vec<u8>) -> (r: Option<Vm>)
        ensures
            match load_program(program@) {
                Some(m) => r matches Some(vm) && {
                    &&& vm.program_view() == program@
                    &&& vm.constants_view() == m.constants
                    &&& vm.meta().matches(m)
                    &&& vm.entry_view() == m.entry
                    &&& vm.position() == m.code_start
                },
                None => r is None,
            },
    {
        let ghost b = program@;
        let empty = Metadata {
            types_sizes: Vec::new(),
            types_pointer_mapping: Vec::new(),
            lists_item_sizes: Vec::new(),
            lists_pointer_mapping: Vec::new(),
            function_args_sizes: Vec::new(),
            functions_pointer_mapping: Vec::new(),
            function_positions: Vec::new(),
        };
        let mut vm = Vm { ip: 0, program, constants: Vec::new(), metadata: empty, entry: 0 };
        assert(vm.rest() =~= b);
        proof {
            reveal(load_program);
        }
        if !vm.check_header() {
            return None;
        }
        let constants = match vm.load_consts() {
            Some(c) => c,
            None => {
                return None;
            },
        };
        if !vm.check_header() {
            return None;
        }
        let tm = match vm.read_metadata_block() {
            Some(x) => x,
            None => {
                return None;
            },
        };
        let lm = match vm.read_metadata_block() {
            Some(x) => x,
            None => {
                return None;
            },
        };
        let fm = match vm.read_metadata_block() {
            Some(x) => x,
            None => {
                return None;
            },
        };
        let functions_count = fm.len();
        assert(block_model(fm@).len() == functions_count);
        let function_positions = match vm.load_positions(functions_count) {
            Some(x) => x,
            None => {
                return None;
            },
        };
        if !vm.check_header() {
            return None;
        }
        let entry = match vm.read_u16_value() {
            Some(e) => e,
            None => {
                return None;
            },
        };
        if !vm.check_header() {
            return None;
        }
        let (types_sizes, types_pointer_mapping) = block_parts(&tm);
        let (lists_item_sizes, lists_pointer_mapping) = block_parts(&lm);
        let (function_args_sizes, functions_pointer_mapping) = block_parts(&fm);
        vm.metadata = Metadata {
            types_sizes,
            types_pointer_mapping,
            lists_item_sizes,
            lists_pointer_mapping,
            function_args_sizes,
            functions_pointer_mapping,
            function_positions,
        };
        vm.constants = constants;
        vm.entry = entry as usize;
        proof {
            assert(vm.rest().len() == b.len() - vm.position());
        }
        Some(vm)
    }
}

} // verus!
