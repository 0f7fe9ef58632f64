//! Bytecode generation, assembly and disassembly.
pub mod assemble;
pub mod compile;
pub mod constants;
pub mod disassemble;
pub mod encoding;
pub mod expressions;
pub mod generator;
pub mod growth;
pub mod metadata;
pub mod types_metadata;
pub mod utils;

use vstd::prelude::*;

use crate::ast::verified::{CustomType, RawFunction};
use crate::codegen::assemble::{assembled, can_assemble, code_base, code_len, try_assemble_chunks};
use crate::codegen::compile::{function_gen, function_ok, types_ok};
use crate::codegen::constants::{constants_block, ConstantModel, ConstantsTable};
use crate::codegen::generator::{generate_function_bytecode, FunctionBytecode};
use crate::codegen::metadata::{index_entries, is_layout_of, CustomTypesMetadataTable, ListKindsMetadataTable, TypeM};
use crate::codegen::utils::{as_ints, get_pointers_map_for_sequence, pointers_of_seq, sizes_sum};
use crate::symbols::SymbolFunc;

verus! {

/// The listing of `program` (see `disassemble::disassembly`); none when it
/// cannot be listed.
pub fn disassemble(program: &[u8]) -> (r: Option<Vec<disassemble::DisasmLine>>)
    requires
        program@.len() + 65539 <= usize::MAX,
    ensures
        match disassemble::disassembly(program@) {
            Some(ls) => r matches Some(v) && disassemble::lines_model(v@) == ls,
            None => r is None,
        },
{
    let mut d = disassemble::Disassembler::new(program);
    d.disassemble()
}

} // verus!

verus! {

/// `t` is the table of the user types `types`: the layout of `types[i]` at
/// position `i`, each name mapped as a hash map filled in order would map it.
pub open spec fn table_of_types(t: CustomTypesMetadataTable, types: Seq<CustomType>) -> bool {
    &&& t.wf()
    &&& t.metadata@.len() == types.len()
    &&& forall|i: int|
        0 <= i < types.len() ==> is_layout_of(
            #[trigger] t.metadata@[i],
            types[i].fields.name_texts(),
            types[i].fields.type_models(),
        )
    &&& t.entries() == index_entries(types.map_values(|c: CustomType| c.name@))
}

/// `fbs` is the code of `funcs`, generated in order against the types table
/// `table`, with the constants growing along `cs` from none and the list
/// kinds along `ls` from the kind of integer lists; each function's pointer
/// map is that of its arguments.
pub open spec fn generated(
    funcs: Seq<RawFunction>,
    table: CustomTypesMetadataTable,
    fbs: Seq<FunctionBytecode>,
    cs: Seq<Seq<ConstantModel>>,
    ls: Seq<Seq<TypeM>>,
) -> bool {
    &&& fbs.len() == funcs.len()
    &&& cs.len() == funcs.len() + 1
    &&& ls.len() == funcs.len() + 1
    &&& cs[0] == Seq::<ConstantModel>::empty()
    &&& ls[0] == seq![TypeM::Int]
    &&& forall|i: int| 0 <= i < funcs.len() ==> {
        let g = function_gen(funcs[i], table, cs[i], ls[i]);
        &&& (#[trigger] fbs[i]).name@ == funcs[i].name@
        &&& fbs[i].bytecode@ == g.bytes
        &&& fbs[i].call_models() == g.calls
        &&& fbs[i].locals_size == sizes_sum(funcs[i].args.type_models())
        &&& fbs[i].args_size == sizes_sum(funcs[i].args.type_models())
        &&& as_ints(fbs[i].args_pointer_mapping@) == pointers_of_seq(funcs[i].args.type_models())
        &&& cs[i + 1] == g.consts
        &&& ls[i + 1] == g.lists
    }
}

/// The bytecode of the program made of the user types `types` and the
/// functions `functions`, starting at `entry`: the code of each function is
/// generated in order (see `generated`), then everything is assembled (see
/// `assemble::assembled`). None where the program cannot be assembled: a
/// called function or the entry missing, two types of one name, or a
/// program longer than memory can index.
pub fn generate(types: &[CustomType], functions: &[RawFunction], entry: &SymbolFunc) -> (r: Option<Vec<u8>>)
    requires
        forall|i: int| 0 <= i < types@.len() ==> (#[trigger] types@[i]).fields.wf(),
        forall|i: int| 0 <= i < types@.len() ==> sizes_sum((#[trigger] types@[i]).fields.type_models()) <= u8::MAX,
        forall|t: CustomTypesMetadataTable| #[trigger] table_of_types(t, types@) ==> types_ok(t),
        forall|t: CustomTypesMetadataTable, i: int|
            table_of_types(t, types@) && 0 <= i < functions@.len() ==> #[trigger] function_ok(functions@[i], t),
    ensures
        exists|
            t: CustomTypesMetadataTable,
            fbs: Seq<FunctionBytecode>,
            cs: Seq<Seq<ConstantModel>>,
            ls: Seq<Seq<TypeM>>,
            lists: ListKindsMetadataTable,
        |
            #![trigger generated(functions@, t, fbs, cs, ls), lists.kinds()]
            {
                &&& table_of_types(t, types@)
                &&& generated(functions@, t, fbs, cs, ls)
                &&& lists.wf()
                &&& lists.kinds() == ls.last()
                &&& match r {
                    Some(b) => can_assemble(t, lists, fbs, entry@) && b@ == assembled(
                        constants_block(cs.last()),
                        t,
                        lists,
                        fbs,
                        entry@,
                    ),
                    None => !(can_assemble(t, lists, fbs, entry@) && code_base(constants_block(cs.last()), t, lists, fbs)
                        + code_len(fbs) <= usize::MAX),
                }
            },
{
    let table = CustomTypesMetadataTable::from_types(types);
    assert(table_of_types(table, types@));
    let mut constants = ConstantsTable::new();
    let mut lists = ListKindsMetadataTable::new_empty();
    let mut fbs: Vec<FunctionBytecode> = Vec::new();
    let ghost mut cs: Seq<Seq<ConstantModel>> = seq![constants@];
    let ghost mut ls: Seq<Seq<TypeM>> = seq![lists.kinds()];
    let mut i: usize = 0;
    while i < functions.len()
        invariant
            i <= functions@.len(),
            table_of_types(table, types@),
            types_ok(table),
            forall|k: int| 0 <= k < functions@.len() ==> #[trigger] function_ok(functions@[k], table),
            lists.wf(),
            cs.last() == constants@,
            ls.last() == lists.kinds(),
            generated(functions@.take(i as int), table, fbs@, cs, ls),
        decreases functions@.len() - i,
    {
        let ghost c0 = constants@;
        let ghost l0 = lists.kinds();
        let generated_code = generate_function_bytecode(&functions[i], &table, &mut lists, &mut constants);
        let mut fb = match generated_code {
            Ok(fb) => fb,
            Err(_) => {
                return None;
            },
        };
        proof {
            crate::codegen::utils::lemma_sizes_sum_nonneg(functions@[i as int].args.type_models());
        }
        fb.args_pointer_mapping = get_pointers_map_for_sequence(functions[i].args.types.as_slice());
        let ghost before = fbs@;
        fbs.push(fb);
        proof {
            let g = function_gen(functions@[i as int], table, c0, l0);
            let old_cs = cs;
            let old_ls = ls;
            cs = cs.push(constants@);
            ls = ls.push(lists.kinds());
            let funcs = functions@.take(i + 1);
            assert(funcs.drop_last() =~= functions@.take(i as int));
            assert forall|k: int| 0 <= k < funcs.len() implies {
                let gk = function_gen(funcs[k], table, cs[k], ls[k]);
                &&& (#[trigger] fbs@[k]).name@ == funcs[k].name@
                &&& fbs@[k].bytecode@ == gk.bytes
                &&& fbs@[k].call_models() == gk.calls
                &&& fbs@[k].locals_size == sizes_sum(funcs[k].args.type_models())
                &&& fbs@[k].args_size == sizes_sum(funcs[k].args.type_models())
                &&& as_ints(fbs@[k].args_pointer_mapping@) == pointers_of_seq(funcs[k].args.type_models())
                &&& cs[k + 1] == gk.consts
                &&& ls[k + 1] == gk.lists
            } by {
                if k < i {
                    assert(funcs[k] == functions@.take(i as int)[k]);
                    assert(fbs@[k] == before[k]);
                    assert(cs[k] == old_cs[k] && cs[k + 1] == old_cs[k + 1]);
                    assert(ls[k] == old_ls[k] && ls[k + 1] == old_ls[k + 1]);
                } else {
                    assert(funcs[k] == functions@[i as int]);
                    assert(cs[k] == c0 && ls[k] == l0);
                }
            }
        }
        i = i + 1;
    }
    assert(functions@.take(functions@.len() as int) =~= functions@);
    let constants_bytes = constants.generate_bytecode();
    let ghost fbs_model = fbs@;
    let ghost lists_value = lists;
    let r = try_assemble_chunks(constants_bytes, table, lists, fbs, entry);
    assert(table_of_types(table, types@) && generated(functions@, table, fbs_model, cs, ls) && lists_value.kinds()
        == ls.last());
    r
}

} // verus!

