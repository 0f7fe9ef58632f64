//! Opcodes of primitive operations and runner indexes of standard-library
//! calls.
use vstd::prelude::*;

use crate::ast::verified::RawOperator;
use crate::codegen::compile::{first_index_of, operator_code, std_index};
use crate::runtime::opcodes::{
    ADD_FLOAT, ADD_INT, ADD_STRINGS, AND_BOOL, DIV_FLOAT, DIV_INT, EQ_BOOL, EQ_FLOAT, EQ_INT, EQ_STRINGS,
    GREATER_FLOAT, GREATER_INT, LESS_FLOAT, LESS_INT, MUL_FLOAT, MUL_INT, NEGATE_BOOL, NEGATE_FLOAT, NEGATE_INT,
    OR_BOOL, SUB_FLOAT, SUB_INT,
};
use crate::runtime::opcodes::{args_count, opcode_name};
use crate::runtime::stdlib_runners::{std_runner_names, std_runners};
use crate::symbols::SymbolFunc;

verus! {

/// The opcode of a primitive operation.
pub fn match_operator(raw_op: &RawOperator) -> (r: u8)
    ensures
        r == operator_code(*raw_op),
{
    match raw_op {
        RawOperator::UnaryNegateInt => NEGATE_INT,
        RawOperator::AddInts => ADD_INT,
        RawOperator::SubInts => SUB_INT,
        RawOperator::MulInts => MUL_INT,
        RawOperator::DivInts => DIV_INT,
        RawOperator::GreaterInts => GREATER_INT,
        RawOperator::LessInts => LESS_INT,
        RawOperator::EqualInts => EQ_INT,
        RawOperator::UnaryNegateFloat => NEGATE_FLOAT,
        RawOperator::AddFloats => ADD_FLOAT,
        RawOperator::SubFloats => SUB_FLOAT,
        RawOperator::MulFloats => MUL_FLOAT,
        RawOperator::DivFloats => DIV_FLOAT,
        RawOperator::GreaterFloats => GREATER_FLOAT,
        RawOperator::LessFloats => LESS_FLOAT,
        RawOperator::EqualFloats => EQ_FLOAT,
        RawOperator::UnaryNegateBool => NEGATE_BOOL,
        RawOperator::EqualBools => EQ_BOOL,
        RawOperator::AndBools => AND_BOOL,
        RawOperator::OrBools => OR_BOOL,
        RawOperator::EqualStrings => EQ_STRINGS,
        RawOperator::AddStrings => ADD_STRINGS,
    }
}

/// Runner index of the standard-library function `symbol`: the position
/// of the first runner with its printed name.
pub fn match_std_function(symbol: &SymbolFunc) -> (r: u8)
    requires
        std_index(symbol@) is Some,
    ensures
        r == std_index(symbol@).unwrap() as u8,
{
    let runners = std_runners();
    let ghost names = std_runner_names();
    let text = symbol.text();
    let name = crate::text::string_from_chars(text.as_slice());
    let mut i: usize = 0;
    assert(names.skip(0) =~= names);
    while i < runners.len()
        invariant
            i <= runners@.len(),
            runners@.map_values(|s: &str| s@) == names,
            name@ == crate::symbols::qualified_text(symbol@.0, symbol@.1),
            std_index(symbol@) == (match first_index_of(names.skip(i as int), name@) {
                Some(k) => Some(k + i),
                None => None::<int>,
            }),
        decreases runners@.len() - i,
    {
        let ghost rest = names.skip(i as int);
        assert(rest[0] == runners@[i as int]@);
        assert(rest.drop_first() =~= names.skip(i + 1));
        if crate::text::same_text(runners[i], name.as_str()) {
            return i as u8;
        }
        i = i + 1;
    }
    assert(names.skip(i as int) =~= Seq::<Seq<char>>::empty());
    0
}

/// The operation a primitive operator performs, as the opcode names spell
/// it.
pub open spec fn operation_word(op: RawOperator) -> Seq<char> {
    match op {
        RawOperator::UnaryNegateInt | RawOperator::UnaryNegateFloat | RawOperator::UnaryNegateBool => "NEGATE"@,
        RawOperator::AddInts | RawOperator::AddFloats | RawOperator::AddStrings => "ADD"@,
        RawOperator::SubInts | RawOperator::SubFloats => "SUB"@,
        RawOperator::MulInts | RawOperator::MulFloats => "MUL"@,
        RawOperator::DivInts | RawOperator::DivFloats => "DIV"@,
        RawOperator::GreaterInts | RawOperator::GreaterFloats => "GREATER"@,
        RawOperator::LessInts | RawOperator::LessFloats => "LESS"@,
        RawOperator::EqualInts | RawOperator::EqualFloats | RawOperator::EqualBools | RawOperator::EqualStrings => "EQ"@,
        RawOperator::AndBools => "AND"@,
        RawOperator::OrBools => "OR"@,
    }
}

/// The kind of values a primitive operator works on, as the opcode names
/// spell it.
pub open spec fn operand_word(op: RawOperator) -> Seq<char> {
    match op {
        RawOperator::UnaryNegateInt | RawOperator::AddInts | RawOperator::SubInts | RawOperator::MulInts
        | RawOperator::DivInts | RawOperator::GreaterInts | RawOperator::LessInts | RawOperator::EqualInts => "INT"@,
        RawOperator::UnaryNegateFloat | RawOperator::AddFloats | RawOperator::SubFloats | RawOperator::MulFloats
        | RawOperator::DivFloats | RawOperator::GreaterFloats | RawOperator::LessFloats | RawOperator::EqualFloats => "FLOAT"@,
        RawOperator::UnaryNegateBool | RawOperator::EqualBools | RawOperator::AndBools | RawOperator::OrBools => "BOOL"@,
        RawOperator::EqualStrings | RawOperator::AddStrings => "STRINGS"@,
    }
}

/// The opcode compiled for a primitive operator performs that operation on
/// that kind of values: its name is the operation, `_`, and the kind (as
/// `LESS_INT` for `<` on integers). It takes no operand bytes, and different
/// operators get different opcodes.
pub proof fn law_operator_opcodes_perform_the_operation(op: RawOperator, other: RawOperator)
    ensures
        opcode_name(operator_code(op)) == operation_word(op) + "_"@ + operand_word(op),
        args_count(operator_code(op)) == 0,
        operator_code(op) == operator_code(other) ==> op == other,
{
    reveal_strlit("NEGATE_INT");
    reveal_strlit("ADD_INT");
    reveal_strlit("SUB_INT");
    reveal_strlit("MUL_INT");
    reveal_strlit("DIV_INT");
    reveal_strlit("GREATER_INT");
    reveal_strlit("LESS_INT");
    reveal_strlit("EQ_INT");
    reveal_strlit("NEGATE_FLOAT");
    reveal_strlit("ADD_FLOAT");
    reveal_strlit("SUB_FLOAT");
    reveal_strlit("MUL_FLOAT");
    reveal_strlit("DIV_FLOAT");
    reveal_strlit("GREATER_FLOAT");
    reveal_strlit("LESS_FLOAT");
    reveal_strlit("EQ_FLOAT");
    reveal_strlit("NEGATE_BOOL");
    reveal_strlit("EQ_BOOL");
    reveal_strlit("AND_BOOL");
    reveal_strlit("OR_BOOL");
    reveal_strlit("EQ_STRINGS");
    reveal_strlit("ADD_STRINGS");
    reveal_strlit("NEGATE");
    reveal_strlit("ADD");
    reveal_strlit("SUB");
    reveal_strlit("MUL");
    reveal_strlit("DIV");
    reveal_strlit("GREATER");
    reveal_strlit("LESS");
    reveal_strlit("EQ");
    reveal_strlit("AND");
    reveal_strlit("OR");
    reveal_strlit("INT");
    reveal_strlit("FLOAT");
    reveal_strlit("BOOL");
    reveal_strlit("STRINGS");
    reveal_strlit("_");
    assert(opcode_name(operator_code(op)) =~= operation_word(op) + "_"@ + operand_word(op));
}

} // verus!
