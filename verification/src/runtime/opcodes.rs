//! The instruction set of the virtual machine: opcodes, the number of
//! operand bytes that follow each, and their printed names. Also the flags
//! that tag the entries of the constants table.
use vstd::prelude::*;

verus! {

/// Tag of an integer constant (eight big-endian bytes follow).
pub const CONST_INT_FLAG: u8 = 0;
/// Tag of a float constant (the eight big-endian bytes of its bit pattern follow).
pub const CONST_FLOAT_FLAG: u8 = 1;
/// Tag of a string constant (a two-byte length and the UTF-8 bytes follow).
pub const CONST_STRING_FLAG: u8 = 2;
/// Ends the constants table.
pub const CONST_END_FLAG: u8 = 3;

pub const LOAD_CONST: u8 = 16;
pub const LOAD_SMALL_INT: u8 = 17;
pub const LOAD_TRUE: u8 = 18;
pub const LOAD_FALSE: u8 = 19;
pub const NEGATE_INT: u8 = 20;
pub const ADD_INT: u8 = 21;
pub const SUB_INT: u8 = 22;
pub const MUL_INT: u8 = 23;
pub const DIV_INT: u8 = 24;
pub const GREATER_INT: u8 = 25;
pub const LESS_INT: u8 = 26;
pub const EQ_INT: u8 = 27;
pub const NEGATE_FLOAT: u8 = 28;
pub const ADD_FLOAT: u8 = 29;
pub const SUB_FLOAT: u8 = 30;
pub const MUL_FLOAT: u8 = 31;
pub const DIV_FLOAT: u8 = 32;
pub const GREATER_FLOAT: u8 = 33;
pub const LESS_FLOAT: u8 = 34;
pub const EQ_FLOAT: u8 = 35;
pub const NEGATE_BOOL: u8 = 36;
pub const EQ_BOOL: u8 = 37;
pub const AND_BOOL: u8 = 38;
pub const OR_BOOL: u8 = 39;
pub const EQ_STRINGS: u8 = 40;
pub const ADD_STRINGS: u8 = 41;
pub const JUMP: u8 = 42;
pub const JUMP_IF_FALSE: u8 = 43;
pub const JUMP_BACK: u8 = 44;
pub const GET_LOCAL: u8 = 45;
pub const SET_LOCAL: u8 = 46;
pub const RESERVE: u8 = 47;
pub const POP: u8 = 48;
pub const CALL: u8 = 49;
pub const CALL_STD: u8 = 50;
pub const RETURN: u8 = 51;
pub const ALLOCATE: u8 = 52;
pub const ALLOCATE_LIST: u8 = 53;
pub const GET_TUPLE_ITEM: u8 = 54;
pub const GET_OBJ_FIELD: u8 = 55;
pub const SET_OBJ_FIELD: u8 = 56;
pub const GET_LIST_ITEM: u8 = 57;
pub const SET_LIST_ITEM: u8 = 58;
pub const SPAWN: u8 = 59;
pub const CURRENT_ACTIVE: u8 = 60;
pub const GET_CURRENT_ACTIVE_FIELD: u8 = 61;
pub const SET_CURRENT_ACTIVE_FIELD: u8 = 62;
pub const SEND_MESSAGE: u8 = 63;

/// Number of operand bytes that follow `opcode` in a function's code.
pub open spec fn args_count(opcode: u8) -> nat {
    if opcode == LOAD_CONST || opcode == LOAD_SMALL_INT || opcode == RESERVE || opcode == POP || opcode == RETURN || opcode == ALLOCATE {
        1
    } else if opcode == JUMP || opcode == JUMP_IF_FALSE || opcode == JUMP_BACK || opcode == GET_LOCAL || opcode == SET_LOCAL || opcode == ALLOCATE_LIST || opcode == GET_OBJ_FIELD || opcode == SET_OBJ_FIELD || opcode == SET_LIST_ITEM || opcode == GET_CURRENT_ACTIVE_FIELD || opcode == SET_CURRENT_ACTIVE_FIELD || opcode == SEND_MESSAGE {
        2
    } else if opcode == CALL || opcode == CALL_STD || opcode == GET_TUPLE_ITEM || opcode == SPAWN {
        3
    } else {
        0
    }
}

/// Printed name of `opcode`.
pub open spec fn opcode_name(opcode: u8) -> Seq<char> {
    if opcode == LOAD_CONST {
        "LOAD_CONST"@
    } else if opcode == LOAD_SMALL_INT {
        "LOAD_SMALL_INT"@
    } else if opcode == LOAD_TRUE {
        "LOAD_TRUE"@
    } else if opcode == LOAD_FALSE {
        "LOAD_FALSE"@
    } else if opcode == NEGATE_INT {
        "NEGATE_INT"@
    } else if opcode == ADD_INT {
        "ADD_INT"@
    } else if opcode == SUB_INT {
        "SUB_INT"@
    } else if opcode == MUL_INT {
        "MUL_INT"@
    } else if opcode == DIV_INT {
        "DIV_INT"@
    } else if opcode == GREATER_INT {
        "GREATER_INT"@
    } else if opcode == LESS_INT {
        "LESS_INT"@
    } else if opcode == EQ_INT {
        "EQ_INT"@
    } else if opcode == NEGATE_FLOAT {
        "NEGATE_FLOAT"@
    } else if opcode == ADD_FLOAT {
        "ADD_FLOAT"@
    } else if opcode == SUB_FLOAT {
        "SUB_FLOAT"@
    } else if opcode == MUL_FLOAT {
        "MUL_FLOAT"@
    } else if opcode == DIV_FLOAT {
        "DIV_FLOAT"@
    } else if opcode == GREATER_FLOAT {
        "GREATER_FLOAT"@
    } else if opcode == LESS_FLOAT {
        "LESS_FLOAT"@
    } else if opcode == EQ_FLOAT {
        "EQ_FLOAT"@
    } else if opcode == NEGATE_BOOL {
        "NEGATE_BOOL"@
    } else if opcode == EQ_BOOL {
        "EQ_BOOL"@
    } else if opcode == AND_BOOL {
        "AND_BOOL"@
    } else if opcode == OR_BOOL {
        "OR_BOOL"@
    } else if opcode == EQ_STRINGS {
        "EQ_STRINGS"@
    } else if opcode == ADD_STRINGS {
        "ADD_STRINGS"@
    } else if opcode == JUMP {
        "JUMP"@
    } else if opcode == JUMP_IF_FALSE {
        "JUMP_IF_FALSE"@
    } else if opcode == JUMP_BACK {
        "JUMP_BACK"@
    } else if opcode == GET_LOCAL {
        "GET_LOCAL"@
    } else if opcode == SET_LOCAL {
        "SET_LOCAL"@
    } else if opcode == RESERVE {
        "RESERVE"@
    } else if opcode == POP {
        "POP"@
    } else if opcode == CALL {
        "CALL"@
    } else if opcode == CALL_STD {
        "CALL_STD"@
    } else if opcode == RETURN {
        "RETURN"@
    } else if opcode == ALLOCATE {
        "ALLOCATE"@
    } else if opcode == ALLOCATE_LIST {
        "ALLOCATE_LIST"@
    } else if opcode == GET_TUPLE_ITEM {
        "GET_TUPLE_ITEM"@
    } else if opcode == GET_OBJ_FIELD {
        "GET_OBJ_FIELD"@
    } else if opcode == SET_OBJ_FIELD {
        "SET_OBJ_FIELD"@
    } else if opcode == GET_LIST_ITEM {
        "GET_LIST_ITEM"@
    } else if opcode == SET_LIST_ITEM {
        "SET_LIST_ITEM"@
    } else if opcode == SPAWN {
        "SPAWN"@
    } else if opcode == CURRENT_ACTIVE {
        "CURRENT_ACTIVE"@
    } else if opcode == GET_CURRENT_ACTIVE_FIELD {
        "GET_CURRENT_ACTIVE_FIELD"@
    } else if opcode == SET_CURRENT_ACTIVE_FIELD {
        "SET_CURRENT_ACTIVE_FIELD"@
    } else if opcode == SEND_MESSAGE {
        "SEND_MESSAGE"@
    } else {
        "UNKNOWN"@
    }
}

/// Number of operand bytes that follow `opcode`.
pub fn get_args_num(opcode: u8) -> (r: u8)
    ensures
        r as nat == args_count(opcode),
{
    if opcode == LOAD_CONST || opcode == LOAD_SMALL_INT || opcode == RESERVE || opcode == POP || opcode == RETURN || opcode == ALLOCATE {
        1
    } else if opcode == JUMP || opcode == JUMP_IF_FALSE || opcode == JUMP_BACK || opcode == GET_LOCAL || opcode == SET_LOCAL || opcode == ALLOCATE_LIST || opcode == GET_OBJ_FIELD || opcode == SET_OBJ_FIELD || opcode == SET_LIST_ITEM || opcode == GET_CURRENT_ACTIVE_FIELD || opcode == SET_CURRENT_ACTIVE_FIELD || opcode == SEND_MESSAGE {
        2
    } else if opcode == CALL || opcode == CALL_STD || opcode == GET_TUPLE_ITEM || opcode == SPAWN {
        3
    } else {
        0
    }
}

/// Printed name of `opcode`.
pub fn get_display_name(opcode: u8) -> (r: &'static str)
    ensures
        r@ == opcode_name(opcode),
{
    if opcode == LOAD_CONST {
        "LOAD_CONST"
    } else if opcode == LOAD_SMALL_INT {
        "LOAD_SMALL_INT"
    } else if opcode == LOAD_TRUE {
        "LOAD_TRUE"
    } else if opcode == LOAD_FALSE {
        "LOAD_FALSE"
    } else if opcode == NEGATE_INT {
        "NEGATE_INT"
    } else if opcode == ADD_INT {
        "ADD_INT"
    } else if opcode == SUB_INT {
        "SUB_INT"
    } else if opcode == MUL_INT {
        "MUL_INT"
    } else if opcode == DIV_INT {
        "DIV_INT"
    } else if opcode == GREATER_INT {
        "GREATER_INT"
    } else if opcode == LESS_INT {
        "LESS_INT"
    } else if opcode == EQ_INT {
        "EQ_INT"
    } else if opcode == NEGATE_FLOAT {
        "NEGATE_FLOAT"
    } else if opcode == ADD_FLOAT {
        "ADD_FLOAT"
    } else if opcode == SUB_FLOAT {
        "SUB_FLOAT"
    } else if opcode == MUL_FLOAT {
        "MUL_FLOAT"
    } else if opcode == DIV_FLOAT {
        "DIV_FLOAT"
    } else if opcode == GREATER_FLOAT {
        "GREATER_FLOAT"
    } else if opcode == LESS_FLOAT {
        "LESS_FLOAT"
    } else if opcode == EQ_FLOAT {
        "EQ_FLOAT"
    } else if opcode == NEGATE_BOOL {
        "NEGATE_BOOL"
    } else if opcode == EQ_BOOL {
        "EQ_BOOL"
    } else if opcode == AND_BOOL {
        "AND_BOOL"
    } else if opcode == OR_BOOL {
        "OR_BOOL"
    } else if opcode == EQ_STRINGS {
        "EQ_STRINGS"
    } else if opcode == ADD_STRINGS {
        "ADD_STRINGS"
    } else if opcode == JUMP {
        "JUMP"
    } else if opcode == JUMP_IF_FALSE {
        "JUMP_IF_FALSE"
    } else if opcode == JUMP_BACK {
        "JUMP_BACK"
    } else if opcode == GET_LOCAL {
        "GET_LOCAL"
    } else if opcode == SET_LOCAL {
        "SET_LOCAL"
    } else if opcode == RESERVE {
        "RESERVE"
    } else if opcode == POP {
        "POP"
    } else if opcode == CALL {
        "CALL"
    } else if opcode == CALL_STD {
        "CALL_STD"
    } else if opcode == RETURN {
        "RETURN"
    } else if opcode == ALLOCATE {
        "ALLOCATE"
    } else if opcode == ALLOCATE_LIST {
        "ALLOCATE_LIST"
    } else if opcode == GET_TUPLE_ITEM {
        "GET_TUPLE_ITEM"
    } else if opcode == GET_OBJ_FIELD {
        "GET_OBJ_FIELD"
    } else if opcode == SET_OBJ_FIELD {
        "SET_OBJ_FIELD"
    } else if opcode == GET_LIST_ITEM {
        "GET_LIST_ITEM"
    } else if opcode == SET_LIST_ITEM {
        "SET_LIST_ITEM"
    } else if opcode == SPAWN {
        "SPAWN"
    } else if opcode == CURRENT_ACTIVE {
        "CURRENT_ACTIVE"
    } else if opcode == GET_CURRENT_ACTIVE_FIELD {
        "GET_CURRENT_ACTIVE_FIELD"
    } else if opcode == SET_CURRENT_ACTIVE_FIELD {
        "SET_CURRENT_ACTIVE_FIELD"
    } else if opcode == SEND_MESSAGE {
        "SEND_MESSAGE"
    } else {
        "UNKNOWN"
    }
}

} // verus!
