//! A readable listing of a program's bytecode.
use vstd::prelude::*;

use owo_colors::OwoColorize;

use crate::codegen::encoding::{read_u16, read_u64, u16_from, u64_from};
use crate::runtime::opcodes::{
    args_count, get_args_num, get_display_name, opcode_name, ALLOCATE, ALLOCATE_LIST, CONST_END_FLAG,
    CONST_FLOAT_FLAG, CONST_INT_FLAG, CONST_STRING_FLAG, JUMP, JUMP_BACK, JUMP_IF_FALSE,
};
use crate::text::{
    chars_of, decimal_i64, decimal_of_int, decimal_of_nat, decimal_u64, extend_chars, hex2, hex_byte, hex_digit,
    repeat_char, repeat_chars, string_from_chars,
};

verus! {

/// owo-colors `yellow`, printed with `{}`: the text between the codes that
/// select the yellow foreground and restore the default one.
#[verifier::external_body]
fn paint_yellow(s: &str) -> (r: String)
    ensures
        r@ == "\x1b[33m"@ + s@ + "\x1b[39m"@,
{
    format!("{}", s.yellow())
}

/// owo-colors `green`, printed with `{}`.
#[verifier::external_body]
fn paint_green(s: &str) -> (r: String)
    ensures
        r@ == "\x1b[32m"@ + s@ + "\x1b[39m"@,
{
    format!("{}", s.green())
}

/// owo-colors `blue`, printed with `{}`.
#[verifier::external_body]
fn paint_blue(s: &str) -> (r: String)
    ensures
        r@ == "\x1b[34m"@ + s@ + "\x1b[39m"@,
{
    format!("{}", s.blue())
}

/// owo-colors `bold`, printed with `{}`: the text between the code that
/// selects bold and the code that resets all attributes.
#[verifier::external_body]
fn paint_bold(s: &str) -> (r: String)
    ensures
        r@ == "\x1b[1m"@ + s@ + "\x1b[0m"@,
{
    format!("{}", s.bold())
}

} // verus!

verus! {

/// Text coloured yellow (see `paint_yellow`).
pub open spec fn yellow(s: Seq<char>) -> Seq<char> {
    "\x1b[33m"@ + s + "\x1b[39m"@
}

/// A line of the listing: text, followed by the printed value of a float
/// constant when there is one (a bit pattern).
pub type LineModel = (Seq<char>, Option<u64>);

/// Lower-case hexadecimal digits of `n`, without leading zeros.
pub open spec fn hex_of_nat(n: nat) -> Seq<char>
    decreases n,
{
    if n < 16 {
        seq![hex_digit(n as int)]
    } else {
        hex_of_nat(n / 16).push(hex_digit((n % 16) as int))
    }
}

/// `s` padded on the left with `c` to at least `width` characters.
pub open spec fn pad_left(s: Seq<char>, width: nat, c: char) -> Seq<char> {
    if s.len() < width {
        repeat_char(c, (width - s.len()) as nat) + s
    } else {
        s
    }
}

/// Bytes printed as a list of two-digit hexadecimal numbers, `[0a, ff]`.
pub open spec fn bytes_hex(bs: Seq<u8>) -> Seq<char> {
    "["@ + hex_list(bs) + "]"@
}

/// Two-digit hexadecimal numbers separated by `, `.
pub open spec fn hex_list(bs: Seq<u8>) -> Seq<char>
    decreases bs.len(),
{
    if bs.len() == 0 {
        Seq::empty()
    } else if bs.len() == 1 {
        hex2(bs[0])
    } else {
        hex_list(bs.drop_last()) + ", "@ + hex2(bs.last())
    }
}

/// Bytes read as characters of the same codes.
pub open spec fn latin1(bs: Seq<u8>) -> Seq<char> {
    bs.map_values(|b: u8| b as char)
}

/// `HEADER [<name>] => <the two bytes, in yellow>`.
pub open spec fn header_line(name: Seq<char>, b0: u8, b1: u8) -> Seq<char> {
    "HEADER ["@ + name + "] => "@ + yellow(bytes_hex(seq![b0, b1]))
}

/// The header line for the next two bytes, and the rest.
pub open spec fn dis_header(name: Seq<char>, b: Seq<u8>) -> Option<(LineModel, Seq<u8>)> {
    if b.len() >= 2 {
        Some(((header_line(name, b[0], b[1]), None), b.skip(2)))
    } else {
        None
    }
}

/// Lines for the constants from number `i` on, up to the end flag, and the
/// rest after the flag.
pub open spec fn dis_constants(b: Seq<u8>, i: nat) -> Option<(Seq<LineModel>, Seq<u8>)>
    decreases b.len(),
{
    if b.len() == 0 {
        None
    } else {
        let flag = b[0];
        let r = b.skip(1);
        let prefix = "   "@ + decimal_of_nat(i) + " -> "@;
        let step: Option<(LineModel, Seq<u8>)> = if flag == CONST_END_FLAG {
            None
        } else if flag == CONST_INT_FLAG && r.len() >= 8 {
            Some(((prefix + decimal_of_int(u64_from(r.take(8)) as i64 as int), None), r.skip(8)))
        } else if flag == CONST_FLOAT_FLAG && r.len() >= 8 {
            Some(((prefix, Some(u64_from(r.take(8)))), r.skip(8)))
        } else if flag == CONST_STRING_FLAG && r.len() >= 2 && r.len() - 2 >= u16_from(r[0], r[1]) {
            let n = u16_from(r[0], r[1]) as int;
            Some(((prefix + "\""@ + latin1(r.subrange(2, 2 + n)) + "\""@, None), r.skip(2 + n)))
        } else {
            None
        };
        if flag == CONST_END_FLAG {
            Some((Seq::empty(), r))
        } else {
            match step {
                Some((line, r2)) => match dis_constants(r2, i + 1) {
                    Some((lines, r3)) => Some((seq![line] + lines, r3)),
                    None => None,
                },
                None => None,
            }
        }
    }
}

/// The names of `n` items of an information block (sizes and pointer
/// mappings are skipped), and the rest.
pub open spec fn dis_info_entries(b: Seq<u8>, n: nat) -> Option<(Seq<Seq<char>>, Seq<u8>)>
    decreases n,
{
    if n == 0 {
        Some((Seq::empty(), b))
    } else if b.len() >= 2 && b.len() - 2 >= u16_from(b[0], b[1]) {
        let len = u16_from(b[0], b[1]) as int;
        let name = latin1(b.subrange(2, 2 + len));
        let r = b.skip(2 + len);
        if r.len() >= 3 && r.len() - 3 >= r[2] {
            match dis_info_entries(r.skip(3 + r[2]), (n - 1) as nat) {
                Some((names, r2)) => Some((seq![name] + names, r2)),
                None => None,
            }
        } else {
            None
        }
    } else {
        None
    }
}

/// The names of the items of an information block, and the rest (the
/// header after the block is not read).
pub open spec fn dis_info_block(b: Seq<u8>) -> Option<(Seq<Seq<char>>, Seq<u8>)> {
    if b.len() >= 1 {
        dis_info_entries(b.skip(1), b[0] as nat)
    } else {
        None
    }
}

/// The function names at each start position read from `b`, in the order
/// read, and the rest.
pub open spec fn dis_positions(b: Seq<u8>, names: Seq<Seq<char>>) -> Option<(Seq<(nat, Seq<char>)>, Seq<u8>)>
    decreases names.len(),
{
    if names.len() == 0 {
        Some((Seq::empty(), b))
    } else if b.len() >= 2 {
        match dis_positions(b.skip(2), names.drop_first()) {
            Some((ps, r)) => Some((seq![(u16_from(b[0], b[1]) as nat, names[0])] + ps, r)),
            None => None,
        }
    } else {
        None
    }
}

/// The name given last for position `pos`.
pub open spec fn name_at(ps: Seq<(nat, Seq<char>)>, pos: nat) -> Option<Seq<char>>
    decreases ps.len(),
{
    if ps.len() == 0 {
        None
    } else if ps.last().0 == pos {
        Some(ps.last().1)
    } else {
        name_at(ps.drop_last(), pos)
    }
}

/// The listing line of the instruction `opcode` at position `i` with
/// operand bytes `args`, or `None` when a backward jump leaves the program
/// or an allocation names an unknown type or list kind.
pub open spec fn instruction_line(
    i: nat,
    opcode: u8,
    args: Seq<u8>,
    types: Seq<Seq<char>>,
    lists: Seq<Seq<char>>,
) -> Option<Seq<char>> {
    let base = " "@ + "\x1b[34m"@ + pad_left(hex_of_nat(i), 4, ' ') + "\x1b[39m"@ + "  "@ + opcode_name(opcode) + " "@ + bytes_hex(args);
    if opcode == JUMP_IF_FALSE || opcode == JUMP {
        let x = u16_from(args[0], args[1]) as nat;
        Some(base + " (jumps to "@ + pad_left(hex_of_nat(x + i + 3), 2, '0') + ") "@)
    } else if opcode == JUMP_BACK {
        let x = u16_from(args[0], args[1]) as nat;
        if x <= i {
            Some(base + " (jumps to "@ + pad_left(hex_of_nat((i - x + 3) as nat), 2, '0') + ") "@)
        } else {
            None
        }
    } else if opcode == ALLOCATE {
        if args[0] < types.len() {
            Some(base + yellow(" (type "@ + types[args[0] as int] + ") "@))
        } else {
            None
        }
    } else if opcode == ALLOCATE_LIST {
        if args[0] < lists.len() {
            Some(base + yellow(" (list of "@ + lists[args[0] as int] + ") "@))
        } else {
            None
        }
    } else {
        Some(base)
    }
}

/// A jump is listed with the position it lands on. The three bytes of the
/// instruction at `i` end at `i + 3`; a forward jump by `x` lands `x` bytes
/// after that end, a backward jump (`JUMP_BACK`) `x` bytes before it, so
/// never after the instruction.
pub proof fn law_jump_targets_follow_the_offset(
    i: nat,
    opcode: u8,
    args: Seq<u8>,
    types: Seq<Seq<char>>,
    lists: Seq<Seq<char>>,
)
    requires
        args.len() >= 2,
        opcode == JUMP || opcode == JUMP_IF_FALSE || opcode == JUMP_BACK,
    ensures
        instruction_line(i, opcode, args, types, lists) matches Some(line) ==> exists|pre: Seq<char>, t: nat|
            {
                &&& line == pre + " (jumps to "@ + pad_left(hex_of_nat(t), 2, '0') + ") "@
                &&& (if opcode == JUMP_BACK {
                    t + u16_from(args[0], args[1]) == i + 3 && t <= i + 3
                } else {
                    t == i + 3 + u16_from(args[0], args[1])
                })
            },
        opcode == JUMP_BACK ==> (instruction_line(i, opcode, args, types, lists) is Some <==> u16_from(args[0], args[1]) <= i),
{
    let x = u16_from(args[0], args[1]) as nat;
    let base = " "@ + "\x1b[34m"@ + pad_left(hex_of_nat(i), 4, ' ') + "\x1b[39m"@ + "  "@ + opcode_name(opcode) + " "@ + bytes_hex(args);
    if opcode == JUMP_BACK {
        if x <= i {
            let t = (i - x + 3) as nat;
            assert(instruction_line(i, opcode, args, types, lists) == Some(base + " (jumps to "@ + pad_left(hex_of_nat(t), 2, '0') + ") "@));
        }
    } else {
        let t = x + i + 3;
        assert(instruction_line(i, opcode, args, types, lists) == Some(base + " (jumps to "@ + pad_left(hex_of_nat(t), 2, '0') + ") "@));
    }
}

/// Lines for the code from position `i` on: before the instruction at the
/// start of a function, a bold green line with the function's name; then a
/// line per instruction with its operands.
pub open spec fn dis_functions(
    b: Seq<u8>,
    i: nat,
    names: Seq<(nat, Seq<char>)>,
    types: Seq<Seq<char>>,
    lists: Seq<Seq<char>>,
) -> Option<Seq<LineModel>>
    decreases b.len(),
{
    if b.len() == 0 {
        Some(Seq::empty())
    } else {
        let opcode = b[0];
        let n = args_count(opcode);
        if b.len() - 1 < n {
            None
        } else {
            let title: Seq<LineModel> = match name_at(names, i) {
                Some(name) => seq![("\x1b[1m"@ + "\x1b[32m"@ + "\n## Function "@ + name + "\x1b[39m"@ + "\x1b[0m"@, None::<u64>)],
                None => Seq::empty(),
            };
            match instruction_line(i, opcode, b.subrange(1, 1 + n as int), types, lists) {
                Some(text) => match dis_functions(b.skip(1 + n as int), i + 1 + n, names, types, lists) {
                    Some(lines) => Some(title + seq![(text, None::<u64>)] + lines),
                    None => None,
                },
                None => None,
            }
        }
    }
}

/// The lines of a listing up to the start of the code, the function names
/// at their start positions, the names of the user types and list kinds,
/// and the code that follows.
#[verifier::opaque]
pub open spec fn dis_prelude(b: Seq<u8>) -> Option<(Seq<LineModel>, Seq<(nat, Seq<char>)>, Seq<Seq<char>>, Seq<Seq<char>>, Seq<u8>)> {
    match dis_header("Initial"@, b) {
        None => None,
        Some((h0, r0)) => match dis_constants(r0, 0) {
            None => None,
            Some((consts, r1)) => match dis_header("End of constants"@, r1) {
                None => None,
                Some((h1, r2)) => match dis_info_block(r2) {
                    None => None,
                    Some((types, r3)) => match dis_header("End of types metadata"@, r3) {
                        None => None,
                        Some((h2, r4)) => match dis_info_block(r4) {
                            None => None,
                            Some((lists, r5)) => match dis_header("End of list types metadata"@, r5) {
                                None => None,
                                Some((h3, r6)) => match dis_info_block(r6) {
                                    None => None,
                                    Some((fnames, r7)) => match dis_header("End of function metadata"@, r7) {
                                        None => None,
                                        Some((h4, r8)) => match dis_positions(r8, fnames) {
                                            None => None,
                                            Some((positions, r9)) => match dis_header("End of function positions"@, r9) {
                                                None => None,
                                                Some((h5, r10)) => if r10.len() >= 2 {
                                                    match name_at(positions, u16_from(r10[0], r10[1]) as nat) {
                                                        None => None,
                                                        Some(entry_name) => {
                                                            let entry_line = "Entry point:\n   -> "@ + entry_name + " "@ + bytes_hex(r10.take(2));
                                                            match dis_header("Start of functions"@, r10.skip(2)) {
                                                                None => None,
                                                                Some((h6, r12)) => Some((
                                                                    seq![h0, ("Constants table:"@, None::<u64>)] + consts
                                                                        + seq![h1, h2, h3, h4, h5, (entry_line, None::<u64>), h6],
                                                                    positions,
                                                                    types,
                                                                    lists,
                                                                    r12,
                                                                )),
                                                            }
                                                        },
                                                    }
                                                } else {
                                                    None
                                                },
                                            },
                                        },
                                    },
                                },
                            },
                        },
                    },
                },
            },
        },
    }
}

/// The listing of `b`: the lines up to the start of the code, then a line
/// per instruction; `None` when `b` ends early, holds a constant with an
/// unknown tag, an entry position that starts no function, a backward jump
/// past its start, or an allocation of an unknown type or list kind.
pub open spec fn disassembly(b: Seq<u8>) -> Option<Seq<LineModel>> {
    match dis_prelude(b) {
        Some((lines, positions, types, lists, rest)) => match dis_functions(rest, (b.len() - rest.len()) as nat, positions, types, lists) {
            Some(code) => Some(lines + code),
            None => None,
        },
        None => None,
    }
}

} // verus!

verus! {

fn hex_digit_char(d: usize) -> (c: char)
    requires
        d < 16,
    ensures
        c == hex_digit(d as int),
{
    if d < 10 {
        ((48 + d) as u8) as char
    } else {
        ((97 + d - 10) as u8) as char
    }
}

/// Lower-case hexadecimal digits of `n`.
fn hex_usize(n: usize) -> (r: Vec<char>)
    ensures
        r@ == hex_of_nat(n as nat),
    decreases n,
{
    if n < 16 {
        let mut r = Vec::new();
        r.push(hex_digit_char(n));
        r
    } else {
        let mut r = hex_usize(n / 16);
        r.push(hex_digit_char(n % 16));
        r
    }
}

fn padded(s: Vec<char>, width: usize, c: char) -> (r: Vec<char>)
    ensures
        r@ == pad_left(s@, width as nat, c),
{
    if s.len() < width {
        let mut r = repeat_chars(c, width - s.len());
        extend_chars(&mut r, s.as_slice());
        r
    } else {
        s
    }
}

fn push_text(out: &mut Vec<char>, s: &str)
    ensures
        final(out)@ == old(out)@ + s@,
{
    let cs = chars_of(s);
    extend_chars(out, cs.as_slice());
}

/// `[0a, ff]` for the given bytes.
fn bytes_text(bs: &[u8]) -> (r: Vec<char>)
    ensures
        r@ == bytes_hex(bs@),
{
    let mut list: Vec<char> = Vec::new();
    let mut i: usize = 0;
    while i < bs.len()
        invariant
            i <= bs@.len(),
            list@ == hex_list(bs@.take(i as int)),
        decreases bs@.len() - i,
    {
        let ghost before = list@;
        if i > 0 {
            push_text(&mut list, ", ");
        }
        let h = hex_byte(bs[i]);
        extend_chars(&mut list, h.as_slice());
        proof {
            let t = bs@.take(i + 1);
            assert(t.drop_last() =~= bs@.take(i as int));
            if i == 0 {
                assert(before =~= Seq::<char>::empty());
            }
        }
        i = i + 1;
        assert(list@ =~= hex_list(bs@.take(i as int)));
    }
    assert(bs@.take(bs@.len() as int) =~= bs@);
    let mut r = chars_of("[");
    extend_chars(&mut r, list.as_slice());
    push_text(&mut r, "]");
    r
}

/// The characters with the codes of `bs`.
fn latin1_chars(bs: &[u8]) -> (r: Vec<char>)
    ensures
        r@ == latin1(bs@),
{
    let mut r: Vec<char> = Vec::new();
    let mut i: usize = 0;
    while i < bs.len()
        invariant
            i <= bs@.len(),
            r@ == latin1(bs@.take(i as int)),
        decreases bs@.len() - i,
    {
        r.push(bs[i] as char);
        i = i + 1;
        assert(r@ =~= latin1(bs@.take(i as int)));
    }
    assert(bs@.take(bs@.len() as int) =~= bs@);
    r
}

fn yellow_text(s: &[char]) -> (r: Vec<char>)
    ensures
        r@ == yellow(s@),
{
    let text = string_from_chars(s);
    let painted = paint_yellow(text.as_str());
    chars_of(painted.as_str())
}

} // verus!

verus! {

/// A line of the listing: its text, followed by the printed value of a
/// float constant when `float` holds one (as a bit pattern).
#[derive(Debug)]
pub struct DisasmLine {
    pub text: String,
    pub float: Option<u64>,
}

impl View for DisasmLine {
    type V = LineModel;

    open spec fn view(&self) -> LineModel {
        (self.text@, self.float)
    }
}

/// Reads a program's bytecode and lists its blocks and instructions.
pub struct Disassembler<'a> {
    program: &'a [u8],
    pos: usize,
}

fn line(text: &[char]) -> (r: DisasmLine)
    ensures
        r@ == (text@, None::<u64>),
{
    DisasmLine { text: string_from_chars(text), float: None }
}

impl<'a> Disassembler<'a> {
    /// The bytecode being listed.
    pub closed spec fn bytes(&self) -> Seq<u8> {
        self.program@
    }

    /// The bytes not read yet.
    pub closed spec fn rest(&self) -> Seq<u8> {
        self.program@.skip(self.pos as int)
    }

    /// Position of the next byte to read.
    pub closed spec fn at(&self) -> nat {
        self.pos as nat
    }

    pub closed spec fn wf(&self) -> bool {
        self.pos <= self.program@.len()
    }

    /// A disassembler at the start of `program`.
    pub fn new(program: &'a [u8]) -> (r: Self)
        ensures
            r.bytes() == program@,
            r.rest() == program@,
            r.wf(),
    {
        let r = Disassembler { program, pos: 0 };
        assert(r.rest() =~= program@);
        r
    }

    fn get_byte(&mut self) -> (r: Option<u8>)
        requires
            old(self).wf(),
        ensures
            final(self).wf(),
            final(self).bytes() == old(self).bytes(),
            old(self).rest().len() >= 1 ==> r == Some(old(self).rest()[0]) && final(self).rest() == old(self).rest().skip(1),
            old(self).rest().len() < 1 ==> r is None,
    {
        if self.pos < self.program.len() {
            let ghost before = self.rest();
            let b = self.program[self.pos];
            self.pos = self.pos + 1;
            assert(self.rest() =~= before.skip(1));
            Some(b)
        } else {
            None
        }
    }

    fn get_bytes(&mut self, n: usize) -> (r: Option<Vec<u8>>)
        requires
            old(self).wf(),
        ensures
            final(self).wf(),
            final(self).bytes() == old(self).bytes(),
            old(self).rest().len() >= n ==> (r matches Some(v) && v@ == old(self).rest().take(n as int) && final(self).rest() == old(self).rest().skip(n as int)),
            old(self).rest().len() < n ==> r is None,
    {
        if self.program.len() - self.pos >= n {
            let ghost before = self.rest();
            let mut v: Vec<u8> = Vec::new();
            let mut i: usize = 0;
            let len = self.program.len();
            while i < n
                invariant
                    i <= n,
                    len == self.program@.len(),
                    self.pos + n <= len,
                    before == self.program@.skip(self.pos as int),
                    v@ == before.take(i as int),
                decreases n - i,
            {
                v.push(self.program[self.pos + i]);
                i = i + 1;
                assert(v@ =~= before.take(i as int));
            }
            self.pos = self.pos + n;
            assert(self.rest() =~= before.skip(n as int));
            Some(v)
        } else {
            None
        }
    }

    fn get_u16(&mut self) -> (r: Option<u16>)
        requires
            old(self).wf(),
        ensures
            final(self).wf(),
            final(self).bytes() == old(self).bytes(),
            old(self).rest().len() >= 2 ==> r == Some(u16_from(old(self).rest()[0], old(self).rest()[1])) && final(self).rest() == old(self).rest().skip(2),
            old(self).rest().len() < 2 ==> r is None,
    {
        match self.get_bytes(2) {
            Some(v) => Some(read_u16(v[0], v[1])),
            None => None,
        }
    }

    fn get_str(&mut self) -> (r: Option<Vec<char>>)
        requires
            old(self).wf(),
        ensures
            final(self).wf(),
            final(self).bytes() == old(self).bytes(),
            ({
                let b = old(self).rest();
                if b.len() >= 2 && b.len() - 2 >= u16_from(b[0], b[1]) {
                    let n = u16_from(b[0], b[1]) as int;
                    r matches Some(s) && s@ == latin1(b.subrange(2, 2 + n)) && final(self).rest() == b.skip(2 + n)
                } else {
                    r is None
                }
            }),
    {
        let ghost b = self.rest();
        let n = match self.get_u16() {
            Some(n) => n,
            None => {
                return None;
            },
        };
        match self.get_bytes(n as usize) {
            Some(bytes) => {
                assert(bytes@ =~= b.subrange(2, 2 + n as int));
                assert(self.rest() =~= b.skip(2 + n as int));
                Some(latin1_chars(bytes.as_slice()))
            },
            None => None,
        }
    }

    fn read_header(&mut self, header_name: &str) -> (r: Option<DisasmLine>)
        requires
            old(self).wf(),
        ensures
            final(self).wf(),
            final(self).bytes() == old(self).bytes(),
            match dis_header(header_name@, old(self).rest()) {
                Some((l, rest)) => r matches Some(v) && v@ == l && final(self).rest() == rest,
                None => r is None,
            },
    {
        let header = match self.get_bytes(2) {
            Some(h) => h,
            None => {
                return None;
            },
        };
        let mut text = chars_of("HEADER [");
        push_text(&mut text, header_name);
        push_text(&mut text, "] => ");
        let hex = bytes_text(header.as_slice());
        let painted = yellow_text(hex.as_slice());
        extend_chars(&mut text, painted.as_slice());
        assert(header@ =~= seq![header@[0], header@[1]]);
        Some(line(text.as_slice()))
    }
}

} // verus!

verus! {

/// The start positions read so far, with their function names.
pub open spec fn positions_model(ps: Seq<(usize, Vec<char>)>) -> Seq<(nat, Seq<char>)> {
    ps.map_values(|p: (usize, Vec<char>)| (p.0 as nat, p.1@))
}

/// The names read from a block.
pub open spec fn names_model(ns: Seq<Vec<char>>) -> Seq<Seq<char>> {
    ns.map_values(|n: Vec<char>| n@)
}

/// The lines read so far.
pub open spec fn lines_model(ls: Seq<DisasmLine>) -> Seq<LineModel> {
    ls.map_values(|l: DisasmLine| l@)
}

fn find_name(ps: &Vec<(usize, Vec<char>)>, pos: usize) -> (r: Option<Vec<char>>)
    ensures
        match name_at(positions_model(ps@), pos as nat) {
            Some(n) => r matches Some(v) && v@ == n,
            None => r is None,
        },
{
    let ghost m = positions_model(ps@);
    let mut k: usize = ps.len();
    assert(m.take(k as int) =~= m);
    while k > 0
        invariant
            k <= ps@.len(),
            m == positions_model(ps@),
            name_at(m, pos as nat) == name_at(m.take(k as int), pos as nat),
        decreases k,
    {
        assert(m.take(k as int).drop_last() =~= m.take(k - 1));
        if ps[k - 1].0 == pos {
            let mut v: Vec<char> = Vec::new();
            extend_chars(&mut v, ps[k - 1].1.as_slice());
            return Some(v);
        }
        k = k - 1;
    }
    None
}

/// The listing line of an instruction (see `instruction_line`).
fn instruction_text(i: usize, opcode: u8, args: &[u8], types: &Vec<Vec<char>>, lists: &Vec<Vec<char>>) -> (r: Option<Vec<char>>)
    requires
        args@.len() == args_count(opcode),
        i + 65539 <= usize::MAX,
    ensures
        match instruction_line(i as nat, opcode, args@, names_model(types@), names_model(lists@)) {
            Some(t) => r matches Some(v) && v@ == t,
            None => r is None,
        },
{
    let mut text = chars_of(" ");
    let pos_hex = padded(hex_usize(i), 4, ' ');
    let pos_string = string_from_chars(pos_hex.as_slice());
    let painted = paint_blue(pos_string.as_str());
    let painted_chars = chars_of(painted.as_str());
    extend_chars(&mut text, painted_chars.as_slice());
    push_text(&mut text, "  ");
    push_text(&mut text, get_display_name(opcode));
    push_text(&mut text, " ");
    let args_hex = bytes_text(args);
    extend_chars(&mut text, args_hex.as_slice());
    assert(text@ =~= " "@ + "\x1b[34m"@ + pad_left(hex_of_nat(i as nat), 4, ' ') + "\x1b[39m"@ + "  "@ + opcode_name(opcode) + " "@ + bytes_hex(args@));
    if opcode == JUMP_IF_FALSE || opcode == JUMP {
        let x = read_u16(args[0], args[1]) as usize;
        push_text(&mut text, " (jumps to ");
        let target = padded(hex_usize(x + i + 3), 2, '0');
        extend_chars(&mut text, target.as_slice());
        push_text(&mut text, ") ");
        Some(text)
    } else if opcode == JUMP_BACK {
        let x = read_u16(args[0], args[1]) as usize;
        if x <= i {
            push_text(&mut text, " (jumps to ");
            let target = padded(hex_usize(i - x + 3), 2, '0');
            extend_chars(&mut text, target.as_slice());
            push_text(&mut text, ") ");
            Some(text)
        } else {
            None
        }
    } else if opcode == ALLOCATE {
        if (args[0] as usize) < types.len() {
            let mut note = chars_of(" (type ");
            extend_chars(&mut note, types[args[0] as usize].as_slice());
            push_text(&mut note, ") ");
            let painted_note = yellow_text(note.as_slice());
            extend_chars(&mut text, painted_note.as_slice());
            Some(text)
        } else {
            None
        }
    } else if opcode == ALLOCATE_LIST {
        if (args[0] as usize) < lists.len() {
            let mut note = chars_of(" (list of ");
            extend_chars(&mut note, lists[args[0] as usize].as_slice());
            push_text(&mut note, ") ");
            let painted_note = yellow_text(note.as_slice());
            extend_chars(&mut text, painted_note.as_slice());
            Some(text)
        } else {
            None
        }
    } else {
        Some(text)
    }
}

} // verus!

verus! {

impl<'a> Disassembler<'a> {
    fn read_constants(&mut self) -> (r: Option<Vec<DisasmLine>>)
        requires
            old(self).wf(),
        ensures
            final(self).wf(),
            final(self).bytes() == old(self).bytes(),
            match dis_constants(old(self).rest(), 0) {
                Some((ls, rest)) => r matches Some(v) && lines_model(v@) == ls && final(self).rest() == rest,
                None => r is None,
            },
    {
        let ghost start = self.rest();
        let total = self.program.len();
        let mut lines: Vec<DisasmLine> = Vec::new();
        let mut i: u64 = 0;
        loop
            invariant
                start.len() <= total,
                self.wf(),
                self.bytes() == old(self).bytes(),
                start == old(self).rest(),
                i as nat == lines@.len(),
                i <= start.len(),
                dis_constants(start, 0) == match dis_constants(self.rest(), i as nat) {
                    Some((ls, rest)) => Some((lines_model(lines@) + ls, rest)),
                    None => None::<(Seq<LineModel>, Seq<u8>)>,
                },
                self.rest().len() + i <= start.len(),
            decreases self.rest().len(),
        {
            let ghost current = self.rest();
            let flag = match self.get_byte() {
                Some(f) => f,
                None => {
                    return None;
                },
            };
            if flag == CONST_END_FLAG {
                assert(lines_model(lines@) + Seq::<LineModel>::empty() =~= lines_model(lines@));
                return Some(lines);
            }
            let mut prefix = chars_of("   ");
            let digits = decimal_u64(i);
            extend_chars(&mut prefix, digits.as_slice());
            push_text(&mut prefix, " -> ");
            let ghost r = self.rest();
            let new_line = if flag == CONST_INT_FLAG {
                match self.get_bytes(8) {
                    Some(bytes) => {
                        let value = decimal_i64(read_u64(bytes.as_slice()) as i64);
                        extend_chars(&mut prefix, value.as_slice());
                        line(prefix.as_slice())
                    },
                    None => {
                        return None;
                    },
                }
            } else if flag == CONST_FLOAT_FLAG {
                match self.get_bytes(8) {
                    Some(bytes) => DisasmLine { text: string_from_chars(prefix.as_slice()), float: Some(read_u64(bytes.as_slice())) },
                    None => {
                        return None;
                    },
                }
            } else if flag == CONST_STRING_FLAG {
                match self.get_str() {
                    Some(s) => {
                        push_text(&mut prefix, "\"");
                        extend_chars(&mut prefix, s.as_slice());
                        push_text(&mut prefix, "\"");
                        line(prefix.as_slice())
                    },
                    None => {
                        return None;
                    },
                }
            } else {
                return None;
            };
            proof {
                let before = lines_model(lines@);
                assert(self.rest().len() < current.len());
                match dis_constants(self.rest(), i as nat + 1) {
                    Some((ls, rest)) => {
                        assert(before.push(new_line@) + ls =~= before + (seq![new_line@] + ls));
                    },
                    None => {},
                }
            }
            let ghost before = lines_model(lines@);
            lines.push(new_line);
            assert(lines_model(lines@) =~= before.push(lines@.last()@));
            i = i + 1;
        }
    }

    fn read_info_block(&mut self) -> (r: Option<Vec<Vec<char>>>)
        requires
            old(self).wf(),
        ensures
            final(self).wf(),
            final(self).bytes() == old(self).bytes(),
            match dis_info_block(old(self).rest()) {
                Some((ns, rest)) => r matches Some(v) && names_model(v@) == ns && final(self).rest() == rest,
                None => r is None,
            },
    {
        let amount = match self.get_byte() {
            Some(a) => a,
            None => {
                return None;
            },
        };
        let ghost start = self.rest();
        let mut names: Vec<Vec<char>> = Vec::new();
        let mut k: u8 = 0;
        while k < amount
            invariant
                self.wf(),
                self.bytes() == old(self).bytes(),
                k <= amount,
                old(self).rest().len() >= 1 && old(self).rest()[0] == amount && start == old(self).rest().skip(1),
                dis_info_entries(start, amount as nat) == match dis_info_entries(self.rest(), (amount - k) as nat) {
                    Some((ns, rest)) => Some((names_model(names@) + ns, rest)),
                    None => None::<(Seq<Seq<char>>, Seq<u8>)>,
                },
            decreases amount - k,
        {
            let ghost current = self.rest();
            let name = match self.get_str() {
                Some(n) => n,
                None => {
                    return None;
                },
            };
            let ghost r = self.rest();
            // Sizes and pointer mappings are not needed for the listing.
            if self.get_bytes(2).is_none() {
                return None;
            }
            let count = match self.get_byte() {
                Some(c) => c,
                None => {
                    return None;
                },
            };
            if self.get_bytes(count as usize).is_none() {
                return None;
            }
            proof {
                assert(r.len() >= 3);
                assert(r[2] == count);
                assert(self.rest() =~= r.skip(3 + count as int));
                let before = names_model(names@);
                match dis_info_entries(self.rest(), (amount - k - 1) as nat) {
                    Some((ns, rest)) => {
                        assert(before.push(name@) + ns =~= before + (seq![name@] + ns));
                    },
                    None => {},
                }
            }
            let ghost before = names_model(names@);
            names.push(name);
            assert(names_model(names@) =~= before.push(names@.last()@));
            k = k + 1;
        }
        assert(names_model(names@) + Seq::<Seq<char>>::empty() =~= names_model(names@));
        Some(names)
    }
}

} // verus!

verus! {

impl<'a> Disassembler<'a> {
    fn read_positions(&mut self, function_names: &Vec<Vec<char>>) -> (r: Option<Vec<(usize, Vec<char>)>>)
        requires
            old(self).wf(),
        ensures
            final(self).wf(),
            final(self).bytes() == old(self).bytes(),
            match dis_positions(old(self).rest(), names_model(function_names@)) {
                Some((ps, rest)) => r matches Some(v) && positions_model(v@) == ps && final(self).rest() == rest,
                None => r is None,
            },
    {
        let ghost start = self.rest();
        let ghost all = names_model(function_names@);
        let mut positions: Vec<(usize, Vec<char>)> = Vec::new();
        let mut k: usize = 0;
        assert(all.skip(0) =~= all);
        while k < function_names.len()
            invariant
                self.wf(),
                self.bytes() == old(self).bytes(),
                start == old(self).rest(),
                k <= function_names@.len(),
                all == names_model(function_names@),
                dis_positions(start, all) == match dis_positions(self.rest(), all.skip(k as int)) {
                    Some((ps, rest)) => Some((positions_model(positions@) + ps, rest)),
                    None => None::<(Seq<(nat, Seq<char>)>, Seq<u8>)>,
                },
            decreases function_names@.len() - k,
        {
            let ghost current = self.rest();
            let ghost names_left = all.skip(k as int);
            assert(names_left.drop_first() =~= all.skip(k + 1));
            assert(names_left[0] == function_names@[k as int]@);
            let pos = match self.get_u16() {
                Some(p) => p,
                None => {
                    return None;
                },
            };
            let mut name: Vec<char> = Vec::new();
            extend_chars(&mut name, function_names[k].as_slice());
            let ghost before = positions_model(positions@);
            proof {
                match dis_positions(self.rest(), all.skip(k + 1)) {
                    Some((ps, rest)) => {
                        assert(before.push((pos as nat, name@)) + ps =~= before + (seq![(pos as nat, name@)] + ps));
                    },
                    None => {},
                }
            }
            positions.push((pos as usize, name));
            assert(positions_model(positions@) =~= before.push((pos as nat, function_names@[k as int]@)));
            k = k + 1;
        }
        assert(all.skip(function_names@.len() as int) =~= Seq::<Seq<char>>::empty());
        assert(positions_model(positions@) + Seq::<(nat, Seq<char>)>::empty() =~= positions_model(positions@));
        Some(positions)
    }

    fn read_functions(&mut self, names: &Vec<(usize, Vec<char>)>, types: &Vec<Vec<char>>, lists: &Vec<Vec<char>>) -> (r: Option<Vec<DisasmLine>>)
        requires
            old(self).wf(),
            old(self).bytes().len() + 65539 <= usize::MAX,
        ensures
            final(self).wf(),
            final(self).bytes() == old(self).bytes(),
            match dis_functions(old(self).rest(), old(self).at(), positions_model(names@), names_model(types@), names_model(lists@)) {
                Some(ls) => r matches Some(v) && lines_model(v@) == ls,
                None => r is None,
            },
    {
        let ghost ps = positions_model(names@);
        let ghost ts = names_model(types@);
        let ghost lsn = names_model(lists@);
        let ghost start = self.rest();
        let ghost start_at = self.at();
        let mut lines: Vec<DisasmLine> = Vec::new();
        while self.pos < self.program.len()
            invariant
                self.wf(),
                self.bytes() == old(self).bytes(),
                self.bytes().len() + 65539 <= usize::MAX,
                start == old(self).rest(),
                start_at == old(self).at(),
                ps == positions_model(names@),
                ts == names_model(types@),
                lsn == names_model(lists@),
                dis_functions(start, start_at, ps, ts, lsn) == match dis_functions(self.rest(), self.at(), ps, ts, lsn) {
                    Some(ls) => Some(lines_model(lines@) + ls),
                    None => None::<Seq<LineModel>>,
                },
            decreases self.rest().len(),
        {
            let ghost current = self.rest();
            let i = self.pos;
            let opcode = self.program[self.pos];
            self.pos = self.pos + 1;
            assert(self.rest() =~= current.skip(1));
            let count = get_args_num(opcode);
            let args = match self.get_bytes(count as usize) {
                Some(a) => a,
                None => {
                    return None;
                },
            };
            assert(args@ =~= current.subrange(1, 1 + count as int));
            assert(self.rest() =~= current.skip(1 + count as int));
            let ghost before = lines_model(lines@);
            let title = find_name(names, i);
            let ghost title_lines: Seq<LineModel> = match name_at(ps, i as nat) {
                Some(name) => seq![("\x1b[1m"@ + "\x1b[32m"@ + "\n## Function "@ + name + "\x1b[39m"@ + "\x1b[0m"@, None::<u64>)],
                None => Seq::empty(),
            };
            match title {
                Some(name) => {
                    let mut heading = chars_of("\n## Function ");
                    extend_chars(&mut heading, name.as_slice());
                    let heading_string = string_from_chars(heading.as_slice());
                    let green = paint_green(heading_string.as_str());
                    let bold = paint_bold(green.as_str());
                    assert(bold@ =~= "\x1b[1m"@ + "\x1b[32m"@ + "\n## Function "@ + name@ + "\x1b[39m"@ + "\x1b[0m"@);
                    assert(title_lines == seq![(bold@, None::<u64>)]);
                    lines.push(DisasmLine { text: bold, float: None });
                    assert(lines_model(lines@) =~= before + title_lines);
                },
                None => {
                    assert(title_lines =~= Seq::<LineModel>::empty());
                    assert(lines_model(lines@) =~= before + title_lines);
                },
            }
            let text = match instruction_text(i, opcode, args.as_slice(), types, lists) {
                Some(t) => t,
                None => {
                    return None;
                },
            };
            let ghost mid = lines_model(lines@);
            lines.push(line(text.as_slice()));
            assert(lines_model(lines@) =~= mid.push((text@, None::<u64>)));
            proof {
                match dis_functions(self.rest(), self.at(), ps, ts, lsn) {
                    Some(ls) => {
                        assert(before + title_lines + seq![(text@, None::<u64>)] + ls =~= before + (title_lines + seq![(text@, None::<u64>)] + ls));
                    },
                    None => {},
                }
            }
        }
        assert(self.rest() =~= Seq::<u8>::empty());
        assert(lines_model(lines@) + Seq::<LineModel>::empty() =~= lines_model(lines@));
        Some(lines)
    }

    fn read_prelude(&mut self) -> (r: Option<(Vec<DisasmLine>, Vec<(usize, Vec<char>)>, Vec<Vec<char>>, Vec<Vec<char>>)>)
        requires
            old(self).wf(),
        ensures
            final(self).wf(),
            final(self).bytes() == old(self).bytes(),
            match dis_prelude(old(self).rest()) {
                Some((ls, ps, ts, lsn, rest)) => r matches Some(v) && {
                    &&& lines_model(v.0@) == ls
                    &&& positions_model(v.1@) == ps
                    &&& names_model(v.2@) == ts
                    &&& names_model(v.3@) == lsn
                    &&& final(self).rest() == rest
                },
                None => r is None,
            },
    {
        proof {
            reveal(dis_prelude);
        }
        let mut result: Vec<DisasmLine> = Vec::new();
        let h0 = match self.read_header("Initial") {
            Some(l) => l,
            None => {
                return None;
            },
        };
        result.push(h0);
        result.push(line(chars_of("Constants table:").as_slice()));
        let consts = match self.read_constants() {
            Some(c) => c,
            None => {
                return None;
            },
        };
        let ghost after_consts = lines_model(result@) + lines_model(consts@);
        let mut consts = consts;
        result.append(&mut consts);
        assert(lines_model(result@) =~= after_consts);
        let h1 = match self.read_header("End of constants") {
            Some(l) => l,
            None => {
                return None;
            },
        };
        let type_names = match self.read_info_block() {
            Some(n) => n,
            None => {
                return None;
            },
        };
        let h2 = match self.read_header("End of types metadata") {
            Some(l) => l,
            None => {
                return None;
            },
        };
        let list_type_names = match self.read_info_block() {
            Some(n) => n,
            None => {
                return None;
            },
        };
        let h3 = match self.read_header("End of list types metadata") {
            Some(l) => l,
            None => {
                return None;
            },
        };
        let function_names = match self.read_info_block() {
            Some(n) => n,
            None => {
                return None;
            },
        };
        let h4 = match self.read_header("End of function metadata") {
            Some(l) => l,
            None => {
                return None;
            },
        };
        let positions = match self.read_positions(&function_names) {
            Some(p) => p,
            None => {
                return None;
            },
        };
        let h5 = match self.read_header("End of function positions") {
            Some(l) => l,
            None => {
                return None;
            },
        };
        let entry = match self.get_bytes(2) {
            Some(e) => e,
            None => {
                return None;
            },
        };
        let entry_pos = read_u16(entry[0], entry[1]);
        let entry_name = match find_name(&positions, entry_pos as usize) {
            Some(n) => n,
            None => {
                return None;
            },
        };
        let mut entry_text = chars_of("Entry point:\n   -> ");
        extend_chars(&mut entry_text, entry_name.as_slice());
        push_text(&mut entry_text, " ");
        let entry_hex = bytes_text(entry.as_slice());
        extend_chars(&mut entry_text, entry_hex.as_slice());
        let h6 = match self.read_header("Start of functions") {
            Some(l) => l,
            None => {
                return None;
            },
        };
        result.push(h1);
        result.push(h2);
        result.push(h3);
        result.push(h4);
        result.push(h5);
        result.push(line(entry_text.as_slice()));
        result.push(h6);
        Some((result, positions, type_names, list_type_names))
    }

    /// The listing of the program (see `disassembly`), from its start:
    /// each block's header, the constants, the entry point and every
    /// instruction; none when the bytecode is not a program that can be
    /// listed.
    pub fn disassemble(&mut self) -> (r: Option<Vec<DisasmLine>>)
        requires
            old(self).wf(),
            old(self).bytes().len() + 65539 <= usize::MAX,
        ensures
            final(self).bytes() == old(self).bytes(),
            match disassembly(old(self).bytes()) {
                Some(ls) => r matches Some(v) && lines_model(v@) == ls,
                None => r is None,
            },
    {
        self.pos = 0;
        assert(self.rest() =~= self.bytes());
        let (mut result, positions, type_names, list_type_names) = match self.read_prelude() {
            Some(p) => p,
            None => {
                return None;
            },
        };
        let ghost mid = lines_model(result@);
        assert(self.at() == self.bytes().len() - self.rest().len());
        let mut code = match self.read_functions(&positions, &type_names, &list_type_names) {
            Some(c) => c,
            None => {
                return None;
            },
        };
        let ghost code_lines = lines_model(code@);
        result.append(&mut code);
        assert(lines_model(result@) =~= mid + code_lines);
        Some(result)
    }
}

} // verus!
