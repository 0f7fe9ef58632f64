//! Packing the arguments of a call, with everything they reach on the heap,
//! into one chunk of words, and unpacking it on the other side.
//!
//! A chunk is the function's position, its arguments, then each object the
//! arguments reach, in the order they are first met (breadth first): a
//! header word, then the object's words. Pointers inside a chunk are the
//! objects' numbers in that order, counted from 1; 0 stays 0.
use vstd::prelude::*;

use vstd::utf8::encode_utf8;

use crate::codegen::utils::as_ints;
use crate::runtime::heap::{CustomObject, Heap, HeapObject, List};
use crate::runtime::vm::Metadata;

verus! {

/// Header flag of a string: the length in the low bits.
pub const STRING_FLAG: u64 = 0x0100_0000_0000_0000;

/// Header flag of a list: the list kind in bits 32 and up, the number of
/// items in the low 32 bits.
pub const LIST_FLAG: u64 = 0x0200_0000_0000_0000;

/// Header flag of an object: the type in the low bits.
pub const CUSTOM_OBJECT_FLAG: u64 = 0x0400_0000_0000_0000;

/// The header word of an object (a string's length is that of its UTF-8
/// text).
pub open spec fn object_header(o: HeapObject) -> u64 {
    match o {
        HeapObject::String(s) => (encode_utf8(s@).len() as u64) | STRING_FLAG,
        HeapObject::List(l) => (((l.list_item_type as u64) << 32u64) | (l.items_amount as u64)) | LIST_FLAG,
        HeapObject::CustomObject(c) => c.type_index | CUSTOM_OBJECT_FLAG,
    }
}

/// The characters of a string as words.
pub open spec fn string_words(s: Seq<char>) -> Seq<u64> {
    Seq::new(s.len(), |i: int| s[i] as u32 as u64)
}

/// The words of an object.
pub open spec fn object_data(o: HeapObject) -> Seq<u64> {
    match o {
        HeapObject::String(s) => string_words(s@),
        HeapObject::List(l) => l.data@,
        HeapObject::CustomObject(c) => c.data@,
    }
}

/// The pointer positions of the first `amount` items of a list whose items
/// have `size` words and the pointer positions `map`.
pub open spec fn list_slots(map: Seq<usize>, size: int, amount: int) -> Seq<int>
    decreases amount,
{
    if amount <= 0 {
        Seq::empty()
    } else {
        list_slots(map, size, amount - 1) + Seq::new(map.len(), |j: int| map[j] + size * (amount - 1))
    }
}

/// The positions of the pointers among an object's words.
pub open spec fn object_slots(o: HeapObject, meta: Metadata) -> Seq<int> {
    match o {
        HeapObject::String(_) => Seq::empty(),
        HeapObject::List(l) => list_slots(
            meta.lists_pointer_mapping@[l.list_item_type as int]@,
            l.item_size as int,
            l.items_amount as int,
        ),
        HeapObject::CustomObject(c) => as_ints(meta.types_pointer_mapping@[c.type_index as int]@),
    }
}

/// The last position of `p` in `order`.
pub open spec fn position_in(order: Seq<u64>, p: u64) -> Option<int>
    decreases order.len(),
{
    if order.len() == 0 {
        None
    } else if order.last() == p {
        Some(order.len() - 1)
    } else {
        position_in(order.drop_last(), p)
    }
}

/// The number that the pointer `p` gets, with the objects met so far in
/// `order`: 0 for 0, its number if met already, else the next number (and
/// it joins `order`).
pub open spec fn renumber(order: Seq<u64>, p: u64) -> (Seq<u64>, u64) {
    if p == 0 {
        (order, 0)
    } else {
        match position_in(order, p) {
            Some(k) => (order, (k + 1) as u64),
            None => (order.push(p), (order.len() + 1) as u64),
        }
    }
}

/// `chunk` with the pointers at `base + slots[i]` renumbered in order (a
/// position past the end is left alone).
pub open spec fn renumber_slots(chunk: Seq<u64>, order: Seq<u64>, slots: Seq<int>, base: int) -> (Seq<u64>, Seq<u64>)
    decreases slots.len(),
{
    if slots.len() == 0 {
        (chunk, order)
    } else {
        let (c, o) = renumber_slots(chunk, order, slots.drop_last(), base);
        let at = base + slots.last();
        if 0 <= at < c.len() {
            let (o2, v) = renumber(o, c[at]);
            (c.update(at, v), o2)
        } else {
            (c, o)
        }
    }
}

/// The chunk after packing the objects of `order` from the `k`-th on: each
/// adds its header and words, with the pointers among them renumbered (a
/// pointer at no object ends the packing).
pub open spec fn pack(heap: Heap, meta: Metadata, chunk: Seq<u64>, order: Seq<u64>, k: int) -> Seq<u64>
    decreases heap.objects@.len() - k,
{
    if 0 <= k < order.len() && k < heap.objects@.len() && heap.valid(order[k] as int) {
        let o = heap.at(order[k] as int);
        let c1 = chunk.push(object_header(o)) + object_data(o);
        let r = renumber_slots(c1, order, object_slots(o, meta), chunk.len() as int + 1);
        pack(heap, meta, r.0, r.1, k + 1)
    } else {
        chunk
    }
}

/// The chunk of a call of the function at `function_pos` with `args`, whose
/// pointers stand at `arg_slots`.
pub open spec fn serialized(function_pos: u64, args: Seq<u64>, arg_slots: Seq<int>, heap: Heap, meta: Metadata) -> Seq<u64> {
    let r = renumber_slots(seq![function_pos] + args, Seq::empty(), arg_slots, 1);
    pack(heap, meta, r.0, r.1, 0)
}

/// The function registered at position `function_pos`.
pub open spec fn function_index(meta: Metadata, function_pos: usize) -> Option<int> {
    crate::semantic_checker::symbols::lookup(meta.function_positions@.map_values(|p: (usize, usize)| (p.0, p.1 as int)), function_pos)
}

} // verus!

verus! {

/// The kind of a list, or the type of an object, is one that `meta` knows.
pub open spec fn kind_known(o: HeapObject, meta: Metadata) -> bool {
    match o {
        HeapObject::String(_) => true,
        HeapObject::List(l) => l.list_item_type < meta.lists_pointer_mapping@.len(),
        HeapObject::CustomObject(c) => c.type_index < meta.types_pointer_mapping@.len(),
    }
}

/// The order in which packing meets the objects, once it has met those of
/// `order` and packed the first `k` of them into `chunk`.
pub open spec fn pack_order(heap: Heap, meta: Metadata, chunk: Seq<u64>, order: Seq<u64>, k: int) -> Seq<u64>
    decreases heap.objects@.len() - k,
{
    if 0 <= k < order.len() && k < heap.objects@.len() && heap.valid(order[k] as int) {
        let o = heap.at(order[k] as int);
        let c1 = chunk.push(object_header(o)) + object_data(o);
        let r = renumber_slots(c1, order, object_slots(o, meta), chunk.len() as int + 1);
        pack_order(heap, meta, r.0, r.1, k + 1)
    } else {
        order
    }
}

/// The order in which packing a call meets the objects that its arguments
/// reach (the arguments' pointers stand at `arg_slots`).
pub open spec fn packing_order(function_pos: u64, args: Seq<u64>, arg_slots: Seq<int>, heap: Heap, meta: Metadata) -> Seq<u64> {
    let r = renumber_slots(seq![function_pos] + args, Seq::empty(), arg_slots, 1);
    pack_order(heap, meta, r.0, r.1, 0)
}

/// Each object of `ord` that is on the heap has a kind or type that `meta`
/// knows.
pub open spec fn reached_known(heap: Heap, meta: Metadata, ord: Seq<u64>) -> bool {
    forall|j: int| 0 <= j < ord.len() && heap.valid(ord[j] as int) ==> kind_known(heap.at(#[trigger] ord[j] as int), meta)
}

proof fn lemma_renumber_extends(chunk: Seq<u64>, order: Seq<u64>, slots: Seq<int>, base: int)
    ensures
        order.len() <= renumber_slots(chunk, order, slots, base).1.len(),
        forall|i: int| 0 <= i < order.len() ==> #[trigger] renumber_slots(chunk, order, slots, base).1[i] == order[i],
    decreases slots.len(),
{
    if slots.len() > 0 {
        lemma_renumber_extends(chunk, order, slots.drop_last(), base);
    }
}

proof fn lemma_pack_order_extends(heap: Heap, meta: Metadata, chunk: Seq<u64>, order: Seq<u64>, k: int)
    ensures
        order.len() <= pack_order(heap, meta, chunk, order, k).len(),
        forall|i: int| 0 <= i < order.len() ==> #[trigger] pack_order(heap, meta, chunk, order, k)[i] == order[i],
    decreases heap.objects@.len() - k,
{
    if 0 <= k < order.len() && k < heap.objects@.len() && heap.valid(order[k] as int) {
        let o = heap.at(order[k] as int);
        let c1 = chunk.push(object_header(o)) + object_data(o);
        let r = renumber_slots(c1, order, object_slots(o, meta), chunk.len() as int + 1);
        lemma_renumber_extends(c1, order, object_slots(o, meta), chunk.len() as int + 1);
        lemma_pack_order_extends(heap, meta, r.0, r.1, k + 1);
    }
}

proof fn lemma_renumber_concat(chunk: Seq<u64>, order: Seq<u64>, s1: Seq<int>, s2: Seq<int>, base: int)
    ensures
        renumber_slots(chunk, order, s1 + s2, base) == {
            let r = renumber_slots(chunk, order, s1, base);
            renumber_slots(r.0, r.1, s2, base)
        },
    decreases s2.len(),
{
    if s2.len() == 0 {
        assert(s1 + s2 =~= s1);
    } else {
        lemma_renumber_concat(chunk, order, s1, s2.drop_last(), base);
        assert((s1 + s2).drop_last() =~= s1 + s2.drop_last());
        assert((s1 + s2).last() == s2.last());
    }
}

/// The last position of `p` in `order`.
fn find_in(order: &Vec<u64>, p: u64) -> (r: Option<usize>)
    ensures
        r matches Some(k) ==> k < order@.len() && position_in(order@, p) == Some(k as int),
        r is None ==> position_in(order@, p) is None,
{
    let mut k: usize = order.len();
    assert(order@.take(k as int) =~= order@);
    while k > 0
        invariant
            k <= order@.len(),
            position_in(order@, p) == position_in(order@.take(k as int), p),
        decreases k,
    {
        assert(order@.take(k as int).drop_last() =~= order@.take(k - 1));
        if order[k - 1] == p {
            return Some(k - 1);
        }
        k = k - 1;
    }
    None
}

/// Renumbers the pointer at `at` (see `renumber`).
fn renumber_at(chunk: &mut Vec<u64>, order: &mut Vec<u64>, at: usize)
    requires
        at < old(chunk)@.len(),
    ensures
        final(chunk)@ == old(chunk)@.update(at as int, renumber(old(order)@, old(chunk)@[at as int]).1),
        final(order)@ == renumber(old(order)@, old(chunk)@[at as int]).0,
{
    let p = chunk[at];
    if p == 0 {
        assert(chunk@.update(at as int, 0) =~= chunk@);
        return;
    }
    match find_in(order, p) {
        Some(k) => {
            let n = order.len();
            assert(k < n);
            assert(position_in(order@, p) == Some(k as int));
            chunk.set(at, (k + 1) as u64);
        },
        None => {
            assert(position_in(order@, p) is None);
            order.push(p);
            let n = order.len();
            chunk.set(at, n as u64);
        },
    }
}

/// Renumbers the pointers at `base + slots[i]`, in order (see
/// `renumber_slots`).
fn renumber_all(chunk: &mut Vec<u64>, order: &mut Vec<u64>, slots: &Vec<usize>, base: usize)
    ensures
        (final(chunk)@, final(order)@) == renumber_slots(old(chunk)@, old(order)@, as_ints(slots@), base as int),
{
    let ghost c0 = chunk@;
    let ghost o0 = order@;
    let ghost s = as_ints(slots@);
    let mut i: usize = 0;
    assert(s.take(0) =~= Seq::<int>::empty());
    while i < slots.len()
        invariant
            i <= slots@.len(),
            s == as_ints(slots@),
            (chunk@, order@) == renumber_slots(c0, o0, s.take(i as int), base as int),
        decreases slots@.len() - i,
    {
        assert(s.take(i + 1).drop_last() =~= s.take(i as int));
        assert(s.take(i + 1).last() == slots@[i as int] as int);
        let n = chunk.len();
        if base <= usize::MAX - slots[i] {
            let at = base + slots[i];
            if at < chunk.len() {
                renumber_at(chunk, order, at);
            }
        }
        i = i + 1;
    }
    assert(s.take(s.len() as int) =~= s);
}

/// Renumbers the pointers of the first `amount` items of a list (see
/// `list_slots`) placed at `base`.
fn renumber_list(chunk: &mut Vec<u64>, order: &mut Vec<u64>, map: &Vec<usize>, size: usize, amount: usize, base: usize)
    ensures
        (final(chunk)@, final(order)@) == renumber_slots(
            old(chunk)@,
            old(order)@,
            list_slots(map@, size as int, amount as int),
            base as int,
        ),
{
    let ghost c0 = chunk@;
    let ghost o0 = order@;
    let mut i: usize = 0;
    while i < amount
        invariant
            i <= amount,
            (chunk@, order@) == renumber_slots(c0, o0, list_slots(map@, size as int, i as int), base as int),
        decreases amount - i,
    {
        let ghost block = Seq::new(map@.len(), |j: int| map@[j] + size * i);
        let ghost c1 = chunk@;
        let ghost o1 = order@;
        proof {
            lemma_renumber_concat(c0, o0, list_slots(map@, size as int, i as int), block, base as int);
            assert(list_slots(map@, size as int, i + 1) == list_slots(map@, size as int, i as int) + block);
        }
        let mut j: usize = 0;
        assert(block.take(0) =~= Seq::<int>::empty());
        while j < map.len()
            invariant
                j <= map@.len(),
                i < amount,
                block == Seq::new(map@.len(), |k: int| map@[k] + size * i),
                (chunk@, order@) == renumber_slots(c1, o1, block.take(j as int), base as int),
            decreases map@.len() - j,
        {
            assert(block.take(j + 1).drop_last() =~= block.take(j as int));
            assert(block.take(j + 1).last() == map@[j as int] + size * i);
            let n = chunk.len();
            let offset = checked_offset(map[j], size, i, base);
            match offset {
                Some(at) => {
                    if at < chunk.len() {
                        renumber_at(chunk, order, at);
                    }
                },
                None => {},
            }
            j = j + 1;
        }
        assert(block.take(block.len() as int) =~= block);
        i = i + 1;
    }
}

/// `base + pos + size * i`, where it fits a `usize`.
fn checked_offset(pos: usize, size: usize, i: usize, base: usize) -> (r: Option<usize>)
    ensures
        match r {
            Some(v) => v == base + pos + size * i,
            None => base + pos + size * i > usize::MAX,
        },
{
    match size.checked_mul(i) {
        None => None,
        Some(step) => match base.checked_add(pos) {
            None => None,
            Some(start) => start.checked_add(step),
        },
    }
}

} // verus!

verus! {

/// The header word of `o` (see `object_header`).
fn header_of(o: &HeapObject) -> (r: u64)
    ensures
        r == object_header(*o),
{
    match o {
        HeapObject::String(s) => {
            let bytes = s.as_str().as_bytes();
            (bytes.len() as u64) | STRING_FLAG
        },
        HeapObject::List(l) => (((l.list_item_type as u64) << 32u64) | (l.items_amount as u64)) | LIST_FLAG,
        HeapObject::CustomObject(c) => c.type_index | CUSTOM_OBJECT_FLAG,
    }
}

/// Appends the words of `o` (see `object_data`).
fn push_data(chunk: &mut Vec<u64>, o: &HeapObject)
    ensures
        final(chunk)@ == old(chunk)@ + object_data(*o),
{
    let ghost start = chunk@;
    match o {
        HeapObject::String(s) => {
            let cs = crate::text::chars_of(s.as_str());
            let mut i: usize = 0;
            while i < cs.len()
                invariant
                    i <= cs@.len(),
                    cs@ == s@,
                    chunk@ == start + string_words(cs@).take(i as int),
                decreases cs@.len() - i,
            {
                chunk.push(cs[i] as u32 as u64);
                assert(string_words(cs@).take(i + 1) =~= string_words(cs@).take(i as int).push(cs@[i as int] as u32 as u64));
                i = i + 1;
            }
            assert(string_words(cs@).take(cs@.len() as int) =~= string_words(s@));
        },
        HeapObject::List(l) => {
            append_words(chunk, &l.data);
        },
        HeapObject::CustomObject(c) => {
            append_words(chunk, &c.data);
        },
    }
}

fn append_words(chunk: &mut Vec<u64>, words: &Vec<u64>)
    ensures
        final(chunk)@ == old(chunk)@ + words@,
{
    let ghost start = chunk@;
    let mut i: usize = 0;
    while i < words.len()
        invariant
            i <= words@.len(),
            chunk@ == start + words@.take(i as int),
        decreases words@.len() - i,
    {
        chunk.push(words[i]);
        assert(chunk@ =~= start + words@.take(i + 1));
        i = i + 1;
    }
    assert(words@.take(words@.len() as int) =~= words@);
}

/// The index of the function registered at `function_pos` (see
/// `function_index`).
fn find_function(metadata: &Metadata, function_pos: usize) -> (r: Option<usize>)
    ensures
        r matches Some(i) ==> function_index(*metadata, function_pos) == Some(i as int),
        r is None ==> function_index(*metadata, function_pos) is None,
{
    let ghost m = metadata.function_positions@.map_values(|p: (usize, usize)| (p.0, p.1 as int));
    let mut k: usize = metadata.function_positions.len();
    assert(m.take(k as int) =~= m);
    while k > 0
        invariant
            k <= m.len(),
            m == metadata.function_positions@.map_values(|p: (usize, usize)| (p.0, p.1 as int)),
            crate::semantic_checker::symbols::lookup(m, function_pos) == crate::semantic_checker::symbols::lookup(
                m.take(k as int),
                function_pos,
            ),
        decreases k,
    {
        assert(m.take(k as int).drop_last() =~= m.take(k - 1));
        assert(m.take(k as int).last() == m[k - 1]);
        if metadata.function_positions[k - 1].0 == function_pos {
            return Some(metadata.function_positions[k - 1].1);
        }
        k = k - 1;
    }
    None
}

/// Packs the arguments of a call of the function at `function_pos`, taken
/// off the top of the stack (the stack pointer moves down past them), with
/// everything they reach on the heap (see `serialized`).
pub fn serialize_function_args(
    function_pos: usize,
    stack: &[u64],
    stack_pointer: &mut usize,
    heap: &Heap,
    metadata: &Metadata,
) -> (r: Vec<u64>)
    requires
        function_index(*metadata, function_pos) matches Some(k) && 0 <= k < metadata.function_args_sizes@.len()
            && k < metadata.functions_pointer_mapping@.len() && metadata.function_args_sizes@[k] <= *old(
            stack_pointer,
        ) <= stack@.len(),
        ({
            let k = function_index(*metadata, function_pos)->0;
            let size = metadata.function_args_sizes@[k];
            reached_known(
                *heap,
                *metadata,
                packing_order(
                    function_pos as u64,
                    stack@.subrange(*old(stack_pointer) - size, *old(stack_pointer) as int),
                    as_ints(metadata.functions_pointer_mapping@[k]@),
                    *heap,
                    *metadata,
                ),
            )
        }),
    ensures
        ({
            let k = function_index(*metadata, function_pos)->0;
            let size = metadata.function_args_sizes@[k];
            &&& *final(stack_pointer) == *old(stack_pointer) - size
            &&& r@ == serialized(
                function_pos as u64,
                stack@.subrange(*final(stack_pointer) as int, *old(stack_pointer) as int),
                as_ints(metadata.functions_pointer_mapping@[k]@),
                *heap,
                *metadata,
            )
        }),
{
    let func_index = match find_function(metadata, function_pos) {
        Some(k) => k,
        None => {
            return Vec::new();
        },
    };
    assert(func_index as int == function_index(*metadata, function_pos)->0);
    let args_size = metadata.function_args_sizes[func_index];
    assert(args_size <= *stack_pointer);
    *stack_pointer = *stack_pointer - args_size;
    let mut chunk: Vec<u64> = Vec::new();
    chunk.push(function_pos as u64);
    let args = vstd::slice::slice_subrange(stack, *stack_pointer, *stack_pointer + args_size);
    let mut i: usize = 0;
    let ghost first = chunk@;
    while i < args.len()
        invariant
            i <= args@.len(),
            chunk@ == first + args@.take(i as int),
        decreases args@.len() - i,
    {
        chunk.push(args[i]);
        assert(chunk@ =~= first + args@.take(i + 1));
        i = i + 1;
    }
    assert(args@.take(args@.len() as int) =~= args@);
    let mut order: Vec<u64> = Vec::new();
    renumber_all(&mut chunk, &mut order, &metadata.functions_pointer_mapping[func_index], 1);
    let ghost packed = pack(*heap, *metadata, chunk@, order@, 0);
    let ghost reach = pack_order(*heap, *metadata, chunk@, order@, 0);
    assert(reach == packing_order(
        function_pos as u64,
        stack@.subrange(*stack_pointer as int, *stack_pointer + args_size),
        as_ints(metadata.functions_pointer_mapping@[func_index as int]@),
        *heap,
        *metadata,
    ));
    let mut processed: usize = 0;
    while processed < order.len() && processed < heap.objects.len() && order[processed] >= 1
        && order[processed] <= heap.objects.len() as u64
        invariant
            reached_known(*heap, *metadata, reach),
            packed == pack(*heap, *metadata, chunk@, order@, processed as int),
            reach == pack_order(*heap, *metadata, chunk@, order@, processed as int),
        decreases heap.objects@.len() - processed,
    {
        proof {
            lemma_pack_order_extends(*heap, *metadata, chunk@, order@, processed as int);
            assert(reach[processed as int] == order@[processed as int]);
            assert(heap.valid(reach[processed as int] as int));
        }
        let obj = heap.get(order[processed]);
        let ghost c0 = chunk@;
        let ghost o0 = order@;
        proof {
            assert(heap.objects@[order@[processed as int] - 1] == *obj);
        }
        chunk.push(header_of(obj));
        let start = chunk.len();
        push_data(&mut chunk, obj);
        match obj {
            HeapObject::String(_) => {},
            HeapObject::List(l) => {
                renumber_list(
                    &mut chunk,
                    &mut order,
                    &metadata.lists_pointer_mapping[l.list_item_type],
                    l.item_size,
                    l.items_amount,
                    start,
                );
            },
            HeapObject::CustomObject(c) => {
                let n = metadata.types_pointer_mapping.len();
                assert(c.type_index < n);
                let t = c.type_index as usize;
                assert(t as int == c.type_index as int);
                renumber_all(&mut chunk, &mut order, &metadata.types_pointer_mapping[t], start);
            },
        }
        proof {
            let o = heap.at(o0[processed as int] as int);
            assert(o == *obj);
            let r = renumber_slots(c0.push(object_header(o)) + object_data(o), o0, object_slots(o, *metadata), c0.len() as int + 1);
            assert(chunk@ == r.0 && order@ == r.1);
        }
        processed = processed + 1;
    }
    chunk
}

} // verus!

verus! {

/// A heap object as plain values.
pub ghost enum ObjModel {
    Str(Seq<char>),
    /// Words, number of items, words per item, list kind.
    Lst(Seq<u64>, nat, nat, nat),
    /// Words, user type.
    Cst(Seq<u64>, nat),
}

pub open spec fn obj_model(o: HeapObject) -> ObjModel {
    match o {
        HeapObject::String(s) => ObjModel::Str(s@),
        HeapObject::List(l) => ObjModel::Lst(l.data@, l.items_amount as nat, l.item_size as nat, l.list_item_type as nat),
        HeapObject::CustomObject(c) => ObjModel::Cst(c.data@, c.type_index as nat),
    }
}

/// The objects of a heap as plain values.
pub open spec fn heap_model(h: Heap) -> Seq<ObjModel> {
    objects_model(h.objects@)
}

/// Heap objects as plain values.
pub open spec fn objects_model(v: Seq<HeapObject>) -> Seq<ObjModel> {
    v.map_values(|o: HeapObject| obj_model(o))
}

/// The list kind or type of an unpacked object is one that `meta` knows.
pub open spec fn fits(o: ObjModel, meta: Metadata) -> bool {
    match o {
        ObjModel::Str(_) => true,
        ObjModel::Lst(_, _, _, kind) => kind < meta.lists_pointer_mapping@.len(),
        ObjModel::Cst(_, t) => t < meta.types_pointer_mapping@.len(),
    }
}

/// `v` is the code of a character (not a surrogate, at most 0x10FFFF).
pub open spec fn is_char_code(v: u32) -> bool {
    v <= 0x10FFFF && !(0xD800 <= v <= 0xDFFF)
}

/// `char::from_u32`: the character with the code `v`, none where `v` is not
/// the code of a character.
#[verifier::external_body]
fn char_from_u32(v: u32) -> (r: Option<char>)
    ensures
        r is Some <==> is_char_code(v),
        r matches Some(c) ==> c as u32 == v && c == v as char,
{
    char::from_u32(v)
}

/// The characters whose codes are `words` (each cut to 32 bits); none if
/// one is not a character code.
pub open spec fn chars_of_words(words: Seq<u64>) -> Option<Seq<char>>
    decreases words.len(),
{
    if words.len() == 0 {
        Some(Seq::empty())
    } else {
        match chars_of_words(words.drop_last()) {
            Some(cs) => if is_char_code(words.last() as u32) {
                Some(cs.push((words.last() as u32) as char))
            } else {
                None
            },
            None => None,
        }
    }
}

/// The objects packed in `chunk` from position `cur` on; none where a header
/// is unknown, an object runs past the end, a list kind or type is not in
/// `meta`, or a string holds a word that is no character code.
pub open spec fn unpacked(chunk: Seq<u64>, meta: Metadata, cur: int) -> Option<Seq<ObjModel>>
    decreases chunk.len() - cur,
{
    if cur < 0 || cur >= chunk.len() {
        Some(Seq::empty())
    } else {
        let h = chunk[cur];
        if h & STRING_FLAG != 0 {
            let len = (h & !STRING_FLAG) as usize;
            let next = cur + 1 + len;
            if next > chunk.len() {
                None
            } else {
                match (chars_of_words(chunk.subrange(cur + 1, next)), unpacked(chunk, meta, next)) {
                    (Some(cs), Some(rest)) => Some(seq![ObjModel::Str(cs)] + rest),
                    _ => None,
                }
            }
        } else if h & LIST_FLAG != 0 {
            let h2 = h & !LIST_FLAG;
            let kind = (h2 >> 32u64) as usize;
            let amount = (h2 ^ ((h2 >> 32u64) << 32u64)) as usize;
            if kind >= meta.lists_item_sizes@.len() || kind >= meta.lists_pointer_mapping@.len() {
                None
            } else {
                let size = meta.lists_item_sizes@[kind as int];
                let next = cur + 1 + amount * size;
                if next > chunk.len() {
                    None
                } else {
                    match unpacked(chunk, meta, next) {
                        Some(rest) => Some(
                            seq![ObjModel::Lst(chunk.subrange(cur + 1, next), amount as nat, size as nat, kind as nat)] + rest,
                        ),
                        None => None,
                    }
                }
            }
        } else if h & CUSTOM_OBJECT_FLAG != 0 {
            let t = (h & !CUSTOM_OBJECT_FLAG) as usize;
            if t >= meta.types_sizes@.len() || t >= meta.types_pointer_mapping@.len() {
                None
            } else {
                let next = cur + 1 + meta.types_sizes@[t as int];
                if next > chunk.len() {
                    None
                } else {
                    match unpacked(chunk, meta, next) {
                        Some(rest) => Some(seq![ObjModel::Cst(chunk.subrange(cur + 1, next), t as nat)] + rest),
                        None => None,
                    }
                }
            }
        } else {
            None
        }
    }
}

/// The positions of the pointers among an unpacked object's words.
pub open spec fn model_slots(o: ObjModel, meta: Metadata) -> Seq<int> {
    match o {
        ObjModel::Str(_) => Seq::empty(),
        ObjModel::Lst(_, amount, size, kind) => list_slots(meta.lists_pointer_mapping@[kind as int]@, size as int, amount as int),
        ObjModel::Cst(_, t) => as_ints(meta.types_pointer_mapping@[t as int]@),
    }
}

/// `words` with the object numbers at `slots` turned into heap pointers
/// (number `v` becomes `base + v`; 0 stays 0); none where a position is
/// outside `words` or a number is above `count`.
pub open spec fn relinked(words: Seq<u64>, slots: Seq<int>, base: int, count: int) -> Option<Seq<u64>>
    decreases slots.len(),
{
    if slots.len() == 0 {
        Some(words)
    } else {
        match relinked(words, slots.drop_last(), base, count) {
            Some(w) => {
                let at = slots.last();
                if !(0 <= at < w.len()) {
                    None
                } else if w[at] == 0 {
                    Some(w)
                } else if w[at] <= count {
                    Some(w.update(at, (base + w[at]) as u64))
                } else {
                    None
                }
            },
            None => None,
        }
    }
}

/// An unpacked object with its pointers turned into heap pointers.
pub open spec fn relinked_object(o: ObjModel, meta: Metadata, base: int, count: int) -> Option<ObjModel> {
    match o {
        ObjModel::Str(s) => Some(ObjModel::Str(s)),
        ObjModel::Lst(d, amount, size, kind) => match relinked(d, model_slots(o, meta), base, count) {
            Some(w) => Some(ObjModel::Lst(w, amount, size, kind)),
            None => None,
        },
        ObjModel::Cst(d, t) => match relinked(d, model_slots(o, meta), base, count) {
            Some(w) => Some(ObjModel::Cst(w, t)),
            None => None,
        },
    }
}

/// All unpacked objects relinked, in order.
pub open spec fn relinked_objects(os: Seq<ObjModel>, meta: Metadata, base: int, count: int) -> Option<Seq<ObjModel>>
    decreases os.len(),
{
    if os.len() == 0 {
        Some(Seq::empty())
    } else {
        match (relinked_objects(os.drop_last(), meta, base, count), relinked_object(os.last(), meta, base, count)) {
            (Some(rs), Some(r)) => Some(rs.push(r)),
            _ => None,
        }
    }
}

/// What unpacking `chunk` for the function at `function_pos` leaves: the
/// stack with the arguments placed at `sp` and the pointers at the
/// function's pointer positions relinked, the stack pointer moved up past
/// the arguments, and the heap grown by the unpacked objects, relinked.
/// None where unpacking does not go through.
pub open spec fn deserialized(
    function_pos: usize,
    chunk: Seq<u64>,
    meta: Metadata,
    stack: Seq<u64>,
    sp: int,
    heap: Seq<ObjModel>,
) -> Option<(Seq<u64>, int, Seq<ObjModel>)> {
    match function_index(meta, function_pos) {
        None => None,
        Some(k) => if !(0 <= k < meta.function_args_sizes@.len() && k < meta.functions_pointer_mapping@.len()) {
            None
        } else {
            let size = meta.function_args_sizes@[k] as int;
            if chunk.len() < size + 1 || chunk[0] != function_pos as u64 || sp + size > stack.len() {
                None
            } else {
                let placed = stack.take(sp) + chunk.subrange(1, size + 1) + stack.skip(sp + size);
                match unpacked(chunk, meta, size + 1) {
                    None => None,
                    Some(objects) => match (
                        relinked(placed, as_ints(meta.functions_pointer_mapping@[k]@), heap.len() as int, objects.len() as int),
                        relinked_objects(objects, meta, heap.len() as int, objects.len() as int),
                    ) {
                        (Some(st), Some(os)) => Some((st, sp + size, heap + os)),
                        _ => None,
                    },
                }
            }
        },
    }
}

} // verus!

verus! {

proof fn lemma_relinked_concat(words: Seq<u64>, s1: Seq<int>, s2: Seq<int>, base: int, count: int)
    ensures
        relinked(words, s1 + s2, base, count) == match relinked(words, s1, base, count) {
            Some(w) => relinked(w, s2, base, count),
            None => None,
        },
    decreases s2.len(),
{
    if s2.len() == 0 {
        assert(s1 + s2 =~= s1);
    } else {
        lemma_relinked_concat(words, s1, s2.drop_last(), base, count);
        assert((s1 + s2).drop_last() =~= s1 + s2.drop_last());
        assert((s1 + s2).last() == s2.last());
    }
}

proof fn lemma_relinked_none_stays(words: Seq<u64>, s: Seq<int>, i: int, base: int, count: int)
    requires
        0 <= i <= s.len(),
        relinked(words, s.take(i), base, count) is None,
    ensures
        relinked(words, s, base, count) is None,
    decreases s.len() - i,
{
    if i < s.len() {
        assert(s.take(i + 1).drop_last() =~= s.take(i));
        lemma_relinked_none_stays(words, s, i + 1, base, count);
    } else {
        assert(s.take(i) =~= s);
    }
}

/// One relink step at `at` (see `relinked`); false where it fails.
fn relink_at(words: &mut [u64], at: usize, base: u64, count: u64) -> (ok: bool)
    requires
        base + count <= u64::MAX,
    ensures
        ok == (at < old(words)@.len() && (old(words)@[at as int] == 0 || old(words)@[at as int] <= count)),
        ok ==> final(words)@ == if old(words)@[at as int] == 0 {
            old(words)@
        } else {
            old(words)@.update(at as int, (base + old(words)@[at as int]) as u64)
        },
{
    if at >= words.len() {
        return false;
    }
    let v = words[at];
    if v == 0 {
        return true;
    }
    if v > count {
        return false;
    }
    words[at] = base + v;
    true
}

/// Relinks the words at `slots` (see `relinked`); false where that fails.
fn relink_all(words: &mut [u64], slots: &Vec<usize>, base: u64, count: u64) -> (ok: bool)
    requires
        base + count <= u64::MAX,
    ensures
        match relinked(old(words)@, as_ints(slots@), base as int, count as int) {
            Some(w) => ok && final(words)@ == w,
            None => !ok,
        },
{
    let ghost w0 = words@;
    let ghost s = as_ints(slots@);
    let mut i: usize = 0;
    assert(s.take(0) =~= Seq::<int>::empty());
    while i < slots.len()
        invariant
            i <= slots@.len(),
            s == as_ints(slots@),
            w0 == old(words)@,
            base + count <= u64::MAX,
            relinked(w0, s.take(i as int), base as int, count as int) == Some(words@),
        decreases slots@.len() - i,
    {
        assert(s.take(i + 1).drop_last() =~= s.take(i as int));
        assert(s.take(i + 1).last() == slots@[i as int] as int);
        let ghost wb = words@;
        if !relink_at(words, slots[i], base, count) {
            proof {
                assert(relinked(w0, s.take(i + 1), base as int, count as int) is None);
                lemma_relinked_none_stays(w0, s, i + 1, base as int, count as int);
            }
            return false;
        }
        i = i + 1;
    }
    assert(s.take(s.len() as int) =~= s);
    true
}

/// Relinks the pointers of the first `amount` items of a list (see
/// `list_slots`); false where that fails.
fn relink_list(words: &mut [u64], map: &Vec<usize>, size: usize, amount: usize, base: u64, count: u64) -> (ok: bool)
    requires
        base + count <= u64::MAX,
    ensures
        match relinked(old(words)@, list_slots(map@, size as int, amount as int), base as int, count as int) {
            Some(w) => ok && final(words)@ == w,
            None => !ok,
        },
{
    let ghost w0 = words@;
    let mut i: usize = 0;
    while i < amount
        invariant
            i <= amount,
            w0 == old(words)@,
            base + count <= u64::MAX,
            relinked(w0, list_slots(map@, size as int, i as int), base as int, count as int) == Some(words@),
        decreases amount - i,
    {
        let ghost block = Seq::new(map@.len(), |j: int| map@[j] + size * i);
        let ghost w1 = words@;
        proof {
            lemma_relinked_concat(w0, list_slots(map@, size as int, i as int), block, base as int, count as int);
            assert(list_slots(map@, size as int, i + 1) == list_slots(map@, size as int, i as int) + block);
        }
        let mut j: usize = 0;
        assert(block.take(0) =~= Seq::<int>::empty());
        while j < map.len()
            invariant
                j <= map@.len(),
                i < amount,
                w0 == old(words)@,
                base + count <= u64::MAX,
                block == Seq::new(map@.len(), |k: int| map@[k] + size * i),
                relinked(w1, block.take(j as int), base as int, count as int) == Some(words@),
                relinked(w0, list_slots(map@, size as int, i as int), base as int, count as int) == Some(w1),
                list_slots(map@, size as int, i + 1) == list_slots(map@, size as int, i as int) + block,
            decreases map@.len() - j,
        {
            assert(block.take(j + 1).drop_last() =~= block.take(j as int));
            assert(block.take(j + 1).last() == map@[j as int] + size * i);
            let ghost wb = words@;
            let n = words.len();
            let offset = checked_offset(map[j], size, i, 0);
            let ok = match offset {
                Some(at) => relink_at(words, at, base, count),
                None => false,
            };
            if !ok {
                proof {
                    assert(relinked(w1, block.take(j + 1), base as int, count as int) is None);
                    lemma_relinked_none_stays(w1, block, j + 1, base as int, count as int);
                    lemma_relinked_concat(w0, list_slots(map@, size as int, i as int), block, base as int, count as int);
                    lemma_list_slots_none_stays(w0, map@, size as int, i + 1, amount as int, base as int, count as int);
                }
                return false;
            }
            j = j + 1;
        }
        assert(block.take(block.len() as int) =~= block);
        i = i + 1;
    }
    true
}

proof fn lemma_list_slots_none_stays(words: Seq<u64>, map: Seq<usize>, size: int, i: int, amount: int, base: int, count: int)
    requires
        0 <= i <= amount,
        relinked(words, list_slots(map, size, i), base, count) is None,
    ensures
        relinked(words, list_slots(map, size, amount), base, count) is None,
    decreases amount - i,
{
    if i < amount {
        let block = Seq::new(map.len(), |j: int| map[j] + size * i);
        lemma_relinked_concat(words, list_slots(map, size, i), block, base, count);
        assert(list_slots(map, size, i + 1) == list_slots(map, size, i) + block);
        lemma_list_slots_none_stays(words, map, size, i + 1, amount, base, count);
    }
}


proof fn lemma_chars_none_stays(words: Seq<u64>, i: int)
    requires
        0 <= i <= words.len(),
        chars_of_words(words.take(i)) is None,
    ensures
        chars_of_words(words) is None,
    decreases words.len() - i,
{
    if i < words.len() {
        assert(words.take(i + 1).drop_last() =~= words.take(i));
        lemma_chars_none_stays(words, i + 1);
    } else {
        assert(words.take(i) =~= words);
    }
}

/// The string whose characters are the `len` words of `chunk` from `from`
/// on; none where one is no character code.
fn unpack_string(chunk: &Vec<u64>, from: usize, len: usize) -> (r: Option<String>)
    requires
        from + len <= chunk@.len(),
    ensures
        match chars_of_words(chunk@.subrange(from as int, from + len)) {
            Some(cs) => r matches Some(s) && s@ == cs,
            None => r is None,
        },
{
    let ghost ws = chunk@.subrange(from as int, from + len);
    let mut s = String::new();
    let mut i: usize = 0;
    let n = chunk.len();
    assert(ws.take(0) =~= Seq::<u64>::empty());
    while i < len
        invariant
            i <= len,
            n == chunk@.len(),
            from + len <= chunk@.len(),
            ws == chunk@.subrange(from as int, from + len),
            chars_of_words(ws.take(i as int)) == Some(s@),
        decreases len - i,
    {
        assert(ws.take(i + 1).drop_last() =~= ws.take(i as int));
        assert(ws.take(i + 1).last() == chunk@[from + i]);
        let w = chunk[from + i];
        match char_from_u32(w as u32) {
            Some(c) => {
                crate::text::string_push(&mut s, c);
            },
            None => {
                proof {
                    lemma_chars_none_stays(ws, i + 1);
                }
                return None;
            },
        }
        i = i + 1;
    }
    assert(ws.take(len as int) =~= ws);
    Some(s)
}

/// The `len` words of `chunk` from `from` on.
fn copy_words(chunk: &Vec<u64>, from: usize, len: usize) -> (r: Vec<u64>)
    requires
        from + len <= chunk@.len(),
    ensures
        r@ == chunk@.subrange(from as int, from + len),
{
    let mut r: Vec<u64> = Vec::new();
    let mut i: usize = 0;
    let n = chunk.len();
    while i < len
        invariant
            i <= len,
            n == chunk@.len(),
            from + len <= chunk@.len(),
            r@ == chunk@.subrange(from as int, from + i),
        decreases len - i,
    {
        r.push(chunk[from + i]);
        assert(r@ =~= chunk@.subrange(from as int, from + i + 1));
        i = i + 1;
    }
    r
}


/// Unpacks the objects of `chunk` from position `from` on (see `unpacked`).
fn unpack_objects(chunk: &Vec<u64>, metadata: &Metadata, from: usize) -> (r: Option<Vec<HeapObject>>)
    ensures
        match unpacked(chunk@, *metadata, from as int) {
            Some(os) => r matches Some(v) && objects_model(v@) == os && v@.len() <= chunk@.len()
                && forall|i: int| 0 <= i < os.len() ==> fits(#[trigger] os[i], *metadata),
            None => r is None,
        },
{
    let mut objects: Vec<HeapObject> = Vec::new();
    let n = chunk.len();
    if from >= n {
        assert(objects_model(objects@) =~= Seq::<ObjModel>::empty());
        return Some(objects);
    }
    let mut cur = from;
    assert(objects_model(objects@) =~= Seq::<ObjModel>::empty());
    assert(unpacked(chunk@, *metadata, cur as int) matches Some(rest) ==> Seq::<ObjModel>::empty() + rest =~= rest);
    while cur < n
        invariant
            n == chunk@.len(),
            cur <= n,
            objects@.len() <= cur,
            forall|i: int| 0 <= i < objects@.len() ==> fits(#[trigger] obj_model(objects@[i]), *metadata),
            unpacked(chunk@, *metadata, from as int) == match unpacked(chunk@, *metadata, cur as int) {
                Some(rest) => Some(objects_model(objects@) + rest),
                None => None,
            },
        decreases n - cur,
    {
        let ghost m0 = objects_model(objects@);
        let ghost c0 = cur;
        let h = chunk[cur];
        let next: usize;
        if h & STRING_FLAG != 0 {
            let len = (h & !STRING_FLAG) as usize;
            if n - cur - 1 < len {
                return None;
            }
            next = cur + 1 + len;
            match unpack_string(chunk, cur + 1, len) {
                None => {
                    return None;
                },
                Some(s) => {
                    objects.push(HeapObject::String(s));
                },
            }
        } else if h & LIST_FLAG != 0 {
            let h2 = h & !LIST_FLAG;
            let kind = (h2 >> 32u64) as usize;
            let amount = (h2 ^ ((h2 >> 32u64) << 32u64)) as usize;
            if kind >= metadata.lists_item_sizes.len() || kind >= metadata.lists_pointer_mapping.len() {
                return None;
            }
            let size = metadata.lists_item_sizes[kind];
            let words = match amount.checked_mul(size) {
                Some(w) => w,
                None => {
                    return None;
                },
            };
            if n - cur - 1 < words {
                return None;
            }
            next = cur + 1 + words;
            let data = copy_words(chunk, cur + 1, words);
            objects.push(HeapObject::List(List { data, items_amount: amount, item_size: size, list_item_type: kind }));
        } else if h & CUSTOM_OBJECT_FLAG != 0 {
            let t = (h & !CUSTOM_OBJECT_FLAG) as usize;
            if t >= metadata.types_sizes.len() || t >= metadata.types_pointer_mapping.len() {
                return None;
            }
            let size = metadata.types_sizes[t];
            if n - cur - 1 < size {
                return None;
            }
            next = cur + 1 + size;
            let data = copy_words(chunk, cur + 1, size);
            objects.push(HeapObject::CustomObject(CustomObject { data, type_index: t as u64 }));
        } else {
            return None;
        }
        proof {
            let x = obj_model(objects@.last());
            assert(objects_model(objects@) =~= m0.push(x));
            assert(unpacked(chunk@, *metadata, c0 as int) == match unpacked(chunk@, *metadata, next as int) {
                Some(rest) => Some(seq![x] + rest),
                None => None,
            });
            match unpacked(chunk@, *metadata, next as int) {
                Some(rest) => {
                    assert(m0 + (seq![x] + rest) =~= objects_model(objects@) + rest);
                },
                None => {},
            }
        }
        cur = next;
    }
    assert(objects_model(objects@) + Seq::<ObjModel>::empty() =~= objects_model(objects@));
    Some(objects)
}


proof fn lemma_relinked_objects_parts(os: Seq<ObjModel>, meta: Metadata, base: int, count: int, i: int)
    requires
        relinked_objects(os, meta, base, count) is Some,
        0 <= i < os.len(),
    ensures
        relinked_objects(os.take(i), meta, base, count) is Some,
        relinked_object(os[i], meta, base, count) is Some,
        relinked_objects(os.take(i + 1), meta, base, count) == Some(
            relinked_objects(os.take(i), meta, base, count)->0.push(relinked_object(os[i], meta, base, count)->0),
        ),
    decreases os.len(),
{
    assert(os.take(i + 1).drop_last() =~= os.take(i));
    if i + 1 < os.len() {
        lemma_relinked_objects_parts(os.drop_last(), meta, base, count, i);
        assert(os.drop_last().take(i) =~= os.take(i));
        assert(os.drop_last().take(i + 1) =~= os.take(i + 1));
    } else {
        assert(os.take(i + 1) =~= os);
    }
}

/// Unpacks `chunk`, made by `serialize_function_args` for the function at
/// `function_pos`: the arguments go onto the stack at the stack pointer,
/// which moves up past them; the objects go onto the heap, and the pointers
/// on the stack (at the function's pointer positions) and in the objects
/// are turned from object numbers into heap pointers (see `deserialized`).
pub fn deserialize_function_args(
    function_pos: usize,
    stack: &mut [u64],
    stack_pointer: &mut usize,
    heap: &mut Heap,
    metadata: &Metadata,
    chunk: &Vec<u64>,
)
    requires
        deserialized(function_pos, chunk@, *metadata, old(stack)@, *old(stack_pointer) as int, heap_model(*old(heap)))
            is Some,
        old(heap).objects@.len() + chunk@.len() <= u64::MAX,
    ensures
        deserialized(function_pos, chunk@, *metadata, old(stack)@, *old(stack_pointer) as int, heap_model(*old(heap)))
            == Some((final(stack)@, *final(stack_pointer) as int, heap_model(*final(heap)))),
{
    let ghost stack0 = stack@;
    let ghost heap0 = heap_model(*heap);
    let k = match find_function(metadata, function_pos) {
        Some(k) => k,
        None => {
            return;
        },
    };
    if k >= metadata.function_args_sizes.len() || k >= metadata.functions_pointer_mapping.len() {
        return;
    }
    let size = metadata.function_args_sizes[k];
    let sp = *stack_pointer;
    let n = chunk.len();
    if n == 0 || n - 1 < size || chunk[0] != function_pos as u64 || sp > stack.len() || stack.len() - sp < size {
        return;
    }
    let mut i: usize = 0;
    while i < size
        invariant
            i <= size,
            size < n,
            n == chunk@.len(),
            sp + size <= stack0.len() <= usize::MAX,
            stack@ == stack0.take(sp as int) + chunk@.subrange(1, i + 1) + stack0.skip(sp + i),
        decreases size - i,
    {
        stack[sp + i] = chunk[i + 1];
        assert(stack@ =~= stack0.take(sp as int) + chunk@.subrange(1, i + 2) + stack0.skip(sp + i + 1));
        i = i + 1;
    }
    *stack_pointer = sp + size;
    let objects = match unpack_objects(chunk, metadata, size + 1) {
        Some(v) => v,
        None => {
            return;
        },
    };
    let ghost os = objects_model(objects@);
    let ghost ov = objects@;
    let base = heap.objects.len() as u64;
    let count = objects.len() as u64;
    if !relink_all(stack, &metadata.functions_pointer_mapping[k], base, count) {
        return;
    }
    assert(os.take(0) =~= Seq::<ObjModel>::empty());
    assert(heap0 + Seq::<ObjModel>::empty() =~= heap0);
    for o in it: objects
        invariant
            it.seq() == ov,
            os == objects_model(ov),
            heap0.len() == base,
            os.len() == count,
            base + count <= u64::MAX,
            forall|j: int| 0 <= j < os.len() ==> fits(#[trigger] os[j], *metadata),
            relinked_objects(os, *metadata, base as int, count as int) is Some,
            heap_model(*heap) == heap0 + relinked_objects(os.take(it.index() as int), *metadata, base as int, count as int)->0,
    {
        let ghost j = it.index() as int;
        proof {
            lemma_relinked_objects_parts(os, *metadata, base as int, count as int, j);
            assert(os[j] == obj_model(o));
        }
        let ghost before = heap.objects@;
        match o {
            HeapObject::String(s) => {
                heap.objects.push(HeapObject::String(s));
            },
            HeapObject::List(l) => {
                let mut l = l;
                assert(os[j] == ObjModel::Lst(l.data@, l.items_amount as nat, l.item_size as nat, l.list_item_type as nat));
                assert(relinked(l.data@, list_slots(metadata.lists_pointer_mapping@[l.list_item_type as int]@, l.item_size as int, l.items_amount as int), base as int, count as int) is Some);
                if !relink_list(
                    l.data.as_mut_slice(),
                    &metadata.lists_pointer_mapping[l.list_item_type],
                    l.item_size,
                    l.items_amount,
                    base,
                    count,
                ) {
                    return;
                }
                heap.objects.push(HeapObject::List(l));
            },
            HeapObject::CustomObject(c) => {
                let mut c = c;
                assert(os[j] == ObjModel::Cst(c.data@, c.type_index as nat));
                let tn = metadata.types_pointer_mapping.len();
                assert(c.type_index < tn);
                let t = c.type_index as usize;
                assert(t as nat == c.type_index as nat);
                assert(relinked(c.data@, as_ints(metadata.types_pointer_mapping@[t as int]@), base as int, count as int) is Some);
                if !relink_all(c.data.as_mut_slice(), &metadata.types_pointer_mapping[t], base, count) {
                    return;
                }
                heap.objects.push(HeapObject::CustomObject(c));
            },
        }
        proof {
            assert(objects_model(heap.objects@) =~= objects_model(before).push(obj_model(heap.objects@.last())));
            assert(obj_model(heap.objects@.last()) == relinked_object(os[j], *metadata, base as int, count as int)->0);
        }
    }
    assert(os.take(os.len() as int) =~= os);
}


proof fn lemma_renumber_nulls(chunk: Seq<u64>, order: Seq<u64>, slots: Seq<int>, base: int)
    requires
        forall|i: int| 0 <= i < slots.len() ==> 0 <= base + #[trigger] slots[i] < chunk.len() && chunk[base + slots[i]] == 0,
    ensures
        renumber_slots(chunk, order, slots, base) == (chunk, order),
    decreases slots.len(),
{
    if slots.len() > 0 {
        lemma_renumber_nulls(chunk, order, slots.drop_last(), base);
        assert(slots.last() == slots[slots.len() - 1]);
        assert(chunk.update(base + slots.last(), 0) =~= chunk);
    }
}

proof fn lemma_relinked_nulls(words: Seq<u64>, slots: Seq<int>, base: int, count: int)
    requires
        forall|i: int| 0 <= i < slots.len() ==> 0 <= #[trigger] slots[i] < words.len() && words[slots[i]] == 0,
    ensures
        relinked(words, slots, base, count) == Some(words),
    decreases slots.len(),
{
    if slots.len() > 0 {
        lemma_relinked_nulls(words, slots.drop_last(), base, count);
        assert(slots.last() == slots[slots.len() - 1]);
    }
}

/// A call whose pointer arguments are all null comes back whole: packing
/// its arguments and unpacking the chunk onto a fresh stack (stack pointer
/// 0) puts the same arguments at the bottom of the stack, moves the stack
/// pointer past them and leaves the heap as it was.
pub proof fn law_null_pointer_arguments_come_back(
    function_pos: usize,
    args: Seq<u64>,
    heap: Heap,
    meta: Metadata,
    stack: Seq<u64>,
    target_heap: Seq<ObjModel>,
)
    requires
        function_index(meta, function_pos) matches Some(k) && 0 <= k < meta.function_args_sizes@.len() && k
            < meta.functions_pointer_mapping@.len() && meta.function_args_sizes@[k] == args.len() && forall|i: int|
            0 <= i < meta.functions_pointer_mapping@[k]@.len() ==> {
                let at = #[trigger] meta.functions_pointer_mapping@[k]@[i];
                at < args.len() && args[at as int] == 0
            },
        args.len() <= stack.len(),
    ensures
        ({
            let k = function_index(meta, function_pos)->0;
            let slots = as_ints(meta.functions_pointer_mapping@[k]@);
            deserialized(function_pos, serialized(function_pos as u64, args, slots, heap, meta), meta, stack, 0, target_heap)
                == Some((args + stack.skip(args.len() as int), args.len() as int, target_heap))
        }),
{
    let k = function_index(meta, function_pos)->0;
    let slots = as_ints(meta.functions_pointer_mapping@[k]@);
    let chunk0 = seq![function_pos as u64] + args;
    assert forall|i: int| 0 <= i < slots.len() implies 0 <= 1 + #[trigger] slots[i] < chunk0.len() && chunk0[1 + slots[i]] == 0 by {
        let at = meta.functions_pointer_mapping@[k]@[i];
        assert(slots[i] == at as int);
    }
    lemma_renumber_nulls(chunk0, Seq::empty(), slots, 1);
    let chunk = serialized(function_pos as u64, args, slots, heap, meta);
    assert(chunk == chunk0);
    let size = args.len() as int;
    assert(chunk.subrange(1, size + 1) =~= args);
    let placed = stack.take(0) + chunk.subrange(1, size + 1) + stack.skip(size);
    assert(placed =~= args + stack.skip(size));
    assert forall|i: int| 0 <= i < slots.len() implies 0 <= #[trigger] slots[i] < placed.len() && placed[slots[i]] == 0 by {
        let at = meta.functions_pointer_mapping@[k]@[i];
        assert(slots[i] == at as int);
    }
    lemma_relinked_nulls(placed, slots, target_heap.len() as int, 0);
    assert(target_heap + Seq::<ObjModel>::empty() =~= target_heap);
}

} // verus!
