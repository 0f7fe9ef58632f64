//! What unpacking gives back of what packing wrote: the arguments of a call
//! and the objects they reach come back, with every pointer moved to where
//! its object now lies.
use vstd::prelude::*;

use vstd::utf8::{is_ascii_chars, is_ascii_chars_encode_utf8};

use crate::codegen::utils::as_ints;
use crate::runtime::heap::{Heap, HeapObject};
use crate::runtime::serialization::{
    chars_of_words, deserialized, function_index, is_char_code, model_slots, object_data,
    object_header, object_slots, pack, pack_order, packing_order, position_in, relinked, relinked_object, relinked_objects,
    renumber, renumber_slots, serialized, string_words, unpacked, ObjModel, CUSTOM_OBJECT_FLAG,
    LIST_FLAG, STRING_FLAG,
};
use crate::runtime::vm::Metadata;

verus! {

/// No value occurs twice in `s`.
pub open spec fn distinct(s: Seq<u64>) -> bool {
    forall|i: int, j: int| 0 <= i < j < s.len() ==> s[i] != s[j]
}

/// No value of `s` is 0.
pub open spec fn nonzero(s: Seq<u64>) -> bool {
    forall|i: int| 0 <= i < s.len() ==> s[i] != 0
}

/// The number that the pointer `p` has in the packing order `ord`: its
/// position counted from 1, and 0 for no object.
pub open spec fn num(ord: Seq<u64>, p: u64) -> int {
    if p == 0 {
        0
    } else {
        match position_in(ord, p) {
            Some(i) => i + 1,
            None => 0,
        }
    }
}

/// `s` starts with `t`.
pub open spec fn starts_with(s: Seq<u64>, t: Seq<u64>) -> bool {
    t.len() <= s.len() && s.take(t.len() as int) == t
}

/// A sequence of different values, each between 1 and `n`, has at most `n`
/// of them.
proof fn lemma_distinct_bounded(s: Seq<u64>, n: int)
    requires
        0 <= n,
        distinct(s),
        forall|i: int| 0 <= i < s.len() ==> 1 <= #[trigger] s[i] <= n,
    ensures
        s.len() <= n,
{
    if s.len() > 0 {
        assert(1 <= s[0] <= n);
        let t = s.map_values(|x: u64| x as int);
        assert(t.no_duplicates()) by {
            assert forall|i: int, j: int| 0 <= i < t.len() && 0 <= j < t.len() && i != j implies t[i] != t[j] by {
                if i < j {
                    assert(s[i] != s[j]);
                } else {
                    assert(s[j] != s[i]);
                }
            }
        }
        t.unique_seq_to_set();
        vstd::set_lib::lemma_int_range(1, n + 1);
        assert(t.to_set().subset_of(vstd::set_lib::set_int_range(1, n + 1))) by {
            assert forall|x: int| t.to_set().contains(x) implies 1 <= x < n + 1 by {
                assert(t.contains(x));
                let i = choose|i: int| 0 <= i < t.len() && t[i] == x;
                assert(1 <= s[i] <= n);
            }
        }
        vstd::set_lib::lemma_len_subset(t.to_set(), vstd::set_lib::set_int_range(1, n + 1));
        assert(t.len() == s.len());
        assert(t.to_set().len() <= n);
    }
}

proof fn lemma_position_in(s: Seq<u64>, p: u64)
    ensures
        position_in(s, p) matches Some(i) ==> 0 <= i < s.len() && s[i] == p,
        position_in(s, p) is None <==> !s.contains(p),
        distinct(s) ==> forall|i: int| 0 <= i < s.len() && s[i] == p ==> position_in(s, p) == Some(i),
    decreases s.len(),
{
    if s.len() > 0 {
        lemma_position_in(s.drop_last(), p);
        if s.last() != p {
            assert forall|i: int| 0 <= i < s.len() - 1 implies s.drop_last()[i] == s[i] by {}
            if s.contains(p) {
                let k = choose|k: int| 0 <= k < s.len() && s[k] == p;
                assert(s.drop_last()[k] == p);
            }
            if s.drop_last().contains(p) {
                let k = choose|k: int| 0 <= k < s.len() - 1 && s.drop_last()[k] == p;
                assert(s[k] == p);
            }
        } else {
            assert(s[s.len() - 1] == p);
        }
    }
}

proof fn lemma_num_prefix(s: Seq<u64>, t: Seq<u64>, p: u64)
    requires
        starts_with(s, t),
        distinct(s),
        p == 0 || t.contains(p),
    ensures
        num(s, p) == num(t, p),
{
    if p != 0 {
        let k = choose|k: int| 0 <= k < t.len() && t[k] == p;
        assert(t[k] == s.take(t.len() as int)[k]);
        assert(s[k] == p);
        lemma_position_in(s, p);
        assert(distinct(t)) by {
            assert forall|i: int, j: int| 0 <= i < j < t.len() implies t[i] != t[j] by {
                assert(t[i] == s[i] && t[j] == s[j]);
            }
        }
        lemma_position_in(t, p);
    }
}

/// The positions `base + slots[i]` are inside `c` and all different.
pub open spec fn slots_fit(c: Seq<u64>, slots: Seq<int>, base: int) -> bool {
    &&& forall|j: int| 0 <= j < slots.len() ==> 0 <= base + #[trigger] slots[j] < c.len()
    &&& forall|i: int, j: int| 0 <= i < j < slots.len() ==> slots[i] != slots[j]
}

/// Where `i` is one of the positions `base + slots[j]`.
pub open spec fn is_slot(slots: Seq<int>, base: int, i: int) -> bool {
    exists|j: int| 0 <= j < slots.len() && base + slots[j] == i
}

proof fn lemma_renumber_slots(c: Seq<u64>, o: Seq<u64>, slots: Seq<int>, base: int, n: int)
    requires
        distinct(o),
        nonzero(o),
        slots_fit(c, slots, base),
        0 <= n < u64::MAX,
        forall|i: int| 0 <= i < o.len() ==> #[trigger] o[i] <= n,
        forall|j: int| 0 <= j < slots.len() ==> c[base + #[trigger] slots[j]] <= n,
    ensures
        ({
            let (c2, o2) = renumber_slots(c, o, slots, base);
            &&& starts_with(o2, o)
            &&& forall|i: int| 0 <= i < o2.len() ==> #[trigger] o2[i] <= n
            &&& distinct(o2)
            &&& nonzero(o2)
            &&& c2.len() == c.len()
            &&& forall|i: int| 0 <= i < c.len() && !is_slot(slots, base, i) ==> c2[i] == c[i]
            &&& forall|j: int|
                0 <= j < slots.len() ==> c2[base + slots[j]] == num(o2, c[base + #[trigger] slots[j]])
            &&& forall|j: int|
                0 <= j < slots.len() && c[base + slots[j]] != 0 ==> o2.contains(c[base + #[trigger] slots[j]])
            &&& forall|k: int|
                o.len() <= k < o2.len() ==> exists|j: int| 0 <= j < slots.len() && c[base + slots[j]] == #[trigger] o2[k]
        }),
    decreases slots.len(),
{
    if slots.len() == 0 {
        assert(o.take(o.len() as int) =~= o);
    } else {
        let init = slots.drop_last();
        assert(slots_fit(c, init, base)) by {
            assert forall|j: int| 0 <= j < init.len() implies 0 <= base + #[trigger] init[j] < c.len() by {
                assert(init[j] == slots[j]);
            }
        }
        assert forall|j: int| 0 <= j < init.len() implies c[base + #[trigger] init[j]] <= n by {
            assert(init[j] == slots[j]);
        }
        lemma_renumber_slots(c, o, init, base, n);
        assert(0 <= n);
        let (c1, o1) = renumber_slots(c, o, init, base);
        lemma_distinct_bounded(o1, n);
        let at = base + slots.last();
        assert(slots.last() == slots[slots.len() - 1]);
        assert(!is_slot(init, base, at)) by {
            if is_slot(init, base, at) {
                let j = choose|j: int| 0 <= j < init.len() && base + init[j] == at;
                assert(init[j] == slots[j]);
            }
        }
        assert(c1[at] == c[at]);
        let p = c[at];
        let (o2, v) = renumber(o1, p);
        lemma_position_in(o1, p);
        let c2 = c1.update(at, v);
        if p == 0 {
            assert(o2 == o1);
        } else if o1.contains(p) {
            assert(o2 == o1);
        } else {
            assert(o2 == o1.push(p));
            assert(distinct(o2));
            lemma_position_in(o2, p);
            assert(o2[o1.len() as int] == p);
        }
        assert(c[base + slots[slots.len() - 1]] <= n);
        assert forall|i: int| 0 <= i < o2.len() implies #[trigger] o2[i] <= n by {
            if i < o1.len() {
                assert(o2[i] == o1[i]);
            }
        }
        assert(starts_with(o2, o1)) by {
            assert(o2.take(o1.len() as int) =~= o1);
        }
        assert(starts_with(o2, o)) by {
            assert(o2.take(o.len() as int) =~= o);
        }
        assert(v == num(o2, p)) by {
            if p != 0 && o1.contains(p) {
                lemma_num_prefix(o2, o1, p);
            }
        }
        assert forall|i: int| 0 <= i < c.len() && !is_slot(slots, base, i) implies c2[i] == c[i] by {
            assert(i != at);
            if is_slot(init, base, i) {
                let j = choose|j: int| 0 <= j < init.len() && base + init[j] == i;
                assert(init[j] == slots[j]);
            }
        }
        assert forall|j: int| 0 <= j < slots.len() implies c2[base + slots[j]] == num(
            o2,
            c[base + #[trigger] slots[j]],
        ) by {
            if j < slots.len() - 1 {
                assert(init[j] == slots[j]);
                assert(base + slots[j] != at);
                lemma_num_prefix(o2, o1, c[base + slots[j]]);
            }
        }
        assert forall|j: int| 0 <= j < slots.len() && c[base + slots[j]] != 0 implies o2.contains(
            c[base + #[trigger] slots[j]],
        ) by {
            if j < slots.len() - 1 {
                assert(init[j] == slots[j]);
                let q = c[base + slots[j]];
                let k = choose|k: int| 0 <= k < o1.len() && o1[k] == q;
                assert(o2[k] == q);
            } else if !o1.contains(p) {
                assert(o2[o1.len() as int] == p);
            } else {
                let k = choose|k: int| 0 <= k < o1.len() && o1[k] == p;
                assert(o2[k] == p);
            }
        }
        assert forall|k: int| o.len() <= k < o2.len() implies exists|j: int|
            0 <= j < slots.len() && c[base + slots[j]] == #[trigger] o2[k] by {
            if k < o1.len() {
                let j = choose|j: int| 0 <= j < init.len() && c[base + init[j]] == o1[k];
                assert(init[j] == slots[j]);
                assert(o2[k] == o1[k]);
            } else {
                assert(o2[k] == p);
                assert(c[base + slots[slots.len() - 1]] == p);
            }
        }
    }
}

/// `words` with each pointer at a position `base + slots[j]` replaced by
/// its number in `ord`.
pub open spec fn numbered(words: Seq<u64>, slots: Seq<int>, base: int, ord: Seq<u64>) -> Seq<u64> {
    Seq::new(words.len(), |i: int| if is_slot(slots, base, i) { num(ord, words[i]) as u64 } else { words[i] })
}

/// An object as a chunk holds it before its pointers are numbered: its
/// header, then its words.
pub open spec fn raw_object(o: HeapObject) -> Seq<u64> {
    seq![object_header(o)] + object_data(o)
}

/// The part of a chunk that holds the `j`-th object of the packing order.
pub open spec fn segment(heap: Heap, meta: Metadata, ord: Seq<u64>, j: int) -> Seq<u64> {
    let o = heap.at(ord[j] as int);
    numbered(raw_object(o), object_slots(o, meta), 1, ord)
}

/// The parts of a chunk that hold the first `j` objects of the packing order.
pub open spec fn segments(heap: Heap, meta: Metadata, ord: Seq<u64>, j: int) -> Seq<u64>
    decreases j,
{
    if j <= 0 {
        Seq::empty()
    } else {
        segments(heap, meta, ord, j - 1) + segment(heap, meta, ord, j - 1)
    }
}

/// Each pointer among `words`, at a position `base + slots[j]`, is 0 or
/// points at an object of `heap`.
pub open spec fn pointers_valid(words: Seq<u64>, slots: Seq<int>, base: int, heap: Heap) -> bool {
    forall|j: int|
        0 <= j < slots.len() ==> words[base + #[trigger] slots[j]] == 0 || heap.valid(
            words[base + slots[j]] as int,
        )
}

/// Each nonzero pointer among `words`, at a position `base + slots[j]`, is
/// in `ord`.
pub open spec fn pointers_in(words: Seq<u64>, slots: Seq<int>, base: int, ord: Seq<u64>) -> bool {
    forall|j: int|
        0 <= j < slots.len() && words[base + slots[j]] != 0 ==> ord.contains(words[base + #[trigger] slots[j]])
}

/// What packing needs of an object: a string of ASCII characters whose
/// length fits its header; a list or object whose kind or type `meta`
/// knows, with as many words as that says, and a header that holds it;
/// pointer positions inside the words and all different; each pointer 0 or
/// at an object of `heap`.
pub open spec fn packable(o: HeapObject, meta: Metadata, heap: Heap) -> bool {
    &&& match o {
        HeapObject::String(s) => is_ascii_chars(s@) && s@.len() < 0x0100_0000_0000_0000 && s@.len() <= usize::MAX,
        HeapObject::List(l) => {
            &&& l.list_item_type < meta.lists_item_sizes@.len()
            &&& l.list_item_type < meta.lists_pointer_mapping@.len()
            &&& meta.lists_item_sizes@[l.list_item_type as int] == l.item_size
            &&& l.data@.len() == l.items_amount * l.item_size
            &&& l.list_item_type < 0x0100_0000
            &&& l.items_amount < 0x1_0000_0000
        },
        HeapObject::CustomObject(c) => {
            &&& c.type_index < meta.types_sizes@.len()
            &&& c.type_index < meta.types_pointer_mapping@.len()
            &&& c.data@.len() == meta.types_sizes@[c.type_index as int]
            &&& c.type_index < 0x0100_0000_0000_0000
            &&& c.type_index <= usize::MAX
        },
    }
    &&& slots_fit(object_data(o), object_slots(o, meta), 0)
    &&& pointers_valid(object_data(o), object_slots(o, meta), 0, heap)
}

/// Every object of `heap` can be packed.
pub open spec fn heap_packable(heap: Heap, meta: Metadata) -> bool {
    forall|p: int| heap.valid(p) ==> packable(#[trigger] heap.at(p), meta, heap)
}

/// Every value of `s` points at an object of `heap`.
pub open spec fn all_valid(s: Seq<u64>, heap: Heap) -> bool {
    forall|i: int| 0 <= i < s.len() ==> heap.valid(#[trigger] s[i] as int)
}

proof fn lemma_valid_bounded(s: Seq<u64>, heap: Heap)
    requires
        distinct(s),
        all_valid(s, heap),
    ensures
        s.len() <= heap.objects@.len(),
        nonzero(s),
        forall|i: int| 0 <= i < s.len() ==> #[trigger] s[i] <= heap.objects@.len(),
{
    assert forall|i: int| 0 <= i < s.len() implies 1 <= #[trigger] s[i] <= heap.objects@.len() by {
        assert(heap.valid(s[i] as int));
    }
    lemma_distinct_bounded(s, heap.objects@.len() as int);
}

/// One packing step: the object `order[k]` renumbers its pointers.
proof fn lemma_pack_step(heap: Heap, meta: Metadata, chunk: Seq<u64>, order: Seq<u64>, k: int)
    requires
        heap_packable(heap, meta),
        heap.objects@.len() < u64::MAX,
        0 <= k < order.len(),
        distinct(order),
        all_valid(order, heap),
    ensures
        ({
            let o = heap.at(order[k] as int);
            let slots = object_slots(o, meta);
            let c1 = chunk.push(object_header(o)) + object_data(o);
            let (c2, o2) = renumber_slots(c1, order, slots, chunk.len() as int + 1);
            &&& k < heap.objects@.len()
            &&& packable(o, meta, heap)
            &&& starts_with(o2, order)
            &&& distinct(o2)
            &&& all_valid(o2, heap)
            &&& pointers_in(object_data(o), slots, 0, o2)
            &&& c2.len() == c1.len()
            &&& forall|i: int| 0 <= i < c1.len() && !is_slot(slots, chunk.len() as int + 1, i) ==> c2[i] == c1[i]
            &&& forall|j: int|
                0 <= j < slots.len() ==> c2[chunk.len() + 1 + slots[j]] == num(o2, c1[chunk.len() + 1 + #[trigger] slots[j]])
        }),
{
    lemma_valid_bounded(order, heap);
    let p = order[k];
    assert(heap.valid(p as int));
    let o = heap.at(p as int);
    assert(packable(o, meta, heap));
    let slots = object_slots(o, meta);
    let data = object_data(o);
    let base = chunk.len() as int + 1;
    let c1 = chunk.push(object_header(o)) + data;
    assert forall|j: int| 0 <= j < slots.len() implies c1[base + #[trigger] slots[j]] == data[slots[j]] by {
        assert(0 <= slots[j] < data.len());
    }
    assert(slots_fit(c1, slots, base)) by {
        assert forall|j: int| 0 <= j < slots.len() implies 0 <= base + #[trigger] slots[j] < c1.len() by {
            assert(0 <= slots[j] < data.len());
        }
    }
    assert forall|j: int| 0 <= j < slots.len() implies c1[base + #[trigger] slots[j]] <= heap.objects@.len() by {
        assert(c1[base + slots[j]] == data[slots[j]]);
        assert(data[0 + slots[j]] == 0 || heap.valid(data[0 + slots[j]] as int));
    }
    lemma_renumber_slots(c1, order, slots, base, heap.objects@.len() as int);
    let (c2, o2) = renumber_slots(c1, order, slots, base);
    assert(all_valid(o2, heap)) by {
        assert forall|i: int| 0 <= i < o2.len() implies heap.valid(#[trigger] o2[i] as int) by {
            if i < order.len() {
                assert(o2[i] == o2.take(order.len() as int)[i]);
            } else {
                let j = choose|j: int| 0 <= j < slots.len() && c1[base + slots[j]] == o2[i];
                assert(c1[base + slots[j]] == data[slots[j]]);
                assert(data[0 + slots[j]] == 0 || heap.valid(data[0 + slots[j]] as int));
            }
        }
    }
    assert(pointers_in(data, slots, 0, o2)) by {
        assert forall|j: int| 0 <= j < slots.len() && data[0 + slots[j]] != 0 implies o2.contains(
            data[0 + #[trigger] slots[j]],
        ) by {
            assert(c1[base + slots[j]] == data[slots[j]]);
        }
    }
}

/// What packing meets: the order starts with the objects met so far, names
/// each object once, each at an object of the heap, and holds every
/// pointer of each object it packs.
proof fn lemma_pack_order(heap: Heap, meta: Metadata, chunk: Seq<u64>, order: Seq<u64>, k: int)
    requires
        heap_packable(heap, meta),
        heap.objects@.len() < u64::MAX,
        0 <= k <= order.len(),
        distinct(order),
        all_valid(order, heap),
    ensures
        ({
            let f = pack_order(heap, meta, chunk, order, k);
            &&& starts_with(f, order)
            &&& distinct(f)
            &&& all_valid(f, heap)
            &&& forall|j: int|
                k <= j < f.len() ==> pointers_in(
                    object_data(heap.at(#[trigger] f[j] as int)),
                    object_slots(heap.at(f[j] as int), meta),
                    0,
                    f,
                )
        }),
    decreases heap.objects@.len() - k,
{
    let f = pack_order(heap, meta, chunk, order, k);
    lemma_valid_bounded(order, heap);
    if k < order.len() {
        lemma_pack_step(heap, meta, chunk, order, k);
        let o = heap.at(order[k] as int);
        let slots = object_slots(o, meta);
        let c1 = chunk.push(object_header(o)) + object_data(o);
        let (c2, o2) = renumber_slots(c1, order, slots, chunk.len() as int + 1);
        lemma_pack_order(heap, meta, c2, o2, k + 1);
        assert(f == pack_order(heap, meta, c2, o2, k + 1));
        assert(starts_with(f, order)) by {
            assert(f.take(order.len() as int) =~= o2.take(order.len() as int));
        }
        assert forall|j: int| k <= j < f.len() implies pointers_in(
            object_data(heap.at(#[trigger] f[j] as int)),
            object_slots(heap.at(f[j] as int), meta),
            0,
            f,
        ) by {
            if j == k {
                assert(f[k] == f.take(o2.len() as int)[k]);
                assert(f[k] == order[k]);
                let data = object_data(o);
                assert forall|i: int| 0 <= i < slots.len() && data[0 + slots[i]] != 0 implies f.contains(
                    data[0 + #[trigger] slots[i]],
                ) by {
                    let q = data[0 + slots[i]];
                    let m = choose|m: int| 0 <= m < o2.len() && o2[m] == q;
                    assert(f[m] == f.take(o2.len() as int)[m]);
                }
            }
        }
    } else {
        assert(order.take(order.len() as int) =~= order);
    }
}

/// Packing from the `k`-th object on adds the parts of the objects left,
/// each with its pointers numbered in the final order.
proof fn lemma_pack(heap: Heap, meta: Metadata, chunk: Seq<u64>, order: Seq<u64>, k: int, a: Seq<u64>)
    requires
        heap_packable(heap, meta),
        heap.objects@.len() < u64::MAX,
        0 <= k <= order.len(),
        distinct(order),
        all_valid(order, heap),
        chunk == a + segments(heap, meta, pack_order(heap, meta, chunk, order, k), k),
    ensures
        ({
            let f = pack_order(heap, meta, chunk, order, k);
            pack(heap, meta, chunk, order, k) == a + segments(heap, meta, f, f.len() as int)
        }),
    decreases heap.objects@.len() - k,
{
    let f = pack_order(heap, meta, chunk, order, k);
    lemma_valid_bounded(order, heap);
    if k < order.len() {
        lemma_pack_step(heap, meta, chunk, order, k);
        let o = heap.at(order[k] as int);
        let slots = object_slots(o, meta);
        let raw = raw_object(o);
        let base = chunk.len() as int + 1;
        let c1 = chunk.push(object_header(o)) + object_data(o);
        assert(c1 =~= chunk + raw);
        let (c2, o2) = renumber_slots(c1, order, slots, base);
        assert(f == pack_order(heap, meta, c2, o2, k + 1));
        lemma_pack_order(heap, meta, c2, o2, k + 1);
        assert(f[k] == order[k]) by {
            assert(f[k] == f.take(o2.len() as int)[k]);
            assert(o2[k] == o2.take(order.len() as int)[k]);
        }
        let seg = segment(heap, meta, f, k);
        assert(seg == numbered(raw, slots, 1, f));
        assert(c2 =~= chunk + seg) by {
            assert forall|i: int| 0 <= i < c2.len() implies c2[i] == (chunk + seg)[i] by {
                if i < chunk.len() {
                    assert(!is_slot(slots, base, i)) by {
                        if is_slot(slots, base, i) {
                            let j = choose|j: int| 0 <= j < slots.len() && base + slots[j] == i;
                            assert(slots_fit(object_data(o), slots, 0));
                            assert(0 <= 0 + slots[j]);
                        }
                    }
                } else {
                    let m = i - chunk.len();
                    assert(c1[i] == raw[m]);
                    if is_slot(slots, base, i) {
                        let j = choose|j: int| 0 <= j < slots.len() && base + slots[j] == i;
                        assert(is_slot(slots, 1, m));
                        assert(c2[base + slots[j]] == num(o2, c1[base + slots[j]]));
                        let x = c1[i];
                        assert(x == object_data(o)[0 + slots[j]]);
                        lemma_num_prefix(f, o2, x);
                    } else {
                        assert(!is_slot(slots, 1, m)) by {
                            if is_slot(slots, 1, m) {
                                let j = choose|j: int| 0 <= j < slots.len() && 1 + slots[j] == m;
                                assert(base + slots[j] == i);
                            }
                        }
                    }
                }
            }
        }
        assert(segments(heap, meta, f, k + 1) == segments(heap, meta, f, k) + seg);
        assert(c2 =~= a + segments(heap, meta, f, k + 1));
        lemma_pack(heap, meta, c2, o2, k + 1, a);
    }
}

/// An object as unpacking gives it back, its pointers still numbers in
/// `ord`.
pub open spec fn numbered_object(o: HeapObject, meta: Metadata, ord: Seq<u64>) -> ObjModel {
    match o {
        HeapObject::String(s) => ObjModel::Str(s@),
        HeapObject::List(l) => ObjModel::Lst(
            numbered(l.data@, object_slots(o, meta), 0, ord),
            l.items_amount as nat,
            l.item_size as nat,
            l.list_item_type as nat,
        ),
        HeapObject::CustomObject(c) => ObjModel::Cst(numbered(c.data@, object_slots(o, meta), 0, ord), c.type_index as nat),
    }
}

proof fn lemma_segments_prefix(heap: Heap, meta: Metadata, f: Seq<u64>, j: int, m: int)
    requires
        0 <= j <= m,
    ensures
        segments(heap, meta, f, j).len() <= segments(heap, meta, f, m).len(),
        forall|i: int|
            0 <= i < segments(heap, meta, f, j).len() ==> #[trigger] segments(heap, meta, f, m)[i] == segments(
                heap,
                meta,
                f,
                j,
            )[i],
    decreases m,
{
    if j < m {
        lemma_segments_prefix(heap, meta, f, j, m - 1);
    }
}

proof fn lemma_numbered_head(h: u64, words: Seq<u64>, slots: Seq<int>, f: Seq<u64>)
    requires
        forall|j: int| 0 <= j < slots.len() ==> 0 <= #[trigger] slots[j],
    ensures
        numbered(seq![h] + words, slots, 1, f) == seq![h] + numbered(words, slots, 0, f),
{
    let l = numbered(seq![h] + words, slots, 1, f);
    let r = seq![h] + numbered(words, slots, 0, f);
    assert forall|i: int| 0 <= i < l.len() implies l[i] == r[i] by {
        if i == 0 {
            assert(!is_slot(slots, 1, 0)) by {
                if is_slot(slots, 1, 0) {
                    let j = choose|j: int| 0 <= j < slots.len() && 1 + slots[j] == 0;
                    assert(0 <= slots[j]);
                }
            }
        } else {
            assert(is_slot(slots, 1, i) <==> is_slot(slots, 0, i - 1)) by {
                if is_slot(slots, 1, i) {
                    let j = choose|j: int| 0 <= j < slots.len() && 1 + slots[j] == i;
                    assert(0 + slots[j] == i - 1);
                }
                if is_slot(slots, 0, i - 1) {
                    let j = choose|j: int| 0 <= j < slots.len() && 0 + slots[j] == i - 1;
                    assert(1 + slots[j] == i);
                }
            }
        }
    }
    assert(l =~= r);
}

proof fn lemma_string_header(len: u64)
    by (bit_vector)
    requires
        len < 0x0100_0000_0000_0000,
    ensures
        (len | 0x0100_0000_0000_0000u64) & 0x0100_0000_0000_0000u64 != 0,
        (len | 0x0100_0000_0000_0000u64) & !0x0100_0000_0000_0000u64 == len,
{
}

proof fn lemma_list_header(kind: u64, amount: u64)
    by (bit_vector)
    requires
        kind < 0x0100_0000,
        amount < 0x1_0000_0000,
    ensures
        (((kind << 32u64) | amount) | 0x0200_0000_0000_0000u64) & 0x0100_0000_0000_0000u64 == 0,
        (((kind << 32u64) | amount) | 0x0200_0000_0000_0000u64) & 0x0200_0000_0000_0000u64 != 0,
        ((((kind << 32u64) | amount) | 0x0200_0000_0000_0000u64) & !0x0200_0000_0000_0000u64) >> 32u64 == kind,
        ({
            let h2 = (((kind << 32u64) | amount) | 0x0200_0000_0000_0000u64) & !0x0200_0000_0000_0000u64;
            h2 ^ ((h2 >> 32u64) << 32u64) == amount
        }),
{
}

proof fn lemma_custom_header(t: u64)
    by (bit_vector)
    requires
        t < 0x0100_0000_0000_0000,
    ensures
        (t | 0x0400_0000_0000_0000u64) & 0x0100_0000_0000_0000u64 == 0,
        (t | 0x0400_0000_0000_0000u64) & 0x0200_0000_0000_0000u64 == 0,
        (t | 0x0400_0000_0000_0000u64) & 0x0400_0000_0000_0000u64 != 0,
        (t | 0x0400_0000_0000_0000u64) & !0x0400_0000_0000_0000u64 == t,
{
}

proof fn lemma_chars_of_string(s: Seq<char>)
    ensures
        chars_of_words(string_words(s)) == Some(s),
    decreases s.len(),
{
    if s.len() > 0 {
        let w = string_words(s);
        assert(w.drop_last() =~= string_words(s.drop_last()));
        lemma_chars_of_string(s.drop_last());
        let c = s.last();
        assert(w.last() == c as u32 as u64);
        assert(w.last() as u32 == c as u32);
        vstd::utf8::char_is_scalar(c);
        vstd::utf8::char_u32_cast(c, c as u32);
        assert(is_char_code(c as u32));
        assert(s.drop_last().push(c) =~= s);
    }
}

/// Unpacking the parts from the `j`-th object on gives those objects back,
/// their pointers numbered.
proof fn lemma_unpack(heap: Heap, meta: Metadata, f: Seq<u64>, a: Seq<u64>, j: int)
    requires
        heap_packable(heap, meta),
        all_valid(f, heap),
        0 <= j <= f.len(),
    ensures
        unpacked(a + segments(heap, meta, f, f.len() as int), meta, (a.len() + segments(heap, meta, f, j).len()) as int)
            == Some(Seq::new((f.len() - j) as nat, |i: int| numbered_object(heap.at(f[j + i] as int), meta, f))),
    decreases f.len() - j,
{
    let n = f.len() as int;
    let chunk = a + segments(heap, meta, f, n);
    let cur = (a.len() + segments(heap, meta, f, j).len()) as int;
    lemma_segments_prefix(heap, meta, f, j, n);
    let all = Seq::new((n - j) as nat, |i: int| numbered_object(heap.at(f[j + i] as int), meta, f));
    if j == n {
        assert(all =~= Seq::<ObjModel>::empty());
    } else {
        lemma_segments_prefix(heap, meta, f, j + 1, n);
        lemma_unpack(heap, meta, f, a, j + 1);
        let o = heap.at(f[j] as int);
        assert(heap.valid(f[j] as int));
        assert(packable(o, meta, heap));
        let slots = object_slots(o, meta);
        let data = object_data(o);
        assert forall|k: int| 0 <= k < slots.len() implies 0 <= #[trigger] slots[k] by {
            assert(0 <= 0 + slots[k]);
        }
        lemma_numbered_head(object_header(o), data, slots, f);
        let seg = segment(heap, meta, f, j);
        let nd = numbered(data, slots, 0, f);
        assert(seg == seq![object_header(o)] + nd);
        assert(segments(heap, meta, f, j + 1) == segments(heap, meta, f, j) + seg);
        let next = (cur + seg.len()) as int;
        assert forall|i: int| 0 <= i < seg.len() implies chunk[cur + i] == seg[i] by {
            let si = segments(heap, meta, f, j).len() + i;
            assert(segments(heap, meta, f, n)[si] == segments(heap, meta, f, j + 1)[si]);
        }
        assert(chunk[cur] == seg[0]);
        assert(chunk.subrange(cur + 1, next) =~= nd) by {
            assert forall|i: int| 0 <= i < nd.len() implies chunk.subrange(cur + 1, next)[i] == nd[i] by {
                assert(chunk[cur + (1 + i)] == seg[1 + i]);
            }
        }
        let rest = Seq::new((n - j - 1) as nat, |i: int| numbered_object(heap.at(f[j + 1 + i] as int), meta, f));
        assert(all =~= seq![numbered_object(o, meta, f)] + rest) by {
            assert forall|i: int| 0 < i < all.len() implies all[i] == rest[i - 1] by {
                assert(j + i == j + 1 + (i - 1));
            }
        }
        match o {
            HeapObject::String(s) => {
                is_ascii_chars_encode_utf8(s@);
                lemma_string_header(s@.len() as u64);
                lemma_chars_of_string(s@);
                assert(nd =~= data);
                let h = chunk[cur];
                assert(h == (s@.len() as u64) | STRING_FLAG);
                assert(h & STRING_FLAG != 0);
                assert((h & !STRING_FLAG) as usize == s@.len());
                assert(next <= chunk.len());
                assert(unpacked(chunk, meta, cur) == Some(all));
            },
            HeapObject::List(l) => {
                lemma_list_header(l.list_item_type as u64, l.items_amount as u64);
                assert(unpacked(chunk, meta, cur) == Some(all));
            },
            HeapObject::CustomObject(c) => {
                lemma_custom_header(c.type_index);
                let h = chunk[cur];
                assert(h == c.type_index | CUSTOM_OBJECT_FLAG);
                assert(h & STRING_FLAG == 0);
                assert(h & LIST_FLAG == 0);
                assert(h & CUSTOM_OBJECT_FLAG != 0);
                assert((h & !CUSTOM_OBJECT_FLAG) as usize == c.type_index);
                assert(next == cur + 1 + meta.types_sizes@[c.type_index as int]);
                assert(unpacked(chunk, meta, cur) == Some(all));
            },
        }
    }
}

/// `words` with each nonzero value at a position `slots[j]` raised by
/// `base`.
pub open spec fn moved(words: Seq<u64>, slots: Seq<int>, base: int) -> Seq<u64> {
    Seq::new(
        words.len(),
        |i: int| if is_slot(slots, 0, i) && words[i] != 0 { (base + words[i]) as u64 } else { words[i] },
    )
}

/// `words` with each nonzero pointer at a position `slots[j]` moved to where
/// its object lands on the other side: `base` plus its number in `ord`.
pub open spec fn linked(words: Seq<u64>, slots: Seq<int>, ord: Seq<u64>, base: int) -> Seq<u64> {
    Seq::new(
        words.len(),
        |i: int| if is_slot(slots, 0, i) && words[i] != 0 { (base + num(ord, words[i])) as u64 } else { words[i] },
    )
}

/// An object as it lands on the other side: its pointers linked.
pub open spec fn linked_object(o: HeapObject, meta: Metadata, ord: Seq<u64>, base: int) -> ObjModel {
    match o {
        HeapObject::String(s) => ObjModel::Str(s@),
        HeapObject::List(l) => ObjModel::Lst(
            linked(l.data@, object_slots(o, meta), ord, base),
            l.items_amount as nat,
            l.item_size as nat,
            l.list_item_type as nat,
        ),
        HeapObject::CustomObject(c) => ObjModel::Cst(linked(c.data@, object_slots(o, meta), ord, base), c.type_index as nat),
    }
}

proof fn lemma_relinked_moved(words: Seq<u64>, slots: Seq<int>, base: int, count: int)
    requires
        slots_fit(words, slots, 0),
        forall|j: int| 0 <= j < slots.len() ==> words[#[trigger] slots[j]] <= count,
        0 <= base,
        base + count <= u64::MAX,
    ensures
        relinked(words, slots, base, count) == Some(moved(words, slots, base)),
    decreases slots.len(),
{
    if slots.len() == 0 {
        assert(moved(words, slots, base) =~= words);
    } else {
        let init = slots.drop_last();
        assert(slots_fit(words, init, 0)) by {
            assert forall|j: int| 0 <= j < init.len() implies 0 <= 0 + #[trigger] init[j] < words.len() by {
                assert(init[j] == slots[j]);
            }
        }
        assert forall|j: int| 0 <= j < init.len() implies words[#[trigger] init[j]] <= count by {
            assert(init[j] == slots[j]);
        }
        lemma_relinked_moved(words, init, base, count);
        let m1 = moved(words, init, base);
        let at = slots.last();
        assert(at == slots[slots.len() - 1]);
        assert(0 <= 0 + slots[slots.len() - 1] < words.len());
        assert(!is_slot(init, 0, at)) by {
            if is_slot(init, 0, at) {
                let j = choose|j: int| 0 <= j < init.len() && 0 + init[j] == at;
                assert(init[j] == slots[j]);
            }
        }
        assert(m1[at] == words[at]);
        let m = moved(words, slots, base);
        assert forall|i: int| 0 <= i < words.len() && i != at implies m[i] == m1[i] by {
            assert(is_slot(slots, 0, i) <==> is_slot(init, 0, i)) by {
                if is_slot(slots, 0, i) {
                    let j = choose|j: int| 0 <= j < slots.len() && 0 + slots[j] == i;
                    assert(j < init.len());
                    assert(init[j] == slots[j]);
                }
                if is_slot(init, 0, i) {
                    let j = choose|j: int| 0 <= j < init.len() && 0 + init[j] == i;
                    assert(init[j] == slots[j]);
                }
            }
        }
        assert(is_slot(slots, 0, at));
        if words[at] == 0 {
            assert(m =~= m1);
        } else {
            assert(m =~= m1.update(at, (base + m1[at]) as u64));
        }
    }
}

/// Relinking numbered pointers moves each to where its object lands.
proof fn lemma_relink_numbered(w: Seq<u64>, rest: Seq<u64>, slots: Seq<int>, f: Seq<u64>, base: int)
    requires
        slots_fit(w, slots, 0),
        pointers_in(w, slots, 0, f),
        distinct(f),
        0 <= base,
        base + f.len() <= u64::MAX,
    ensures
        relinked(numbered(w, slots, 0, f) + rest, slots, base, f.len() as int) == Some(linked(w, slots, f, base) + rest),
{
    let nw = numbered(w, slots, 0, f) + rest;
    assert forall|j: int| 0 <= j < slots.len() implies nw[#[trigger] slots[j]] <= f.len() && (w[slots[j]] != 0
        ==> 1 <= nw[slots[j]]) && (w[slots[j]] == 0 ==> nw[slots[j]] == 0) && nw[slots[j]] == num(f, w[slots[j]]) by {
        let i = slots[j];
        assert(0 <= 0 + slots[j] < w.len());
        assert(is_slot(slots, 0, i));
        let p = w[i];
        lemma_position_in(f, p);
        if p != 0 {
            assert(f.contains(w[0 + slots[j]]));
        }
    }
    assert(slots_fit(nw, slots, 0)) by {
        assert forall|j: int| 0 <= j < slots.len() implies 0 <= 0 + #[trigger] slots[j] < nw.len() by {
            assert(0 <= 0 + slots[j] < w.len());
        }
    }
    lemma_relinked_moved(nw, slots, base, f.len() as int);
    let l = linked(w, slots, f, base) + rest;
    let m = moved(nw, slots, base);
    assert forall|i: int| 0 <= i < m.len() implies m[i] == l[i] by {
        if is_slot(slots, 0, i) {
            let j = choose|j: int| 0 <= j < slots.len() && 0 + slots[j] == i;
            assert(nw[slots[j]] == num(f, w[slots[j]]));
        } else if i < w.len() {
        }
    }
    assert(m =~= l);
}

/// Relinking the first `n` unpacked objects gives them as they land.
proof fn lemma_relink_objects(heap: Heap, meta: Metadata, f: Seq<u64>, base: int, n: int)
    requires
        heap_packable(heap, meta),
        all_valid(f, heap),
        distinct(f),
        forall|j: int|
            0 <= j < f.len() ==> pointers_in(
                object_data(heap.at(#[trigger] f[j] as int)),
                object_slots(heap.at(f[j] as int), meta),
                0,
                f,
            ),
        0 <= n <= f.len(),
        0 <= base,
        base + f.len() <= u64::MAX,
    ensures
        relinked_objects(
            Seq::new(n as nat, |i: int| numbered_object(heap.at(f[i] as int), meta, f)),
            meta,
            base,
            f.len() as int,
        ) == Some(Seq::new(n as nat, |i: int| linked_object(heap.at(f[i] as int), meta, f, base))),
    decreases n,
{
    let os = Seq::new(n as nat, |i: int| numbered_object(heap.at(f[i] as int), meta, f));
    let ls = Seq::new(n as nat, |i: int| linked_object(heap.at(f[i] as int), meta, f, base));
    if n == 0 {
        assert(ls =~= Seq::<ObjModel>::empty());
    } else {
        lemma_relink_objects(heap, meta, f, base, n - 1);
        assert(os.drop_last() =~= Seq::new((n - 1) as nat, |i: int| numbered_object(heap.at(f[i] as int), meta, f)));
        assert(ls =~= Seq::new((n - 1) as nat, |i: int| linked_object(heap.at(f[i] as int), meta, f, base)).push(
            ls[n - 1],
        ));
        let o = heap.at(f[n - 1] as int);
        assert(heap.valid(f[n - 1] as int));
        assert(packable(o, meta, heap));
        assert(pointers_in(object_data(o), object_slots(o, meta), 0, f));
        assert(os.last() == numbered_object(o, meta, f));
        match o {
            HeapObject::String(s) => {},
            HeapObject::List(l) => {
                lemma_relink_numbered(l.data@, Seq::empty(), object_slots(o, meta), f, base);
                assert(numbered(l.data@, object_slots(o, meta), 0, f) + Seq::empty() =~= numbered(
                    l.data@,
                    object_slots(o, meta),
                    0,
                    f,
                ));
                assert(linked(l.data@, object_slots(o, meta), f, base) + Seq::empty() =~= linked(
                    l.data@,
                    object_slots(o, meta),
                    f,
                    base,
                ));
                assert(model_slots(os.last(), meta) == object_slots(o, meta));
            },
            HeapObject::CustomObject(c) => {
                lemma_relink_numbered(c.data@, Seq::empty(), object_slots(o, meta), f, base);
                assert(numbered(c.data@, object_slots(o, meta), 0, f) + Seq::empty() =~= numbered(
                    c.data@,
                    object_slots(o, meta),
                    0,
                    f,
                ));
                assert(linked(c.data@, object_slots(o, meta), f, base) + Seq::empty() =~= linked(
                    c.data@,
                    object_slots(o, meta),
                    f,
                    base,
                ));
                assert(model_slots(os.last(), meta) == object_slots(o, meta));
            },
        }
        assert(relinked_object(os.last(), meta, base, f.len() as int) == Some(ls[n - 1]));
    }
}

/// Unpacking what packing a call wrote gives the call back. Onto a fresh
/// stack (stack pointer 0) go the arguments, each pointer among them moved
/// to where its object now lies; the stack pointer moves past them; the
/// heap grows by the objects that the call reaches, each once, in the
/// order packing met them, their own pointers moved the same way. That
/// order holds every object that a pointer of the call, or of an object in
/// it, points at.
pub proof fn law_packed_call_comes_back(
    function_pos: usize,
    args: Seq<u64>,
    heap: Heap,
    meta: Metadata,
    stack: Seq<u64>,
    target_heap: Seq<ObjModel>,
)
    requires
        function_index(meta, function_pos) matches Some(k) && 0 <= k < meta.function_args_sizes@.len() && k
            < meta.functions_pointer_mapping@.len() && meta.function_args_sizes@[k] == args.len() && slots_fit(
            args,
            as_ints(meta.functions_pointer_mapping@[k]@),
            0,
        ) && pointers_valid(args, as_ints(meta.functions_pointer_mapping@[k]@), 0, heap),
        heap_packable(heap, meta),
        args.len() <= stack.len(),
        target_heap.len() + heap.objects@.len() < u64::MAX,
    ensures
        ({
            let k = function_index(meta, function_pos)->0;
            let slots = as_ints(meta.functions_pointer_mapping@[k]@);
            let ord = packing_order(function_pos as u64, args, slots, heap, meta);
            let base = target_heap.len() as int;
            &&& distinct(ord)
            &&& all_valid(ord, heap)
            &&& pointers_in(args, slots, 0, ord)
            &&& forall|j: int|
                0 <= j < ord.len() ==> pointers_in(
                    object_data(heap.at(#[trigger] ord[j] as int)),
                    object_slots(heap.at(ord[j] as int), meta),
                    0,
                    ord,
                )
            &&& deserialized(function_pos, serialized(function_pos as u64, args, slots, heap, meta), meta, stack, 0, target_heap)
                == Some(
                (
                    linked(args, slots, ord, base) + stack.skip(args.len() as int),
                    args.len() as int,
                    target_heap + Seq::new(ord.len(), |j: int| linked_object(heap.at(ord[j] as int), meta, ord, base)),
                ),
            )
        }),
{
    let k = function_index(meta, function_pos)->0;
    let slots = as_ints(meta.functions_pointer_mapping@[k]@);
    let n = heap.objects@.len() as int;
    let base = target_heap.len() as int;
    let size = args.len() as int;
    let fp = function_pos as u64;
    let chunk0 = seq![fp] + args;
    assert(slots_fit(chunk0, slots, 1)) by {
        assert forall|j: int| 0 <= j < slots.len() implies 0 <= 1 + #[trigger] slots[j] < chunk0.len() by {
            assert(0 <= 0 + slots[j] < args.len());
        }
    }
    assert forall|j: int| 0 <= j < slots.len() implies chunk0[1 + #[trigger] slots[j]] <= n && chunk0[1 + slots[j]]
        == args[0 + slots[j]] by {
        assert(0 <= 0 + slots[j] < args.len());
        assert(args[0 + slots[j]] == 0 || heap.valid(args[0 + slots[j]] as int));
    }
    lemma_renumber_slots(chunk0, Seq::empty(), slots, 1, n);
    let (c, o) = renumber_slots(chunk0, Seq::empty(), slots, 1);
    assert(all_valid(o, heap)) by {
        assert forall|i: int| 0 <= i < o.len() implies heap.valid(#[trigger] o[i] as int) by {
            assert(o[i] != 0);
        }
    }
    lemma_pack_order(heap, meta, c, o, 0);
    let f = pack_order(heap, meta, c, o, 0);
    assert(f == packing_order(fp, args, slots, heap, meta));
    assert(pointers_in(args, slots, 0, f)) by {
        assert forall|j: int| 0 <= j < slots.len() && args[0 + slots[j]] != 0 implies f.contains(
            args[0 + #[trigger] slots[j]],
        ) by {
            let q = args[0 + slots[j]];
            assert(o.contains(chunk0[1 + slots[j]]));
            let m = choose|m: int| 0 <= m < o.len() && o[m] == q;
            assert(f[m] == f.take(o.len() as int)[m]);
        }
    }
    let a = numbered(chunk0, slots, 1, f);
    assert(c =~= a) by {
        assert forall|i: int| 0 <= i < c.len() implies c[i] == a[i] by {
            if is_slot(slots, 1, i) {
                let j = choose|j: int| 0 <= j < slots.len() && 1 + slots[j] == i;
                lemma_num_prefix(f, o, chunk0[1 + slots[j]]);
            }
        }
    }
    assert(c == a + segments(heap, meta, f, 0)) by {
        assert(a + Seq::<u64>::empty() =~= a);
    }
    lemma_pack(heap, meta, c, o, 0, a);
    let chunk = serialized(fp, args, slots, heap, meta);
    assert(chunk == a + segments(heap, meta, f, f.len() as int));
    assert forall|j: int| 0 <= j < slots.len() implies 0 <= #[trigger] slots[j] by {
        assert(0 <= 0 + slots[j]);
    }
    lemma_numbered_head(fp, args, slots, f);
    let na = numbered(args, slots, 0, f);
    assert(a == seq![fp] + na);
    lemma_unpack(heap, meta, f, a, 0);
    assert(a.len() + segments(heap, meta, f, 0).len() == size + 1);
    let objects = Seq::new(f.len(), |i: int| numbered_object(heap.at(f[i] as int), meta, f));
    assert(Seq::new((f.len() - 0) as nat, |i: int| numbered_object(heap.at(f[0 + i] as int), meta, f)) =~= objects);
    assert(unpacked(chunk, meta, size + 1) == Some(objects));
    assert(chunk.subrange(1, size + 1) =~= na) by {
        assert forall|i: int| 0 <= i < size implies #[trigger] chunk.subrange(1, size + 1)[i] == na[i] by {
            assert(chunk[1 + i] == a[1 + i]);
        }
    }
    let placed = stack.take(0) + chunk.subrange(1, size + 1) + stack.skip(size);
    assert(placed =~= na + stack.skip(size));
    lemma_valid_bounded(f, heap);
    lemma_relink_numbered(args, stack.skip(size), slots, f, base);
    lemma_relink_objects(heap, meta, f, base, f.len() as int);
    assert(chunk[0] == fp);
}

} // verus!
