//! Memory layout of values: sizes in stack/heap words, offsets of tuple items
//! and the positions of heap pointers inside a value.
use vstd::prelude::*;

use crate::types::{depth, depth_seq, lemma_depth_seq_bound, Type, TypeModel};

verus! {

broadcast use vstd::std_specs::vec::group_vec_axioms;

/// A vector of `usize` read as integers.
pub open spec fn as_ints(v: Seq<usize>) -> Seq<int> {
    v.map_values(|x: usize| x as int)
}

proof fn lemma_as_ints_eq(v: Seq<usize>, s: Seq<int>)
    requires
        v.len() == s.len(),
        forall|j: int| 0 <= j < v.len() ==> v[j] as int == #[trigger] s[j],
    ensures
        as_ints(v) == s,
{
    assert(as_ints(v) =~= s);
}

/// Number of words a value of type `t` occupies. A maybe-value carries a
/// one-word presence flag in front of its payload.
pub open spec fn size_of<V>(t: TypeModel<V>) -> int
    decreases t,
{
    match t {
        TypeModel::Maybe(inner) => size_of(*inner) + 1,
        TypeModel::Tuple(items) => sizes_sum(items),
        _ => 1,
    }
}

/// Sum of the sizes of a sequence of types.
pub open spec fn sizes_sum<V>(s: Seq<TypeModel<V>>) -> int
    decreases s,
{
    if s.len() == 0 {
        0
    } else {
        sizes_sum(s.drop_last()) + size_of(s.last())
    }
}

/// The sub-item selected by index `i` of a tuple, or of a maybe-type where
/// index 0 is the presence flag and index 1 the payload.
pub open spec fn subitem<V>(t: TypeModel<V>, i: int) -> TypeModel<V> {
    match t {
        TypeModel::Tuple(items) => items[i],
        TypeModel::Maybe(inner) => if i == 0 {
            TypeModel::Bool
        } else {
            *inner
        },
        _ => TypeModel::Int,
    }
}

/// Index `i` selects a sub-item of `t`.
pub open spec fn index_ok<V>(t: TypeModel<V>, i: int) -> bool {
    match t {
        TypeModel::Tuple(items) => 0 <= i < items.len(),
        TypeModel::Maybe(_) => 0 <= i <= 1,
        _ => false,
    }
}

/// Every index of `path` selects a sub-item of the type reached so far.
pub open spec fn valid_path<V>(t: TypeModel<V>, path: Seq<usize>) -> bool
    decreases path.len(),
{
    if path.len() == 0 {
        true
    } else {
        index_ok(t, path[0] as int) && valid_path(subitem(t, path[0] as int), path.drop_first())
    }
}

/// The type reached by following `path` from `t`.
pub open spec fn subitem_at<V>(t: TypeModel<V>, path: Seq<usize>) -> TypeModel<V>
    decreases path.len(),
{
    if path.len() == 0 {
        t
    } else {
        subitem_at(subitem(t, path[0] as int), path.drop_first())
    }
}

/// Word offset of the sub-item reached by `path`, counted from the start of `t`.
pub open spec fn tuple_offset<V>(t: TypeModel<V>, path: Seq<usize>) -> int
    decreases path.len(),
{
    if path.len() == 0 {
        0
    } else {
        let i = path[0] as int;
        let rest = path.drop_first();
        match t {
            TypeModel::Maybe(inner) => if i == 0 {
                0
            } else {
                1 + tuple_offset(*inner, rest)
            },
            TypeModel::Tuple(items) => sizes_sum(items.take(i)) + tuple_offset(items[i], rest),
            _ => 0,
        }
    }
}

/// `s` with `k` added to every entry.
pub open spec fn shifted(s: Seq<int>, k: int) -> Seq<int> {
    Seq::new(s.len(), |i: int| s[i] + k)
}

/// Word positions holding heap pointers (strings, lists, user objects)
/// inside a value of type `t`, in increasing order.
pub open spec fn pointers_of<V>(t: TypeModel<V>) -> Seq<int>
    decreases t,
{
    match t {
        TypeModel::Int => Seq::empty(),
        TypeModel::Float => Seq::empty(),
        TypeModel::Bool => Seq::empty(),
        TypeModel::Maybe(inner) => shifted(pointers_of(*inner), 1),
        TypeModel::Tuple(items) => pointers_of_seq(items),
        _ => seq![0],
    }
}

/// Pointer positions of values of the given types laid out one after another.
pub open spec fn pointers_of_seq<V>(s: Seq<TypeModel<V>>) -> Seq<int>
    decreases s,
{
    if s.len() == 0 {
        Seq::empty()
    } else {
        pointers_of_seq(s.drop_last()) + shifted(
            pointers_of(s.last()),
            sizes_sum(s.drop_last()),
        )
    }
}

/// Strictly increasing, with every entry in `[0, bound)`.
pub open spec fn sorted_within(s: Seq<int>, bound: int) -> bool {
    &&& forall|i: int, j: int| 0 <= i < j < s.len() ==> s[i] < s[j]
    &&& forall|i: int| 0 <= i < s.len() ==> 0 <= #[trigger] s[i] < bound
}

pub proof fn lemma_size_nonneg<V>(t: TypeModel<V>)
    ensures
        size_of(t) >= 0,
    decreases t,
{
    match t {
        TypeModel::Maybe(inner) => lemma_size_nonneg(*inner),
        TypeModel::Tuple(items) => lemma_sizes_sum_nonneg(items),
        _ => {},
    }
}

pub proof fn lemma_sizes_sum_nonneg<V>(s: Seq<TypeModel<V>>)
    ensures
        sizes_sum(s) >= 0,
    decreases s,
{
    if s.len() > 0 {
        lemma_sizes_sum_nonneg(s.drop_last());
        lemma_size_nonneg(s.last());
    }
}

/// The sum over a prefix: the prefix sum grows with its length and each
/// item lies within the sum of the whole sequence.
pub proof fn lemma_sizes_prefix<V>(s: Seq<TypeModel<V>>, k: int)
    requires
        0 <= k <= s.len(),
    ensures
        sizes_sum(s.take(k)) <= sizes_sum(s),
        k < s.len() ==> sizes_sum(s.take(k)) + size_of(s[k]) <= sizes_sum(s),
        k < s.len() ==> sizes_sum(s.take(k + 1)) == sizes_sum(s.take(k)) + size_of(s[k]),
    decreases s.len() - k,
{
    if k == s.len() {
        assert(s.take(k) =~= s);
    } else {
        assert(s.take(k + 1).drop_last() =~= s.take(k));
        assert(s.take(k + 1).last() == s[k]);
        lemma_sizes_prefix(s, k + 1);
        lemma_size_nonneg(s[k]);
    }
}

/// A sub-item is no larger than the value holding it.
pub proof fn lemma_subitem_size<V>(t: TypeModel<V>, i: int)
    requires
        index_ok(t, i),
    ensures
        0 <= size_of(subitem(t, i)) <= size_of(t),
{
    match t {
        TypeModel::Maybe(inner) => lemma_size_nonneg(*inner),
        TypeModel::Tuple(items) => {
            lemma_sizes_prefix(items, i);
            lemma_sizes_sum_nonneg(items.take(i));
            lemma_size_nonneg(items[i]);
        },
        _ => {},
    }
}

/// The sub-item reached by a valid path lies inside the value.
pub proof fn lemma_offset_within<V>(t: TypeModel<V>, path: Seq<usize>)
    requires
        valid_path(t, path),
    ensures
        0 <= tuple_offset(t, path),
        tuple_offset(t, path) + size_of(subitem_at(t, path)) <= size_of(t),
    decreases path.len(),
{
    if path.len() > 0 {
        let i = path[0] as int;
        let rest = path.drop_first();
        match t {
            TypeModel::Maybe(inner) => {
                assert(subitem_at(t, path) == subitem_at(subitem(t, i), rest));
                if i == 0 {
                    lemma_size_nonneg(*inner);
                    assert(subitem(t, i) == TypeModel::<V>::Bool);
                    if rest.len() > 0 {
                        assert(valid_path(subitem(t, i), rest));
                        assert(!index_ok(TypeModel::<V>::Bool, rest[0] as int));
                        assert(false);
                    }
                    assert(subitem_at(TypeModel::<V>::Bool, rest) == TypeModel::<V>::Bool);
                } else {
                    lemma_offset_within(*inner, rest);
                }
            },
            TypeModel::Tuple(items) => {
                assert(subitem_at(t, path) == subitem_at(items[i], rest));
                lemma_offset_within(items[i], rest);
                lemma_sizes_prefix(items, i);
                lemma_sizes_sum_nonneg(items.take(i));
            },
            _ => {},
        }
    } else {
        lemma_size_nonneg(t);
    }
}

proof fn lemma_shifted_sorted(s: Seq<int>, b: int, k: int)
    requires
        sorted_within(s, b),
    ensures
        forall|i: int, j: int| 0 <= i < j < shifted(s, k).len() ==> shifted(s, k)[i] < shifted(s, k)[j],
        forall|i: int| 0 <= i < shifted(s, k).len() ==> k <= #[trigger] shifted(s, k)[i] < b + k,
{
}

/// Pointer positions are strictly increasing and lie inside the value.
pub proof fn lemma_pointers_sorted<V>(t: TypeModel<V>)
    ensures
        sorted_within(pointers_of(t), size_of(t)),
    decreases t,
{
    match t {
        TypeModel::Maybe(inner) => {
            lemma_pointers_sorted(*inner);
            lemma_shifted_sorted(pointers_of(*inner), size_of(*inner), 1);
        },
        TypeModel::Tuple(items) => lemma_pointers_seq_sorted(items),
        _ => {},
    }
}

pub proof fn lemma_pointers_seq_sorted<V>(s: Seq<TypeModel<V>>)
    ensures
        sorted_within(pointers_of_seq(s), sizes_sum(s)),
    decreases s,
{
    if s.len() > 0 {
        let init = s.drop_last();
        lemma_pointers_seq_sorted(init);
        lemma_pointers_sorted(s.last());
        let a = pointers_of_seq(init);
        let off = sizes_sum(init);
        lemma_shifted_sorted(pointers_of(s.last()), size_of(s.last()), off);
        let b = shifted(pointers_of(s.last()), off);
        lemma_size_nonneg(s.last());
        lemma_sizes_sum_nonneg(init);
        let c = a + b;
        assert forall|i: int, j: int| 0 <= i < j < c.len() implies c[i] < c[j] by {
            if j < a.len() {
            } else if i >= a.len() {
                assert(c[i] == b[i - a.len()]);
                assert(c[j] == b[j - a.len()]);
            } else {
                assert(c[j] == b[j - a.len()]);
            }
        }
        assert forall|i: int| 0 <= i < c.len() implies 0 <= #[trigger] c[i] < sizes_sum(s) by {
            if i >= a.len() {
                assert(c[i] == b[i - a.len()]);
            }
        }
    }
}

/// Size of a value of type `t` in words.
pub fn get_type_size<T: View>(t: &Type<T>) -> (r: u8)
    requires
        size_of(t@) <= u8::MAX,
    ensures
        r == size_of(t@),
    decreases depth(t@),
{
    match t {
        Type::Int => 1,
        Type::Float => 1,
        Type::Bool => 1,
        Type::String => 1,
        Type::Maybe(inner) => {
            proof {
                lemma_size_nonneg(inner@);
            }
            get_type_size(&**inner) + 1
        },
        Type::Tuple(items) => {
            let ghost ms = match t@ {
                TypeModel::Tuple(ms) => ms,
                _ => Seq::empty(),
            };
            let mut sum: u8 = 0;
            let mut i: usize = 0;
            while i < items.len()
                invariant
                    i <= items@.len(),
                    ms.len() == items@.len(),
                    forall|j: int| 0 <= j < items@.len() ==> #[trigger] ms[j] == items@[j]@,
                    sizes_sum(ms) <= u8::MAX,
                    depth(t@) == depth_seq(ms) + 1,
                    sum == sizes_sum(ms.take(i as int)),
                decreases items@.len() - i,
            {
                proof {
                    lemma_sizes_prefix(ms, i as int);
                }
                proof {
                    lemma_depth_seq_bound(ms, i as int);
                }
                let s = get_type_size(&items[i]);
                sum = sum + s;
                i = i + 1;
            }
            assert(ms.take(items@.len() as int) =~= ms);
            sum
        },
        Type::List(_) => 1,
        Type::Custom(_) => 1,
    }
}

/// Word offset, inside a value of type `tuple_type`, of the sub-item that the
/// index path `tuple_indexes` selects.
pub fn get_tuple_offset<T: View>(tuple_type: &Type<T>, tuple_indexes: &[usize]) -> (r: u8)
    requires
        valid_path(tuple_type@, tuple_indexes@),
        size_of(tuple_type@) <= u8::MAX,
    ensures
        r == tuple_offset(tuple_type@, tuple_indexes@),
    decreases tuple_indexes@.len(),
{
    proof {
        lemma_offset_within(tuple_type@, tuple_indexes@);
    }
    if tuple_indexes.len() == 0 {
        return 0;
    }
    let current_index = tuple_indexes[0];
    let next_indexes = slice_tail(tuple_indexes);
    match tuple_type {
        Type::Maybe(inner) => {
            if current_index == 0 {
                0
            } else {
                proof {
                    lemma_offset_within(inner@, next_indexes@);
                    lemma_size_nonneg(subitem_at(tuple_type@, tuple_indexes@));
                    assert(tuple_offset(tuple_type@, tuple_indexes@) == 1 + tuple_offset(inner@, next_indexes@));
                }
                1 + get_tuple_offset(&**inner, next_indexes)
            }
        },
        Type::Tuple(items) => {
            let ghost ms = match tuple_type@ {
                TypeModel::Tuple(ms) => ms,
                _ => Seq::empty(),
            };
            proof {
                lemma_sizes_prefix(ms, current_index as int);
                lemma_size_nonneg(ms[current_index as int]);
                lemma_offset_within(ms[current_index as int], next_indexes@);
            }
            let mut current_item_offset: u8 = 0;
            let mut i: usize = 0;
            while i < current_index
                invariant
                    i <= current_index < items@.len(),
                    ms.len() == items@.len(),
                    forall|j: int| 0 <= j < items@.len() ==> #[trigger] ms[j] == items@[j]@,
                    sizes_sum(ms.take(current_index as int)) <= u8::MAX,
                    current_item_offset == sizes_sum(ms.take(i as int)),
                decreases current_index - i,
            {
                proof {
                    lemma_sizes_prefix(ms, i as int);
                    lemma_sizes_prefix(ms.take(current_index as int), i as int);
                    assert(ms.take(current_index as int).take(i as int) =~= ms.take(i as int));
                    assert(ms.take(current_index as int).take(i + 1) =~= ms.take(i + 1));
                }
                current_item_offset = current_item_offset + get_type_size(&items[i]);
                i = i + 1;
            }
            proof {
                lemma_size_nonneg(subitem_at(tuple_type@, tuple_indexes@));
                assert(tuple_offset(tuple_type@, tuple_indexes@) == sizes_sum(ms.take(current_index as int)) + tuple_offset(ms[current_index as int], next_indexes@));
            }
            let offset_inside_current_item = get_tuple_offset(&items[current_index], next_indexes);
            current_item_offset + offset_inside_current_item
        },
        _ => 0,
    }
}

/// The slice without its first element.
fn slice_tail(s: &[usize]) -> (r: &[usize])
    requires
        s@.len() > 0,
    ensures
        r@ == s@.drop_first(),
{
    let (_, tail) = s.split_at(1);
    assert(tail@ =~= s@.drop_first());
    tail
}

/// The sub-item type selected by index `i` of a tuple or maybe-type.
pub fn get_tuple_subitem_type<T: View>(t: &Type<T>, i: usize) -> (r: &Type<T>)
    requires
        index_ok(t@, i as int),
    ensures
        r@ == subitem(t@, i as int),
{
    match t {
        Type::Tuple(items) => &items[i],
        Type::Maybe(_) if i == 0 => &Type::Bool,
        Type::Maybe(inner) => &**inner,
        _ => t,
    }
}

/// Size of the sub-item that `tuple_indexes` selects.
pub fn get_tuple_subitem_size<T: View>(tuple_type: &Type<T>, tuple_indexes: &[usize]) -> (r: u8)
    requires
        valid_path(tuple_type@, tuple_indexes@),
        size_of(tuple_type@) <= u8::MAX,
    ensures
        r == size_of(subitem_at(tuple_type@, tuple_indexes@)),
    decreases tuple_indexes@.len(),
{
    proof {
        lemma_offset_within(tuple_type@, tuple_indexes@);
    }
    if tuple_indexes.len() == 0 {
        get_type_size(tuple_type)
    } else {
        let i = tuple_indexes[0];
        let rest = slice_tail(tuple_indexes);
        proof {
            lemma_subitem_size(tuple_type@, i as int);
            assert(valid_path(subitem(tuple_type@, i as int), rest@));
            if tuple_type@ is Maybe && i == 0 && rest@.len() > 0 {
                assert(subitem(tuple_type@, i as int) == TypeModel::<T::V>::Bool);
                assert(!index_ok(TypeModel::<T::V>::Bool, rest@[0] as int));
            }
            assert(subitem_at(tuple_type@, tuple_indexes@) == subitem_at(subitem(tuple_type@, i as int), rest@));
        }
        let sub = get_tuple_subitem_type(tuple_type, i);
        get_tuple_subitem_size(sub, rest)
    }
}

/// Pointer positions inside a value of type `t`, increasing.
pub fn get_pointers_map_for_type<T: View>(t: &Type<T>) -> (r: Vec<usize>)
    requires
        size_of(t@) <= usize::MAX,
    ensures
        as_ints(r@) == pointers_of(t@),
    decreases depth(t@), 0nat,
{
    proof {
        lemma_pointers_sorted(t@);
    }
    match t {
        Type::Int | Type::Float | Type::Bool => {
            let r: Vec<usize> = Vec::new();
            proof {
                lemma_as_ints_eq(r@, pointers_of(t@));
            }
            r
        },
        Type::Maybe(inner) => {
            proof {
                lemma_size_nonneg(inner@);
                lemma_pointers_sorted(inner@);
            }
            let inner_map = get_pointers_map_for_type(&**inner);
            let ghost p = pointers_of(inner@);
            let mut r: Vec<usize> = Vec::new();
            let mut i: usize = 0;
            while i < inner_map.len()
                invariant
                    i <= inner_map@.len(),
                    as_ints(inner_map@) == p,
                    sorted_within(p, size_of(inner@)),
                    size_of(inner@) < usize::MAX,
                    r@.len() == i,
                    forall|j: int| 0 <= j < i ==> r@[j] as int == #[trigger] p[j] + 1,
                decreases inner_map@.len() - i,
            {
                assert(p[i as int] == inner_map@[i as int] as int);
                r.push(inner_map[i] + 1);
                i = i + 1;
            }
            proof {
                lemma_as_ints_eq(r@, shifted(p, 1));
            }
            r
        },
        Type::List(_) | Type::Custom(_) | Type::String => {
            let mut r: Vec<usize> = Vec::new();
            r.push(0);
            proof {
                lemma_as_ints_eq(r@, pointers_of(t@));
            }
            r
        },
        Type::Tuple(items) => {
            assert(crate::types::models_of(items@) =~= match t@ {
                TypeModel::Tuple(ms) => ms,
                _ => Seq::empty(),
            });
            get_pointers_map_for_sequence(items.as_slice())
        },
    }
}

/// Pointer positions inside values of `types` laid out one after another,
/// increasing.
pub fn get_pointers_map_for_sequence<T: View>(types: &[Type<T>]) -> (r: Vec<usize>)
    requires
        sizes_sum(crate::types::models_of(types@)) <= usize::MAX,
    ensures
        as_ints(r@) == pointers_of_seq(crate::types::models_of(types@)),
    decreases depth_seq(crate::types::models_of(types@)), 1nat,
{
    let ghost ms = crate::types::models_of(types@);
    let mut result: Vec<usize> = Vec::new();
    let mut current_offset: usize = 0;
    let mut i: usize = 0;
    proof {
        lemma_as_ints_eq(result@, pointers_of_seq(ms.take(0)));
    }
    while i < types.len()
        invariant
            i <= types@.len(),
            ms == crate::types::models_of(types@),
            sizes_sum(ms) <= usize::MAX,
            current_offset == sizes_sum(ms.take(i as int)),
            as_ints(result@) == pointers_of_seq(ms.take(i as int)),
        decreases types@.len() - i,
    {
        proof {
            lemma_sizes_prefix(ms, i as int);
            lemma_sizes_sum_nonneg(ms.take(i as int));
            lemma_size_nonneg(ms[i as int]);
            lemma_pointers_sorted(ms[i as int]);
            assert(ms.take(i + 1).drop_last() =~= ms.take(i as int));
            assert(ms.take(i + 1).last() == ms[i as int]);
            assert(ms[i as int] == types@[i as int]@);
            lemma_depth_seq_bound(ms, i as int);
        }
        let inner = get_pointers_map_for_type(&types[i]);
        let ghost before = as_ints(result@);
        let ghost p = pointers_of(ms[i as int]);
        let ghost start = result@.len();
        let mut k: usize = 0;
        while k < inner.len()
            invariant
                k <= inner@.len(),
                as_ints(inner@) == p,
                sorted_within(p, size_of(ms[i as int])),
                i < types@.len(),
                ms.len() == types@.len(),
                current_offset + size_of(ms[i as int]) <= usize::MAX,
                result@.len() == start + k,
                start == before.len(),
                forall|j: int| 0 <= j < start ==> result@[j] as int == #[trigger] before[j],
                forall|j: int| 0 <= j < k ==> result@[start + j] as int == #[trigger] p[j] + current_offset,
            decreases inner@.len() - k,
        {
            assert(p[k as int] == inner@[k as int] as int);
            result.push(inner[k] + current_offset);
            k = k + 1;
        }
        proof {
            let target = before + shifted(p, current_offset as int);
            assert forall|j: int| 0 <= j < result@.len() implies result@[j] as int == #[trigger] target[j] by {
                if j >= start {
                    assert(result@[start + (j - start)] as int == p[j - start] + current_offset);
                }
            }
            lemma_as_ints_eq(result@, target);
        }
        let size = get_type_size_wide(&types[i]);
        current_offset = current_offset + size;
        i = i + 1;
    }
    assert(ms.take(types@.len() as int) =~= ms);
    // The concatenation is already increasing (see `lemma_pointers_seq_sorted`),
    // so no sorting step is needed.
    result
}

/// Size of a value of type `t` in words, without a bound on the result.
pub fn get_type_size_wide<T: View>(t: &Type<T>) -> (r: usize)
    requires
        size_of(t@) <= usize::MAX,
    ensures
        r == size_of(t@),
    decreases depth(t@),
{
    match t {
        Type::Maybe(inner) => {
            proof {
                lemma_size_nonneg(inner@);
            }
            get_type_size_wide(&**inner) + 1
        },
        Type::Tuple(items) => {
            let ghost ms = match t@ {
                TypeModel::Tuple(ms) => ms,
                _ => Seq::empty(),
            };
            let mut sum: usize = 0;
            let mut i: usize = 0;
            while i < items.len()
                invariant
                    i <= items@.len(),
                    ms.len() == items@.len(),
                    forall|j: int| 0 <= j < items@.len() ==> #[trigger] ms[j] == items@[j]@,
                    sizes_sum(ms) <= usize::MAX,
                    depth(t@) == depth_seq(ms) + 1,
                    sum == sizes_sum(ms.take(i as int)),
                decreases items@.len() - i,
            {
                proof {
                    lemma_sizes_prefix(ms, i as int);
                }
                proof {
                    lemma_depth_seq_bound(ms, i as int);
                }
                let s = get_type_size_wide(&items[i]);
                sum = sum + s;
                i = i + 1;
            }
            assert(ms.take(items@.len() as int) =~= ms);
            sum
        },
        Type::Int => 1,
        Type::Float => 1,
        Type::Bool => 1,
        Type::String => 1,
        Type::List(_) => 1,
        Type::Custom(_) => 1,
    }
}

/// Laws of the layout: the selected sub-item fits inside the value, and the
/// pointer map is increasing with every position inside the value.
pub proof fn law_layout<V>(t: TypeModel<V>, path: Seq<usize>)
    requires
        valid_path(t, path),
    ensures
        0 <= tuple_offset(t, path),
        tuple_offset(t, path) + size_of(subitem_at(t, path)) <= size_of(t),
        sorted_within(pointers_of(t), size_of(t)),
{
    lemma_offset_within(t, path);
    lemma_pointers_sorted(t);
}

} // verus!
