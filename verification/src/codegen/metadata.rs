//! Layout metadata for user types and list kinds, as written into bytecode.
use vstd::prelude::*;

use super::utils;
use super::utils::{pointers_of, pointers_of_seq, size_of, sizes_sum};
use crate::ast::verified::{CustomType, TypedFields};
use crate::runtime::LIST_OF_INTS_META_FLAG;
use crate::symbols::SymbolType;
use crate::types::{models_of, Type, TypeModel, VerifiedType};

verus! {

pub type SymbolModel = (Seq<char>, Seq<char>);

pub type TypeM = TypeModel<SymbolModel>;

/// Index of the last occurrence of `name` in `names`, if any (a later field
/// of the same name shadows an earlier one).
pub open spec fn last_index_of(names: Seq<Seq<char>>, name: Seq<char>) -> Option<int>
    decreases names.len(),
{
    if names.len() == 0 {
        None
    } else if names.last() == name {
        Some(names.len() - 1)
    } else {
        last_index_of(names.drop_last(), name)
    }
}

pub proof fn lemma_last_index_of(names: Seq<Seq<char>>, name: Seq<char>)
    ensures
        last_index_of(names, name) matches Some(i) ==> 0 <= i < names.len() && names[i] == name,
        last_index_of(names, name) is None ==> forall|j: int| 0 <= j < names.len() ==> names[j] != name,
    decreases names.len(),
{
    if names.len() > 0 && names.last() != name {
        lemma_last_index_of(names.drop_last(), name);
        assert forall|j: int| 0 <= j < names.len() - 1 implies names[j] == names.drop_last()[j] by {}
    }
}

fn find_last(names: &Vec<String>, name: &str) -> (r: Option<usize>)
    ensures
        r matches Some(i) ==> last_index_of(names@.map_values(|n: String| n@), name@) == Some(i as int),
        r is None ==> last_index_of(names@.map_values(|n: String| n@), name@) is None,
{
    let ghost ns = names@.map_values(|n: String| n@);
    let mut k: usize = names.len();
    assert(ns.take(k as int) =~= ns);
    while k > 0
        invariant
            k <= names@.len(),
            ns == names@.map_values(|n: String| n@),
            last_index_of(ns, name@) == last_index_of(ns.take(k as int), name@),
        decreases k,
    {
        let ghost t = ns.take(k as int);
        assert(t.drop_last() =~= ns.take(k - 1));
        if crate::text::same_text(names[k - 1].as_str(), name) {
            assert(t.last() == name@);
            return Some(k - 1);
        }
        k = k - 1;
    }
    assert(ns.take(0) =~= Seq::<Seq<char>>::empty());
    None
}

/// Layout of a user type: total size, and for each field (in declaration
/// order) its name, offset, size and type, plus the pointer positions.
#[derive(Debug)]
pub struct CustomTypeMetadata {
    pub size: u8,
    pub field_names: Vec<String>,
    pub field_offsets: Vec<u8>,
    pub field_sizes: Vec<u8>,
    pub field_types: Vec<VerifiedType>,
    pub pointer_mapping: Vec<usize>,
}

/// Layout of list items of one kind.
#[derive(Debug)]
pub struct ListKindMetadata {
    pub size: u8,
    pub item_type: VerifiedType,
    pub pointer_mapping: Vec<usize>,
}

/// The layout that `fields` (types `ms`, names `ns`) determine.
pub open spec fn is_layout_of(meta: CustomTypeMetadata, ns: Seq<Seq<char>>, ms: Seq<TypeM>) -> bool {
    &&& meta.size == sizes_sum(ms)
    &&& meta.field_names@.map_values(|n: String| n@) == ns
    &&& meta.field_offsets@.len() == ms.len()
    &&& meta.field_sizes@.len() == ms.len()
    &&& models_of(meta.field_types@) == ms
    &&& forall|i: int| 0 <= i < ms.len() ==> #[trigger] meta.field_offsets@[i] == sizes_sum(ms.take(i))
    &&& forall|i: int| 0 <= i < ms.len() ==> #[trigger] meta.field_sizes@[i] == size_of(ms[i])
    &&& utils::as_ints(meta.pointer_mapping@) == pointers_of_seq(ms)
}

impl CustomTypeMetadata {
    /// Layout of `definition`'s fields placed one after another.
    pub fn from_custom(definition: &CustomType) -> (r: Self)
        requires
            definition.fields.wf(),
            sizes_sum(definition.fields.type_models()) <= u8::MAX,
        ensures
            is_layout_of(r, definition.fields.name_texts(), definition.fields.type_models()),
    {
        let fields = &definition.fields;
        let ghost ms = fields.type_models();
        let mut field_sizes: Vec<u8> = Vec::new();
        let mut field_offsets: Vec<u8> = Vec::new();
        let mut field_names: Vec<String> = Vec::new();
        let mut field_types: Vec<VerifiedType> = Vec::new();
        let mut offset: u8 = 0;
        let mut i: usize = 0;
        while i < fields.types.len()
            invariant
                fields.wf(),
                ms == fields.type_models(),
                sizes_sum(ms) <= u8::MAX,
                i <= ms.len(),
                offset == sizes_sum(ms.take(i as int)),
                field_sizes@.len() == i,
                field_offsets@.len() == i,
                field_names@.len() == i,
                field_types@.len() == i,
                forall|j: int| 0 <= j < i ==> #[trigger] field_offsets@[j] == sizes_sum(ms.take(j)),
                forall|j: int| 0 <= j < i ==> #[trigger] field_sizes@[j] == size_of(ms[j]),
                forall|j: int| 0 <= j < i ==> #[trigger] field_names@[j]@ == fields.names@[j]@,
                forall|j: int| 0 <= j < i ==> #[trigger] field_types@[j]@ == ms[j],
            decreases ms.len() - i,
        {
            proof {
                utils::lemma_sizes_prefix(ms, i as int);
                utils::lemma_size_nonneg(ms[i as int]);
                utils::lemma_sizes_sum_nonneg(ms.take(i as int));
                utils::lemma_sizes_prefix(ms, i as int);
            }
            let s = utils::get_type_size(&fields.types[i]);
            field_offsets.push(offset);
            field_sizes.push(s);
            field_names.push(fields.names[i].clone());
            field_types.push(fields.types[i].duplicate());
            offset = offset + s;
            i = i + 1;
        }
        assert(ms.take(ms.len() as int) =~= ms);
        proof {
            utils::lemma_sizes_sum_nonneg(ms);
        }
        let pointer_mapping = utils::get_pointers_map_for_sequence(fields.types.as_slice());
        let r = CustomTypeMetadata {
            size: offset,
            field_names,
            field_offsets,
            field_sizes,
            field_types,
            pointer_mapping,
        };
        assert(r.field_names@.map_values(|n: String| n@) =~= fields.name_texts());
        assert(models_of(r.field_types@) =~= ms);
        r
    }

    /// Names of the fields, in order.
    pub open spec fn names(&self) -> Seq<Seq<char>> {
        self.field_names@.map_values(|n: String| n@)
    }

    pub open spec fn wf(&self) -> bool {
        &&& self.field_offsets@.len() == self.field_names@.len()
        &&& self.field_sizes@.len() == self.field_names@.len()
        &&& self.field_types@.len() == self.field_names@.len()
    }

    /// Offset of the field `name`, if the type has it.
    pub fn field_offset(&self, name: &str) -> (r: Option<u8>)
        requires
            self.wf(),
        ensures
            r == (match last_index_of(self.names(), name@) {
                Some(i) => Some(self.field_offsets@[i]),
                None => None,
            }),
    {
        proof {
            lemma_last_index_of(self.names(), name@);
        }
        match find_last(&self.field_names, name) {
            Some(i) => Some(self.field_offsets[i]),
            None => None,
        }
    }

    /// Size of the field `name`, if the type has it.
    pub fn field_size(&self, name: &str) -> (r: Option<u8>)
        requires
            self.wf(),
        ensures
            r == (match last_index_of(self.names(), name@) {
                Some(i) => Some(self.field_sizes@[i]),
                None => None,
            }),
    {
        proof {
            lemma_last_index_of(self.names(), name@);
        }
        match find_last(&self.field_names, name) {
            Some(i) => Some(self.field_sizes[i]),
            None => None,
        }
    }

    /// Type of the field `name`, if the type has it.
    pub fn field_type(&self, name: &str) -> (r: Option<&VerifiedType>)
        requires
            self.wf(),
        ensures
            r == (match last_index_of(self.names(), name@) {
                Some(i) => Some(&self.field_types@[i]),
                None => None,
            }),
    {
        proof {
            lemma_last_index_of(self.names(), name@);
        }
        match find_last(&self.field_names, name) {
            Some(i) => Some(&self.field_types[i]),
            None => None,
        }
    }
}

impl ListKindMetadata {
    /// Layout of list items of type `t`.
    pub fn from_item_type(t: &VerifiedType) -> (r: Self)
        requires
            size_of(t@) <= u8::MAX,
        ensures
            r.size == size_of(t@),
            r.item_type@ == t@,
            utils::as_ints(r.pointer_mapping@) == pointers_of(t@),
    {
        Self {
            size: utils::get_type_size(t),
            item_type: t.duplicate(),
            pointer_mapping: utils::get_pointers_map_for_type(t),
        }
    }
}

/// The entries of a table filled by inserting `keys` one by one, each with
/// the number of distinct keys inserted before it; inserting a key again
/// replaces its value in place.
pub open spec fn index_entries<K>(keys: Seq<K>) -> Seq<(K, int)>
    decreases keys.len(),
{
    if keys.len() == 0 {
        Seq::empty()
    } else {
        let e = index_entries(keys.drop_last());
        let k = keys.last();
        match entry_position(e, k) {
            Some(p) => e.update(p, (k, e.len() as int)),
            None => e.push((k, e.len() as int)),
        }
    }
}

/// Position of the entry for key `k`, if there is one.
pub open spec fn entry_position<K>(e: Seq<(K, int)>, k: K) -> Option<int>
    decreases e.len(),
{
    if e.len() == 0 {
        None
    } else if e.last().0 == k {
        Some(e.len() - 1)
    } else {
        entry_position(e.drop_last(), k)
    }
}

/// The value stored for key `k`, if any.
pub open spec fn entry_value<K>(e: Seq<(K, int)>, k: K) -> Option<int> {
    match entry_position(e, k) {
        Some(p) => Some(e[p].1),
        None => None,
    }
}

pub proof fn lemma_entry_position<K>(e: Seq<(K, int)>, k: K)
    ensures
        entry_position(e, k) matches Some(p) ==> 0 <= p < e.len() && e[p].0 == k,
        entry_position(e, k) is None ==> forall|j: int| 0 <= j < e.len() ==> e[j].0 != k,
    decreases e.len(),
{
    if e.len() > 0 && e.last().0 != k {
        lemma_entry_position(e.drop_last(), k);
        assert forall|j: int| 0 <= j < e.len() - 1 implies e[j] == e.drop_last()[j] by {}
    }
}

/// Keys are distinct and every value is below `bound`.
pub open spec fn entries_ok<K>(e: Seq<(K, int)>, bound: int) -> bool {
    &&& forall|i: int, j: int| 0 <= i < j < e.len() ==> e[i].0 != e[j].0
    &&& forall|i: int| 0 <= i < e.len() ==> 0 <= #[trigger] e[i].1 < bound
}

pub proof fn lemma_index_entries<K>(keys: Seq<K>)
    ensures
        entries_ok(index_entries(keys), keys.len() as int),
        index_entries(keys).len() <= keys.len(),
    decreases keys.len(),
{
    if keys.len() > 0 {
        let e = index_entries(keys.drop_last());
        lemma_index_entries(keys.drop_last());
        lemma_entry_position(e, keys.last());
    }
}

/// Position in the table of each user type and the layout of each.
#[derive(Debug)]
pub struct CustomTypesMetadataTable {
    pub indexes: Vec<(SymbolType, usize)>,
    pub metadata: Vec<CustomTypeMetadata>,
}

/// Keyed positions of the list kinds and the layout of each; the kind of
/// lists of integers is always present.
#[derive(Debug)]
pub struct ListKindsMetadataTable {
    pub indexes: Vec<(VerifiedType, usize)>,
    pub metadata: Vec<ListKindMetadata>,
}

impl CustomTypesMetadataTable {
    /// The table entries as (symbol, index) pairs.
    pub open spec fn entries(&self) -> Seq<(SymbolModel, int)> {
        self.indexes@.map_values(|p: (SymbolType, usize)| (p.0@, p.1 as int))
    }

    pub open spec fn wf(&self) -> bool {
        entries_ok(self.entries(), self.metadata@.len() as int)
    }

    /// A table of the given types: the metadata of `types[i]` is at
    /// position `i`, and each name maps as a hash map filled in order would.
    pub fn from_types(types: &[CustomType]) -> (table: Self)
        requires
            forall|i: int| 0 <= i < types@.len() ==> (#[trigger] types@[i]).fields.wf(),
            forall|i: int| 0 <= i < types@.len() ==> sizes_sum((#[trigger] types@[i]).fields.type_models()) <= u8::MAX,
        ensures
            table.wf(),
            table.metadata@.len() == types@.len(),
            forall|i: int| 0 <= i < types@.len() ==> is_layout_of(#[trigger] table.metadata@[i], types@[i].fields.name_texts(), types@[i].fields.type_models()),
            table.entries() == index_entries(types@.map_values(|t: CustomType| t.name@)),
    {
        let ghost keys = types@.map_values(|t: CustomType| t.name@);
        let mut table = Self { indexes: Vec::new(), metadata: Vec::new() };
        let mut i: usize = 0;
        proof {
            assert(table.entries() =~= index_entries(keys.take(0)));
        }
        while i < types.len()
            invariant
                i <= types@.len(),
                keys == types@.map_values(|t: CustomType| t.name@),
                table.metadata@.len() == i,
                forall|j: int| 0 <= j < types@.len() ==> (#[trigger] types@[j]).fields.wf(),
                forall|j: int| 0 <= j < types@.len() ==> sizes_sum((#[trigger] types@[j]).fields.type_models()) <= u8::MAX,
                forall|j: int| 0 <= j < i ==> is_layout_of(#[trigger] table.metadata@[j], types@[j].fields.name_texts(), types@[j].fields.type_models()),
                table.entries() == index_entries(keys.take(i as int)),
            decreases types@.len() - i,
        {
            proof {
                lemma_index_entries(keys.take(i as int));
                assert(keys.take(i + 1).drop_last() =~= keys.take(i as int));
                assert(keys.take(i + 1).last() == types@[i as int].name@);
            }
            let index = table.indexes.len();
            let ghost e = table.entries();
            let name = &types[i].name;
            let pos = Self::position_of_symbol(&table.indexes, name);
            proof {
                lemma_entry_position(e, name@);
            }
            match pos {
                Some(p) => {
                    table.indexes.set(p, (name.duplicate(), index));
                    assert(table.entries() =~= e.update(p as int, (name@, e.len() as int)));
                },
                None => {
                    table.indexes.push((name.duplicate(), index));
                    assert(table.entries() =~= e.push((name@, e.len() as int)));
                },
            }
            table.metadata.push(CustomTypeMetadata::from_custom(&types[i]));
            i = i + 1;
        }
        assert(keys.take(types@.len() as int) =~= keys);
        proof {
            lemma_index_entries(keys);
        }
        table
    }

    pub fn position_of_symbol(indexes: &Vec<(SymbolType, usize)>, name: &SymbolType) -> (r: Option<usize>)
        ensures
            r matches Some(p) ==> entry_position(indexes@.map_values(|q: (SymbolType, usize)| (q.0@, q.1 as int)), name@) == Some(p as int),
            r is None ==> entry_position(indexes@.map_values(|q: (SymbolType, usize)| (q.0@, q.1 as int)), name@) is None,
    {
        let ghost e = indexes@.map_values(|q: (SymbolType, usize)| (q.0@, q.1 as int));
        let mut k: usize = indexes.len();
        assert(e.take(k as int) =~= e);
        while k > 0
            invariant
                k <= indexes@.len(),
                e == indexes@.map_values(|q: (SymbolType, usize)| (q.0@, q.1 as int)),
                entry_position(e, name@) == entry_position(e.take(k as int), name@),
            decreases k,
        {
            let ghost t = e.take(k as int);
            assert(t.drop_last() =~= e.take(k - 1));
            if indexes[k - 1].0.same_as(name) {
                return Some(k - 1);
            }
            k = k - 1;
        }
        assert(e.take(0) =~= Seq::<(SymbolModel, int)>::empty());
        None
    }

    /// Metadata of the type `flag`.
    pub fn get_meta(&self, flag: &SymbolType) -> (r: &CustomTypeMetadata)
        requires
            self.wf(),
            entry_value(self.entries(), flag@) is Some,
        ensures
            *r == self.metadata@[entry_value(self.entries(), flag@).unwrap()],
    {
        let index = self.get_index(flag);
        &self.metadata[index]
    }

    /// Position of the type `flag` in the table.
    pub fn get_index(&self, flag: &SymbolType) -> (r: usize)
        requires
            self.wf(),
            entry_value(self.entries(), flag@) is Some,
        ensures
            r == entry_value(self.entries(), flag@).unwrap(),
            r < self.metadata@.len(),
    {
        proof {
            lemma_entry_position(self.entries(), flag@);
        }
        match Self::position_of_symbol(&self.indexes, flag) {
            Some(p) => self.indexes[p].1,
            None => 0,
        }
    }
}

impl ListKindsMetadataTable {
    /// Item types of the kinds, in position order.
    pub open spec fn kinds(&self) -> Seq<TypeM> {
        Seq::new(self.indexes@.len(), |i: int| self.indexes@[i].0@)
    }

    /// Each kind sits at its own position, with its layout.
    pub open spec fn wf(&self) -> bool {
        &&& self.metadata@.len() == self.indexes@.len()
        &&& forall|i: int| 0 <= i < self.indexes@.len() ==> (#[trigger] self.indexes@[i]).1 == i
        &&& forall|i: int, j: int| 0 <= i < j < self.indexes@.len() ==> self.kinds()[i] != self.kinds()[j]
        &&& forall|i: int| 0 <= i < self.metadata@.len() ==> {
            &&& (#[trigger] self.metadata@[i]).size == size_of(self.kinds()[i])
            &&& self.metadata@[i].item_type@ == self.kinds()[i]
            &&& utils::as_ints(self.metadata@[i].pointer_mapping@) == pointers_of(self.kinds()[i])
        }
    }

    /// A table holding only the kind of lists of integers.
    pub fn new_empty() -> (r: Self)
        ensures
            r.wf(),
            r.kinds() == seq![TypeM::Int],
    {
        let mut indexes: Vec<(VerifiedType, usize)> = Vec::new();
        indexes.push((Type::Int, LIST_OF_INTS_META_FLAG));
        let mut metadata: Vec<ListKindMetadata> = Vec::new();
        metadata.push(ListKindMetadata::from_item_type(&Type::Int));
        let r = Self { indexes, metadata };
        assert(r.kinds() =~= seq![TypeM::Int]);
        r
    }

    /// Position of the kind of lists of `t`, adding the kind at the end
    /// when it is new.
    pub fn get_or_insert(&mut self, t: &VerifiedType) -> (r: usize)
        requires
            old(self).wf(),
            size_of(t@) <= u8::MAX,
        ensures
            final(self).wf(),
            r < final(self).kinds().len(),
            old(self).kinds().contains(t@) ==> final(self).kinds() == old(self).kinds() && final(self).kinds()[r as int] == t@,
            !old(self).kinds().contains(t@) ==> final(self).kinds() == old(self).kinds().push(t@) && r == old(self).kinds().len(),
    {
        let mut i: usize = 0;
        while i < self.indexes.len()
            invariant
                i <= self.indexes@.len(),
                self.wf(),
                forall|j: int| 0 <= j < i ==> self.kinds()[j] != t@,
            decreases self.indexes@.len() - i,
        {
            if self.indexes[i].0.same_as(t) {
                assert(self.kinds()[i as int] == t@);
                return self.indexes[i].1;
            }
            i = i + 1;
        }
        let ghost old_kinds = self.kinds();
        let index = self.indexes.len();
        self.metadata.push(ListKindMetadata::from_item_type(t));
        self.indexes.push((t.duplicate(), index));
        assert(self.kinds() =~= old_kinds.push(t@));
        index
    }
}

} // verus!
