//! Field layout of user types: total size, field offsets and sizes.
use vstd::prelude::*;

use super::metadata::{
    entries_ok, entry_position, entry_value, index_entries, last_index_of, lemma_entry_position,
    lemma_index_entries, lemma_last_index_of, SymbolModel, TypeM,
};
use super::utils;
use super::utils::{size_of, sizes_sum};
use crate::ast::verified::CustomType;
use crate::symbols::SymbolType;

verus! {

/// Size of a user type and the offset and size of each of its fields, in
/// declaration order.
pub struct TypeMetadata {
    pub size: u8,
    pub field_names: Vec<String>,
    pub field_offsets: Vec<u8>,
    pub field_sizes: Vec<u8>,
}

/// Field layouts of user types, each at the position a hash map filled in
/// order would give it.
pub struct TypeMetadataTable {
    indexes: Vec<(SymbolType, usize)>,
    metadata: Vec<TypeMetadata>,
}

/// The layout that fields with types `ms` and names `ns` determine.
pub open spec fn is_type_layout(meta: TypeMetadata, ns: Seq<Seq<char>>, ms: Seq<TypeM>) -> bool {
    &&& meta.size == sizes_sum(ms)
    &&& meta.field_names@.map_values(|n: String| n@) == ns
    &&& meta.field_offsets@.len() == ms.len()
    &&& meta.field_sizes@.len() == ms.len()
    &&& forall|i: int| 0 <= i < ms.len() ==> #[trigger] meta.field_offsets@[i] == sizes_sum(ms.take(i))
    &&& forall|i: int| 0 <= i < ms.len() ==> #[trigger] meta.field_sizes@[i] == size_of(ms[i])
}

/// Layout of `definition`'s fields placed one after another.
pub fn metadata_for_type(definition: &CustomType) -> (r: TypeMetadata)
    requires
        definition.fields.wf(),
        sizes_sum(definition.fields.type_models()) <= u8::MAX,
    ensures
        is_type_layout(r, definition.fields.name_texts(), definition.fields.type_models()),
{
    let fields = &definition.fields;
    let ghost ms = fields.type_models();
    let mut field_sizes: Vec<u8> = Vec::new();
    let mut field_offsets: Vec<u8> = Vec::new();
    let mut field_names: Vec<String> = Vec::new();
    let mut offset: u8 = 0;
    let mut i: usize = 0;
    while i < fields.types.len()
        invariant
            fields.wf(),
            ms == fields.type_models(),
            sizes_sum(ms) <= u8::MAX,
            i <= ms.len(),
            offset == sizes_sum(ms.take(i as int)),
            field_sizes@.len() == i,
            field_offsets@.len() == i,
            field_names@.len() == i,
            forall|j: int| 0 <= j < i ==> #[trigger] field_offsets@[j] == sizes_sum(ms.take(j)),
            forall|j: int| 0 <= j < i ==> #[trigger] field_sizes@[j] == size_of(ms[j]),
            forall|j: int| 0 <= j < i ==> #[trigger] field_names@[j]@ == fields.names@[j]@,
        decreases ms.len() - i,
    {
        proof {
            utils::lemma_sizes_prefix(ms, i as int);
            utils::lemma_size_nonneg(ms[i as int]);
            utils::lemma_sizes_sum_nonneg(ms.take(i as int));
        }
        let s = utils::get_type_size(&fields.types[i]);
        field_offsets.push(offset);
        field_sizes.push(s);
        field_names.push(fields.names[i].clone());
        offset = offset + s;
        i = i + 1;
    }
    assert(ms.take(ms.len() as int) =~= ms);
    let r = TypeMetadata { size: offset, field_names, field_offsets, field_sizes };
    assert(r.field_names@.map_values(|n: String| n@) =~= fields.name_texts());
    r
}

impl TypeMetadata {
    pub open spec fn wf(&self) -> bool {
        &&& self.field_offsets@.len() == self.field_names@.len()
        &&& self.field_sizes@.len() == self.field_names@.len()
    }

    /// Names of the fields, in order.
    pub open spec fn names(&self) -> Seq<Seq<char>> {
        self.field_names@.map_values(|n: String| n@)
    }

    /// Offset of the field `name`, if the type has it.
    pub fn field_offset(&self, name: &str) -> (r: Option<u8>)
        requires
            self.wf(),
        ensures
            r == (match last_index_of(self.names(), name@) {
                Some(i) => Some(self.field_offsets@[i]),
                None => None,
            }),
    {
        proof {
            lemma_last_index_of(self.names(), name@);
        }
        let mut k: usize = self.field_names.len();
        let ghost ns = self.names();
        assert(ns.take(k as int) =~= ns);
        while k > 0
            invariant
                k <= self.field_names@.len(),
                ns == self.names(),
                self.wf(),
                last_index_of(ns, name@) == last_index_of(ns.take(k as int), name@),
            decreases k,
        {
            let ghost t = ns.take(k as int);
            assert(t.drop_last() =~= ns.take(k - 1));
            if crate::text::same_text(self.field_names[k - 1].as_str(), name) {
                return Some(self.field_offsets[k - 1]);
            }
            k = k - 1;
        }
        assert(ns.take(0) =~= Seq::<Seq<char>>::empty());
        None
    }

    /// Size of the field `name`, if the type has it.
    pub fn field_size(&self, name: &str) -> (r: Option<u8>)
        requires
            self.wf(),
        ensures
            r == (match last_index_of(self.names(), name@) {
                Some(i) => Some(self.field_sizes@[i]),
                None => None,
            }),
    {
        proof {
            lemma_last_index_of(self.names(), name@);
        }
        let mut k: usize = self.field_names.len();
        let ghost ns = self.names();
        assert(ns.take(k as int) =~= ns);
        while k > 0
            invariant
                k <= self.field_names@.len(),
                ns == self.names(),
                self.wf(),
                last_index_of(ns, name@) == last_index_of(ns.take(k as int), name@),
            decreases k,
        {
            let ghost t = ns.take(k as int);
            assert(t.drop_last() =~= ns.take(k - 1));
            if crate::text::same_text(self.field_names[k - 1].as_str(), name) {
                return Some(self.field_sizes[k - 1]);
            }
            k = k - 1;
        }
        assert(ns.take(0) =~= Seq::<Seq<char>>::empty());
        None
    }

    /// Number of fields.
    pub fn field_count(&self) -> (r: usize)
        ensures
            r == self.field_names@.len(),
    {
        self.field_names.len()
    }
}

impl TypeMetadataTable {
    /// The table entries as (symbol, index) pairs.
    pub closed spec fn entries(&self) -> Seq<(SymbolModel, int)> {
        self.indexes@.map_values(|p: (SymbolType, usize)| (p.0@, p.1 as int))
    }

    /// The layouts, in the order of the types given.
    pub closed spec fn layouts(&self) -> Seq<TypeMetadata> {
        self.metadata@
    }

    pub closed spec fn wf(&self) -> bool {
        entries_ok(self.entries(), self.metadata@.len() as int)
    }

    /// A table of the given types.
    pub fn new(types: &[&CustomType]) -> (table: Self)
        requires
            forall|i: int| 0 <= i < types@.len() ==> (#[trigger] types@[i]).fields.wf(),
            forall|i: int| 0 <= i < types@.len() ==> sizes_sum((#[trigger] types@[i]).fields.type_models()) <= u8::MAX,
        ensures
            table.wf(),
            table.layouts().len() == types@.len(),
            forall|i: int| 0 <= i < types@.len() ==> is_type_layout(#[trigger] table.layouts()[i], types@[i].fields.name_texts(), types@[i].fields.type_models()),
            table.entries() == index_entries(types@.map_values(|t: &CustomType| t.name@)),
    {
        let ghost keys = types@.map_values(|t: &CustomType| t.name@);
        let mut indexes: Vec<(SymbolType, usize)> = Vec::new();
        let mut metadata: Vec<TypeMetadata> = Vec::new();
        let mut i: usize = 0;
        proof {
            assert(indexes@.map_values(|p: (SymbolType, usize)| (p.0@, p.1 as int)) =~= index_entries(keys.take(0)));
        }
        while i < types.len()
            invariant
                i <= types@.len(),
                keys == types@.map_values(|t: &CustomType| t.name@),
                metadata@.len() == i,
                forall|j: int| 0 <= j < types@.len() ==> (#[trigger] types@[j]).fields.wf(),
                forall|j: int| 0 <= j < types@.len() ==> sizes_sum((#[trigger] types@[j]).fields.type_models()) <= u8::MAX,
                forall|j: int| 0 <= j < i ==> is_type_layout(#[trigger] metadata@[j], types@[j].fields.name_texts(), types@[j].fields.type_models()),
                indexes@.map_values(|p: (SymbolType, usize)| (p.0@, p.1 as int)) == index_entries(keys.take(i as int)),
            decreases types@.len() - i,
        {
            proof {
                lemma_index_entries(keys.take(i as int));
                assert(keys.take(i + 1).drop_last() =~= keys.take(i as int));
                assert(keys.take(i + 1).last() == types@[i as int].name@);
            }
            let index = indexes.len();
            let ghost e = indexes@.map_values(|p: (SymbolType, usize)| (p.0@, p.1 as int));
            let name = &types[i].name;
            let pos = super::metadata::CustomTypesMetadataTable::position_of_symbol(&indexes, name);
            proof {
                lemma_entry_position(e, name@);
            }
            match pos {
                Some(p) => {
                    indexes.set(p, (name.duplicate(), index));
                    assert(indexes@.map_values(|p: (SymbolType, usize)| (p.0@, p.1 as int)) =~= e.update(p as int, (name@, e.len() as int)));
                },
                None => {
                    indexes.push((name.duplicate(), index));
                    assert(indexes@.map_values(|p: (SymbolType, usize)| (p.0@, p.1 as int)) =~= e.push((name@, e.len() as int)));
                },
            }
            metadata.push(metadata_for_type(types[i]));
            i = i + 1;
        }
        assert(keys.take(types@.len() as int) =~= keys);
        proof {
            lemma_index_entries(keys);
        }
        TypeMetadataTable { indexes, metadata }
    }

    /// Layout of the type `typename`.
    pub fn get(&self, typename: &SymbolType) -> (r: &TypeMetadata)
        requires
            self.wf(),
            entry_value(self.entries(), typename@) is Some,
        ensures
            *r == self.layouts()[entry_value(self.entries(), typename@).unwrap()],
    {
        proof {
            lemma_entry_position(self.entries(), typename@);
        }
        let index = match super::metadata::CustomTypesMetadataTable::position_of_symbol(&self.indexes, typename) {
            Some(p) => self.indexes[p].1,
            None => 0,
        };
        &self.metadata[index]
    }
}

} // verus!
