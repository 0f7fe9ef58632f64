//! The heap of a running program: strings, lists and objects, each known
//! by a pointer (its position counted from 1; 0 is no object).
use vstd::prelude::*;

use crate::runtime::vm::Metadata;

verus! {

/// A list: `items_amount` items of `item_size` words each, of the list
/// kind `list_item_type`.
#[derive(Debug)]
pub struct List {
    pub data: Vec<u64>,
    pub items_amount: usize,
    pub item_size: usize,
    pub list_item_type: usize,
}

/// An object of the user type `type_index`, its fields laid out in `data`.
#[derive(Debug)]
pub struct CustomObject {
    pub data: Vec<u64>,
    pub type_index: u64,
}

/// What the heap holds.
#[derive(Debug)]
pub enum HeapObject {
    String(String),
    List(List),
    CustomObject(CustomObject),
}

/// The objects of a program; the pointer of `objects[i]` is `i + 1`.
#[derive(Debug)]
pub struct Heap {
    pub objects: Vec<HeapObject>,
}

impl Heap {
    /// `p` points at an object.
    pub open spec fn valid(&self, p: int) -> bool {
        1 <= p <= self.objects@.len()
    }

    /// The object `p` points at.
    pub open spec fn at(&self, p: int) -> HeapObject {
        self.objects@[p - 1]
    }

    /// An empty heap.
    pub fn new() -> (r: Heap)
        ensures
            r.objects@.len() == 0,
    {
        Heap { objects: Vec::new() }
    }

    /// The object `pointer` points at.
    pub fn get(&self, pointer: u64) -> (r: &HeapObject)
        requires
            self.valid(pointer as int),
        ensures
            *r == self.at(pointer as int),
    {
        let n = self.objects.len();
        assert(pointer - 1 < n);
        let idx = (pointer - 1) as usize;
        assert(idx as int == pointer - 1);
        &self.objects[idx]
    }

    /// Adds the string `s`; its pointer is returned.
    pub fn move_string(&mut self, s: String) -> (p: u64)
        requires
            old(self).objects@.len() < u64::MAX,
        ensures
            final(self).objects@ == old(self).objects@.push(HeapObject::String(s)),
            p == final(self).objects@.len(),
    {
        self.objects.push(HeapObject::String(s));
        self.objects.len() as u64
    }

    /// Adds a list of `items_amount` items of the kind `list_type`, its
    /// words copied from the start of `data`; its pointer and the number of
    /// words are returned.
    pub fn allocate_list(&mut self, list_type: usize, items_amount: usize, data: &[u64], metadata: &Metadata) -> (r: (u64, usize))
        requires
            old(self).objects@.len() < u64::MAX,
            list_type < metadata.lists_item_sizes@.len(),
            items_amount * metadata.lists_item_sizes@[list_type as int] <= data@.len(),
        ensures
            r.1 == items_amount * metadata.lists_item_sizes@[list_type as int],
            final(self).objects@ == old(self).objects@.push(
                HeapObject::List(
                    List {
                        data: final(self).objects@.last()->List_0.data,
                        items_amount,
                        item_size: metadata.lists_item_sizes@[list_type as int],
                        list_item_type: list_type,
                    },
                ),
            ),
            final(self).objects@.last()->List_0.data@ == data@.take(r.1 as int),
            r.0 == final(self).objects@.len(),
    {
        let item_size = metadata.lists_item_sizes[list_type];
        assert(items_amount * item_size <= data@.len());
        assert(data@.len() == data.len());
        let words = items_amount * item_size;
        let mut copied: Vec<u64> = Vec::new();
        let mut i: usize = 0;
        while i < words
            invariant
                i <= words,
                words <= data@.len(),
                copied@ == data@.take(i as int),
            decreases words - i,
        {
            copied.push(data[i]);
            assert(copied@ =~= data@.take(i + 1));
            i = i + 1;
        }
        self.objects.push(HeapObject::List(List { data: copied, items_amount, item_size, list_item_type: list_type }));
        (self.objects.len() as u64, words)
    }

    /// Adds an object of the user type `type_index` with all fields zero;
    /// its pointer is returned.
    pub fn allocate_custom(&mut self, type_index: usize, metadata: &Metadata) -> (p: u64)
        requires
            old(self).objects@.len() < u64::MAX,
            type_index < metadata.types_sizes@.len(),
        ensures
            final(self).objects@.len() == old(self).objects@.len() + 1,
            final(self).objects@.drop_last() == old(self).objects@,
            final(self).objects@.last() matches HeapObject::CustomObject(o) && o.type_index == type_index
                && o.data@ == Seq::new(metadata.types_sizes@[type_index as int] as nat, |i: int| 0u64),
            p == final(self).objects@.len(),
    {
        let size = metadata.types_sizes[type_index];
        let mut data: Vec<u64> = Vec::new();
        let mut i: usize = 0;
        while i < size
            invariant
                i <= size,
                data@ == Seq::new(i as nat, |k: int| 0u64),
            decreases size - i,
        {
            data.push(0);
            assert(data@ =~= Seq::new((i + 1) as nat, |k: int| 0u64));
            i = i + 1;
        }
        let ghost before = self.objects@;
        self.objects.push(HeapObject::CustomObject(CustomObject { data, type_index: type_index as u64 }));
        assert(self.objects@.drop_last() =~= before);
        self.objects.len() as u64
    }
}

} // verus!
