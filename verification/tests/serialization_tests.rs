use frisbee::runtime::heap::{CustomObject, Heap, HeapObject, List};
use frisbee::runtime::serialization::{
    deserialize_function_args, serialize_function_args, CUSTOM_OBJECT_FLAG, LIST_FLAG, STRING_FLAG,
};
use frisbee::runtime::vm::Metadata;

fn metadata(function_pointers: Vec<usize>, args: usize) -> Metadata {
    Metadata {
        types_sizes: vec![2],
        types_pointer_mapping: vec![vec![1]],
        lists_item_sizes: vec![2],
        lists_pointer_mapping: vec![vec![1]],
        function_args_sizes: vec![args],
        functions_pointer_mapping: vec![function_pointers],
        function_positions: vec![(10, 0)],
    }
}

fn object_heap() -> Heap {
    Heap {
        objects: vec![
            HeapObject::String("hi".to_string()),
            HeapObject::CustomObject(CustomObject { data: vec![7, 1], type_index: 0 }),
        ],
    }
}

fn list_heap() -> Heap {
    Heap {
        objects: vec![
            HeapObject::List(List { data: vec![3, 2, 4, 0], items_amount: 2, item_size: 2, list_item_type: 0 }),
            HeapObject::String("x".to_string()),
        ],
    }
}

#[test]
fn serialize_packs_arguments_and_reachable_objects() {
    let meta = metadata(vec![1], 3);
    let stack = vec![100, 2, 5];
    let mut sp: usize = 3;
    let chunk = serialize_function_args(10, &stack, &mut sp, &object_heap(), &meta);
    assert_eq!(sp, 0);
    assert_eq!(chunk, vec![10, 100, 1, 5, CUSTOM_OBJECT_FLAG, 7, 2, STRING_FLAG | 2, 'h' as u64, 'i' as u64]);
}

#[test]
fn serialize_renumbers_list_pointers_and_keeps_null() {
    let meta = metadata(vec![0], 1);
    let stack = vec![9, 1];
    let mut sp: usize = 2;
    let chunk = serialize_function_args(10, &stack, &mut sp, &list_heap(), &meta);
    assert_eq!(sp, 1);
    assert_eq!(chunk, vec![10, 1, LIST_FLAG | 2, 3, 2, 4, 0, STRING_FLAG | 1, 'x' as u64]);
}

#[test]
fn serialize_without_pointers_copies_arguments_only() {
    let meta = metadata(vec![], 2);
    let stack = vec![4, 5, 6];
    let mut sp: usize = 3;
    let chunk = serialize_function_args(10, &stack, &mut sp, &object_heap(), &meta);
    assert_eq!(sp, 1);
    assert_eq!(chunk, vec![10, 5, 6]);
}

#[test]
fn deserialize_rebuilds_objects_on_an_empty_heap() {
    let meta = metadata(vec![1], 3);
    let chunk = vec![10, 100, 1, 5, CUSTOM_OBJECT_FLAG, 7, 2, STRING_FLAG | 2, 'h' as u64, 'i' as u64];
    let mut stack = vec![0u64; 6];
    let mut sp: usize = 0;
    let mut heap = Heap::new();
    deserialize_function_args(10, &mut stack, &mut sp, &mut heap, &meta, &chunk);
    assert_eq!(sp, 3);
    assert_eq!(stack, vec![100, 1, 5, 0, 0, 0]);
    assert_eq!(heap.objects.len(), 2);
    match &heap.objects[0] {
        HeapObject::CustomObject(o) => {
            assert_eq!(o.type_index, 0);
            assert_eq!(o.data, vec![7, 2]);
        },
        other => panic!("unexpected object {:?}", other),
    }
    match &heap.objects[1] {
        HeapObject::String(s) => assert_eq!(s, "hi"),
        other => panic!("unexpected object {:?}", other),
    }
}

#[test]
fn deserialize_shifts_pointers_past_existing_objects() {
    let meta = metadata(vec![0], 1);
    let chunk = vec![10, 1, LIST_FLAG | 2, 3, 2, 4, 0, STRING_FLAG | 1, 'x' as u64];
    let mut stack = vec![0u64; 3];
    let mut sp: usize = 0;
    let mut heap = Heap { objects: vec![HeapObject::String("old".to_string())] };
    deserialize_function_args(10, &mut stack, &mut sp, &mut heap, &meta, &chunk);
    assert_eq!(sp, 1);
    assert_eq!(stack, vec![2, 0, 0]);
    assert_eq!(heap.objects.len(), 3);
    match &heap.objects[1] {
        HeapObject::List(l) => {
            assert_eq!(l.data, vec![3, 3, 4, 0]);
            assert_eq!(l.items_amount, 2);
            assert_eq!(l.item_size, 2);
            assert_eq!(l.list_item_type, 0);
        },
        other => panic!("unexpected object {:?}", other),
    }
    assert!(matches!(&heap.objects[2], HeapObject::String(s) if s == "x"));
}

#[test]
fn serialized_arguments_come_back_after_deserializing() {
    let meta = metadata(vec![1], 3);
    let stack = vec![100, 2, 5];
    let mut sp: usize = 3;
    let chunk = serialize_function_args(10, &stack, &mut sp, &object_heap(), &meta);
    let mut target = vec![0u64; 3];
    let mut target_sp: usize = 0;
    let mut heap = Heap::new();
    deserialize_function_args(10, &mut target, &mut target_sp, &mut heap, &meta, &chunk);
    assert_eq!(target_sp, 3);
    assert_eq!(target[0], 100);
    assert_eq!(target[2], 5);
    match heap.get(target[1]) {
        HeapObject::CustomObject(o) => {
            assert_eq!(o.data[0], 7);
            assert!(matches!(heap.get(o.data[1]), HeapObject::String(s) if s == "hi"));
        },
        other => panic!("unexpected object {:?}", other),
    }
}

#[test]
fn heap_hands_out_pointers_from_one() {
    let mut heap = Heap::new();
    assert_eq!(heap.move_string("a".to_string()), 1);
    let meta = metadata(vec![], 0);
    let (p, words) = heap.allocate_list(0, 2, &[1, 2, 3, 4, 5], &meta);
    assert_eq!((p, words), (2, 4));
    assert_eq!(heap.allocate_custom(0, &meta), 3);
    match heap.get(2) {
        HeapObject::List(l) => assert_eq!(l.data, vec![1, 2, 3, 4]),
        other => panic!("unexpected object {:?}", other),
    }
    match heap.get(3) {
        HeapObject::CustomObject(o) => assert_eq!(o.data, vec![0, 0]),
        other => panic!("unexpected object {:?}", other),
    }
}
