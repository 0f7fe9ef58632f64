use frisbee::alias::ModuleAlias;
use frisbee::ast::verified::{CustomType, TypedFields};
use frisbee::codegen::metadata::CustomTypeMetadata;
use frisbee::codegen::types_metadata::metadata_for_type;
use frisbee::codegen::utils::{
    get_pointers_map_for_sequence, get_pointers_map_for_type, get_tuple_offset,
    get_tuple_subitem_size, get_type_size,
};
use frisbee::symbols::SymbolType;
use frisbee::types::Type;

fn sample_custom_type() -> CustomType {
    let module_alias = ModuleAlias::new(&["somemodule".into()]);
    let gen_symbol_type = || SymbolType::new(&module_alias, "Type");
    let field_types = vec![
        Type::Int,
        Type::Tuple(vec![Type::Custom(gen_symbol_type()), Type::String]),
        Type::Bool,
    ];
    let field_names: Vec<String> = vec!["a".into(), "b".into(), "c".into()];
    let fields = TypedFields { types: field_types, names: field_names };
    CustomType { name: gen_symbol_type(), is_active: false, fields }
}

#[test]
fn metadata_check_offsets_and_sizes() {
    let custom_type = sample_custom_type();
    let metadata = CustomTypeMetadata::from_custom(&custom_type);

    assert_eq!(metadata.size, 4);
    assert_eq!(metadata.field_offsets.len(), 3);
    assert_eq!(metadata.field_offset("a"), Some(0));
    assert_eq!(metadata.field_offset("b"), Some(1));
    assert_eq!(metadata.field_offset("c"), Some(3));

    assert_eq!(metadata.field_sizes.len(), 3);
    assert_eq!(metadata.field_size("a"), Some(1));
    assert_eq!(metadata.field_size("b"), Some(2));
    assert_eq!(metadata.field_size("c"), Some(1));
}

#[test]
fn types_metadata_check_offsets_and_sizes() {
    let custom_type = sample_custom_type();
    let metadata = metadata_for_type(&custom_type);

    assert_eq!(metadata.size, 4);
    assert_eq!(metadata.field_count(), 3);
    assert_eq!(metadata.field_offset("a"), Some(0));
    assert_eq!(metadata.field_offset("b"), Some(1));
    assert_eq!(metadata.field_offset("c"), Some(3));

    assert_eq!(metadata.field_sizes.len(), 3);
    assert_eq!(metadata.field_size("a"), Some(1));
    assert_eq!(metadata.field_size("b"), Some(2));
    assert_eq!(metadata.field_size("c"), Some(1));
}

#[test]
fn check_tuple_offset() {
    // (Int, ((Float, SomeType), String), ((), [SomeType]))
    let test_type = Type::Tuple(vec![
        Type::Int,
        Type::Tuple(vec![
            Type::Tuple(vec![Type::Float, Type::Custom("SomeType")]),
            Type::String,
        ]),
        Type::Tuple(vec![
            Type::Tuple(vec![]),
            Type::List(Box::new(Type::Custom("SomeType"))),
        ]),
    ]);

    assert_eq!(get_tuple_offset(&test_type, &[]), 0);
    assert_eq!(get_tuple_offset(&test_type, &[0]), 0);
    assert_eq!(get_tuple_offset(&test_type, &[1]), 1);
    assert_eq!(get_tuple_offset(&test_type, &[1, 1]), 3);
    assert_eq!(get_tuple_offset(&test_type, &[2]), 4);
    assert_eq!(get_tuple_offset(&test_type, &[2, 0]), 4);
    assert_eq!(get_tuple_offset(&test_type, &[2, 1]), 4);
}

#[test]
fn check_tuple_offset_for_maybe() {
    // (Int?, (Float, SomeType))?
    let test_type = Type::Maybe(Box::new(Type::Tuple(vec![
        Type::Maybe(Box::new(Type::Int)),
        Type::Tuple(vec![Type::Float, Type::Custom("SomeType")]),
    ])));

    assert_eq!(get_tuple_offset(&test_type, &[]), 0);
    assert_eq!(get_tuple_offset(&test_type, &[0]), 0);
    assert_eq!(get_tuple_offset(&test_type, &[1]), 1);
    assert_eq!(get_tuple_offset(&test_type, &[1, 0, 1]), 2);
    assert_eq!(get_tuple_offset(&test_type, &[1, 1]), 3);
    assert_eq!(get_tuple_offset(&test_type, &[1, 1, 1]), 4);
}

#[test]
fn check_get_pointers_mapping() {
    // (Int, ((Float, SomeType), String), ((), [SomeType]))
    let items = vec![
        Type::Int,
        Type::Tuple(vec![
            Type::Tuple(vec![Type::Float, Type::Custom("SomeType")]),
            Type::String,
        ]),
        Type::Tuple(vec![
            Type::Tuple(vec![]),
            Type::List(Box::new(Type::Custom("SomeType"))),
        ]),
    ];

    let mapping = get_pointers_map_for_sequence(&items);
    assert_eq!(mapping, vec![2, 3, 4]);
}

#[test]
fn check_get_pointers_mapping_for_maybe() {
    // (Int?, (Float, SomeType))?
    let test_type = Type::Maybe(Box::new(Type::Tuple(vec![
        Type::Maybe(Box::new(Type::Int)),
        Type::Tuple(vec![Type::Float, Type::Custom("SomeType")]),
    ])));

    let mapping = get_pointers_map_for_type(&test_type);
    assert_eq!(mapping, vec![4]);
}

#[test]
fn type_sizes_of_nested_values() {
    let t: Type<&str> = Type::Maybe(Box::new(Type::Tuple(vec![
        Type::Maybe(Box::new(Type::Int)),
        Type::Tuple(vec![Type::Float, Type::Custom("SomeType")]),
    ])));
    assert_eq!(get_type_size(&t), 5);
    assert_eq!(get_tuple_subitem_size(&t, &[0]), 1);
    assert_eq!(get_tuple_subitem_size(&t, &[1]), 4);
    assert_eq!(get_tuple_subitem_size(&t, &[1, 0]), 2);
    assert_eq!(get_tuple_subitem_size(&t, &[1, 1, 1]), 1);
    let empty: Type<&str> = Type::Tuple(vec![]);
    assert_eq!(get_type_size(&empty), 0);
    assert_eq!(get_pointers_map_for_type(&empty), Vec::<usize>::new());
}

#[test]
fn pointers_of_strings_and_lists() {
    let t: Type<&str> = Type::Tuple(vec![Type::String, Type::Int, Type::List(Box::new(Type::Int))]);
    assert_eq!(get_pointers_map_for_type(&t), vec![0, 2]);
    let single: Vec<Type<&str>> = vec![Type::Maybe(Box::new(Type::String))];
    assert_eq!(get_pointers_map_for_sequence(&single), vec![1]);
}
