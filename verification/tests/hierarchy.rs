use cycler_core::hierarchy::{
    path_into_insertion_rules, HierarchyError, InsertionRule, StructHierarchy,
};
use cycler_core::path::PathSegment;

fn rules_match(actual: &[InsertionRule], expected: &[InsertionRule]) -> bool {
    if actual.len() != expected.len() {
        return false;
    }
    actual.iter().zip(expected.iter()).all(|(a, b)| match (a, b) {
        (
            InsertionRule::InsertField { name },
            InsertionRule::InsertField {
                name: expected_name,
            },
        ) => name == expected_name,
        (InsertionRule::BeginOptional, InsertionRule::BeginOptional) => true,
        (InsertionRule::BeginStruct, InsertionRule::BeginStruct) => true,
        (
            InsertionRule::AppendDataType { data_type },
            InsertionRule::AppendDataType {
                data_type: expected_data_type,
            },
        ) => data_type == expected_data_type,
        _ => false,
    })
}

#[test]
fn paths_expand_to_correct_insertion_rules() {
    let data_type = String::new();
    let cases = [
        (
            "a/b/c",
            vec![
                InsertionRule::BeginStruct,
                InsertionRule::InsertField {
                    name: "a".to_string(),
                },
                InsertionRule::BeginStruct,
                InsertionRule::InsertField {
                    name: "b".to_string(),
                },
                InsertionRule::BeginStruct,
                InsertionRule::InsertField {
                    name: "c".to_string(),
                },
                InsertionRule::AppendDataType {
                    data_type: data_type.clone(),
                },
            ],
        ),
        (
            "a?/b/c",
            vec![
                InsertionRule::BeginStruct,
                InsertionRule::InsertField {
                    name: "a".to_string(),
                },
                InsertionRule::BeginOptional,
                InsertionRule::BeginStruct,
                InsertionRule::InsertField {
                    name: "b".to_string(),
                },
                InsertionRule::BeginStruct,
                InsertionRule::InsertField {
                    name: "c".to_string(),
                },
                InsertionRule::AppendDataType {
                    data_type: data_type.clone(),
                },
            ],
        ),
        (
            "a?/b?/c",
            vec![
                InsertionRule::BeginStruct,
                InsertionRule::InsertField {
                    name: "a".to_string(),
                },
                InsertionRule::BeginOptional,
                InsertionRule::BeginStruct,
                InsertionRule::InsertField {
                    name: "b".to_string(),
                },
                InsertionRule::BeginOptional,
                InsertionRule::BeginStruct,
                InsertionRule::InsertField {
                    name: "c".to_string(),
                },
                InsertionRule::AppendDataType {
                    data_type: data_type.clone(),
                },
            ],
        ),
        (
            "a?/b?/c?",
            vec![
                InsertionRule::BeginStruct,
                InsertionRule::InsertField {
                    name: "a".to_string(),
                },
                InsertionRule::BeginOptional,
                InsertionRule::BeginStruct,
                InsertionRule::InsertField {
                    name: "b".to_string(),
                },
                InsertionRule::BeginOptional,
                InsertionRule::BeginStruct,
                InsertionRule::InsertField {
                    name: "c".to_string(),
                },
                InsertionRule::BeginOptional,
                InsertionRule::AppendDataType {
                    data_type: data_type.clone(),
                },
            ],
        ),
        (
            "a/b?/c?",
            vec![
                InsertionRule::BeginStruct,
                InsertionRule::InsertField {
                    name: "a".to_string(),
                },
                InsertionRule::BeginStruct,
                InsertionRule::InsertField {
                    name: "b".to_string(),
                },
                InsertionRule::BeginOptional,
                InsertionRule::BeginStruct,
                InsertionRule::InsertField {
                    name: "c".to_string(),
                },
                InsertionRule::BeginOptional,
                InsertionRule::AppendDataType {
                    data_type: data_type.clone(),
                },
            ],
        ),
        (
            "a/b/c?",
            vec![
                InsertionRule::BeginStruct,
                InsertionRule::InsertField {
                    name: "a".to_string(),
                },
                InsertionRule::BeginStruct,
                InsertionRule::InsertField {
                    name: "b".to_string(),
                },
                InsertionRule::BeginStruct,
                InsertionRule::InsertField {
                    name: "c".to_string(),
                },
                InsertionRule::BeginOptional,
                InsertionRule::AppendDataType {
                    data_type: data_type.clone(),
                },
            ],
        ),
    ];

    for case in cases {
        let path = case.0;
        let path_segments: Vec<_> = path.split('/').map(PathSegment::parse).collect();
        let insertion_rules = path_into_insertion_rules(&path_segments, &data_type);
        let expected_insertion_rules = case.1;
        assert!(
            rules_match(&insertion_rules, &expected_insertion_rules),
            "path: {path:?}, insertion_rules: {insertion_rules:?}, expected_insertion_rules: {expected_insertion_rules:?}"
        );
    }
}

fn field<'a>(
    fields: &'a [(String, StructHierarchy)],
    name: &str,
) -> Option<&'a StructHierarchy> {
    fields
        .iter()
        .find(|(field_name, _)| field_name == name)
        .map(|(_, child)| child)
}

#[test]
fn insertion_rules_without_optionals_result_in_correct_struct_hierarchy() {
    let data_type = String::new();
    let insertion_rules = vec![
        InsertionRule::BeginStruct,
        InsertionRule::InsertField {
            name: "a".to_string(),
        },
        InsertionRule::BeginStruct,
        InsertionRule::InsertField {
            name: "b".to_string(),
        },
        InsertionRule::BeginStruct,
        InsertionRule::InsertField {
            name: "c".to_string(),
        },
        InsertionRule::AppendDataType {
            data_type: data_type.clone(),
        },
    ];
    let mut hierarchy = StructHierarchy::default();
    hierarchy.insert(insertion_rules).unwrap();

    assert!(
        match &hierarchy {
            StructHierarchy::Struct { fields }
                if fields.len() == 1
                    && match field(fields, "a") {
                        Some(StructHierarchy::Struct { fields })
                            if fields.len() == 1
                                && match field(fields, "b") {
                                    Some(StructHierarchy::Struct { fields })
                                        if fields.len() == 1
                                            && match field(fields, "c") {
                                                Some(StructHierarchy::Field {
                                                    data_type: matched_data_type,
                                                }) if &data_type == matched_data_type => true,
                                                _ => false,
                                            } =>
                                        true,
                                    _ => false,
                                } =>
                            true,
                        _ => false,
                    } =>
                true,
            _ => false,
        },
        "{hierarchy:?} does not match"
    );
}

#[test]
fn insertion_rules_with_one_optional_result_in_correct_struct_hierarchy() {
    let data_type = String::new();
    let insertion_rules = vec![
        InsertionRule::BeginStruct,
        InsertionRule::InsertField {
            name: "a".to_string(),
        },
        InsertionRule::BeginOptional,
        InsertionRule::BeginStruct,
        InsertionRule::InsertField {
            name: "b".to_string(),
        },
        InsertionRule::BeginStruct,
        InsertionRule::InsertField {
            name: "c".to_string(),
        },
        InsertionRule::AppendDataType {
            data_type: data_type.clone(),
        },
    ];
    let mut hierarchy = StructHierarchy::default();
    hierarchy.insert(insertion_rules).unwrap();

    assert!(
        match &hierarchy {
            StructHierarchy::Struct { fields }
                if fields.len() == 1
                    && match field(fields, "a") {
                        Some(StructHierarchy::Optional { child }) => match &**child {
                            StructHierarchy::Struct { fields }
                                if fields.len() == 1
                                    && match field(fields, "b") {
                                        Some(StructHierarchy::Struct { fields })
                                            if fields.len() == 1
                                                && match field(fields, "c") {
                                                    Some(StructHierarchy::Field {
                                                        data_type: matched_data_type,
                                                    }) if &data_type == matched_data_type =>
                                                        true,
                                                    _ => false,
                                                } =>
                                            true,
                                        _ => false,
                                    } =>
                                true,
                            _ => false,
                        },
                        _ => false,
                    } =>
                true,
            _ => false,
        },
        "{hierarchy:?} does not match"
    );
}

#[test]
fn insertion_rules_with_two_optionals_result_in_correct_struct_hierarchy() {
    let data_type = String::new();
    let insertion_rules = vec![
        InsertionRule::BeginStruct,
        InsertionRule::InsertField {
            name: "a".to_string(),
        },
        InsertionRule::BeginOptional,
        InsertionRule::BeginStruct,
        InsertionRule::InsertField {
            name: "b".to_string(),
        },
        InsertionRule::BeginOptional,
        InsertionRule::BeginStruct,
        InsertionRule::InsertField {
            name: "c".to_string(),
        },
        InsertionRule::AppendDataType {
            data_type: data_type.clone(),
        },
    ];
    let mut hierarchy = StructHierarchy::default();
    hierarchy.insert(insertion_rules).unwrap();

    assert!(
        match &hierarchy {
            StructHierarchy::Struct { fields }
                if fields.len() == 1
                    && match field(fields, "a") {
                        Some(StructHierarchy::Optional { child }) => match &**child {
                            StructHierarchy::Struct { fields }
                                if fields.len() == 1
                                    && match field(fields, "b") {
                                        Some(StructHierarchy::Optional { child }) =>
                                            match &**child {
                                                StructHierarchy::Struct { fields }
                                                    if fields.len() == 1
                                                        && match field(fields, "c") {
                                                            Some(StructHierarchy::Field {
                                                                data_type: matched_data_type,
                                                            }) if &data_type
                                                                == matched_data_type =>
                                                                true,
                                                            _ => false,
                                                        } =>
                                                    true,
                                                _ => false,
                                            },
                                        _ => false,
                                    } =>
                                true,
                            _ => false,
                        },
                        _ => false,
                    } =>
                true,
            _ => false,
        },
        "{hierarchy:?} does not match"
    );
}

#[test]
fn insertion_rules_with_three_optionals_result_in_correct_struct_hierarchy() {
    let data_type = String::new();
    let insertion_rules = vec![
        InsertionRule::BeginStruct,
        InsertionRule::InsertField {
            name: "a".to_string(),
        },
        InsertionRule::BeginOptional,
        InsertionRule::BeginStruct,
        InsertionRule::InsertField {
            name: "b".to_string(),
        },
        InsertionRule::BeginOptional,
        InsertionRule::BeginStruct,
        InsertionRule::InsertField {
            name: "c".to_string(),
        },
        InsertionRule::BeginOptional,
        InsertionRule::AppendDataType {
            data_type: data_type.clone(),
        },
    ];
    let mut hierarchy = StructHierarchy::default();
    hierarchy.insert(insertion_rules).unwrap();

    assert!(
        match &hierarchy {
            StructHierarchy::Struct { fields }
                if fields.len() == 1
                    && match field(fields, "a") {
                        Some(StructHierarchy::Optional { child }) => match &**child {
                            StructHierarchy::Struct { fields }
                                if fields.len() == 1
                                    && match field(fields, "b") {
                                        Some(StructHierarchy::Optional { child }) =>
                                            match &**child {
                                                StructHierarchy::Struct { fields }
                                                    if fields.len() == 1
                                                        && match field(fields, "c") {
                                                            Some(StructHierarchy::Optional {
                                                                child,
                                                            }) => match &**child {
                                                                StructHierarchy::Field {
                                                                    data_type:
                                                                        matched_data_type,
                                                                } if &data_type
                                                                    == matched_data_type =>
                                                                    true,
                                                                _ => false,
                                                            },
                                                            _ => false,
                                                        } =>
                                                    true,
                                                _ => false,
                                            },
                                        _ => false,
                                    } =>
                                true,
                            _ => false,
                        },
                        _ => false,
                    } =>
                true,
            _ => false,
        },
        "{hierarchy:?} does not match"
    );
}

#[test]
fn appending_a_different_data_type_is_refused() {
    let mut hierarchy = StructHierarchy::default();
    hierarchy
        .insert(vec![InsertionRule::AppendDataType {
            data_type: "bool".to_string(),
        }])
        .unwrap();
    let result = hierarchy.insert(vec![InsertionRule::AppendDataType {
        data_type: "u32".to_string(),
    }]);
    assert_eq!(result, Err(HierarchyError::MismatchedDataType));
    let again = hierarchy.insert(vec![InsertionRule::AppendDataType {
        data_type: "bool".to_string(),
    }]);
    assert_eq!(again, Ok(()));
}

#[test]
fn growing_structure_over_a_non_empty_struct_is_refused() {
    let mut hierarchy = StructHierarchy::default();
    hierarchy
        .insert(vec![
            InsertionRule::BeginStruct,
            InsertionRule::InsertField {
                name: "a".to_string(),
            },
            InsertionRule::AppendDataType {
                data_type: "bool".to_string(),
            },
        ])
        .unwrap();
    assert_eq!(
        hierarchy.insert(vec![InsertionRule::BeginOptional]),
        Err(HierarchyError::OptionalInNonEmptyStruct)
    );
    assert_eq!(
        hierarchy.insert(vec![InsertionRule::AppendDataType {
            data_type: "bool".to_string(),
        }]),
        Err(HierarchyError::DataTypeInNonEmptyStruct)
    );

    // The refusals replaced nothing: the existing field and its stored
    // leaf data type are still in place.
    assert!(match &hierarchy {
        StructHierarchy::Struct { fields } => fields.len() == 1
            && matches!(
                field(fields, "a"),
                Some(StructHierarchy::Field { data_type }) if data_type == "bool"
            ),
        _ => false,
    });
}

#[test]
fn inserting_into_an_optional_layer_is_refused() {
    let mut hierarchy = StructHierarchy::default();
    hierarchy.insert(vec![InsertionRule::BeginOptional]).unwrap();
    assert_eq!(
        hierarchy.insert(vec![InsertionRule::InsertField {
            name: "a".to_string(),
        }]),
        Err(HierarchyError::FieldInOptional)
    );
    assert_eq!(
        hierarchy.insert(vec![InsertionRule::BeginStruct]),
        Err(HierarchyError::StructInOptional)
    );
    assert_eq!(
        hierarchy.insert(vec![InsertionRule::AppendDataType {
            data_type: "bool".to_string(),
        }]),
        Err(HierarchyError::DataTypeInOptional)
    );
}
