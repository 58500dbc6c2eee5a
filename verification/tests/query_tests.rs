use sqlited::query::{
    extract_return_type_info, extract_tuple_elements, is_primitive_type, is_tuple_type, is_unit_type, query_plan,
    GenericArgModel, QueryShape, ReturnTypeModel,
};

fn result_of(text: &str, vec_inner: Option<&str>) -> ReturnTypeModel {
    ReturnTypeModel::Path {
        last_ident: "Result".to_string(),
        first_arg: Some(GenericArgModel { text: text.to_string(), vec_inner: vec_inner.map(|s| s.to_string()) }),
        text: format!("Result < {} >", text),
    }
}

#[test]
fn type_text_tests() {
    assert!(is_unit_type("( )"));
    assert!(!is_unit_type("(i32)"));
    assert!(is_primitive_type("Vec < u8 >"));
    assert!(is_primitive_type("& str"));
    assert!(!is_primitive_type("User"));
    assert!(is_tuple_type("(i32 , String)"));
    assert!(!is_tuple_type("i32"));
    assert_eq!(extract_tuple_elements("(i32 , String)"), vec!["i32".to_string(), "String".to_string()]);
    assert_eq!(extract_tuple_elements("((a , b))"), vec!["a".to_string(), "b".to_string()]);
}

#[test]
fn return_types() {
    let i = extract_return_type_info(&result_of("Vec < User >", Some("User")));
    assert_eq!(i.model_type, "User");
    assert!(i.is_vec && !i.is_tuple && !i.is_unit);
    let i = extract_return_type_info(&result_of("()", None));
    assert!(i.is_unit);
    let i = extract_return_type_info(&ReturnTypeModel::Default);
    assert!(i.is_unit && i.model_type == "()");
    let i = extract_return_type_info(&ReturnTypeModel::Other);
    assert_eq!(i.model_type, "UnknownType");
    let i = extract_return_type_info(&ReturnTypeModel::Path {
        last_ident: "User".to_string(),
        first_arg: None,
        text: "models :: User".to_string(),
    });
    assert_eq!(i.model_type, "models :: User");
    assert!(!i.is_vec && !i.is_unit);
}

#[test]
fn query_shapes() {
    assert!(matches!(query_plan(&result_of("()", None)).1, QueryShape::Execute));
    assert!(matches!(query_plan(&result_of("Vec < User >", Some("User"))).1, QueryShape::RowsOfModel));
    assert!(matches!(query_plan(&result_of("i64", None)).1, QueryShape::RowOfValue));
    assert!(matches!(query_plan(&result_of("Vec < String >", Some("String"))).1, QueryShape::RowsOfValue));
    match query_plan(&result_of("(i32 , String)", None)).1 {
        QueryShape::RowOfTuple(e) => assert_eq!(e, vec!["i32".to_string(), "String".to_string()]),
        _ => panic!("tuple row"),
    }
    assert!(matches!(query_plan(&result_of("User", None)).1, QueryShape::RowOfModel));
}
