use sqlited::params::{sql_params, StaticParamsHolder, WithoutId};
use sqlited::value::SqlValue;

struct User;

fn int_value(v: &SqlValue) -> i64 {
    match v {
        SqlValue::Integer(i) => *i,
        _ => panic!("expected an integer"),
    }
}

fn text(v: &SqlValue) -> String {
    match v {
        SqlValue::Text(b) => String::from_utf8(b.clone()).unwrap(),
        _ => panic!("expected text"),
    }
}

#[test]
fn without_id_test_test_without_id_macro() {
    let mut user_data: WithoutId<User> = WithoutId::new();
    user_data.set("name", "John Doe").set("age", 30i32).set("email", Some("john@example.com"));
    assert_eq!(user_data.field_names().len(), 3);
    assert!(user_data.get_field("name").is_some());
    assert!(user_data.get_field("age").is_some());
    assert!(user_data.get_field("email").is_some());
}

#[test]
fn set_then_get_reads_back() {
    let mut w: WithoutId<User> = WithoutId::new();
    w.set("Age", 30i32);
    match w.get_field("age") {
        Some(Ok(v)) => assert_eq!(int_value(v), 30),
        _ => panic!("age was set"),
    }
    w.set("age", 31i32);
    assert_eq!(w.field_names(), vec!["age".to_string()]);
    match w.get_field("AGE") {
        Some(Ok(v)) => assert_eq!(int_value(v), 31),
        _ => panic!("age was set again"),
    }
    assert!(w.get_field("name").is_none());
}

#[test]
fn static_params_in_requested_order() {
    let mut w: WithoutId<User> = WithoutId::new();
    w.set("name", "Ann").set("age", 7i32);
    let holder = w.create_static_params_for_fields(&["age".to_string(), "missing".to_string(), "name".to_string()]);
    assert_eq!(holder.len(), 2);
    assert_eq!(int_value(&holder.as_slice()[0]), 7);
    assert_eq!(text(&holder.as_slice()[1]), "Ann");
}

#[test]
fn sql_params_keys_by_lowercase_name() {
    let fields = vec![
        ("name".to_string(), Ok(SqlValue::Text(b"Bob".to_vec()))),
        ("age".to_string(), Ok(SqlValue::Integer(40))),
    ];
    let holder: StaticParamsHolder = sql_params::<User>(fields);
    assert_eq!(holder.len(), 2);
    assert_eq!(text(&holder.params()[0]), "Bob");
    assert_eq!(int_value(&holder.params()[1]), 40);

    // a name with capitals is stored in lowercase but looked up as written
    let fields = vec![("Name".to_string(), Ok(SqlValue::Text(b"Cy".to_vec())))];
    let holder = sql_params::<User>(fields);
    assert_eq!(holder.len(), 0);
}

#[test]
fn sql_params_with_lowercase_names_keep_every_value() {
    let fields = vec![
        ("title".to_string(), Ok(SqlValue::Text(b"T".to_vec()))),
        ("views".to_string(), Ok(SqlValue::Integer(3))),
        ("draft".to_string(), Ok(SqlValue::Integer(0))),
    ];
    let holder = sql_params::<User>(fields);
    assert_eq!(holder.len(), 3);
    assert_eq!(text(&holder.params()[0]), "T");
    assert_eq!(int_value(&holder.params()[1]), 3);
    assert_eq!(int_value(&holder.params()[2]), 0);
}

#[test]
fn ordered_params_skip_missing_and_repeat_repeats() {
    let mut w: WithoutId<User> = WithoutId::new();
    w.set("name", "A").set("age", 1i32);
    let names = ["age".to_string(), "email".to_string(), "name".to_string(), "age".to_string()];
    let r = w.to_params_ordered(&names);
    assert_eq!(r.len(), 3);
    let h = w.create_static_params_for_fields(&names);
    assert_eq!(h.len(), 3);
    assert_eq!(int_value(&h.params()[0]), 1);
    assert_eq!(text(&h.params()[1]), "A");
    assert_eq!(int_value(&h.params()[2]), 1);
    let f = w.field_names();
    assert_eq!(f.len(), 2);
    assert_ne!(f[0], f[1]);
}
