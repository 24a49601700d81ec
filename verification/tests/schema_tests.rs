use graphsynth::catalog::{ForeignKeyEdge, TableDescriptor};
use graphsynth::scalar::ScalarKind;
use graphsynth::schema::{
    generate_query_root, generate_table_interfaces, generate_table_schemas,
    relation_field_names, FieldBinding,
};

fn users_table() -> TableDescriptor {
    TableDescriptor {
        name: "users".to_string(),
        columns: vec![
            ("id".to_string(), "int4".to_string()),
            ("name".to_string(), "text".to_string()),
            ("active".to_string(), "bool".to_string()),
        ],
    }
}

fn orders_table() -> TableDescriptor {
    TableDescriptor {
        name: "orders".to_string(),
        columns: vec![
            ("id".to_string(), "int4".to_string()),
            ("user_id".to_string(), "int4".to_string()),
        ],
    }
}

fn edge(t: &str, c: &str, ft: &str, fc: &str) -> ForeignKeyEdge {
    ForeignKeyEdge {
        owning_table: t.to_string(),
        local_column: c.to_string(),
        referenced_table: ft.to_string(),
        referenced_column: fc.to_string(),
    }
}

#[test]
fn interfaces_carry_uppercased_names_and_typed_columns() {
    let interfaces = generate_table_interfaces(&vec![users_table()]);
    assert_eq!(interfaces.len(), 1);
    assert_eq!(interfaces[0].name, "USERS");
    assert_eq!(
        interfaces[0].fields,
        vec![
            ("id".to_string(), ScalarKind::Integer),
            ("name".to_string(), ScalarKind::Text),
            ("active".to_string(), ScalarKind::Boolean),
        ]
    );
}

#[test]
fn objects_implement_their_interfaces() {
    let tables = vec![users_table(), orders_table()];
    let relations = vec![("orders".to_string(), vec![edge("orders", "user_id", "users", "id")])];
    let objects = generate_table_schemas(&tables, &relations);
    assert_eq!(objects.len(), 2);
    assert_eq!(objects[0].name, "users");
    assert_eq!(objects[0].implements, "USERS");
    assert_eq!(objects[1].name, "orders");
    assert_eq!(objects[1].implements, "ORDERS");
}

// a table with zero foreign keys gets no relation field: absence, not an
// empty list
#[test]
fn zero_foreign_keys_mean_no_relation_fields() {
    let tables = vec![users_table()];
    let relations = vec![];
    let objects = generate_table_schemas(&tables, &relations);
    assert_eq!(objects[0].fields.len(), 3);
    for f in &objects[0].fields {
        assert!(matches!(f.binding, FieldBinding::Column { .. }));
    }
}

#[test]
fn foreign_key_becomes_relation_field() {
    let tables = vec![orders_table()];
    let relations = vec![("orders".to_string(), vec![edge("orders", "user_id", "users", "id")])];
    let objects = generate_table_schemas(&tables, &relations);
    assert_eq!(objects[0].fields.len(), 3);
    let f = &objects[0].fields[2];
    assert_eq!(f.name, "user_id_join_on_users");
    match &f.binding {
        FieldBinding::Relation { local_column, referenced_table, referenced_column } => {
            assert_eq!(local_column, "user_id");
            assert_eq!(referenced_table, "users");
            assert_eq!(referenced_column, "id");
        }
        other => panic!("expected a relation binding, got {:?}", other),
    }
}

#[test]
fn column_fields_keep_catalog_order_and_types() {
    let tables = vec![users_table()];
    let objects = generate_table_schemas(&tables, &vec![]);
    let names: Vec<&str> = objects[0].fields.iter().map(|f| f.name.as_str()).collect();
    assert_eq!(names, vec!["id", "name", "active"]);
    match &objects[0].fields[2].binding {
        FieldBinding::Column { native_type, scalar } => {
            assert_eq!(native_type, "bool");
            assert_eq!(*scalar, ScalarKind::Boolean);
        }
        other => panic!("expected a column binding, got {:?}", other),
    }
}

// two edges targeting the same referenced table get pairwise distinct names
#[test]
fn repeated_compositions_are_disambiguated() {
    let edges = vec![
        edge("reviews", "author_id", "users", "id"),
        edge("reviews", "editor_id", "users", "id"),
        edge("reviews", "author_id", "users", "id"),
    ];
    let names = relation_field_names(&edges);
    assert_eq!(names[0], "author_id_join_on_users");
    assert_eq!(names[1], "editor_id_join_on_users");
    assert_eq!(names[2], "author_id_join_on_users_2");
    assert_ne!(names[0], names[1]);
    assert_ne!(names[0], names[2]);
    assert_ne!(names[1], names[2]);
}

#[test]
fn query_root_lists_one_field_per_table() {
    let roots = generate_query_root(&vec![users_table(), orders_table()]);
    assert_eq!(roots.len(), 2);
    assert_eq!(roots[0].table_name, "users");
    assert_eq!(roots[1].table_name, "orders");
}
