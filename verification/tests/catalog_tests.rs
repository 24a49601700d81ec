use graphsynth::catalog::{
    catalog_relations_query, catalog_tables_query, collect_tables, group_relations,
    parse_columns, relations_for, ForeignKeyEdge,
};

fn quad(t: &str, c: &str, ft: &str, fc: &str) -> (String, String, String, String) {
    (t.to_string(), c.to_string(), ft.to_string(), fc.to_string())
}

#[test]
fn parses_aggregated_columns() {
    let cols = parse_columns("id:integer, name:text, active:boolean").unwrap();
    assert_eq!(
        cols,
        vec![
            ("id".to_string(), "integer".to_string()),
            ("name".to_string(), "text".to_string()),
            ("active".to_string(), "boolean".to_string()),
        ]
    );
}

#[test]
fn parses_single_column() {
    let cols = parse_columns("id:int4").unwrap();
    assert_eq!(cols, vec![("id".to_string(), "int4".to_string())]);
}

#[test]
fn keeps_text_before_second_colon_only() {
    let cols = parse_columns("ts:timestamp:odd").unwrap();
    assert_eq!(cols, vec![("ts".to_string(), "timestamp".to_string())]);
}

#[test]
fn refuses_piece_without_colon() {
    assert!(parse_columns("id:integer, broken").is_none());
    assert!(parse_columns("broken").is_none());
}

#[test]
fn collects_tables_in_row_order() {
    let rows = vec![
        ("orders".to_string(), "id:int4, user_id:int4".to_string()),
        ("users".to_string(), "id:int4, name:text".to_string()),
    ];
    let tables = collect_tables(rows).unwrap();
    assert_eq!(tables.len(), 2);
    assert_eq!(tables[0].name, "orders");
    assert_eq!(
        tables[0].columns,
        vec![
            ("id".to_string(), "int4".to_string()),
            ("user_id".to_string(), "int4".to_string()),
        ]
    );
    assert_eq!(tables[1].name, "users");
}

#[test]
fn collects_nothing_on_malformed_listing() {
    let rows = vec![("users".to_string(), "id".to_string())];
    assert!(collect_tables(rows).is_none());
}

#[test]
fn groups_relations_by_owning_table() {
    let rows = vec![
        quad("orders", "user_id", "users", "id"),
        quad("invoices", "order_id", "orders", "id"),
        quad("orders", "shipper_id", "shippers", "id"),
    ];
    let groups = group_relations(&rows);
    assert_eq!(groups.len(), 2);
    let orders = relations_for(&groups, "orders").unwrap();
    assert_eq!(orders.len(), 2);
    assert_eq!(orders[0].local_column, "user_id");
    assert_eq!(orders[0].referenced_table, "users");
    assert_eq!(orders[0].referenced_column, "id");
    assert_eq!(orders[1].local_column, "shipper_id");
    let invoices = relations_for(&groups, "invoices").unwrap();
    assert_eq!(invoices.len(), 1);
    assert_eq!(invoices[0].referenced_table, "orders");
}

#[test]
fn table_without_foreign_keys_has_no_group() {
    let rows = vec![quad("orders", "user_id", "users", "id")];
    let groups = group_relations(&rows);
    assert!(relations_for(&groups, "users").is_none());
}

#[test]
fn group_edges_carry_all_row_fields() {
    let rows = vec![quad("a", "b", "c", "d")];
    let groups = group_relations(&rows);
    let edges: &Vec<ForeignKeyEdge> = relations_for(&groups, "a").unwrap();
    assert_eq!(edges[0].owning_table, "a");
    assert_eq!(edges[0].local_column, "b");
    assert_eq!(edges[0].referenced_table, "c");
    assert_eq!(edges[0].referenced_column, "d");
}

#[test]
fn introspection_queries_are_scoped_to_the_namespace() {
    let q = catalog_tables_query("noexapp");
    assert_eq!(
        q,
        "SELECT table_name, string_agg(column_name || ':' || data_type, ', ') AS columns \
         FROM information_schema.columns WHERE table_schema = 'noexapp' \
         GROUP BY table_name ORDER BY table_name"
    );
    let q = catalog_relations_query("noexapp");
    assert!(q.contains("WHERE constraint_type = 'FOREIGN KEY'"));
    assert!(q.contains("AND tc.table_schema = 'noexapp'"));
    assert!(q.starts_with("SELECT tc.constraint_name, tc.table_name, kcu.column_name"));
}
