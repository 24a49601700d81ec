use graphsynth::catalog::ForeignKeyEdge;
use graphsynth::cells::{reflective_get, RawCell};
use graphsynth::config::connection_config;
use graphsynth::error::{DriverError, EnvironmentError, ResolutionError};
use graphsynth::resolver::{
    build_select, cap_rows, populate_row_bag, resolve_field, GraphValue, RowBag,
};
use graphsynth::scalar::ScalarKind;

fn edge(t: &str, c: &str, ft: &str, fc: &str) -> ForeignKeyEdge {
    ForeignKeyEdge {
        owning_table: t.to_string(),
        local_column: c.to_string(),
        referenced_table: ft.to_string(),
        referenced_column: fc.to_string(),
    }
}

fn strings(v: &[&str]) -> Vec<String> {
    v.iter().map(|s| s.to_string()).collect()
}

#[test]
fn renders_each_cell_family() {
    assert_eq!(reflective_get("bool", &RawCell::Boolean(true)), "true");
    assert_eq!(reflective_get("bool", &RawCell::Boolean(false)), "false");
    assert_eq!(reflective_get("char", &RawCell::CharByte(-7)), "-7");
    assert_eq!(reflective_get("int2", &RawCell::SmallInt(12)), "12");
    assert_eq!(reflective_get("int4", &RawCell::Integer(-2147483648)), "-2147483648");
    assert_eq!(
        reflective_get("int8", &RawCell::BigInt(9223372036854775807)),
        "9223372036854775807"
    );
    assert_eq!(reflective_get("text", &RawCell::Text("abc".to_string())), "abc");
    assert_eq!(reflective_get("float8", &RawCell::FloatText("2.25".to_string())), "2.25");
    assert_eq!(reflective_get("uuid", &RawCell::Unrecognized), "CANNOT PARSE");
}

// an absent value coerces to the sentinel whatever the declared native type
#[test]
fn absent_always_renders_the_sentinel() {
    for native in ["bool", "int4", "float8", "text", "timestamptz", "uuid"] {
        assert_eq!(reflective_get(native, &RawCell::Absent), "NULL");
    }
}

// a known instant renders to the one fixed UTC text, run after run
#[test]
fn timestamp_renders_fixed_utc_text() {
    let cell = RawCell::Timestamp { secs: 1431648000, nanos: 0 };
    let first = reflective_get("timestamptz", &cell);
    assert_eq!(first, "2015-05-15 00:00:00 UTC");
    let again = reflective_get("timestamptz", &cell);
    assert_eq!(first, again);
}

#[test]
fn populates_bag_in_projection_order() {
    let names = strings(&["id", "name", "active"]);
    let types = strings(&["int4", "text", "bool"]);
    let cells = vec![
        RawCell::Integer(3),
        RawCell::Text("ada".to_string()),
        RawCell::Boolean(true),
    ];
    let bag = populate_row_bag(&names, &types, &cells);
    assert_eq!(
        bag.entries,
        vec![
            ("id".to_string(), "3".to_string()),
            ("name".to_string(), "ada".to_string()),
            ("active".to_string(), "true".to_string()),
        ]
    );
}

fn bag(pairs: &[(&str, &str)]) -> RowBag {
    RowBag {
        entries: pairs.iter().map(|(k, v)| (k.to_string(), v.to_string())).collect(),
    }
}

#[test]
fn resolves_each_scalar_kind() {
    let b = bag(&[("id", "41"), ("name", "ada"), ("active", "true"), ("score", "1.5")]);
    assert_eq!(resolve_field(&b, "id", ScalarKind::Integer), Ok(GraphValue::Integer(41)));
    assert_eq!(
        resolve_field(&b, "name", ScalarKind::Text),
        Ok(GraphValue::Text("ada".to_string()))
    );
    assert_eq!(resolve_field(&b, "active", ScalarKind::Boolean), Ok(GraphValue::Boolean(true)));
    assert_eq!(
        resolve_field(&b, "score", ScalarKind::Float),
        Ok(GraphValue::Float("1.5".to_string()))
    );
}

#[test]
fn boolean_parse_recognizes_exactly_the_literal_true() {
    let b = bag(&[("a", "true"), ("b", "TRUE"), ("c", "yes"), ("d", "false")]);
    assert_eq!(resolve_field(&b, "a", ScalarKind::Boolean), Ok(GraphValue::Boolean(true)));
    assert_eq!(resolve_field(&b, "b", ScalarKind::Boolean), Ok(GraphValue::Boolean(false)));
    assert_eq!(resolve_field(&b, "c", ScalarKind::Boolean), Ok(GraphValue::Boolean(false)));
    assert_eq!(resolve_field(&b, "d", ScalarKind::Boolean), Ok(GraphValue::Boolean(false)));
}

// the stored sentinel yields the graph null whatever the declared kind
#[test]
fn sentinel_resolves_to_null_under_every_kind() {
    let b = bag(&[("v", "NULL")]);
    for kind in [ScalarKind::Boolean, ScalarKind::Integer, ScalarKind::Float, ScalarKind::Text] {
        assert_eq!(resolve_field(&b, "v", kind), Ok(GraphValue::Null));
    }
}

#[test]
fn sentinel_differs_from_empty_text() {
    let b = bag(&[("v", "")]);
    assert_eq!(
        resolve_field(&b, "v", ScalarKind::Text),
        Ok(GraphValue::Text("".to_string()))
    );
}

#[test]
fn missing_field_fails_loudly() {
    let b = bag(&[("id", "1")]);
    assert_eq!(
        resolve_field(&b, "name", ScalarKind::Text),
        Err(ResolutionError::MissingField("name".to_string()))
    );
}

#[test]
fn malformed_integer_is_refused_not_bent() {
    let b = bag(&[("id", "12a"), ("big", "9223372036854775808")]);
    assert_eq!(
        resolve_field(&b, "id", ScalarKind::Integer),
        Err(ResolutionError::MalformedValue("12a".to_string()))
    );
    assert_eq!(
        resolve_field(&b, "big", ScalarKind::Integer),
        Err(ResolutionError::MalformedValue("9223372036854775808".to_string()))
    );
}

#[test]
fn builds_plain_select_with_row_cap() {
    let sql = build_select("noexapp", "users", &strings(&["id", "name", "active"]), &vec![])
        .unwrap();
    assert_eq!(sql, "SELECT id, name, active FROM noexapp.users LIMIT 100");
}

// one generated statement resolves the relation: a single join, not a round
// trip per row
#[test]
fn builds_single_statement_with_join() {
    let edges = vec![edge("orders", "user_id", "users", "id")];
    let sql = build_select(
        "noexapp",
        "orders",
        &strings(&["id", "user_id_join_on_users"]),
        &edges,
    )
    .unwrap();
    assert_eq!(
        sql,
        "SELECT id FROM noexapp.orders JOIN noexapp.users ON orders.user_id = users.id LIMIT 100"
    );
    assert_eq!(sql.matches("SELECT").count(), 1);
}

#[test]
fn every_statement_ends_with_the_row_cap() {
    let edges = vec![edge("orders", "user_id", "users", "id")];
    let plain = build_select("noexapp", "orders", &strings(&["id"]), &edges).unwrap();
    let joined =
        build_select("noexapp", "orders", &strings(&["id", "user_id_join_on_users"]), &edges)
            .unwrap();
    assert!(plain.ends_with(" LIMIT 100"));
    assert!(joined.ends_with(" LIMIT 100"));
}

#[test]
fn unknown_relation_field_is_refused() {
    let r = build_select("noexapp", "orders", &strings(&["ghost_join_on_users"]), &vec![]);
    assert_eq!(
        r,
        Err(ResolutionError::UnknownRelationField("ghost_join_on_users".to_string()))
    );
}

// a result of more than a hundred rows yields exactly a hundred entries
#[test]
fn row_cap_keeps_exactly_one_hundred() {
    let rows: Vec<RowBag> = (0..150)
        .map(|i| bag(&[("id", &i.to_string())]))
        .collect();
    let capped = cap_rows(rows.clone());
    assert_eq!(capped.len(), 100);
    assert_eq!(capped[0], rows[0]);
    assert_eq!(capped[99], rows[99]);
    let few = cap_rows(rows[..3].to_vec());
    assert_eq!(few.len(), 3);
}

// three stored rows resolve to three entries with typed values matching what
// was stored
#[test]
fn three_user_rows_resolve_to_typed_values() {
    let names = strings(&["id", "name", "active"]);
    let types = strings(&["int4", "text", "bool"]);
    let stored: Vec<(i32, &str, bool)> =
        vec![(1, "ada", true), (2, "alan", false), (3, "grace", true)];
    let bags: Vec<RowBag> = stored
        .iter()
        .map(|(id, name, active)| {
            let cells = vec![
                RawCell::Integer(*id),
                RawCell::Text(name.to_string()),
                RawCell::Boolean(*active),
            ];
            populate_row_bag(&names, &types, &cells)
        })
        .collect();
    let bags = cap_rows(bags);
    assert_eq!(bags.len(), 3);
    for (i, (id, name, active)) in stored.iter().enumerate() {
        assert_eq!(
            resolve_field(&bags[i], "id", ScalarKind::Integer),
            Ok(GraphValue::Integer(*id as i64))
        );
        assert_eq!(
            resolve_field(&bags[i], "name", ScalarKind::Text),
            Ok(GraphValue::Text(name.to_string()))
        );
        assert_eq!(
            resolve_field(&bags[i], "active", ScalarKind::Boolean),
            Ok(GraphValue::Boolean(*active))
        );
    }
}

#[test]
fn connection_string_holds_all_four_parameters() {
    let r = connection_config(
        Some("localhost".to_string()),
        Some("postgres".to_string()),
        Some("SECRET-REDACTED".to_string()),
        Some("5432".to_string()),
    );
    assert_eq!(
        r.unwrap(),
        "host=localhost user=postgres password=SECRET-REDACTED port=5432"
    );
}

// startup is fatal on the first missing parameter, in the fixed order
#[test]
fn missing_parameter_is_fatal_with_its_name() {
    let some = || Some("x".to_string());
    let cases: Vec<(usize, &str)> = vec![
        (0, "Missing environment variable DB_HOST"),
        (1, "Missing environment variable DB_USER"),
        (2, "Missing environment variable DB_PASSWORD"),
        (3, "Missing environment variable DB_PORT"),
    ];
    for (slot, expected) in cases {
        let mut params = [some(), some(), some(), some()];
        params[slot] = None;
        let [h, u, p, q] = params;
        match connection_config(h, u, p, q) {
            Err(DriverError::EnvironmentError(EnvironmentError::MissingEnvironmentVariable(
                m,
            ))) => assert_eq!(m, expected),
            other => panic!("expected a missing-variable failure, got {:?}", other),
        }
    }
}

#[test]
fn error_messages_name_the_failure() {
    let e = EnvironmentError::MissingEnvironmentVariable("Missing environment variable DB_HOST");
    assert_eq!(e.message(), "EnvironmentError: Missing environment variable DB_HOST");
    let e = ResolutionError::MissingField("name".to_string());
    assert_eq!(e.message(), "field not present in the fetched row: name");
}
