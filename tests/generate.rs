use naorm::bind::{BindMode, BindStep};
use naorm::config::{extract_config, ConfigAttr};
use naorm::driver::{driver_from_lowercase, resolve_driver, Driver, GenerateError};
use naorm::fields::{analyze_fields, explicit_default_of, FieldInput, FieldType};
use naorm::generate::{generate, Generated};

fn path(t: &str) -> FieldType {
    FieldType::Path { last: t.to_string(), first_arg: None }
}

fn option_of(t: &str) -> FieldType {
    FieldType::Path { last: "Option".to_string(), first_arg: Some(t.to_string()) }
}

fn field(name: &str, ty: FieldType, annotations: &[&str]) -> FieldInput {
    FieldInput {
        name: name.to_string(),
        ty,
        annotations: annotations.iter().map(|a| a.to_string()).collect(),
    }
}

fn entry(key: &str, value: &str) -> ConfigAttr {
    ConfigAttr::Entry { key: key.to_string(), value: Some(value.to_string()) }
}

fn run(name: &str, attrs: Vec<ConfigAttr>, fields: Vec<FieldInput>) -> Generated {
    match generate(name, &attrs, &fields) {
        Ok(g) => g,
        Err(e) => panic!("generation failed: {:?}", e),
    }
}

fn step(field: usize, mode: BindMode) -> BindStep {
    BindStep { field, mode }
}

#[test]
fn my_struct_sql() {
    let g = run(
        "MyStruct",
        vec![],
        vec![
            field("id", path("i64"), &["# [naorm_cfg (primary_key , auto_increment)]"]),
            field("name", path("String"), &[]),
            field("active", path("bool"), &[]),
        ],
    );
    assert_eq!(g.table_name, "my_struct");
    assert_eq!(g.insert_sql, "INSERT INTO my_struct (name, active) VALUES (?, ?)");
    assert_eq!(g.update_sql, "UPDATE my_struct SET name = ?, active = ? WHERE id = ?");
    assert_eq!(g.delete_sql, "DELETE FROM my_struct WHERE id = ?");
    assert_eq!(g.select_sql, "SELECT id, name, active FROM my_struct");
    assert_eq!(g.primary_key, "id");
    assert!(g.pk_auto_increment);
    assert_eq!(g.insert_binds, vec![step(1, BindMode::StrView), step(2, BindMode::ValueRef)]);
    assert_eq!(
        g.update_binds,
        vec![step(1, BindMode::StrView), step(2, BindMode::ValueRef), step(0, BindMode::ValueRef)]
    );
    assert_eq!(g.delete_binds, vec![step(0, BindMode::ValueRef)]);
    assert_eq!(g.driver, Driver::Sqlite);
}

#[test]
fn book_note_metadata() {
    let g = run(
        "BookNote",
        vec![],
        vec![
            field("id", path("i64"), &["# [naorm_cfg (primary_key , auto_increment)]"]),
            field("book_id", path("i64"), &[]),
            field("content", path("String"), &[]),
            field("note", option_of("String"), &[]),
            field("color", option_of("String"), &[]),
            field("created_at", path("i64"), &[]),
        ],
    );
    assert_eq!(g.table_name, "book_note");
    assert_eq!(g.db_name, "");
    assert_eq!(g.table_type, "");
    assert_eq!(g.select_sql, "SELECT id, book_id, content, note, color, created_at FROM book_note");
    assert_eq!(
        g.insert_sql,
        "INSERT INTO book_note (book_id, content, note, color, created_at) VALUES (?, ?, ?, ?, ?)"
    );
    assert_eq!(
        g.update_sql,
        "UPDATE book_note SET book_id = ?, content = ?, note = ?, color = ?, created_at = ? WHERE id = ?"
    );
    assert_eq!(g.delete_sql, "DELETE FROM book_note WHERE id = ?");
    let rows: Vec<(String, String, bool, bool, bool, String)> = g
        .fields
        .iter()
        .map(|f| {
            (
                f.name.clone(),
                f.ty_name.clone(),
                f.is_optional,
                f.is_auto_increment,
                f.is_primary_key,
                f.default_value.clone(),
            )
        })
        .collect();
    let expected: Vec<(String, String, bool, bool, bool, String)> = vec![
        ("id", "i64", false, true, true, "0"),
        ("book_id", "i64", false, false, false, "0"),
        ("content", "String", false, false, false, ""),
        ("note", "String", true, false, false, ""),
        ("color", "String", true, false, false, ""),
        ("created_at", "i64", false, false, false, "0"),
    ]
    .into_iter()
    .map(|(a, b, c, d, e, f)| (a.to_string(), b.to_string(), c, d, e, f.to_string()))
    .collect();
    assert_eq!(rows, expected);
    assert_eq!(g.insert_binds[2], step(3, BindMode::OptionalStrView));
}

#[test]
fn only_auto_increment_field_gives_default_values() {
    let g = run(
        "T",
        vec![],
        vec![field("id", path("i64"), &["# [naorm_cfg (auto_increment)]"])],
    );
    assert_eq!(g.insert_sql, "INSERT INTO t DEFAULT VALUES");
    assert_eq!(g.update_sql, "-- No fields to update for table t");
    assert!(!g.update_sql.contains("SET"));
    assert_eq!(g.delete_sql, "DELETE FROM t WHERE id = ?");
    assert_eq!(g.insert_binds, vec![]);
    assert_eq!(g.update_binds, vec![step(0, BindMode::ValueRef)]);
}

#[test]
fn no_fields_and_no_key() {
    let g = run("Empty", vec![], vec![]);
    assert_eq!(g.select_sql, "SELECT * FROM empty");
    assert_eq!(g.insert_sql, "INSERT INTO empty DEFAULT VALUES");
    assert_eq!(g.delete_sql, "-- No PK for table empty");
    assert_eq!(g.primary_key, "");
    assert!(!g.pk_auto_increment);
    assert!(g.delete_binds.is_empty());
}

#[test]
fn auto_increment_overrides_earlier_primary_key() {
    let fields = vec![
        field("code", path("String"), &["# [naorm_cfg (primary_key)]"]),
        field("serial", path("i64"), &["# [naorm_cfg (auto_increment)]"]),
        field("other", path("i32"), &["# [naorm_cfg (primary_key)]"]),
    ];
    let fs = analyze_fields(&fields);
    assert_eq!(fs.primary_key, Some(1));
    assert_eq!(fs.insertable, vec![0, 2]);
    let g = run("Thing", vec![], fields);
    assert_eq!(g.primary_key, "serial");
    assert!(g.pk_auto_increment);
    assert!(g.fields[0].is_primary_key);
    assert!(!g.fields[0].is_auto_increment);
}

#[test]
fn last_auto_increment_wins_first_primary_key_wins() {
    let fields = vec![
        field("a", path("i64"), &["# [naorm_cfg (auto_increment)]"]),
        field("b", path("i64"), &["# [naorm_cfg (auto_increment)]"]),
    ];
    assert_eq!(analyze_fields(&fields).primary_key, Some(1));
    let fields = vec![
        field("a", path("i64"), &["# [naorm_cfg (primary_key)]"]),
        field("b", path("i64"), &["# [naorm_cfg (primary_key)]"]),
    ];
    assert_eq!(analyze_fields(&fields).primary_key, Some(0));
}

#[test]
fn implicit_defaults_by_type() {
    let fields = vec![
        field("a", path("u32"), &[]),
        field("b", path("String"), &[]),
        field("c", path("f64"), &[]),
        field("d", path("float32"), &[]),
        field("e", path("bool"), &[]),
        field("f", path("Uuid"), &[]),
        field("g", option_of("u8"), &[]),
    ];
    let fs = analyze_fields(&fields);
    let defaults: Vec<&str> = fs.full.iter().map(|f| f.default_value.as_str()).collect();
    assert_eq!(defaults, vec!["0", "", "0", "0.0", "false", "", "0"]);
}

#[test]
fn explicit_default_is_first_quoted_text() {
    let fields = vec![
        field("color", path("String"), &["# [naorm_cfg (default = \"red\")]"]),
        field("n", path("i64"), &["# [naorm_cfg (default = 5)]"]),
        field("m", path("i64"), &["# [naorm_cfg (default = \"1\")]", "# [naorm_cfg (default = \"2\")]"]),
    ];
    let fs = analyze_fields(&fields);
    assert_eq!(fs.full[0].default_value, "red");
    assert_eq!(fs.full[1].default_value, "0");
    assert_eq!(fs.full[2].default_value, "2");
    assert_eq!(explicit_default_of("x default \"a\" \"b\""), Some("a".to_string()));
    assert_eq!(explicit_default_of("\"q\" default"), None);
    assert_eq!(explicit_default_of("default \"open"), None);
}

#[test]
fn config_entries() {
    let attrs = vec![
        entry("table_name", "BookNotes"),
        ConfigAttr::Malformed,
        entry("db_name", "main"),
        entry("colour", "blue"),
        ConfigAttr::Entry { key: "table_type".to_string(), value: None },
        entry("db_name", "library"),
    ];
    let cfg = extract_config("Note", &attrs);
    assert_eq!(cfg.table_name, "book_notes");
    assert_eq!(cfg.db_name, "library");
    assert_eq!(cfg.table_type, "");
    assert_eq!(cfg.driver, None);
    let cfg = extract_config("Note", &vec![entry("table_type", "fts"), entry("driver", "postgres")]);
    assert_eq!(cfg.table_name, "note");
    assert_eq!(cfg.table_type, "fts");
    assert_eq!(cfg.driver, Some("postgres".to_string()));
}

#[test]
fn driver_names_ignore_case() {
    assert_eq!(resolve_driver(Some("MySQL")), Ok(Driver::MySql));
    assert_eq!(resolve_driver(Some("POSTGRES")), Ok(Driver::Postgres));
    assert_eq!(resolve_driver(Some("sqlite")), Ok(Driver::Sqlite));
    assert_eq!(resolve_driver(Some("")), Ok(Driver::Sqlite));
    assert_eq!(resolve_driver(None), Ok(Driver::Sqlite));
    assert_eq!(driver_from_lowercase("mysql"), Some(Driver::MySql));
    assert_eq!(driver_from_lowercase("MySQL"), None);
}

#[test]
fn unknown_driver_is_an_error_naming_it() {
    assert_eq!(
        resolve_driver(Some("oracle")),
        Err(GenerateError::UnsupportedDriver("oracle".to_string()))
    );
    let r = generate("X", &vec![entry("driver", "oracle")], &vec![]);
    match r {
        Err(GenerateError::UnsupportedDriver(m)) => assert_eq!(m, "oracle"),
        Ok(_) => panic!("oracle was accepted"),
    }
}

#[test]
fn driver_profiles() {
    let g = run("X", vec![entry("driver", "MySQL")], vec![]);
    assert_eq!(g.driver, Driver::MySql);
    let p = g.driver.profile();
    assert_eq!(p.engine, "sqlx::MySql");
    assert_eq!(p.arguments, "sqlx::mysql::MySqlArguments");
    assert_eq!(p.row, "sqlx::mysql::MySqlRow");
    let p = Driver::Postgres.profile();
    assert_eq!(p.engine, "sqlx::Postgres");
    assert_eq!(p.row, "sqlx::postgres::PgRow");
    assert_eq!(Driver::Sqlite.profile().arguments, "sqlx::sqlite::SqliteArguments");
}

#[test]
fn update_binds_key_last_wherever_declared() {
    let g = run(
        "Tag",
        vec![],
        vec![
            field("label", option_of("String"), &[]),
            field("code", path("String"), &["# [naorm_cfg (primary_key)]"]),
            field("weight", option_of("i32"), &[]),
        ],
    );
    assert_eq!(g.update_sql, "UPDATE tag SET label = ?, code = ?, weight = ? WHERE code = ?");
    assert_eq!(
        g.update_binds,
        vec![
            step(0, BindMode::OptionalStrView),
            step(1, BindMode::StrView),
            step(2, BindMode::OptionalRef),
            step(1, BindMode::StrView),
        ]
    );
    assert_eq!(g.delete_binds, vec![step(1, BindMode::StrView)]);
    assert!(!g.pk_auto_increment);
}

#[test]
fn type_shapes() {
    let fields = vec![
        field("a", FieldType::Path { last: "Option".to_string(), first_arg: None }, &[]),
        field("b", FieldType::EmptyPath, &[]),
        field("c", FieldType::Other("[u8 ; 4]".to_string()), &[]),
    ];
    let fs = analyze_fields(&fields);
    assert_eq!(fs.full[0].ty_name, "_");
    assert!(fs.full[0].is_optional);
    assert_eq!(fs.full[1].ty_name, "_");
    assert!(!fs.full[1].is_optional);
    assert_eq!(fs.full[2].ty_name, "[u8 ; 4]");
    assert_eq!(fs.full[2].default_value, "");
}
