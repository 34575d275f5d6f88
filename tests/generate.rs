use codegen::codegen::generate;
use codegen::emit::{handle_enum, handle_table, mod_and_use};
use codegen::file_writer::{File, Folder};
use codegen::order::{insert_name, less_than};
use codegen::schema::{ColumnDefinition, EnumDefinition, TableDefinition};
use codegen::types::{resolve_column_type, scalar_type_name, CodegenError};

fn column(table_oid: u32, name: &str, data_type: &str, udt_name: &str, nullable: bool) -> ColumnDefinition {
    ColumnDefinition {
        table_oid,
        name: name.to_string(),
        data_type: data_type.to_string(),
        udt_name: udt_name.to_string(),
        is_nullable: nullable,
    }
}

fn table(oid: u32, schema: &str, name: &str, columns: Vec<ColumnDefinition>) -> TableDefinition {
    TableDefinition { oid, schema: schema.to_string(), name: name.to_string(), columns }
}

fn enum_def(oid: u32, schema: &str, name: &str, values: &[&str]) -> EnumDefinition {
    EnumDefinition {
        oid,
        schema: schema.to_string(),
        name: name.to_string(),
        values: values.iter().map(|v| v.to_string()).collect(),
    }
}

fn strings(v: &[&str]) -> Vec<String> {
    v.iter().map(|s| s.to_string()).collect()
}

fn sample_tables() -> Vec<TableDefinition> {
    vec![
        table(
            1,
            "public",
            "user_account",
            vec![
                column(1, "id", "integer", "int4", false),
                column(1, "mood", "USER-DEFINED", "mood", true),
            ],
        ),
        table(2, "public", "post", vec![column(2, "body", "text", "text", false)]),
    ]
}

fn sample_enums() -> Vec<EnumDefinition> {
    vec![
        enum_def(10, "public", "mood", &["happy", "sad"]),
        enum_def(11, "audit", "action_kind", &["insert_row", "delete_row"]),
    ]
}

fn folder_paths(folders: &[Folder]) -> Vec<String> {
    folders.iter().map(|f| f.path.clone()).collect()
}

fn file_named<'a>(folder: &'a Folder, name: &str) -> &'a File {
    folder.files.iter().find(|f| f.name == name).unwrap()
}

#[test]
fn table_struct_name_and_line_count() {
    let t = table(
        1,
        "public",
        "user_account",
        vec![
            column(1, "id", "integer", "int4", false),
            column(1, "email", "character varying", "varchar", true),
            column(1, "tags", "ARRAY", "tag_kind", false),
        ],
    );
    let lines = handle_table(&t).unwrap();
    assert_eq!(lines.len(), t.columns.len() + 2);
    assert_eq!(
        lines,
        strings(&[
            "pub struct UserAccount {",
            "    pub id: i32,",
            "    pub email: Option<String>,",
            "    pub tags: Vec<TagKind>,",
            "}",
        ])
    );
}

#[test]
fn table_without_columns() {
    let t = table(1, "public", "empty_table", vec![]);
    assert_eq!(handle_table(&t).unwrap(), strings(&["pub struct EmptyTable {", "}"]));
}

#[test]
fn enum_variants_are_cased_in_order() {
    let e = enum_def(1, "public", "mood", &["foo_bar", "baz"]);
    assert_eq!(handle_enum(&e), strings(&["pub enum Mood {", "    FooBar,", "    Baz,", "}"]));
}

#[test]
fn enum_without_values() {
    let e = enum_def(1, "public", "nothing_here", &[]);
    assert_eq!(handle_enum(&e), strings(&["pub enum NothingHere {", "}"]));
}

#[test]
fn nullable_integer_is_optional() {
    let nullable = column(1, "n", "integer", "int4", true);
    let plain = column(1, "n", "integer", "int4", false);
    assert_eq!(resolve_column_type(&nullable), Some("Option<i32>".to_string()));
    assert_eq!(resolve_column_type(&plain), Some("i32".to_string()));
}

#[test]
fn array_of_user_type_is_vec() {
    let c = column(1, "colors", "ARRAY", "color", false);
    assert_eq!(resolve_column_type(&c), Some("Vec<Color>".to_string()));
    let n = column(1, "colors", "ARRAY", "color", true);
    assert_eq!(resolve_column_type(&n), Some("Option<Vec<Color>>".to_string()));
}

#[test]
fn user_defined_is_cased() {
    let c = column(1, "feeling", "USER-DEFINED", "mood", false);
    assert_eq!(resolve_column_type(&c), Some("Mood".to_string()));
}

#[test]
fn scalar_table_entries() {
    let cases = [
        ("boolean", "bool"),
        ("char", "String"),
        ("character", "String"),
        ("character varying", "String"),
        ("text", "String"),
        ("smallint", "i16"),
        ("integer", "i32"),
        ("bigint", "i64"),
        ("numeric", "String"),
        ("double precision", "f64"),
        ("date", "chrono::NaiveDate"),
        ("timestamp without time zone", "chrono::DateTime<chrono::Utc>"),
        ("timestamp with time zone", "chrono::DateTime<chrono::Utc>"),
        ("uuid", "uuid::Uuid"),
        ("json", "serde_json::Value"),
        ("jsonb", "serde_json::Value"),
    ];
    for (data_type, rust) in cases {
        assert_eq!(scalar_type_name(&data_type.to_string()), Some(rust.to_string()));
    }
    assert_eq!(scalar_type_name(&"hstore".to_string()), None);
    assert_eq!(scalar_type_name(&"USER-DEFINED".to_string()), None);
}

#[test]
fn unknown_type_detection() {
    assert_eq!(resolve_column_type(&column(1, "a", "jsonb", "jsonb", false)), Some("serde_json::Value".to_string()));
    assert_eq!(resolve_column_type(&column(1, "a", "date", "date", true)), Some("Option<chrono::NaiveDate>".to_string()));
    assert_eq!(resolve_column_type(&column(1, "a", "hstore", "hstore", true)), None);
}

#[test]
fn unknown_type_fails_whole_run() {
    let mut tables = sample_tables();
    tables.push(table(
        3,
        "public",
        "settings",
        vec![
            column(3, "id", "integer", "int4", false),
            column(3, "attrs", "hstore", "hstore", true),
            column(3, "more", "tsvector", "tsvector", true),
        ],
    ));
    let r = generate(tables, sample_enums());
    assert_eq!(
        r,
        Err(CodegenError::UnknownColumnType {
            table: "settings".to_string(),
            column: "attrs".to_string(),
            data_type: "hstore".to_string(),
        })
    );
}

#[test]
fn unknown_type_in_table_emitter() {
    let t = table(3, "public", "settings", vec![column(3, "attrs", "hstore", "hstore", true)]);
    assert_eq!(
        handle_table(&t),
        Err(CodegenError::UnknownColumnType {
            table: "settings".to_string(),
            column: "attrs".to_string(),
            data_type: "hstore".to_string(),
        })
    );
}

#[test]
fn root_index_lists_sorted_schemas() {
    let folders = generate(sample_tables(), sample_enums()).unwrap();
    assert_eq!(folders[0].path, "./src/out/");
    assert_eq!(folders[0].files.len(), 1);
    assert_eq!(folders[0].files[0].name, "mod");
    assert_eq!(folders[0].files[0].extension, "rs");
    assert_eq!(folders[0].files[0].content, strings(&["pub mod audit;", "pub mod public;"]));
}

#[test]
fn full_tree_layout() {
    let folders = generate(sample_tables(), sample_enums()).unwrap();
    assert_eq!(
        folder_paths(&folders),
        strings(&["./src/out/", "./src/out/public/", "./src/out/audit/enums/", "./src/out/public/enums/"])
    );
    let public = &folders[1];
    let names: Vec<&str> = public.files.iter().map(|f| f.name.as_str()).collect();
    assert_eq!(names, vec!["post", "user_account", "mod"]);
    assert_eq!(
        file_named(public, "user_account").content,
        strings(&["pub struct UserAccount {", "    pub id: i32,", "    pub mood: Option<Mood>,", "}"])
    );
    let audit = &folders[2];
    assert_eq!(
        file_named(audit, "action_kind").content,
        strings(&["pub enum ActionKind {", "    InsertRow,", "    DeleteRow,", "}"])
    );
    assert_eq!(file_named(audit, "mod").content, strings(&["mod action_kind;\npub use action_kind::*;"]));
}

#[test]
fn table_index_brings_in_enums() {
    let folders = generate(sample_tables(), sample_enums()).unwrap();
    let index = file_named(&folders[1], "mod");
    assert_eq!(
        index.content,
        strings(&[
            "mod post;\npub use post::*;",
            "mod user_account;\npub use user_account::*;",
            "pub mod enums;",
            "pub use enums::*;",
        ])
    );
}

#[test]
fn table_index_without_enums() {
    let folders = generate(sample_tables(), vec![]).unwrap();
    assert_eq!(folder_paths(&folders), strings(&["./src/out/", "./src/out/public/"]));
    assert_eq!(
        file_named(&folders[1], "mod").content,
        strings(&["mod post;\npub use post::*;", "mod user_account;\npub use user_account::*;"])
    );
}

#[test]
fn enum_only_schema_has_no_table_index() {
    let folders = generate(sample_tables(), sample_enums()).unwrap();
    assert!(!folder_paths(&folders).contains(&"./src/out/audit/".to_string()));
}

#[test]
fn empty_catalog() {
    let folders = generate(vec![], vec![]).unwrap();
    assert_eq!(folders.len(), 1);
    assert!(folders[0].files[0].content.is_empty());
}

#[test]
fn generation_is_repeatable() {
    let first = generate(sample_tables(), sample_enums()).unwrap();
    let second = generate(sample_tables(), sample_enums()).unwrap();
    assert_eq!(first, second);
}

#[test]
fn schemas_listed_once() {
    let tables = vec![
        table(1, "zeta", "a", vec![]),
        table(2, "alpha", "b", vec![]),
        table(3, "zeta", "c", vec![]),
    ];
    let enums = vec![enum_def(4, "alpha", "e", &["x"]), enum_def(5, "beta", "f", &["y"])];
    let folders = generate(tables, enums).unwrap();
    assert_eq!(
        folders[0].files[0].content,
        strings(&["pub mod alpha;", "pub mod beta;", "pub mod zeta;"])
    );
    assert_eq!(
        folder_paths(&folders),
        strings(&[
            "./src/out/",
            "./src/out/alpha/",
            "./src/out/zeta/",
            "./src/out/alpha/enums/",
            "./src/out/beta/enums/",
        ])
    );
}

#[test]
fn index_line() {
    assert_eq!(mod_and_use(&"user".to_string()), "mod user;\npub use user::*;");
}

#[test]
fn lexicographic_order() {
    assert!(less_than(&"audit".to_string(), &"public".to_string()));
    assert!(!less_than(&"public".to_string(), &"audit".to_string()));
    assert!(less_than(&"pub".to_string(), &"public".to_string()));
    assert!(!less_than(&"same".to_string(), &"same".to_string()));
    assert!(less_than(&"".to_string(), &"a".to_string()));
    assert!(less_than(&"Z".to_string(), &"a".to_string()));
}

#[test]
fn insert_keeps_sorted_set() {
    let mut names: Vec<String> = vec![];
    for n in ["public", "audit", "public", "billing", "audit"] {
        insert_name(&mut names, n.to_string());
    }
    assert_eq!(names, strings(&["audit", "billing", "public"]));
}

#[test]
fn definitions_ordered_by_name_within_schema() {
    let tables = vec![
        table(1, "public", "zebra", vec![]),
        table(2, "public", "apple", vec![]),
        table(3, "public", "mango", vec![]),
    ];
    let enums = vec![
        enum_def(4, "public", "status", &["on"]),
        enum_def(5, "public", "color", &["red"]),
    ];
    let folders = generate(tables, enums).unwrap();
    let table_names: Vec<&str> = folders[1].files.iter().map(|f| f.name.as_str()).collect();
    assert_eq!(table_names, vec!["apple", "mango", "zebra", "mod"]);
    let enum_names: Vec<&str> = folders[2].files.iter().map(|f| f.name.as_str()).collect();
    assert_eq!(enum_names, vec!["color", "status", "mod"]);
    assert_eq!(
        file_named(&folders[2], "mod").content,
        strings(&["mod color;\npub use color::*;", "mod status;\npub use status::*;"])
    );
}

#[test]
fn input_order_does_not_change_tree() {
    let mut reversed_tables = sample_tables();
    reversed_tables.reverse();
    let mut reversed_enums = sample_enums();
    reversed_enums.reverse();
    let first = generate(sample_tables(), sample_enums()).unwrap();
    let second = generate(reversed_tables, reversed_enums).unwrap();
    assert_eq!(first, second);
}
