//! The mapping from catalog column types to Rust type names.

use crate::casing::{pascal_case_of, to_pascal_case};
use crate::schema::{ColumnDefinition, ColumnView};
use vstd::prelude::*;
use vstd::string::StringExecFns;

verus! {

/// The closed table of scalar catalog types and the Rust type each one maps to.
pub open spec fn scalar_type(data_type: Seq<char>) -> Option<Seq<char>> {
    if data_type == "boolean"@ {
        Some("bool"@)
    } else if data_type == "char"@ {
        Some("String"@)
    } else if data_type == "character"@ {
        Some("String"@)
    } else if data_type == "character varying"@ {
        Some("String"@)
    } else if data_type == "text"@ {
        Some("String"@)
    } else if data_type == "smallint"@ {
        Some("i16"@)
    } else if data_type == "integer"@ {
        Some("i32"@)
    } else if data_type == "bigint"@ {
        Some("i64"@)
    } else if data_type == "numeric"@ {
        Some("String"@)
    } else if data_type == "double precision"@ {
        Some("f64"@)
    } else if data_type == "date"@ {
        Some("chrono::NaiveDate"@)
    } else if data_type == "timestamp without time zone"@ {
        Some("chrono::DateTime<chrono::Utc>"@)
    } else if data_type == "timestamp with time zone"@ {
        Some("chrono::DateTime<chrono::Utc>"@)
    } else if data_type == "uuid"@ {
        Some("uuid::Uuid"@)
    } else if data_type == "json"@ {
        Some("serde_json::Value"@)
    } else if data_type == "jsonb"@ {
        Some("serde_json::Value"@)
    } else {
        None
    }
}

/// The Rust type of a column before nullability is applied: a user-defined
/// type by its cased name, an array as a `Vec` of its cased element type,
/// anything else through the scalar table.
pub open spec fn base_type(c: ColumnView) -> Option<Seq<char>> {
    if c.data_type == "USER-DEFINED"@ {
        Some(pascal_case_of(c.udt_name))
    } else if c.data_type == "ARRAY"@ {
        Some("Vec<"@ + pascal_case_of(c.udt_name) + ">"@)
    } else {
        scalar_type(c.data_type)
    }
}

/// The Rust type of a column; `None` where its catalog type is unknown.
pub open spec fn column_type(c: ColumnView) -> Option<Seq<char>> {
    match base_type(c) {
        Some(t) => Some(
            if c.is_nullable {
                "Option<"@ + t + ">"@
            } else {
                t
            },
        ),
        None => None,
    }
}

/// Why code generation failed.
#[derive(Debug, PartialEq, Eq)]
pub enum CodegenError {
    /// A column whose catalog type has no Rust type, with its table.
    UnknownColumnType { table: String, column: String, data_type: String },
}

/// Whether a string holds exactly the characters of a literal.
pub(crate) fn text_is(s: &String, lit: &str) -> (r: bool)
    ensures
        r == (s@ == lit@),
{
    let l = String::from_str(lit);
    *s == l
}

/// Looks a catalog type up in the scalar table.
pub fn scalar_type_name(data_type: &String) -> (r: Option<String>)
    ensures
        match r {
            Some(t) => scalar_type(data_type@) == Some(t@),
            None => scalar_type(data_type@) is None,
        },
{
    let name = if text_is(data_type, "boolean") {
        "bool"
    } else if text_is(data_type, "char") {
        "String"
    } else if text_is(data_type, "character") {
        "String"
    } else if text_is(data_type, "character varying") {
        "String"
    } else if text_is(data_type, "text") {
        "String"
    } else if text_is(data_type, "smallint") {
        "i16"
    } else if text_is(data_type, "integer") {
        "i32"
    } else if text_is(data_type, "bigint") {
        "i64"
    } else if text_is(data_type, "numeric") {
        "String"
    } else if text_is(data_type, "double precision") {
        "f64"
    } else if text_is(data_type, "date") {
        "chrono::NaiveDate"
    } else if text_is(data_type, "timestamp without time zone") {
        "chrono::DateTime<chrono::Utc>"
    } else if text_is(data_type, "timestamp with time zone") {
        "chrono::DateTime<chrono::Utc>"
    } else if text_is(data_type, "uuid") {
        "uuid::Uuid"
    } else if text_is(data_type, "json") {
        "serde_json::Value"
    } else if text_is(data_type, "jsonb") {
        "serde_json::Value"
    } else {
        return None;
    };
    Some(String::from_str(name))
}

/// Resolves the Rust type of a column, wrapped in `Option` where the column
/// is nullable.
pub fn resolve_column_type(c: &ColumnDefinition) -> (r: Option<String>)
    ensures
        match r {
            Some(t) => column_type(c@) == Some(t@),
            None => column_type(c@) is None,
        },
{
    let base = if text_is(&c.data_type, "USER-DEFINED") {
        to_pascal_case(&c.udt_name)
    } else if text_is(&c.data_type, "ARRAY") {
        let inner = to_pascal_case(&c.udt_name);
        let mut t = String::from_str("Vec<");
        t.append(inner.as_str());
        t.append(">");
        t
    } else {
        match scalar_type_name(&c.data_type) {
            Some(t) => t,
            None => return None,
        }
    };
    if c.is_nullable {
        let mut t = String::from_str("Option<");
        t.append(base.as_str());
        t.append(">");
        Some(t)
    } else {
        Some(base)
    }
}

} // verus!
