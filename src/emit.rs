//! The definition emitters: one struct per table, one enum per enumerated type.

use crate::casing::{pascal_case_of, to_pascal_case};
use crate::schema::{
    strings_view, ColumnView, EnumDefinition, EnumView, TableDefinition, TableView,
};
use crate::types::{column_type, resolve_column_type, CodegenError};
use vstd::prelude::*;
use vstd::string::StringExecFns;

verus! {

/// The first column, in catalog order, whose type has no Rust type.
pub open spec fn first_unknown_column(cols: Seq<ColumnView>) -> Option<ColumnView>
    decreases cols.len(),
{
    if cols.len() == 0 {
        None
    } else if column_type(cols[0]) is None {
        Some(cols[0])
    } else {
        first_unknown_column(cols.drop_first())
    }
}

pub open spec fn struct_header(name: Seq<char>) -> Seq<char> {
    "pub struct "@ + pascal_case_of(name) + " {"@
}

pub open spec fn enum_header(name: Seq<char>) -> Seq<char> {
    "pub enum "@ + pascal_case_of(name) + " {"@
}

/// The field line of a column whose type is known.
pub open spec fn field_line(c: ColumnView) -> Seq<char> {
    "    pub "@ + c.name + ": "@ + column_type(c)->Some_0 + ","@
}

pub open spec fn variant_line(value: Seq<char>) -> Seq<char> {
    "    "@ + pascal_case_of(value) + ","@
}

/// The lines of the struct of a table whose column types are all known.
pub open spec fn table_lines(t: TableView) -> Seq<Seq<char>> {
    seq![struct_header(t.name)] + t.columns.map_values(|c: ColumnView| field_line(c)) + seq![
        "}"@,
    ]
}

/// The lines of the enum of an enumerated type.
pub open spec fn enum_lines(e: EnumView) -> Seq<Seq<char>> {
    seq![enum_header(e.name)] + e.values.map_values(|v: Seq<char>| variant_line(v)) + seq![
        "}"@,
    ]
}

/// The index line that declares a module and re-exports what it holds.
pub open spec fn mod_and_use_line(name: Seq<char>) -> Seq<char> {
    "mod "@ + name + ";\npub use "@ + name + "::*;"@
}

/// The struct of a table: a header with the cased table name, one field per
/// column in catalog order named as the column, and a closing brace. Fails on
/// the first column whose type has no Rust type.
pub fn handle_table(t: &TableDefinition) -> (r: Result<Vec<String>, CodegenError>)
    ensures
        match r {
            Ok(lines) => {
                &&& first_unknown_column(t@.columns) is None
                &&& strings_view(lines@) == table_lines(t@)
                &&& lines@.len() == t@.columns.len() + 2
                &&& lines@[0]@ == struct_header(t@.name)
            },
            Err(CodegenError::UnknownColumnType { table, column, data_type }) => {
                &&& first_unknown_column(t@.columns) is Some
                &&& table@ == t@.name
                &&& column@ == first_unknown_column(t@.columns)->Some_0.name
                &&& data_type@ == first_unknown_column(t@.columns)->Some_0.data_type
            },
        },
{
    let ghost cols = t@.columns;
    let n = t.columns.len();
    let cased = to_pascal_case(&t.name);
    let mut header = String::from_str("pub struct ");
    header.append(cased.as_str());
    header.append(" {");
    let mut lines: Vec<String> = Vec::new();
    lines.push(header);
    let mut i: usize = 0;
    assert(cols.subrange(0, n as int) =~= cols);
    while i < n
        invariant
            n == t.columns@.len(),
            cols == t@.columns,
            i <= n,
            first_unknown_column(cols) == first_unknown_column(cols.subrange(i as int, n as int)),
            strings_view(lines@) == seq![struct_header(t@.name)] + cols.take(i as int).map_values(
                |c: ColumnView| field_line(c),
            ),
        decreases n - i,
    {
        let c = &t.columns[i];
        assert(cols.subrange(i as int, n as int).drop_first() =~= cols.subrange(
            i as int + 1,
            n as int,
        ));
        match resolve_column_type(c) {
            None => {
                return Err(
                    CodegenError::UnknownColumnType {
                        table: t.name.clone(),
                        column: c.name.clone(),
                        data_type: c.data_type.clone(),
                    },
                );
            },
            Some(ty) => {
                let mut line = String::from_str("    pub ");
                line.append(c.name.as_str());
                line.append(": ");
                line.append(ty.as_str());
                line.append(",");
                let ghost before = lines@;
                lines.push(line);
                assert(cols.take(i as int + 1) =~= cols.take(i as int).push(cols[i as int]));
                assert(strings_view(lines@) =~= strings_view(before).push(line@));
                assert(cols.take(i as int + 1).map_values(|c: ColumnView| field_line(c))
                    =~= cols.take(i as int).map_values(|c: ColumnView| field_line(c)).push(
                    field_line(cols[i as int]),
                ));
            },
        }
        i += 1;
    }
    let ghost before = lines@;
    lines.push(String::from_str("}"));
    assert(cols.take(n as int) =~= cols);
    assert(cols.subrange(n as int, n as int).len() == 0);
    assert(strings_view(lines@) =~= strings_view(before).push("}"@));
    assert(strings_view(lines@) =~= table_lines(t@));
    assert(strings_view(lines@)[0] == lines@[0]@);
    assert(first_unknown_column(cols.subrange(n as int, n as int)) is None);
    Ok(lines)
}

/// The enum of an enumerated type: a header with the cased type name, one
/// cased variant per label in catalog order, and a closing brace.
pub fn handle_enum(e: &EnumDefinition) -> (r: Vec<String>)
    ensures
        strings_view(r@) == enum_lines(e@),
        r@.len() == e@.values.len() + 2,
{
    let ghost values = e@.values;
    let n = e.values.len();
    let cased = to_pascal_case(&e.name);
    let mut header = String::from_str("pub enum ");
    header.append(cased.as_str());
    header.append(" {");
    let mut lines: Vec<String> = Vec::new();
    lines.push(header);
    let mut i: usize = 0;
    while i < n
        invariant
            n == e.values@.len(),
            values == e@.values,
            i <= n,
            strings_view(lines@) == seq![enum_header(e@.name)] + values.take(i as int).map_values(
                |v: Seq<char>| variant_line(v),
            ),
        decreases n - i,
    {
        let variant = to_pascal_case(&e.values[i]);
        let mut line = String::from_str("    ");
        line.append(variant.as_str());
        line.append(",");
        let ghost before = lines@;
        lines.push(line);
        assert(values.take(i as int + 1) =~= values.take(i as int).push(values[i as int]));
        assert(strings_view(lines@) =~= strings_view(before).push(line@));
        assert(values.take(i as int + 1).map_values(|v: Seq<char>| variant_line(v))
            =~= values.take(i as int).map_values(|v: Seq<char>| variant_line(v)).push(
            variant_line(values[i as int]),
        ));
        i += 1;
    }
    let ghost before = lines@;
    lines.push(String::from_str("}"));
    assert(values.take(n as int) =~= values);
    assert(strings_view(lines@) =~= strings_view(before).push("}"@));
    assert(strings_view(lines@) =~= enum_lines(e@));
    lines
}

/// The index line for a module: `mod <name>;` and `pub use <name>::*;`.
pub fn mod_and_use(mod_name: &String) -> (r: String)
    ensures
        r@ == mod_and_use_line(mod_name@),
{
    let mut line = String::from_str("mod ");
    line.append(mod_name.as_str());
    line.append(";\npub use ");
    line.append(mod_name.as_str());
    line.append("::*;");
    line
}

} // verus!
