//! The catalog records that code generation reads.

use vstd::prelude::*;

verus! {

/// A table of the catalog, with its columns in catalog order.
#[derive(Debug)]
pub struct TableDefinition {
    pub oid: u32,
    pub schema: String,
    pub name: String,
    pub columns: Vec<ColumnDefinition>,
}

/// A column of a table. `udt_name` names the element or user-defined type
/// and matters only for `ARRAY` and `USER-DEFINED` columns.
#[derive(Debug)]
pub struct ColumnDefinition {
    pub table_oid: u32,
    pub name: String,
    pub data_type: String,
    pub udt_name: String,
    pub is_nullable: bool,
}

/// An enumerated type of the catalog, with its labels in catalog order.
#[derive(Debug)]
pub struct EnumDefinition {
    pub oid: u32,
    pub schema: String,
    pub name: String,
    pub values: Vec<String>,
}

pub struct ColumnView {
    pub table_oid: u32,
    pub name: Seq<char>,
    pub data_type: Seq<char>,
    pub udt_name: Seq<char>,
    pub is_nullable: bool,
}

pub struct TableView {
    pub oid: u32,
    pub schema: Seq<char>,
    pub name: Seq<char>,
    pub columns: Seq<ColumnView>,
}

pub struct EnumView {
    pub oid: u32,
    pub schema: Seq<char>,
    pub name: Seq<char>,
    pub values: Seq<Seq<char>>,
}

impl View for ColumnDefinition {
    type V = ColumnView;

    open spec fn view(&self) -> ColumnView {
        ColumnView {
            table_oid: self.table_oid,
            name: self.name@,
            data_type: self.data_type@,
            udt_name: self.udt_name@,
            is_nullable: self.is_nullable,
        }
    }
}

impl View for TableDefinition {
    type V = TableView;

    open spec fn view(&self) -> TableView {
        TableView {
            oid: self.oid,
            schema: self.schema@,
            name: self.name@,
            columns: self.columns@.map_values(|c: ColumnDefinition| c@),
        }
    }
}

impl View for EnumDefinition {
    type V = EnumView;

    open spec fn view(&self) -> EnumView {
        EnumView {
            oid: self.oid,
            schema: self.schema@,
            name: self.name@,
            values: strings_view(self.values@),
        }
    }
}

/// The character sequences of a sequence of strings.
pub open spec fn strings_view(s: Seq<String>) -> Seq<Seq<char>> {
    s.map_values(|x: String| x@)
}

pub open spec fn tables_view(ts: Seq<TableDefinition>) -> Seq<TableView> {
    ts.map_values(|t: TableDefinition| t@)
}

pub open spec fn enums_view(es: Seq<EnumDefinition>) -> Seq<EnumView> {
    es.map_values(|e: EnumDefinition| e@)
}

} // verus!
