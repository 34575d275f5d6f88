//! The layout engine: groups the emitted definitions by schema into folders
//! and writes the index files that declare and re-export the modules.

use crate::emit::{
    enum_lines, first_unknown_column, handle_enum, handle_table, mod_and_use, mod_and_use_line,
    table_lines,
};
use crate::file_writer::{files_view, folders_view, File, FileView, Folder, FolderView};
use crate::order::{
    insert_name, less_than, lemma_lex_lt_irreflexive, lemma_sorted_set, lex_lt, sorted_set,
    strictly_sorted,
};
use crate::schema::{
    enums_view, strings_view, tables_view, ColumnView, EnumDefinition, EnumView, TableDefinition,
    TableView,
};
use crate::types::CodegenError;
use vstd::prelude::*;
use vstd::string::StringExecFns;

verus! {

/// The first table, in input order, with a column of unknown type, and that column.
pub open spec fn first_unknown(ts: Seq<TableView>) -> Option<(TableView, ColumnView)>
    decreases ts.len(),
{
    if ts.len() == 0 {
        None
    } else {
        match first_unknown_column(ts[0].columns) {
            Some(c) => Some((ts[0], c)),
            None => first_unknown(ts.drop_first()),
        }
    }
}

/// The error names the table, the column and the catalog type of `u`.
pub open spec fn reports(e: CodegenError, u: Option<(TableView, ColumnView)>) -> bool {
    match e {
        CodegenError::UnknownColumnType { table, column, data_type } => {
            &&& u is Some
            &&& table@ == u->Some_0.0.name
            &&& column@ == u->Some_0.1.name
            &&& data_type@ == u->Some_0.1.data_type
        },
    }
}

/// Every schema that owns a table or an enum, once each, in lexicographic order.
pub open spec fn all_schemas(ts: Seq<TableView>, es: Seq<EnumView>) -> Seq<Seq<char>> {
    sorted_set(
        ts.map_values(|t: TableView| t.schema) + es.map_values(|e: EnumView| e.schema),
    )
}

/// `t` put after the tables of `s` whose names do not come after its own.
pub open spec fn insert_table(t: TableView, s: Seq<TableView>) -> Seq<TableView>
    decreases s.len(),
{
    if s.len() == 0 {
        seq![t]
    } else if lex_lt(t.name, s[0].name) {
        seq![t] + s
    } else {
        seq![s[0]] + insert_table(t, s.drop_first())
    }
}

/// `e` put after the enums of `s` whose names do not come after its own.
pub open spec fn insert_enum(e: EnumView, s: Seq<EnumView>) -> Seq<EnumView>
    decreases s.len(),
{
    if s.len() == 0 {
        seq![e]
    } else if lex_lt(e.name, s[0].name) {
        seq![e] + s
    } else {
        seq![s[0]] + insert_enum(e, s.drop_first())
    }
}

/// The tables of schema `s`, ordered by name (in input order where names
/// are equal).
pub open spec fn tables_in(ts: Seq<TableView>, s: Seq<char>) -> Seq<TableView>
    decreases ts.len(),
{
    if ts.len() == 0 {
        Seq::empty()
    } else if ts.last().schema == s {
        insert_table(ts.last(), tables_in(ts.drop_last(), s))
    } else {
        tables_in(ts.drop_last(), s)
    }
}

/// The enums of schema `s`, ordered by name (in input order where names
/// are equal).
pub open spec fn enums_in(es: Seq<EnumView>, s: Seq<char>) -> Seq<EnumView>
    decreases es.len(),
{
    if es.len() == 0 {
        Seq::empty()
    } else if es.last().schema == s {
        insert_enum(es.last(), enums_in(es.drop_last(), s))
    } else {
        enums_in(es.drop_last(), s)
    }
}

pub open spec fn rs_file(name: Seq<char>, content: Seq<Seq<char>>) -> FileView {
    FileView { name, extension: "rs"@, content }
}

pub open spec fn out_root() -> Seq<char> {
    "./src/out/"@
}

pub open spec fn table_path(s: Seq<char>) -> Seq<char> {
    out_root() + s + "/"@
}

pub open spec fn enum_path(s: Seq<char>) -> Seq<char> {
    out_root() + s + "/enums/"@
}

pub open spec fn pub_mod_line(s: Seq<char>) -> Seq<char> {
    "pub mod "@ + s + ";"@
}

/// The root index: one `pub mod` line per schema.
pub open spec fn root_folder(names: Seq<Seq<char>>) -> FolderView {
    FolderView {
        path: out_root(),
        files: seq![rs_file("mod"@, names.map_values(|s: Seq<char>| pub_mod_line(s)))],
    }
}

/// The lines that declare and re-export the nested `enums` module.
pub open spec fn enums_module_lines() -> Seq<Seq<char>> {
    seq!["pub mod enums;"@, "pub use enums::*;"@]
}

/// The index of a schema's tables, which also brings in the schema's enums
/// where it has any.
pub open spec fn table_index(s: Seq<char>, ts: Seq<TableView>, es: Seq<EnumView>) -> FileView {
    rs_file(
        "mod"@,
        tables_in(ts, s).map_values(|t: TableView| mod_and_use_line(t.name)) + if enums_in(
            es,
            s,
        ).len() > 0 {
            enums_module_lines()
        } else {
            Seq::empty()
        },
    )
}

pub open spec fn table_file(t: TableView) -> FileView {
    rs_file(t.name, table_lines(t))
}

pub open spec fn enum_file(e: EnumView) -> FileView {
    rs_file(e.name, enum_lines(e))
}

/// The folder of a schema's tables: one file per table, then the index.
pub open spec fn table_folder(s: Seq<char>, ts: Seq<TableView>, es: Seq<EnumView>) -> FolderView {
    FolderView {
        path: table_path(s),
        files: tables_in(ts, s).map_values(|t: TableView| table_file(t)).push(
            table_index(s, ts, es),
        ),
    }
}

pub open spec fn enum_index(s: Seq<char>, es: Seq<EnumView>) -> FileView {
    rs_file("mod"@, enums_in(es, s).map_values(|e: EnumView| mod_and_use_line(e.name)))
}

/// The folder of a schema's enums: one file per enum, then the index.
pub open spec fn enum_folder(s: Seq<char>, es: Seq<EnumView>) -> FolderView {
    FolderView {
        path: enum_path(s),
        files: enums_in(es, s).map_values(|e: EnumView| enum_file(e)).push(enum_index(s, es)),
    }
}

/// The table folders of the schemas `names` that own tables, in that order.
pub open spec fn table_folders(
    names: Seq<Seq<char>>,
    ts: Seq<TableView>,
    es: Seq<EnumView>,
) -> Seq<FolderView>
    decreases names.len(),
{
    if names.len() == 0 {
        Seq::empty()
    } else if tables_in(ts, names.last()).len() > 0 {
        table_folders(names.drop_last(), ts, es).push(table_folder(names.last(), ts, es))
    } else {
        table_folders(names.drop_last(), ts, es)
    }
}

/// The enum folders of the schemas `names` that own enums, in that order.
pub open spec fn enum_folders(names: Seq<Seq<char>>, es: Seq<EnumView>) -> Seq<FolderView>
    decreases names.len(),
{
    if names.len() == 0 {
        Seq::empty()
    } else if enums_in(es, names.last()).len() > 0 {
        enum_folders(names.drop_last(), es).push(enum_folder(names.last(), es))
    } else {
        enum_folders(names.drop_last(), es)
    }
}

/// The whole output tree: the root index, the table folders, the enum folders.
pub open spec fn layout(ts: Seq<TableView>, es: Seq<EnumView>) -> Seq<FolderView> {
    let names = all_schemas(ts, es);
    seq![root_folder(names)] + table_folders(names, ts, es) + enum_folders(names, es)
}

/// A copy of a sequence of lines.
fn copy_lines(v: &Vec<String>) -> (r: Vec<String>)
    ensures
        r@ == v@,
{
    let mut r: Vec<String> = Vec::new();
    let mut i: usize = 0;
    while i < v.len()
        invariant
            i <= v@.len(),
            r@ == v@.take(i as int),
        decreases v@.len() - i,
    {
        r.push(v[i].clone());
        assert(r@ =~= v@.take(i as int + 1));
        i += 1;
    }
    assert(v@.take(v@.len() as int) =~= v@);
    r
}

/// A file with the `rs` extension.
fn rs(name: String, content: Vec<String>) -> (r: File)
    ensures
        r@ == rs_file(name@, strings_view(content@)),
{
    File { name, extension: String::from_str("rs"), content }
}

/// The struct lines of every table, in input order. Fails on the first table,
/// in input order, with a column of unknown type.
fn table_contents(tables: &Vec<TableDefinition>) -> (r: Result<Vec<Vec<String>>, CodegenError>)
    ensures
        match r {
            Ok(c) => {
                &&& first_unknown(tables_view(tables@)) is None
                &&& c@.len() == tables@.len()
                &&& forall|i: int|
                    0 <= i < c@.len() ==> strings_view(#[trigger] c@[i]@) == table_lines(
                        tables@[i]@,
                    )
            },
            Err(e) => reports(e, first_unknown(tables_view(tables@))),
        },
{
    let ghost tv = tables_view(tables@);
    let n = tables.len();
    let mut contents: Vec<Vec<String>> = Vec::new();
    let mut i: usize = 0;
    assert(tv.subrange(0, n as int) =~= tv);
    while i < n
        invariant
            n == tables@.len(),
            tv == tables_view(tables@),
            i <= n,
            first_unknown(tv) == first_unknown(tv.subrange(i as int, n as int)),
            contents@.len() == i,
            forall|j: int|
                0 <= j < i ==> strings_view(#[trigger] contents@[j]@) == table_lines(
                    tables@[j]@,
                ),
        decreases n - i,
    {
        assert(tv.subrange(i as int, n as int).drop_first() =~= tv.subrange(
            i as int + 1,
            n as int,
        ));
        assert(tv.subrange(i as int, n as int)[0] == tables@[i as int]@);
        match handle_table(&tables[i]) {
            Ok(lines) => {
                contents.push(lines);
            },
            Err(e) => {
                return Err(e);
            },
        }
        i += 1;
    }
    assert(tv.subrange(n as int, n as int).len() == 0);
    Ok(contents)
}

/// Whether schema `schema` owns an enum.
fn enums_present(enums: &Vec<EnumDefinition>, schema: &String) -> (r: bool)
    ensures
        r == (enums_in(enums_view(enums@), schema@).len() > 0),
{
    let ghost ev = enums_view(enums@);
    let mut found = false;
    let mut i: usize = 0;
    while i < enums.len()
        invariant
            ev == enums_view(enums@),
            i <= enums@.len(),
            found == (enums_in(ev.take(i as int), schema@).len() > 0),
        decreases enums@.len() - i,
    {
        assert(ev.take(i as int + 1).drop_last() =~= ev.take(i as int));
        if enums[i].schema == *schema {
            found = true;
        }
        i += 1;
    }
    assert(ev.take(enums@.len() as int) =~= ev);
    found
}

/// The table files of schema `schema`, ordered by name, and the index line of each.
fn schema_tables(
    schema: &String,
    tables: &Vec<TableDefinition>,
    contents: &Vec<Vec<String>>,
) -> (r: (Vec<File>, Vec<String>))
    requires
        contents@.len() == tables@.len(),
        forall|i: int|
            0 <= i < contents@.len() ==> strings_view(#[trigger] contents@[i]@) == table_lines(
                tables@[i]@,
            ),
    ensures
        files_view(r.0@) == tables_in(tables_view(tables@), schema@).map_values(
            |t: TableView| table_file(t),
        ),
        strings_view(r.1@) == tables_in(tables_view(tables@), schema@).map_values(
            |t: TableView| mod_and_use_line(t.name),
        ),
{
    let ghost tv = tables_view(tables@);
    let mut files: Vec<File> = Vec::new();
    let mut mods: Vec<String> = Vec::new();
    let mut i: usize = 0;
    while i < tables.len()
        invariant
            tv == tables_view(tables@),
            contents@.len() == tables@.len(),
            forall|i: int|
                0 <= i < contents@.len() ==> strings_view(#[trigger] contents@[i]@)
                    == table_lines(tables@[i]@),
            i <= tables@.len(),
            files_view(files@) == tables_in(tv.take(i as int), schema@).map_values(
                |t: TableView| table_file(t),
            ),
            strings_view(mods@) == tables_in(tv.take(i as int), schema@).map_values(
                |t: TableView| mod_and_use_line(t.name),
            ),
        decreases tables@.len() - i,
    {
        let ghost prev = tables_in(tv.take(i as int), schema@);
        assert(tv.take(i as int + 1).drop_last() =~= tv.take(i as int));
        assert(tv.take(i as int + 1).last() == tables@[i as int]@);
        let t = &tables[i];
        if t.schema == *schema {
            let mut pos: usize = 0;
            assert(files_view(files@).len() == files@.len());
            assert(strings_view(mods@).len() == mods@.len());
            assert(prev.skip(0) =~= prev);
            assert(prev.take(0) + prev =~= prev);
            while pos < files.len()
                invariant
                    files@.len() == prev.len(),
                    mods@.len() == prev.len(),
                    files_view(files@) == prev.map_values(|t: TableView| table_file(t)),
                    strings_view(mods@) == prev.map_values(|t: TableView| mod_and_use_line(t.name)),
                    pos <= files@.len(),
                    insert_table(t@, prev) == prev.take(pos as int) + insert_table(
                        t@,
                        prev.skip(pos as int),
                    ),
                ensures
                    files@.len() == prev.len(),
                    mods@.len() == prev.len(),
                    pos <= files@.len(),
                    pos < files@.len() ==> lex_lt(t@.name, prev[pos as int].name),
                    insert_table(t@, prev) == prev.take(pos as int) + insert_table(
                        t@,
                        prev.skip(pos as int),
                    ),
                decreases files@.len() - pos,
            {
                assert(files_view(files@)[pos as int] == files@[pos as int]@);
                if less_than(&t.name, &files[pos].name) {
                    break;
                }
                assert(prev.skip(pos as int)[0] == prev[pos as int]);
                assert(prev.skip(pos as int).drop_first() =~= prev.skip(pos as int + 1));
                assert(prev.take(pos as int + 1) =~= prev.take(pos as int) + seq![prev[pos as int]]);
                pos += 1;
            }
            if pos < files.len() {
                assert(prev.skip(pos as int)[0] == prev[pos as int]);
            } else {
                assert(prev.skip(pos as int) =~= Seq::<TableView>::empty());
            }
            assert(insert_table(t@, prev) =~= prev.insert(pos as int, t@));
            let ghost old_files = files@;
            let ghost old_mods = mods@;
            let file = rs(t.name.clone(), copy_lines(&contents[i]));
            let line = mod_and_use(&t.name);
            files.insert(pos, file);
            mods.insert(pos, line);
            assert(files_view(files@) =~= files_view(old_files).insert(pos as int, table_file(t@)));
            assert(strings_view(mods@) =~= strings_view(old_mods).insert(
                pos as int,
                mod_and_use_line(t@.name),
            ));
            assert(files_view(files@) =~= prev.insert(pos as int, t@).map_values(
                |t: TableView| table_file(t),
            ));
            assert(strings_view(mods@) =~= prev.insert(pos as int, t@).map_values(
                |t: TableView| mod_and_use_line(t.name),
            ));
        }
        i += 1;
    }
    assert(tv.take(tables@.len() as int) =~= tv);
    (files, mods)
}

/// The enum files of schema `schema`, ordered by name, and the index line of each.
fn schema_enums(schema: &String, enums: &Vec<EnumDefinition>) -> (r: (Vec<File>, Vec<String>))
    ensures
        files_view(r.0@) == enums_in(enums_view(enums@), schema@).map_values(
            |e: EnumView| enum_file(e),
        ),
        strings_view(r.1@) == enums_in(enums_view(enums@), schema@).map_values(
            |e: EnumView| mod_and_use_line(e.name),
        ),
{
    let ghost ev = enums_view(enums@);
    let mut files: Vec<File> = Vec::new();
    let mut mods: Vec<String> = Vec::new();
    let mut i: usize = 0;
    while i < enums.len()
        invariant
            ev == enums_view(enums@),
            i <= enums@.len(),
            files_view(files@) == enums_in(ev.take(i as int), schema@).map_values(
                |e: EnumView| enum_file(e),
            ),
            strings_view(mods@) == enums_in(ev.take(i as int), schema@).map_values(
                |e: EnumView| mod_and_use_line(e.name),
            ),
        decreases enums@.len() - i,
    {
        let ghost prev = enums_in(ev.take(i as int), schema@);
        assert(ev.take(i as int + 1).drop_last() =~= ev.take(i as int));
        assert(ev.take(i as int + 1).last() == enums@[i as int]@);
        let e = &enums[i];
        if e.schema == *schema {
            let mut pos: usize = 0;
            assert(files_view(files@).len() == files@.len());
            assert(strings_view(mods@).len() == mods@.len());
            assert(prev.skip(0) =~= prev);
            assert(prev.take(0) + prev =~= prev);
            while pos < files.len()
                invariant
                    files@.len() == prev.len(),
                    mods@.len() == prev.len(),
                    files_view(files@) == prev.map_values(|e: EnumView| enum_file(e)),
                    strings_view(mods@) == prev.map_values(|e: EnumView| mod_and_use_line(e.name)),
                    pos <= files@.len(),
                    insert_enum(e@, prev) == prev.take(pos as int) + insert_enum(
                        e@,
                        prev.skip(pos as int),
                    ),
                ensures
                    files@.len() == prev.len(),
                    mods@.len() == prev.len(),
                    pos <= files@.len(),
                    pos < files@.len() ==> lex_lt(e@.name, prev[pos as int].name),
                    insert_enum(e@, prev) == prev.take(pos as int) + insert_enum(
                        e@,
                        prev.skip(pos as int),
                    ),
                decreases files@.len() - pos,
            {
                assert(files_view(files@)[pos as int] == files@[pos as int]@);
                if less_than(&e.name, &files[pos].name) {
                    break;
                }
                assert(prev.skip(pos as int)[0] == prev[pos as int]);
                assert(prev.skip(pos as int).drop_first() =~= prev.skip(pos as int + 1));
                assert(prev.take(pos as int + 1) =~= prev.take(pos as int) + seq![prev[pos as int]]);
                pos += 1;
            }
            if pos < files.len() {
                assert(prev.skip(pos as int)[0] == prev[pos as int]);
            } else {
                assert(prev.skip(pos as int) =~= Seq::<EnumView>::empty());
            }
            assert(insert_enum(e@, prev) =~= prev.insert(pos as int, e@));
            let ghost old_files = files@;
            let ghost old_mods = mods@;
            let file = rs(e.name.clone(), handle_enum(e));
            let line = mod_and_use(&e.name);
            files.insert(pos, file);
            mods.insert(pos, line);
            assert(files_view(files@) =~= files_view(old_files).insert(pos as int, enum_file(e@)));
            assert(strings_view(mods@) =~= strings_view(old_mods).insert(
                pos as int,
                mod_and_use_line(e@.name),
            ));
            assert(files_view(files@) =~= prev.insert(pos as int, e@).map_values(
                |e: EnumView| enum_file(e),
            ));
            assert(strings_view(mods@) =~= prev.insert(pos as int, e@).map_values(
                |e: EnumView| mod_and_use_line(e.name),
            ));
        }
        i += 1;
    }
    assert(ev.take(enums@.len() as int) =~= ev);
    (files, mods)
}

/// One folder per schema of `names` that owns tables, in the order of `names`:
/// the table files and an index that declares and re-exports each of them,
/// and the nested `enums` module where the schema has enums too.
fn tables_by_schema(
    names: &Vec<String>,
    tables: &Vec<TableDefinition>,
    contents: &Vec<Vec<String>>,
    enums: &Vec<EnumDefinition>,
) -> (r: Vec<Folder>)
    requires
        contents@.len() == tables@.len(),
        forall|i: int|
            0 <= i < contents@.len() ==> strings_view(#[trigger] contents@[i]@) == table_lines(
                tables@[i]@,
            ),
    ensures
        folders_view(r@) == table_folders(
            strings_view(names@),
            tables_view(tables@),
            enums_view(enums@),
        ),
{
    let ghost nv = strings_view(names@);
    let ghost tv = tables_view(tables@);
    let ghost ev = enums_view(enums@);
    let mut folders: Vec<Folder> = Vec::new();
    let mut i: usize = 0;
    while i < names.len()
        invariant
            nv == strings_view(names@),
            tv == tables_view(tables@),
            ev == enums_view(enums@),
            contents@.len() == tables@.len(),
            forall|i: int|
                0 <= i < contents@.len() ==> strings_view(#[trigger] contents@[i]@)
                    == table_lines(tables@[i]@),
            i <= names@.len(),
            folders_view(folders@) == table_folders(nv.take(i as int), tv, ev),
        decreases names@.len() - i,
    {
        assert(nv.take(i as int + 1).drop_last() =~= nv.take(i as int));
        assert(nv.take(i as int + 1).last() == names@[i as int]@);
        let schema = &names[i];
        let (mut files, mut mods) = schema_tables(schema, tables, contents);
        if files.len() > 0 {
            let ghost table_mods = strings_view(mods@);
            if enums_present(enums, schema) {
                mods.push(String::from_str("pub mod enums;"));
                mods.push(String::from_str("pub use enums::*;"));
                assert(strings_view(mods@) =~= table_mods + enums_module_lines());
            } else {
                assert(strings_view(mods@) =~= table_mods + Seq::empty());
            }
            let ghost table_files = files_view(files@);
            files.push(rs(String::from_str("mod"), mods));
            assert(files_view(files@) =~= table_files.push(table_index(schema@, tv, ev)));
            let mut path = String::from_str("./src/out/");
            path.append(schema.as_str());
            path.append("/");
            let ghost before = folders@;
            folders.push(Folder { path, files });
            assert(folders_view(folders@) =~= folders_view(before).push(
                table_folder(schema@, tv, ev),
            ));
        }
        i += 1;
    }
    assert(nv.take(names@.len() as int) =~= nv);
    folders
}

/// One folder per schema of `names` that owns enums, in the order of `names`:
/// the enum files and an index that declares and re-exports each of them.
fn enums_by_schema(names: &Vec<String>, enums: &Vec<EnumDefinition>) -> (r: Vec<Folder>)
    ensures
        folders_view(r@) == enum_folders(strings_view(names@), enums_view(enums@)),
{
    let ghost nv = strings_view(names@);
    let ghost ev = enums_view(enums@);
    let mut folders: Vec<Folder> = Vec::new();
    let mut i: usize = 0;
    while i < names.len()
        invariant
            nv == strings_view(names@),
            ev == enums_view(enums@),
            i <= names@.len(),
            folders_view(folders@) == enum_folders(nv.take(i as int), ev),
        decreases names@.len() - i,
    {
        assert(nv.take(i as int + 1).drop_last() =~= nv.take(i as int));
        assert(nv.take(i as int + 1).last() == names@[i as int]@);
        let schema = &names[i];
        let (mut files, mods) = schema_enums(schema, enums);
        if files.len() > 0 {
            let ghost enum_files = files_view(files@);
            files.push(rs(String::from_str("mod"), mods));
            assert(files_view(files@) =~= enum_files.push(enum_index(schema@, ev)));
            let mut path = String::from_str("./src/out/");
            path.append(schema.as_str());
            path.append("/enums/");
            let ghost before = folders@;
            folders.push(Folder { path, files });
            assert(folders_view(folders@) =~= folders_view(before).push(enum_folder(schema@, ev)));
        }
        i += 1;
    }
    assert(nv.take(names@.len() as int) =~= nv);
    folders
}

/// Every schema that owns a table or an enum, once each, in lexicographic order.
fn collect_schemas(tables: &Vec<TableDefinition>, enums: &Vec<EnumDefinition>) -> (r: Vec<
    String,
>)
    ensures
        strings_view(r@) == all_schemas(tables_view(tables@), enums_view(enums@)),
{
    let ghost tv = tables_view(tables@);
    let ghost ev = enums_view(enums@);
    let ghost ts = tv.map_values(|t: TableView| t.schema);
    let ghost es = ev.map_values(|e: EnumView| e.schema);
    let ghost all = ts + es;
    let mut names: Vec<String> = Vec::new();
    let mut i: usize = 0;
    while i < tables.len()
        invariant
            tv == tables_view(tables@),
            ts == tv.map_values(|t: TableView| t.schema),
            all == ts + es,
            i <= tables@.len(),
            strings_view(names@) == sorted_set(all.take(i as int)),
        decreases tables@.len() - i,
    {
        assert(all.take(i as int + 1).drop_last() =~= all.take(i as int));
        assert(all.take(i as int + 1).last() == tables@[i as int].schema@);
        insert_name(&mut names, tables[i].schema.clone());
        i += 1;
    }
    let mut j: usize = 0;
    while j < enums.len()
        invariant
            ev == enums_view(enums@),
            es == ev.map_values(|e: EnumView| e.schema),
            all == ts + es,
            ts.len() == tables@.len(),
            j <= enums@.len(),
            strings_view(names@) == sorted_set(all.take(ts.len() + j)),
        decreases enums@.len() - j,
    {
        assert(all.take(ts.len() + j + 1).drop_last() =~= all.take(ts.len() + j));
        assert(all.take(ts.len() + j + 1).last() == enums@[j as int].schema@);
        insert_name(&mut names, enums[j].schema.clone());
        j += 1;
    }
    assert(all.take(all.len() as int) =~= all);
    names
}

/// The root index, which declares one module per schema.
fn root_index(names: &Vec<String>) -> (r: Folder)
    ensures
        r@ == root_folder(strings_view(names@)),
{
    let ghost nv = strings_view(names@);
    let mut lines: Vec<String> = Vec::new();
    let mut i: usize = 0;
    while i < names.len()
        invariant
            nv == strings_view(names@),
            i <= names@.len(),
            strings_view(lines@) == nv.take(i as int).map_values(|s: Seq<char>| pub_mod_line(s)),
        decreases names@.len() - i,
    {
        let mut line = String::from_str("pub mod ");
        line.append(names[i].as_str());
        line.append(";");
        let ghost before = lines@;
        lines.push(line);
        assert(strings_view(lines@) =~= strings_view(before).push(pub_mod_line(nv[i as int])));
        assert(nv.take(i as int + 1).map_values(|s: Seq<char>| pub_mod_line(s)) =~= nv.take(
            i as int,
        ).map_values(|s: Seq<char>| pub_mod_line(s)).push(pub_mod_line(nv[i as int])));
        i += 1;
    }
    assert(nv.take(names@.len() as int) =~= nv);
    let mut files: Vec<File> = Vec::new();
    files.push(rs(String::from_str("mod"), lines));
    let r = Folder { path: String::from_str("./src/out/"), files };
    assert(r@.files =~= root_folder(nv).files);
    r
}

/// Generates the source tree of a catalog: a root index declaring every
/// schema, then for each schema with tables a folder of structs with its
/// index, then for each schema with enums a folder of enums with its index.
/// Schemas come in lexicographic order, and the definitions of a schema
/// ordered by name.
/// Fails, producing nothing, when a column's type has no Rust type, naming
/// the first such column of the first such table.
pub fn generate(tables: Vec<TableDefinition>, enums: Vec<EnumDefinition>) -> (r: Result<
    Vec<Folder>,
    CodegenError,
>)
    ensures
        match r {
            Ok(folders) => {
                &&& first_unknown(tables_view(tables@)) is None
                &&& folders_view(folders@) == layout(tables_view(tables@), enums_view(enums@))
            },
            Err(e) => reports(e, first_unknown(tables_view(tables@))),
        },
{
    let contents = match table_contents(&tables) {
        Ok(c) => c,
        Err(e) => {
            return Err(e);
        },
    };
    let names = collect_schemas(&tables, &enums);
    let mut folders: Vec<Folder> = Vec::new();
    folders.push(root_index(&names));
    let ghost root = folders@;
    let mut by_table = tables_by_schema(&names, &tables, &contents, &enums);
    folders.append(&mut by_table);
    let ghost with_tables = folders@;
    let mut by_enum = enums_by_schema(&names, &enums);
    folders.append(&mut by_enum);
    proof {
        let tv = tables_view(tables@);
        let ev = enums_view(enums@);
        let nv = strings_view(names@);
        assert(folders_view(root) =~= seq![root_folder(nv)]);
        assert(folders_view(with_tables) =~= folders_view(root) + table_folders(nv, tv, ev));
        assert(folders_view(folders@) =~= folders_view(with_tables) + enum_folders(nv, ev));
    }
    Ok(folders)
}

/// A schema is declared by the root index exactly when some table or some
/// enum belongs to it.
pub open spec fn owns_something(ts: Seq<TableView>, es: Seq<EnumView>, s: Seq<char>) -> bool {
    (exists|i: int| 0 <= i < ts.len() && #[trigger] ts[i].schema == s) || (exists|j: int|
        0 <= j < es.len() && #[trigger] es[j].schema == s)
}

/// The root index declares each schema that owns a table or an enum, and no
/// other, once each and in lexicographic order.
pub proof fn lemma_root_index(ts: Seq<TableView>, es: Seq<EnumView>)
    ensures
        layout(ts, es)[0].files.len() == 1,
        layout(ts, es)[0].files[0].content == all_schemas(ts, es).map_values(
            |s: Seq<char>| pub_mod_line(s),
        ),
        strictly_sorted(all_schemas(ts, es)),
        all_schemas(ts, es).no_duplicates(),
        forall|s: Seq<char>| #[trigger]
            all_schemas(ts, es).contains(s) <==> owns_something(ts, es, s),
{
    let names = all_schemas(ts, es);
    let tm = ts.map_values(|t: TableView| t.schema);
    let em = es.map_values(|e: EnumView| e.schema);
    lemma_sorted_set(tm + em);
    assert forall|i: int, j: int| 0 <= i < j < names.len() implies names[i] != names[j] by {
        lemma_lex_lt_irreflexive(names[i]);
    }
    assert forall|s: Seq<char>| #[trigger] names.contains(s) <==> owns_something(ts, es, s) by {
        assert(names.to_set().contains(s) <==> names.contains(s));
        assert((tm + em).to_set().contains(s) <==> (tm + em).contains(s));
        if (tm + em).contains(s) {
            let k = choose|k: int| 0 <= k < (tm + em).len() && (tm + em)[k] == s;
            if k < tm.len() {
                assert(ts[k].schema == s);
            } else {
                assert(es[k - tm.len()].schema == s);
            }
        }
        if exists|i: int| 0 <= i < ts.len() && #[trigger] ts[i].schema == s {
            let i = choose|i: int| 0 <= i < ts.len() && #[trigger] ts[i].schema == s;
            assert((tm + em)[i] == s);
        }
        if exists|j: int| 0 <= j < es.len() && #[trigger] es[j].schema == s {
            let j = choose|j: int| 0 <= j < es.len() && #[trigger] es[j].schema == s;
            assert((tm + em)[tm.len() + j] == s);
        }
    }
}

proof fn lemma_tables_in_nonempty(ts: Seq<TableView>, s: Seq<char>)
    requires
        tables_in(ts, s).len() > 0,
    ensures
        exists|i: int| 0 <= i < ts.len() && #[trigger] ts[i].schema == s,
    decreases ts.len(),
{
    if ts.last().schema != s {
        lemma_tables_in_nonempty(ts.drop_last(), s);
        let i = choose|i: int| 0 <= i < ts.drop_last().len() && #[trigger] ts.drop_last()[i].schema == s;
        assert(ts[i].schema == s);
    } else {
        assert(ts[ts.len() - 1].schema == s);
    }
}

proof fn lemma_table_folders_have(
    names: Seq<Seq<char>>,
    ts: Seq<TableView>,
    es: Seq<EnumView>,
    s: Seq<char>,
)
    requires
        names.contains(s),
        tables_in(ts, s).len() > 0,
    ensures
        exists|k: int|
            0 <= k < table_folders(names, ts, es).len() && #[trigger] table_folders(
                names,
                ts,
                es,
            )[k] == table_folder(s, ts, es),
    decreases names.len(),
{
    let tf = table_folders(names, ts, es);
    if names.last() == s {
        assert(tf[tf.len() - 1] == table_folder(s, ts, es));
    } else {
        let k = choose|k: int| 0 <= k < names.len() && names[k] == s;
        assert(names.drop_last()[k] == s);
        lemma_table_folders_have(names.drop_last(), ts, es, s);
        let prev = table_folders(names.drop_last(), ts, es);
        let m = choose|m: int| 0 <= m < prev.len() && #[trigger] prev[m] == table_folder(s, ts, es);
        assert(tf[m] == prev[m]);
    }
}

proof fn lemma_table_folders_only(names: Seq<Seq<char>>, ts: Seq<TableView>, es: Seq<EnumView>)
    ensures
        forall|k: int|
            0 <= k < table_folders(names, ts, es).len() ==> exists|n: Seq<char>|
                tables_in(ts, n).len() > 0 && #[trigger] table_folders(names, ts, es)[k]
                    == table_folder(n, ts, es),
    decreases names.len(),
{
    if names.len() > 0 {
        lemma_table_folders_only(names.drop_last(), ts, es);
        let prev = table_folders(names.drop_last(), ts, es);
        let tf = table_folders(names, ts, es);
        assert forall|k: int| 0 <= k < tf.len() implies exists|n: Seq<char>|
            tables_in(ts, n).len() > 0 && #[trigger] tf[k] == table_folder(n, ts, es) by {
            if k < prev.len() {
                assert(tf[k] == prev[k]);
            } else {
                assert(tf[k] == table_folder(names.last(), ts, es));
            }
        }
    }
}

proof fn lemma_table_path_injective(a: Seq<char>, b: Seq<char>)
    requires
        table_path(a) == table_path(b),
    ensures
        a == b,
{
    let r = out_root().len();
    assert(table_path(a).len() == r + a.len() + "/"@.len());
    assert(table_path(b).len() == r + b.len() + "/"@.len());
    assert(a.len() == b.len());
    assert(table_path(a).subrange(r as int, (r + a.len()) as int) =~= a);
    assert(table_path(b).subrange(r as int, (r + b.len()) as int) =~= b);
}

/// The table folders stand in the tree right after the root index. A schema
/// that owns tables has its table folder among them, whose index, its last
/// file, declares and re-exports every table of the schema and, where the
/// schema owns enums too, the nested `enums` module. A schema without tables
/// has no table folder.
pub proof fn lemma_schema_index(ts: Seq<TableView>, es: Seq<EnumView>, s: Seq<char>)
    ensures
        layout(ts, es).subrange(1, 1 + table_folders(all_schemas(ts, es), ts, es).len() as int)
            == table_folders(all_schemas(ts, es), ts, es),
        tables_in(ts, s).len() > 0 ==> exists|k: int|
            0 <= k < table_folders(all_schemas(ts, es), ts, es).len() && #[trigger] table_folders(
                all_schemas(ts, es),
                ts,
                es,
            )[k] == table_folder(s, ts, es),
        tables_in(ts, s).len() == 0 ==> forall|k: int|
            0 <= k < table_folders(all_schemas(ts, es), ts, es).len() ==> #[trigger] table_folders(
                all_schemas(ts, es),
                ts,
                es,
            )[k].path != table_path(s),
        table_folder(s, ts, es).path == table_path(s),
        table_folder(s, ts, es).files.last().content == tables_in(ts, s).map_values(
            |t: TableView| mod_and_use_line(t.name),
        ) + if enums_in(es, s).len() > 0 {
            enums_module_lines()
        } else {
            Seq::empty()
        },
{
    let names = all_schemas(ts, es);
    let tf = table_folders(names, ts, es);
    assert(layout(ts, es).subrange(1, 1 + tf.len() as int) =~= tf);
    if tables_in(ts, s).len() > 0 {
        lemma_tables_in_nonempty(ts, s);
        lemma_root_index(ts, es);
        assert(owns_something(ts, es, s));
        assert(names.contains(s));
        lemma_table_folders_have(names, ts, es, s);
    } else {
        lemma_table_folders_only(names, ts, es);
        assert forall|k: int| 0 <= k < tf.len() implies #[trigger] tf[k].path != table_path(s) by {
            let n = choose|n: Seq<char>| tables_in(ts, n).len() > 0 && #[trigger] tf[k]
                == table_folder(n, ts, es);
            if tf[k].path == table_path(s) {
                lemma_table_path_injective(n, s);
            }
        }
    }
}

/// Generation depends on the contents of its inputs alone: two runs on
/// tables and enums that hold the same values give the same tree, or fail on
/// the same column.
pub proof fn lemma_repeatable(
    t1: Seq<TableDefinition>,
    e1: Seq<EnumDefinition>,
    t2: Seq<TableDefinition>,
    e2: Seq<EnumDefinition>,
)
    requires
        tables_view(t1) == tables_view(t2),
        enums_view(e1) == enums_view(e2),
    ensures
        first_unknown(tables_view(t1)) == first_unknown(tables_view(t2)),
        layout(tables_view(t1), enums_view(e1)) == layout(tables_view(t2), enums_view(e2)),
{
}

} // verus!
