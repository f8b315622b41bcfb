//! Introspects a SQLite database's catalog and renders the schema as a DOT
//! graph description: one node per table (with an HTML-like label listing its
//! columns) and one edge per foreign-key reference between tables.

pub mod dot;
pub mod infoset;
mod sqlite;

use vstd::prelude::*;

use crate::infoset::{
    Column, ColumnV, Database, Reference, ReferenceV, Table, all_wf, columns_sorted,
    internal_table_name, ref_seq_clean, spec_document, table_seq_wf, views_of_columns,
    views_of_databases, views_of_references, views_of_strings, views_of_tables, render_document,
};

verus! {

/// A failure while opening the database or while reading its catalog: the
/// description of the underlying cause. Extraction is all-or-nothing, so one
/// of these means no partial model and no partial output.
#[derive(Debug)]
pub struct SchemaError {
    pub message: String,
}

fn of_sqlite(e: &rusqlite::Error) -> SchemaError {
    SchemaError { message: crate::sqlite::describe_error(e) }
}

fn is_internal_name(s: &String) -> (b: bool)
    ensures
        b == (s@ == internal_table_name()),
{
    let sentinel = "sqlite_sequence".to_owned();
    *s == sentinel
}

/// The table names that survive extraction: the catalog's order kept, the
/// engine's bookkeeping sequence table left out.
pub open spec fn spec_user_names(names: Seq<Seq<char>>) -> Seq<Seq<char>>
    decreases names.len(),
{
    if names.len() == 0 {
        Seq::empty()
    } else {
        let front = spec_user_names(names.drop_last());
        if names.last() == internal_table_name() {
            front
        } else {
            front.push(names.last())
        }
    }
}

/// Drops the engine's bookkeeping sequence table from a list of catalog
/// table names, keeping the catalog's order.
pub fn filter_user_tables(names: &Vec<String>) -> (r: Vec<String>)
    ensures
        views_of_strings(r@) == spec_user_names(views_of_strings(names@)),
{
    let ghost nv = views_of_strings(names@);
    let mut r: Vec<String> = Vec::new();
    let mut i: usize = 0;
    while i < names.len()
        invariant
            i <= names@.len(),
            nv == views_of_strings(names@),
            nv.len() == names@.len(),
            views_of_strings(r@) == spec_user_names(nv.take(i as int)),
        decreases names@.len() - i,
    {
        if !is_internal_name(&names[i]) {
            let n = names[i].clone();
            let ghost r0 = r@;
            r.push(n);
            proof {
                assert(views_of_strings(r@) =~= views_of_strings(r0).push(names@[i as int]@));
            }
        }
        proof {
            assert(nv.take(i + 1 as int).drop_last() =~= nv.take(i as int));
            assert(nv.take(i + 1 as int).last() == names@[i as int]@);
        }
        i = i + 1;
    }
    proof {
        assert(nv.take(names@.len() as int) =~= nv);
    }
    r
}

/// Law: the engine's bookkeeping sequence table never survives the table
/// filter — a name is kept exactly when the catalog listed it and it is not
/// the bookkeeping table, in the catalog's order.
pub proof fn lemma_user_names_excludes_internal(names: Seq<Seq<char>>)
    ensures
        forall|i: int|
            0 <= i < spec_user_names(names).len() ==> #[trigger] spec_user_names(names)[i]
                != internal_table_name(),
        forall|x: Seq<char>|
            spec_user_names(names).contains(x) <==> (names.contains(x) && x
                != internal_table_name()),
    decreases names.len(),
{
    if names.len() == 0 {
        assert forall|x: Seq<char>| !names.contains(x) by {}
    } else {
        lemma_user_names_excludes_internal(names.drop_last());
        let front = spec_user_names(names.drop_last());
        let l = names.last();
        assert forall|x: Seq<char>| names.contains(x) <==> (names.drop_last().contains(x) || x
            == l) by {
            if names.contains(x) {
                let k = choose|k: int| 0 <= k < names.len() && names[k] == x;
                if k < names.len() - 1 {
                    assert(names.drop_last()[k] == x);
                    assert(names.drop_last().contains(x));
                }
            }
            if names.drop_last().contains(x) {
                let k = choose|k: int|
                    0 <= k < names.drop_last().len() && names.drop_last()[k] == x;
                assert(names[k] == x);
            }
            if x == l {
                assert(names[names.len() - 1] == x);
            }
        }
        if l == internal_table_name() {
            assert(spec_user_names(names) == front);
        } else {
            assert(spec_user_names(names) == front.push(l));
            assert forall|x: Seq<char>| front.push(l).contains(x) <==> (front.contains(x) || x
                == l) by {
                if front.push(l).contains(x) {
                    let k = choose|k: int| 0 <= k < front.push(l).len() && front.push(l)[k] == x;
                    if k < front.len() {
                        assert(front[k] == x);
                    }
                }
                if front.contains(x) {
                    let k = choose|k: int| 0 <= k < front.len() && front[k] == x;
                    assert(front.push(l)[k] == x);
                }
                if x == l {
                    assert(front.push(l)[front.len() as int] == x);
                }
            }
        }
    }
}

pub open spec fn views_of_pairs(ps: Seq<(String, String)>) -> Seq<ReferenceV> {
    ps.map_values(|p: (String, String)| ReferenceV { source: p.0@, sink: p.1@ })
}

/// The references that survive extraction: one entry per *distinct*
/// `(source, sink)` pair, in first-occurrence order, pairs touching the
/// engine's bookkeeping table left out.
pub open spec fn spec_clean_references(rs: Seq<ReferenceV>) -> Seq<ReferenceV>
    decreases rs.len(),
{
    if rs.len() == 0 {
        Seq::empty()
    } else {
        let front = spec_clean_references(rs.drop_last());
        if !rs.last().wf() || front.contains(rs.last()) {
            front
        } else {
            front.push(rs.last())
        }
    }
}

/// Law: reference deduplication — the cleaned list holds a pair exactly when
/// the catalog emitted it and it touches no bookkeeping table, and it holds
/// no pair twice, so a multi-column foreign key between one table pair
/// yields exactly one entry.
pub proof fn lemma_clean_references_clean(rs: Seq<ReferenceV>)
    ensures
        ref_seq_clean(spec_clean_references(rs)),
        forall|x: ReferenceV|
            spec_clean_references(rs).contains(x) <==> (rs.contains(x) && x.wf()),
    decreases rs.len(),
{
    if rs.len() == 0 {
        assert forall|x: ReferenceV| !rs.contains(x) by {}
    } else {
        lemma_clean_references_clean(rs.drop_last());
        let front = spec_clean_references(rs.drop_last());
        let l = rs.last();
        assert forall|x: ReferenceV| rs.contains(x) <==> (rs.drop_last().contains(x) || x == l) by {
            if rs.contains(x) {
                let k = choose|k: int| 0 <= k < rs.len() && rs[k] == x;
                if k < rs.len() - 1 {
                    assert(rs.drop_last()[k] == x);
                    assert(rs.drop_last().contains(x));
                }
            }
            if rs.drop_last().contains(x) {
                let k = choose|k: int| 0 <= k < rs.drop_last().len() && rs.drop_last()[k] == x;
                assert(rs[k] == x);
            }
            if x == l {
                assert(rs[rs.len() - 1] == x);
            }
        }
        if !l.wf() || front.contains(l) {
            assert(spec_clean_references(rs) == front);
        } else {
            assert(spec_clean_references(rs) == front.push(l));
            assert forall|x: ReferenceV| front.push(l).contains(x) <==> (front.contains(x) || x
                == l) by {
                if front.push(l).contains(x) {
                    let k = choose|k: int| 0 <= k < front.push(l).len() && front.push(l)[k] == x;
                    if k < front.len() {
                        assert(front[k] == x);
                    }
                }
                if front.contains(x) {
                    let k = choose|k: int| 0 <= k < front.len() && front[k] == x;
                    assert(front.push(l)[k] == x);
                }
                if x == l {
                    assert(front.push(l)[front.len() as int] == x);
                }
            }
            assert forall|i: int, j: int|
                0 <= i < j < front.push(l).len() implies front.push(l)[i] != front.push(l)[j] by {
                if j < front.len() {
                } else {
                    assert(front.push(l)[j] == l);
                    if front.push(l)[i] == l {
                        assert(front[i] == l);
                        assert(front.contains(l));
                    }
                }
            }
            assert forall|i: int|
                0 <= i < front.push(l).len() implies (#[trigger] front.push(l)[i]).wf() by {
                if i < front.len() {
                    assert(front[i].wf());
                }
            }
        }
    }
}

fn contains_reference(rs: &Vec<Reference>, source: &String, sink: &String) -> (b: bool)
    ensures
        b == views_of_references(rs@).contains(ReferenceV { source: source@, sink: sink@ }),
{
    let ghost target = ReferenceV { source: source@, sink: sink@ };
    let mut i: usize = 0;
    while i < rs.len()
        invariant
            i <= rs@.len(),
            target == (ReferenceV { source: source@, sink: sink@ }),
            forall|k: int| 0 <= k < i ==> views_of_references(rs@)[k] != target,
        decreases rs@.len() - i,
    {
        if rs[i].source == *source && rs[i].sink == *sink {
            proof {
                assert(views_of_references(rs@)[i as int] == target);
            }
            return true;
        }
        proof {
            assert(views_of_references(rs@)[i as int] == rs@[i as int]@);
        }
        i = i + 1;
    }
    proof {
        if views_of_references(rs@).contains(target) {
            let k = choose|k: int|
                0 <= k < views_of_references(rs@).len() && views_of_references(rs@)[k] == target;
            assert(views_of_references(rs@)[k] != target);
        }
    }
    false
}

/// Collapses the raw `(declaring table, referenced table)` pairs of the
/// catalog's foreign-key listing into at most one reference per distinct
/// pair, dropping pairs that touch the engine's bookkeeping table.
pub fn clean_references(pairs: &Vec<(String, String)>) -> (r: Vec<Reference>)
    ensures
        views_of_references(r@) == spec_clean_references(views_of_pairs(pairs@)),
{
    let ghost pv = views_of_pairs(pairs@);
    let mut r: Vec<Reference> = Vec::new();
    let mut i: usize = 0;
    while i < pairs.len()
        invariant
            i <= pairs@.len(),
            pv == views_of_pairs(pairs@),
            pv.len() == pairs@.len(),
            views_of_references(r@) == spec_clean_references(pv.take(i as int)),
        decreases pairs@.len() - i,
    {
        let source = &pairs[i].0;
        let sink = &pairs[i].1;
        let internal = is_internal_name(source) || is_internal_name(sink);
        let dup = contains_reference(&r, source, sink);
        proof {
            assert(pv[i as int] == (ReferenceV { source: source@, sink: sink@ }));
            assert(pv[i as int].wf() <==> !internal);
        }
        if !internal && !dup {
            let nr = Reference::new(source.clone(), sink.clone());
            let ghost r0 = r@;
            r.push(nr);
            proof {
                assert(views_of_references(r@) =~= views_of_references(r0).push(pv[i as int]));
            }
        }
        proof {
            assert(pv.take(i + 1 as int).drop_last() =~= pv.take(i as int));
            assert(pv.take(i + 1 as int).last() == pv[i as int]);
        }
        i = i + 1;
    }
    proof {
        assert(pv.take(pairs@.len() as int) =~= pv);
    }
    r
}

pub open spec fn view_of_default(o: Option<String>) -> Option<Seq<char>> {
    match o {
        Option::Some(s) => Option::Some(s@),
        Option::None => Option::None,
    }
}

fn columns_from_rows(rows: &Vec<(u32, String, String, bool, Option<String>, bool)>) -> (r: Vec<
    Column,
>)
    ensures
        r@.len() == rows@.len(),
        forall|i: int|
            0 <= i < rows@.len() ==> (#[trigger] r@[i])@ == (ColumnV {
                id: rows@[i].0 as int,
                name: rows@[i].1@,
                datatype: rows@[i].2@,
                required: rows@[i].3,
                default_value: view_of_default(rows@[i].4),
                primary_key: rows@[i].5,
            }),
{
    let mut r: Vec<Column> = Vec::new();
    let mut i: usize = 0;
    while i < rows.len()
        invariant
            i <= rows@.len(),
            r@.len() == i,
            forall|k: int|
                0 <= k < i ==> (#[trigger] r@[k])@ == (ColumnV {
                    id: rows@[k].0 as int,
                    name: rows@[k].1@,
                    datatype: rows@[k].2@,
                    required: rows@[k].3,
                    default_value: view_of_default(rows@[k].4),
                    primary_key: rows@[k].5,
                }),
        decreases rows@.len() - i,
    {
        let default_value = match &rows[i].4 {
            Option::Some(s) => Option::Some(s.clone()),
            Option::None => Option::None,
        };
        let c = Column {
            id: rows[i].0,
            name: rows[i].1.clone(),
            datatype: rows[i].2.clone(),
            required: rows[i].3,
            default_value,
            primary_key: rows[i].5,
        };
        r.push(c);
        i = i + 1;
    }
    r
}

/// A document that the renderer produced from some well-formed schema model:
/// what every successful invocation hands back.
pub open spec fn renders_wf_model(s: Seq<char>) -> bool {
    exists|ds: Seq<infoset::DatabaseV>| #[trigger] all_wf(ds) && s == spec_document(ds)
}

/// A SQLite package: a live connection and the path it was opened from.
pub struct Package {
    path: String,
    conn: rusqlite::Connection,
}

impl Package {
    /// The path this package was opened from.
    pub closed spec fn spec_path(&self) -> Seq<char> {
        self.path@
    }

    /// Opens the database file at `path`, configured with the non-journaling
    /// persistence mode (the tool never writes). Fails exactly when the
    /// client cannot open or configure the file as a database.
    pub fn new(path: &str) -> (r: Result<Package, SchemaError>)
        ensures
            r matches Ok(p) ==> p.spec_path() == path@,
    {
        let conn = match crate::sqlite::open_connection(path) {
            Ok(c) => c,
            Err(e) => {
                return Err(of_sqlite(&e));
            },
        };
        match crate::sqlite::pragma_journal_mode_delete(&conn) {
            Ok(_) => {},
            Err(e) => {
                return Err(of_sqlite(&e));
            },
        }
        Ok(Package { path: path.to_owned(), conn })
    }

    /// Returns the list of columns for the given table name, in catalog
    /// column order.
    pub fn columns(&self, table_name: &str) -> (r: Result<Vec<Column>, SchemaError>)
        ensures
            r matches Ok(cs) ==> columns_sorted(views_of_columns(cs@)),
    {
        let rows = match crate::sqlite::query_table_columns(&self.conn, table_name) {
            Ok(v) => v,
            Err(e) => {
                return Err(of_sqlite(&e));
            },
        };
        let cols = columns_from_rows(&rows);
        proof {
            assert forall|i: int, j: int|
                0 <= i < j < views_of_columns(cols@).len() implies views_of_columns(cols@)[i].id
                <= views_of_columns(cols@)[j].id by {
                assert(views_of_columns(cols@)[i] == cols@[i]@);
                assert(views_of_columns(cols@)[j] == cols@[j]@);
            }
        }
        Ok(cols)
    }

    /// Returns the list of tables for the given database name, the engine's
    /// bookkeeping table excluded, each with its columns in catalog order.
    pub fn tables(&self, db_name: &str) -> (r: Result<Vec<Table>, SchemaError>)
        ensures
            r matches Ok(ts) ==> table_seq_wf(views_of_tables(ts@)),
    {
        let raw = match crate::sqlite::query_table_names(&self.conn, db_name) {
            Ok(v) => v,
            Err(e) => {
                return Err(of_sqlite(&e));
            },
        };
        let names = filter_user_tables(&raw);
        proof {
            lemma_user_names_excludes_internal(views_of_strings(raw@));
        }
        let mut res: Vec<Table> = Vec::new();
        let mut i: usize = 0;
        while i < names.len()
            invariant
                i <= names@.len(),
                views_of_strings(names@) == spec_user_names(views_of_strings(raw@)),
                forall|k: int|
                    0 <= k < spec_user_names(views_of_strings(raw@)).len()
                        ==> #[trigger] spec_user_names(views_of_strings(raw@))[k]
                        != internal_table_name(),
                table_seq_wf(views_of_tables(res@)),
            decreases names@.len() - i,
        {
            let columns = match self.columns(names[i].as_str()) {
                Ok(cs) => cs,
                Err(e) => {
                    return Err(e);
                },
            };
            proof {
                assert(views_of_strings(names@)[i as int] == names@[i as int]@);
            }
            let name = names[i].clone();
            let table = Table::new(name, columns);
            let ghost res0 = res@;
            let ghost tv = table@;
            res.push(table);
            proof {
                assert(views_of_tables(res@) =~= views_of_tables(res0).push(tv));
                assert(tv.wf());
                assert forall|k: int|
                    0 <= k < views_of_tables(res@).len() implies (#[trigger] views_of_tables(
                    res@,
                )[k]).wf() by {
                    if k < views_of_tables(res0).len() {
                        assert(views_of_tables(res0)[k].wf());
                    }
                }
            }
            i = i + 1;
        }
        Ok(res)
    }

    /// Returns the references between tables for the given database: one per
    /// distinct `(source, sink)` pair, none touching the bookkeeping table.
    pub fn references(&self, db_name: &str) -> (r: Result<Vec<Reference>, SchemaError>)
        ensures
            r matches Ok(rs) ==> ref_seq_clean(views_of_references(rs@)),
    {
        let raw = match crate::sqlite::query_foreign_keys(&self.conn, db_name) {
            Ok(v) => v,
            Err(e) => {
                return Err(of_sqlite(&e));
            },
        };
        let refs = clean_references(&raw);
        proof {
            lemma_clean_references_clean(views_of_pairs(raw@));
        }
        Ok(refs)
    }

    /// Returns the full schema model: every attached database, each with its
    /// tables and references, all well formed.
    pub fn databases(&self) -> (r: Result<Vec<Database>, SchemaError>)
        ensures
            r matches Ok(dbs) ==> all_wf(views_of_databases(dbs@)),
    {
        let raw = match crate::sqlite::query_database_list(&self.conn) {
            Ok(v) => v,
            Err(e) => {
                return Err(of_sqlite(&e));
            },
        };
        let mut res: Vec<Database> = Vec::new();
        let mut i: usize = 0;
        while i < raw.len()
            invariant
                i <= raw@.len(),
                all_wf(views_of_databases(res@)),
            decreases raw@.len() - i,
        {
            let name = raw[i].0.clone();
            let path = raw[i].1.clone();
            let tables = match self.tables(name.as_str()) {
                Ok(t) => t,
                Err(e) => {
                    return Err(e);
                },
            };
            let references = match self.references(name.as_str()) {
                Ok(r) => r,
                Err(e) => {
                    return Err(e);
                },
            };
            let db = Database::new(name, path, tables, references);
            let ghost res0 = res@;
            let ghost dv = db@;
            res.push(db);
            proof {
                assert(views_of_databases(res@) =~= views_of_databases(res0).push(dv));
                assert(dv.wf());
                assert forall|k: int|
                    0 <= k < views_of_databases(res@).len() implies (#[trigger] views_of_databases(
                    res@,
                )[k]).wf() by {
                    if k < views_of_databases(res0).len() {
                        assert(views_of_databases(res0)[k].wf());
                    }
                }
            }
            i = i + 1;
        }
        Ok(res)
    }

    /// Extracts the database structure and renders it as a single DOT
    /// document: the deterministic rendering of a well-formed schema model.
    pub fn to_dot(&self) -> (r: Result<String, SchemaError>)
        ensures
            r matches Ok(s) ==> renders_wf_model(s@),
    {
        let databases = match self.databases() {
            Ok(d) => d,
            Err(e) => {
                return Err(e);
            },
        };
        let pack = render_document(&databases);
        proof {
            let ds = views_of_databases(databases@);
            assert(all_wf(ds) && pack@ == spec_document(ds));
        }
        Ok(pack)
    }
}

/// The command-line invocation: the path of the SQLite database to map.
pub struct Cli {
    pub path: String,
}

impl Cli {
    /// Opens the database at the configured path and renders its schema.
    pub fn run(&self) -> (r: Result<String, SchemaError>)
        ensures
            r matches Ok(s) ==> renders_wf_model(s@),
    {
        let package = match Package::new(self.path.as_str()) {
            Ok(p) => p,
            Err(e) => {
                return Err(e);
            },
        };
        package.to_dot()
    }
}

} // verus!
