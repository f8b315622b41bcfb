//! A representation of a relational database infoset: the passive schema
//! model extracted from a database's catalog, together with the spec-level
//! views that the rendering and extraction contracts speak of.

use vstd::prelude::*;

verus! {

/// The name of the bookkeeping table that the database engine maintains for
/// autoincrement counters; it is an implementation artifact, not user schema,
/// and must never appear in an extracted model.
pub open spec fn internal_table_name() -> Seq<char> {
    "sqlite_sequence"@
}

pub open spec fn views_of_strings(ss: Seq<String>) -> Seq<Seq<char>> {
    ss.map_values(|s: String| s@)
}

/// One column of a table, as reported by the catalog.
pub struct Column {
    /// Zero-based catalog column index.
    pub id: u32,
    pub name: String,
    /// Free-form declared type; may be empty.
    pub datatype: String,
    /// The catalog's "not null" flag.
    pub required: bool,
    /// Present only if the catalog declares a default.
    pub default_value: Option<String>,
    pub primary_key: bool,
}

pub ghost struct ColumnV {
    pub id: int,
    pub name: Seq<char>,
    pub datatype: Seq<char>,
    pub required: bool,
    pub default_value: Option<Seq<char>>,
    pub primary_key: bool,
}

impl View for Column {
    type V = ColumnV;

    open spec fn view(&self) -> ColumnV {
        ColumnV {
            id: self.id as int,
            name: self.name@,
            datatype: self.datatype@,
            required: self.required,
            default_value: match self.default_value {
                Option::Some(s) => Option::Some(s@),
                Option::None => Option::None,
            },
            primary_key: self.primary_key,
        }
    }
}

pub open spec fn views_of_columns(cs: Seq<Column>) -> Seq<ColumnV> {
    cs.map_values(|c: Column| c@)
}

/// A table: a name and its columns in catalog order. The catalog guarantees
/// that a table's name is unique within its owning database; the model relies
/// on that without restating it.
pub struct Table {
    pub name: String,
    pub columns: Vec<Column>,
}

pub ghost struct TableV {
    pub name: Seq<char>,
    pub columns: Seq<ColumnV>,
}

/// Columns ordered by catalog column index, ascending.
pub open spec fn columns_sorted(cs: Seq<ColumnV>) -> bool {
    forall|i: int, j: int| 0 <= i < j < cs.len() ==> cs[i].id <= cs[j].id
}

impl TableV {
    /// A table extracted from the catalog: not the engine's bookkeeping
    /// table, and its columns ordered by catalog column index, ascending.
    pub open spec fn wf(self) -> bool {
        &&& self.name != internal_table_name()
        &&& columns_sorted(self.columns)
    }
}

/// Every table of an extracted sequence is well formed.
pub open spec fn table_seq_wf(ts: Seq<TableV>) -> bool {
    forall|i: int| 0 <= i < ts.len() ==> (#[trigger] ts[i]).wf()
}

impl View for Table {
    type V = TableV;

    open spec fn view(&self) -> TableV {
        TableV { name: self.name@, columns: views_of_columns(self.columns@) }
    }
}

impl Table {
    pub fn new(name: String, columns: Vec<Column>) -> (r: Table)
        ensures
            r@ == (TableV { name: name@, columns: views_of_columns(columns@) }),
    {
        Table { name, columns }
    }
}

pub open spec fn views_of_tables(ts: Seq<Table>) -> Seq<TableV> {
    ts.map_values(|t: Table| t@)
}

/// A directed reference between two tables, held by name: the table that
/// declares the foreign key (`source`) and the table it points at (`sink`).
pub struct Reference {
    pub source: String,
    pub sink: String,
}

pub ghost struct ReferenceV {
    pub source: Seq<char>,
    pub sink: Seq<char>,
}

impl ReferenceV {
    /// A reference extracted from the catalog touches no bookkeeping table.
    pub open spec fn wf(self) -> bool {
        &&& self.source != internal_table_name()
        &&& self.sink != internal_table_name()
    }
}

impl View for Reference {
    type V = ReferenceV;

    open spec fn view(&self) -> ReferenceV {
        ReferenceV { source: self.source@, sink: self.sink@ }
    }
}

impl Reference {
    pub fn new(source: String, sink: String) -> (r: Reference)
        ensures
            r@ == (ReferenceV { source: source@, sink: sink@ }),
    {
        Reference { source, sink }
    }
}

pub open spec fn views_of_references(rs: Seq<Reference>) -> Seq<ReferenceV> {
    rs.map_values(|r: Reference| r@)
}

/// What extraction guarantees of a reference list: every reference is well
/// formed, and no two references name the same `(source, sink)` pair.
pub open spec fn ref_seq_clean(rs: Seq<ReferenceV>) -> bool {
    &&& forall|i: int| 0 <= i < rs.len() ==> (#[trigger] rs[i]).wf()
    &&& forall|i: int, j: int| 0 <= i < j < rs.len() ==> rs[i] != rs[j]
}

/// One attached database: identity plus its tables and references, each in
/// extraction order.
pub struct Database {
    pub path: String,
    pub name: String,
    pub tables: Vec<Table>,
    pub references: Vec<Reference>,
}

pub ghost struct DatabaseV {
    pub path: Seq<char>,
    pub name: Seq<char>,
    pub tables: Seq<TableV>,
    pub references: Seq<ReferenceV>,
}

impl DatabaseV {
    /// What extraction guarantees of every model it returns: every table and
    /// reference is well formed, and no two references name the same
    /// `(source, sink)` pair.
    pub open spec fn wf(self) -> bool {
        &&& table_seq_wf(self.tables)
        &&& ref_seq_clean(self.references)
    }
}

/// Every database of an extracted sequence is well formed.
pub open spec fn all_wf(ds: Seq<DatabaseV>) -> bool {
    forall|i: int| 0 <= i < ds.len() ==> (#[trigger] ds[i]).wf()
}

impl View for Database {
    type V = DatabaseV;

    open spec fn view(&self) -> DatabaseV {
        DatabaseV {
            path: self.path@,
            name: self.name@,
            tables: views_of_tables(self.tables@),
            references: views_of_references(self.references@),
        }
    }
}

impl Database {
    pub fn new(name: String, path: String, tables: Vec<Table>, references: Vec<Reference>) -> (r:
        Database)
        ensures
            r@ == (DatabaseV {
                path: path@,
                name: name@,
                tables: views_of_tables(tables@),
                references: views_of_references(references@),
            }),
    {
        Database { path, name, tables, references }
    }
}

pub open spec fn views_of_databases(ds: Seq<Database>) -> Seq<DatabaseV> {
    ds.map_values(|d: Database| d@)
}

/// The fixed layout attributes that open every document: constant
/// presentation defaults, not derived from the data.
pub open spec fn spec_layout_attrs() -> Seq<char> {
    "  rankdir=\"LR\";\n  ranksep=\"0.8\";\n  nodesep=\"0.6\";\n  overlap=\"false\";\n  sep=\"+16\";\n  splines=\"compound\";\n  concentrate=\"true\";\n  pad=\"0.4,0.4\";\n  fontname=\"Helvetica\";\n  fontsize=\"12\";\n"@
}

/// The global default node style, inherited by every node statement.
pub open spec fn spec_node_defaults() -> Seq<char> {
    "node[shape=\"Mrecord\", fontsize=\"12\", fontname=\"Helvetica\", margin=\"0.07,0.04\", penwidth=\"1.0\"];\n"@
}

/// The global default edge style, inherited by every edge statement.
pub open spec fn spec_edge_defaults() -> Seq<char> {
    "edge[arrowsize=\"0.8\", fontsize=\"10\", style=\"solid\", penwidth=\"0.9\", fontname=\"Helvetica\", labelangle=\"33\", labeldistance=\"2.0\"];\n"@
}

/// The document header: the graph opening named after the database, the
/// layout attributes, a document-level label holding the bolded source file
/// path, and the node and edge defaults.
pub open spec fn spec_header(name: Seq<char>, path: Seq<char>) -> Seq<char> {
    "digraph "@ + name + " {\n"@ + spec_layout_attrs() + "  label=<"@ + crate::dot::spec_bold(path)
        + ">;\n"@ + spec_node_defaults() + spec_edge_defaults()
}

/// One node statement: the table name as the node identifier, the rendered
/// label as its display.
pub open spec fn spec_table_stmt(t: TableV) -> Seq<char> {
    "  "@ + t.name + " [\n    label=<"@ + crate::dot::spec_node(t.name, t.columns) + ">\n  ];\n"@
}

/// One edge statement from the declaring table to the referenced table.
pub open spec fn spec_edge_stmt(r: ReferenceV) -> Seq<char> {
    r.source + "->"@ + r.sink + "[]"@
}

/// All node statements of a table sequence, in extraction order.
pub open spec fn spec_tables_stmts(ts: Seq<TableV>) -> Seq<char>
    decreases ts.len(),
{
    if ts.len() == 0 {
        Seq::empty()
    } else {
        spec_tables_stmts(ts.drop_last()) + spec_table_stmt(ts.last())
    }
}

/// All edge statements of a reference sequence, in extraction order.
pub open spec fn spec_edges_stmts(rs: Seq<ReferenceV>) -> Seq<char>
    decreases rs.len(),
{
    if rs.len() == 0 {
        Seq::empty()
    } else {
        spec_edges_stmts(rs.drop_last()) + spec_edge_stmt(rs.last())
    }
}

/// A single database rendered as a complete document of its own.
pub open spec fn spec_database(d: DatabaseV) -> Seq<char> {
    spec_header(d.name, d.path) + spec_tables_stmts(d.tables) + spec_edges_stmts(d.references)
        + "}"@
}

/// The node statements of every database, in database-then-table order.
pub open spec fn spec_nodes_of_dbs(ds: Seq<DatabaseV>) -> Seq<char>
    decreases ds.len(),
{
    if ds.len() == 0 {
        Seq::empty()
    } else {
        spec_nodes_of_dbs(ds.drop_last()) + spec_tables_stmts(ds.last().tables)
    }
}

/// The edge statements of every database, in extraction order, after all
/// node statements.
pub open spec fn spec_edges_of_dbs(ds: Seq<DatabaseV>) -> Seq<char>
    decreases ds.len(),
{
    if ds.len() == 0 {
        Seq::empty()
    } else {
        spec_edges_of_dbs(ds.drop_last()) + spec_edges_stmts(ds.last().references)
    }
}

/// The complete document for one or more databases: one top-level graph,
/// named after the first database and labelled with its path, holding every
/// table's node statement (nodes strictly precede edges) and then every
/// reference's edge statement. An empty model renders as the empty document.
pub open spec fn spec_document(ds: Seq<DatabaseV>) -> Seq<char> {
    if ds.len() == 0 {
        Seq::empty()
    } else {
        spec_header(ds[0].name, ds[0].path) + spec_nodes_of_dbs(ds) + spec_edges_of_dbs(ds) + "}"@
    }
}

/// Law: rendering is deterministic — the document is a pure function of the
/// schema model alone, with no reliance on unordered iteration, so rendering
/// the same model twice produces byte-identical output.
pub proof fn lemma_render_deterministic(ds: Seq<DatabaseV>, r1: Seq<char>, r2: Seq<char>)
    requires
        r1 == spec_document(ds),
        r2 == spec_document(ds),
    ensures
        r1 == r2,
{
}

impl Table {
    /// Renders this table's node statement.
    pub fn to_dot(&self) -> (r: String)
        ensures
            r@ == spec_table_stmt(self@),
    {
        let mut out = String::new();
        out.append("  ");
        out.append(self.name.as_str());
        out.append(" [\n    label=<");
        let label = crate::dot::node(self.name.as_str(), &self.columns);
        out.append(label.as_str());
        out.append(">\n  ];\n");
        out
    }
}

impl Reference {
    /// Renders this reference's edge statement.
    pub fn to_dot(&self) -> (r: String)
        ensures
            r@ == spec_edge_stmt(self@),
    {
        let mut out = String::new();
        out.append(self.source.as_str());
        out.append("->");
        out.append(self.sink.as_str());
        out.append("[]");
        out
    }
}

fn append_header(out: &mut String, name: &str, path: &str)
    ensures
        final(out)@ == old(out)@ + spec_header(name@, path@),
{
    out.append("digraph ");
    out.append(name);
    out.append(" {\n");
    out.append(
        "  rankdir=\"LR\";\n  ranksep=\"0.8\";\n  nodesep=\"0.6\";\n  overlap=\"false\";\n  sep=\"+16\";\n  splines=\"compound\";\n  concentrate=\"true\";\n  pad=\"0.4,0.4\";\n  fontname=\"Helvetica\";\n  fontsize=\"12\";\n",
    );
    out.append("  label=<");
    let b = crate::dot::bold(path);
    out.append(b.as_str());
    out.append(">;\n");
    out.append(
        "node[shape=\"Mrecord\", fontsize=\"12\", fontname=\"Helvetica\", margin=\"0.07,0.04\", penwidth=\"1.0\"];\n",
    );
    out.append(
        "edge[arrowsize=\"0.8\", fontsize=\"10\", style=\"solid\", penwidth=\"0.9\", fontname=\"Helvetica\", labelangle=\"33\", labeldistance=\"2.0\"];\n",
    );
}

fn append_tables(out: &mut String, tables: &Vec<Table>)
    ensures
        final(out)@ == old(out)@ + spec_tables_stmts(views_of_tables(tables@)),
{
    let ghost tv = views_of_tables(tables@);
    let mut i: usize = 0;
    while i < tables.len()
        invariant
            i <= tables@.len(),
            tv == views_of_tables(tables@),
            tv.len() == tables@.len(),
            out@ == old(out)@ + spec_tables_stmts(tv.take(i as int)),
        decreases tables@.len() - i,
    {
        let stmt = tables[i].to_dot();
        out.append(stmt.as_str());
        proof {
            assert(tv.take(i + 1 as int).drop_last() =~= tv.take(i as int));
            assert(tv.take(i + 1 as int).last() == tables@[i as int]@);
        }
        i = i + 1;
    }
    proof {
        assert(tv.take(tables@.len() as int) =~= tv);
    }
}

fn append_references(out: &mut String, references: &Vec<Reference>)
    ensures
        final(out)@ == old(out)@ + spec_edges_stmts(views_of_references(references@)),
{
    let ghost rv = views_of_references(references@);
    let mut i: usize = 0;
    while i < references.len()
        invariant
            i <= references@.len(),
            rv == views_of_references(references@),
            rv.len() == references@.len(),
            out@ == old(out)@ + spec_edges_stmts(rv.take(i as int)),
        decreases references@.len() - i,
    {
        let stmt = references[i].to_dot();
        out.append(stmt.as_str());
        proof {
            assert(rv.take(i + 1 as int).drop_last() =~= rv.take(i as int));
            assert(rv.take(i + 1 as int).last() == references@[i as int]@);
        }
        i = i + 1;
    }
    proof {
        assert(rv.take(references@.len() as int) =~= rv);
    }
}

impl Database {
    /// Renders this database alone as a complete document.
    pub fn to_dot(&self) -> (r: String)
        ensures
            r@ == spec_database(self@),
    {
        let mut out = String::new();
        append_header(&mut out, self.name.as_str(), self.path.as_str());
        append_tables(&mut out, &self.tables);
        append_references(&mut out, &self.references);
        out.append("}");
        out
    }
}

/// Renders one or more databases into a single document: the header comes
/// from the first database, every table of every database becomes a node
/// statement, and only then every reference becomes an edge statement.
pub fn render_document(databases: &Vec<Database>) -> (r: String)
    ensures
        r@ == spec_document(views_of_databases(databases@)),
{
    let ghost dv = views_of_databases(databases@);
    if databases.len() == 0 {
        let out = String::new();
        return out;
    }
    let mut out = String::new();
    append_header(&mut out, databases[0].name.as_str(), databases[0].path.as_str());
    let mut i: usize = 0;
    while i < databases.len()
        invariant
            i <= databases@.len(),
            dv == views_of_databases(databases@),
            dv.len() == databases@.len(),
            dv.len() > 0,
            out@ == spec_header(dv[0].name, dv[0].path) + spec_nodes_of_dbs(dv.take(i as int)),
        decreases databases@.len() - i,
    {
        append_tables(&mut out, &databases[i].tables);
        proof {
            assert(dv.take(i + 1 as int).drop_last() =~= dv.take(i as int));
            assert(dv.take(i + 1 as int).last() == databases@[i as int]@);
        }
        i = i + 1;
    }
    let mut j: usize = 0;
    while j < databases.len()
        invariant
            j <= databases@.len(),
            dv == views_of_databases(databases@),
            dv.len() == databases@.len(),
            dv.len() > 0,
            out@ == spec_header(dv[0].name, dv[0].path) + spec_nodes_of_dbs(dv.take(
                databases@.len() as int,
            )) + spec_edges_of_dbs(dv.take(j as int)),
        decreases databases@.len() - j,
    {
        append_references(&mut out, &databases[j].references);
        proof {
            assert(dv.take(j + 1 as int).drop_last() =~= dv.take(j as int));
            assert(dv.take(j + 1 as int).last() == databases@[j as int]@);
        }
        j = j + 1;
    }
    out.append("}");
    proof {
        assert(dv.take(databases@.len() as int) =~= dv);
    }
    out
}

} // verus!
