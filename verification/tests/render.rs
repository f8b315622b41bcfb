use lightmap::dot;
use lightmap::infoset::{Column, Database, Reference, Table};
use lightmap::{clean_references, filter_user_tables};

fn col(id: u32, name: &str, datatype: &str, required: bool, primary_key: bool) -> Column {
    Column {
        id,
        name: name.to_string(),
        datatype: datatype.to_string(),
        required,
        default_value: None,
        primary_key,
    }
}

const TITLE_OPEN: &str = "<table border=\"0\" cellspacing=\"0.4\"><tr><td align=\"left\" height=\"24\" valign=\"bottom\"><b>";
const TITLE_CLOSE: &str = "</b></td></tr></table>";
const BODY_OPEN: &str = "<table border=\"0\" cellspacing=\"0.4\" width=\"136\">";

fn header(name: &str, path: &str) -> String {
    let mut h = String::new();
    h.push_str(&format!("digraph {} {{\n", name));
    h.push_str("  rankdir=\"LR\";\n");
    h.push_str("  ranksep=\"0.8\";\n");
    h.push_str("  nodesep=\"0.6\";\n");
    h.push_str("  overlap=\"false\";\n");
    h.push_str("  sep=\"+16\";\n");
    h.push_str("  splines=\"compound\";\n");
    h.push_str("  concentrate=\"true\";\n");
    h.push_str("  pad=\"0.4,0.4\";\n");
    h.push_str("  fontname=\"Helvetica\";\n");
    h.push_str("  fontsize=\"12\";\n");
    h.push_str(&format!("  label=<<b>{}</b>>;\n", path));
    h.push_str("node[shape=\"Mrecord\", fontsize=\"12\", fontname=\"Helvetica\", margin=\"0.07,0.04\", penwidth=\"1.0\"];\n");
    h.push_str("edge[arrowsize=\"0.8\", fontsize=\"10\", style=\"solid\", penwidth=\"0.9\", fontname=\"Helvetica\", labelangle=\"33\", labeldistance=\"2.0\"];\n");
    h
}

#[test]
fn escape_replaces_markup_characters() {
    assert_eq!(dot::escape("a<b>&\"c"), "a&lt;b&gt;&amp;&quot;c");
    assert_eq!(dot::escape("plain"), "plain");
    assert_eq!(dot::escape(""), "");
    assert_eq!(dot::escape("&&"), "&amp;&amp;");
}

#[test]
fn escaped_label_leaves_document_well_formed() {
    let table = Table::new(
        "t<odd>".to_string(),
        vec![col(0, "a\"quote", "TE<XT>", false, false)],
    );
    let stmt = table.to_dot();
    let label_start = stmt.find("label=<").unwrap() + "label=<".len();
    let label_end = stmt.rfind(">\n  ];\n").unwrap();
    let label = &stmt[label_start..label_end];
    assert!(label.contains("t&lt;odd&gt;"));
    assert!(label.contains("a&quot;quote"));
    assert!(label.contains("TE&lt;XT&gt;"));
    assert!(!label.contains("t<odd>"));
    assert!(!label.contains("a\"quote"));
    assert!(!label.contains("TE<XT>"));
}

#[test]
fn bold_wraps_and_escapes() {
    assert_eq!(dot::bold("x"), "<b>x</b>");
    assert_eq!(dot::bold("a&b"), "<b>a&amp;b</b>");
}

#[test]
fn node_title_is_one_bold_row() {
    assert_eq!(
        dot::node_title("users"),
        format!("{}users{}", TITLE_OPEN, TITLE_CLOSE)
    );
}

#[test]
fn node_field_marks_primary_keys() {
    let id = col(0, "id", "INTEGER", false, true);
    let name = col(1, "name", "TEXT", true, false);
    assert_eq!(
        dot::node_field(&id),
        "<tr><td align=\"left\">id* <b>INTEGER</b></td></tr>"
    );
    assert_eq!(
        dot::node_field(&name),
        "<tr><td align=\"left\">name <b>TEXT</b></td></tr>"
    );
}

#[test]
fn node_label_lists_columns_in_extraction_order() {
    let columns = vec![
        col(0, "id", "INTEGER", false, true),
        col(1, "name", "TEXT", true, false),
        col(2, "age", "INTEGER", false, false),
    ];
    let label = dot::node("users", &columns);
    let expected = format!(
        "{}users{}|{}<tr><td align=\"left\">id* <b>INTEGER</b></td></tr><tr><td align=\"left\">name <b>TEXT</b></td></tr><tr><td align=\"left\">age <b>INTEGER</b></td></tr></table>",
        TITLE_OPEN, TITLE_CLOSE, BODY_OPEN
    );
    assert_eq!(label, expected);
    let i_id = label.find(">id*").unwrap();
    let i_name = label.find(">name").unwrap();
    let i_age = label.find(">age").unwrap();
    assert!(i_id < i_name && i_name < i_age);
}

#[test]
fn node_field_renders_empty_datatype() {
    let c = col(0, "x", "", false, false);
    assert_eq!(dot::node_field(&c), "<tr><td align=\"left\">x <b></b></td></tr>");
}

#[test]
fn node_label_of_empty_table_has_empty_body() {
    let label = dot::node("bare", &vec![]);
    let expected = format!("{}bare{}|{}</table>", TITLE_OPEN, TITLE_CLOSE, BODY_OPEN);
    assert_eq!(label, expected);
}

#[test]
fn reference_statement_is_bare_edge() {
    let r = Reference::new("orders".to_string(), "customers".to_string());
    assert_eq!(r.to_dot(), "orders->customers[]");
}

#[test]
fn table_statement_wraps_label() {
    let t = Table::new("users".to_string(), vec![col(0, "id", "INTEGER", false, true)]);
    let expected = format!(
        "  users [\n    label=<{}users{}|{}<tr><td align=\"left\">id* <b>INTEGER</b></td></tr></table>>\n  ];\n",
        TITLE_OPEN, TITLE_CLOSE, BODY_OPEN
    );
    assert_eq!(t.to_dot(), expected);
}

#[test]
fn database_document_has_header_nodes_then_edges() {
    let users = Table::new(
        "users".to_string(),
        vec![
            col(0, "id", "INTEGER", false, true),
            col(1, "name", "TEXT", true, false),
        ],
    );
    let db = Database::new(
        "main".to_string(),
        "/tmp/users.db".to_string(),
        vec![users],
        vec![],
    );
    let doc = db.to_dot();
    let expected = format!(
        "{}  users [\n    label=<{}users{}|{}<tr><td align=\"left\">id* <b>INTEGER</b></td></tr><tr><td align=\"left\">name <b>TEXT</b></td></tr></table>>\n  ];\n}}",
        header("main", "/tmp/users.db"),
        TITLE_OPEN,
        TITLE_CLOSE,
        BODY_OPEN
    );
    assert_eq!(doc, expected);
}

#[test]
fn rendering_twice_is_byte_identical() {
    let orders = Table::new("orders".to_string(), vec![col(0, "id", "INTEGER", false, true)]);
    let customers = Table::new("customers".to_string(), vec![col(0, "id", "INTEGER", false, true)]);
    let r = Reference::new("orders".to_string(), "customers".to_string());
    let db = Database::new(
        "main".to_string(),
        "/tmp/shop.db".to_string(),
        vec![orders, customers],
        vec![r],
    );
    let first = db.to_dot();
    let second = db.to_dot();
    assert_eq!(first, second);
}

#[test]
fn document_concatenates_databases_into_one_graph() {
    let t1 = Table::new("alpha".to_string(), vec![col(0, "id", "INTEGER", false, true)]);
    let t2 = Table::new("beta".to_string(), vec![col(0, "id", "INTEGER", false, true)]);
    let r1 = Reference::new("alpha".to_string(), "beta".to_string());
    let main_db = Database::new(
        "main".to_string(),
        "/tmp/a.db".to_string(),
        vec![t1],
        vec![r1],
    );
    let aux_db = Database::new("aux".to_string(), "/tmp/b.db".to_string(), vec![t2], vec![]);
    let doc = lightmap::infoset::render_document(&vec![main_db, aux_db]);
    assert_eq!(doc.matches("digraph").count(), 1);
    assert!(doc.starts_with("digraph main {\n"));
    assert!(doc.ends_with("}"));
    let i_alpha = doc.find("  alpha [").unwrap();
    let i_beta = doc.find("  beta [").unwrap();
    let i_edge = doc.find("alpha->beta[]").unwrap();
    assert!(i_alpha < i_beta);
    assert!(i_beta < i_edge);
}

#[test]
fn empty_model_renders_empty_document() {
    let doc = lightmap::infoset::render_document(&vec![]);
    assert_eq!(doc, "");
}

#[test]
fn filter_drops_only_the_sequence_table() {
    let names = vec![
        "users".to_string(),
        "sqlite_sequence".to_string(),
        "orders".to_string(),
    ];
    let kept = filter_user_tables(&names);
    assert_eq!(kept, vec!["users".to_string(), "orders".to_string()]);
}

#[test]
fn clean_references_deduplicates_pairs() {
    let pairs = vec![
        ("orders".to_string(), "customers".to_string()),
        ("orders".to_string(), "customers".to_string()),
        ("orders".to_string(), "items".to_string()),
        ("sqlite_sequence".to_string(), "customers".to_string()),
        ("orders".to_string(), "sqlite_sequence".to_string()),
        ("orders".to_string(), "customers".to_string()),
    ];
    let refs = clean_references(&pairs);
    assert_eq!(refs.len(), 2);
    assert_eq!(refs[0].to_dot(), "orders->customers[]");
    assert_eq!(refs[1].to_dot(), "orders->items[]");
}
