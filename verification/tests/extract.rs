use lightmap::{Cli, Package};

fn fresh_db(path: &str, setup: &str) {
    let conn = rusqlite::Connection::open(path).expect("open setup connection");
    conn.execute_batch(setup).expect("run setup statements");
}

#[test]
fn single_table_yields_one_node_and_no_edges() {
    let path = "/tmp/lightmap_users.db";
    fresh_db(
        path,
        "DROP TABLE IF EXISTS users;
         CREATE TABLE users(id INTEGER PRIMARY KEY, name TEXT NOT NULL);",
    );
    let package = Package::new(path).expect("open package");
    let doc = package.to_dot().expect("render document");
    assert_eq!(doc.matches("digraph").count(), 1);
    assert!(doc.starts_with("digraph main {\n"));
    assert_eq!(doc.matches("label=<<table").count(), 1);
    assert!(doc.contains("  users [\n    label=<"));
    assert!(doc.contains("<tr><td align=\"left\">id* <b>INTEGER</b></td></tr>"));
    assert!(doc.contains("<tr><td align=\"left\">name <b>TEXT</b></td></tr>"));
    let i_id = doc.find(">id*").unwrap();
    let i_name = doc.find(">name").unwrap();
    assert!(i_id < i_name);
    assert!(!doc.contains("->"));
    assert!(doc.ends_with("}"));
}

#[test]
fn foreign_key_yields_two_nodes_and_one_edge() {
    let path = "/tmp/lightmap_shop.db";
    fresh_db(
        path,
        "DROP TABLE IF EXISTS orders;
         DROP TABLE IF EXISTS customers;
         CREATE TABLE customers(id INTEGER PRIMARY KEY);
         CREATE TABLE orders(id INTEGER PRIMARY KEY, customer_id INTEGER REFERENCES customers(id));",
    );
    let package = Package::new(path).expect("open package");
    let doc = package.to_dot().expect("render document");
    assert!(doc.contains("  orders [\n    label=<"));
    assert!(doc.contains("  customers [\n    label=<"));
    assert_eq!(doc.matches("->").count(), 1);
    assert_eq!(doc.matches("orders->customers[]").count(), 1);
    let i_orders = doc.find("  orders [").unwrap();
    let i_customers = doc.find("  customers [").unwrap();
    let i_edge = doc.find("orders->customers[]").unwrap();
    assert!(i_orders > 0 && i_customers > 0);
    assert!(i_edge > i_orders && i_edge > i_customers);
}

#[test]
fn composite_foreign_key_yields_a_single_edge() {
    let path = "/tmp/lightmap_composite.db";
    fresh_db(
        path,
        "DROP TABLE IF EXISTS shipments;
         DROP TABLE IF EXISTS slots;
         CREATE TABLE slots(bay INTEGER, shelf INTEGER, PRIMARY KEY(bay, shelf));
         CREATE TABLE shipments(id INTEGER PRIMARY KEY, bay INTEGER, shelf INTEGER,
             FOREIGN KEY(bay, shelf) REFERENCES slots(bay, shelf));",
    );
    let package = Package::new(path).expect("open package");
    let doc = package.to_dot().expect("render document");
    assert_eq!(doc.matches("->").count(), 1);
    assert_eq!(doc.matches("shipments->slots[]").count(), 1);
}

#[test]
fn sequence_table_never_appears() {
    let path = "/tmp/lightmap_autoinc.db";
    fresh_db(
        path,
        "DROP TABLE IF EXISTS items;
         CREATE TABLE items(id INTEGER PRIMARY KEY AUTOINCREMENT, v TEXT);
         INSERT INTO items(v) VALUES ('a');",
    );
    let package = Package::new(path).expect("open package");
    let doc = package.to_dot().expect("render document");
    assert!(doc.contains("  items ["));
    assert!(!doc.contains("sqlite_sequence"));
}

#[test]
fn columns_report_catalog_attributes() {
    let path = "/tmp/lightmap_attrs.db";
    fresh_db(
        path,
        "DROP TABLE IF EXISTS widgets;
         CREATE TABLE widgets(id INTEGER PRIMARY KEY, kind TEXT NOT NULL DEFAULT 'plain', note TEXT);",
    );
    let package = Package::new(path).expect("open package");
    let cols = package.columns("widgets").expect("list columns");
    assert_eq!(cols.len(), 3);
    assert_eq!(cols[0].id, 0);
    assert_eq!(cols[0].name, "id");
    assert_eq!(cols[0].datatype, "INTEGER");
    assert!(cols[0].primary_key);
    assert!(!cols[0].required);
    assert_eq!(cols[0].default_value, None);
    assert_eq!(cols[1].id, 1);
    assert_eq!(cols[1].name, "kind");
    assert!(cols[1].required);
    assert!(!cols[1].primary_key);
    assert_eq!(cols[1].default_value, Some("'plain'".to_string()));
    assert_eq!(cols[2].id, 2);
    assert_eq!(cols[2].name, "note");
    assert!(!cols[2].required);
    assert_eq!(cols[2].default_value, None);
}

#[test]
fn databases_lists_the_primary_database() {
    let path = "/tmp/lightmap_primary.db";
    fresh_db(
        path,
        "DROP TABLE IF EXISTS solo;
         CREATE TABLE solo(id INTEGER PRIMARY KEY);",
    );
    let package = Package::new(path).expect("open package");
    let dbs = package.databases().expect("list databases");
    assert_eq!(dbs.len(), 1);
    assert_eq!(dbs[0].name, "main");
    assert!(dbs[0].path.ends_with("lightmap_primary.db"));
    assert_eq!(dbs[0].tables.len(), 1);
    assert_eq!(dbs[0].tables[0].name, "solo");
    assert!(dbs[0].references.is_empty());
}

#[test]
fn unopenable_path_reports_an_error() {
    let cli = Cli { path: "/".to_string() };
    let result = cli.run();
    assert!(result.is_err());
    assert!(!result.err().unwrap().message.is_empty());
}

#[test]
fn garbage_file_reports_an_error() {
    let path = "/tmp/lightmap_garbage.db";
    {
        let conn = rusqlite::Connection::open(path).expect("open setup connection");
        conn.execute_batch(
            "DROP TABLE IF EXISTS filler;
             CREATE TABLE filler(x TEXT);",
        )
        .expect("run setup statements");
    }
    let package = Package::new(path).expect("open package");
    let result = package.tables("no_such_schema");
    assert!(result.is_err());
}
