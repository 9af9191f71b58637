use ring_core::graph::{GraphEdgeRow, GraphNodeRow, GraphRow};
use ring_core::sync::{
    archives_dir, export_bundle, import_plan, is_exported_archive, ArchiveFileBundle,
    GraphBundle, GroupDocBundle, ImportResult, ImportStep,
};

fn s(x: &str) -> String {
    x.to_string()
}

fn node(id: &str) -> GraphNodeRow {
    GraphNodeRow {
        id: s(id),
        graph_id: s("g"),
        ring_id: s("r"),
        label: s(id),
        parent_id: None,
        node_type: s("topic"),
        content: s(""),
        tags: s("[]"),
        markdown_path: None,
        metadata: s("{}"),
        created_at: s("t"),
        updated_at: s("t"),
    }
}

fn edge(id: &str) -> GraphEdgeRow {
    GraphEdgeRow {
        id: s(id),
        graph_id: s("g"),
        ring_id: s("r"),
        source_id: s("a"),
        target_id: s("b"),
        relation: s("related_to"),
        label: s(""),
        created_at: s("t"),
    }
}

fn graph(nodes: usize, edges: usize) -> GraphBundle {
    GraphBundle {
        graph: GraphRow {
            id: s("g"),
            ring_id: s("r"),
            name: s("default"),
            created_at: s("t"),
            updated_at: s("t"),
        },
        nodes: (0..nodes).map(|i| node(&format!("n{}", i))).collect(),
        edges: (0..edges).map(|i| edge(&format!("e{}", i))).collect(),
    }
}

#[test]
fn bundles_carry_version_and_data() {
    let b = export_bundle(
        "r1",
        s("2024-01-01T00:00:00Z"),
        vec![graph(1, 0)],
        vec![],
        vec![GroupDocBundle { doc_name: s("active_context"), content: s("c"), updated_at: s("t") }],
        vec![],
    );
    assert_eq!(b.version, "1.0");
    assert_eq!(b.ring_id, "r1");
    assert_eq!(b.graphs.len(), 1);
    assert_eq!(b.group_docs[0].doc_name, "active_context");
}

#[test]
fn exported_archive_files() {
    assert!(is_exported_archive("a.md", true));
    assert!(!is_exported_archive("a.md", false));
    assert!(!is_exported_archive("a.txt", true));
    assert_eq!(archives_dir("/data", "r1"), "/data/r1/archives");
}

#[test]
fn import_writes_in_order() {
    let b = export_bundle(
        "r1",
        s("t"),
        vec![graph(2, 1), graph(0, 0)],
        vec![],
        vec![GroupDocBundle { doc_name: s("d"), content: s("c"), updated_at: s("t") }],
        vec![ArchiveFileBundle { file_name: s("a.md"), content: s("x") }],
    );
    let plan = import_plan(&b);
    assert_eq!(
        plan,
        vec![
            ImportStep::Graph(0),
            ImportStep::Node(0, 0),
            ImportStep::Node(0, 1),
            ImportStep::Edge(0, 0),
            ImportStep::Graph(1),
            ImportStep::Doc(0),
            ImportStep::ArchiveDir,
            ImportStep::File(0),
            ImportStep::SyncMark,
        ]
    );
    // Law: the counts of an import are those of the bundle.
    let r = ImportResult::tally(&plan);
    assert_eq!(
        (r.graphs, r.nodes, r.edges, r.archive_records, r.group_docs, r.archive_files),
        (2, 2, 1, 0, 1, 1)
    );
}

type Row = std::collections::BTreeMap<String, Option<String>>;
type Db = std::collections::BTreeMap<Vec<String>, Row>;

fn row(cols: &[(&str, Option<&str>)]) -> Row {
    cols.iter().map(|(k, v)| (k.to_string(), v.map(|x| x.to_string()))).collect()
}

/// The upsert a step performs on a small model of the store: key, columns
/// only an insert sets, columns an insert or an update sets.
fn step_upsert(b: &ring_core::sync::SyncBundle, step: &ImportStep) -> (Vec<String>, Row, Row) {
    match *step {
        ImportStep::Graph(g) => {
            let r = &b.graphs[g].graph;
            (
                vec![s("graphs"), r.id.clone()],
                row(&[("id", Some(&r.id)), ("ring_id", Some(&r.ring_id)), ("created_at", Some(&r.created_at))]),
                row(&[("name", Some(&r.name)), ("updated_at", Some(&r.updated_at))]),
            )
        }
        ImportStep::Node(g, n) => {
            let r = &b.graphs[g].nodes[n];
            (vec![s("graph_nodes"), r.id.clone()], row(&[("id", Some(&r.id))]), row(&[("label", Some(&r.label))]))
        }
        ImportStep::Edge(g, e) => {
            let r = &b.graphs[g].edges[e];
            (vec![s("graph_edges"), r.id.clone()], row(&[("id", Some(&r.id))]), row(&[("relation", Some(&r.relation))]))
        }
        ImportStep::Doc(i) => {
            let d = &b.group_docs[i];
            (
                vec![s("group_docs"), b.ring_id.clone(), d.doc_name.clone()],
                row(&[("doc_name", Some(&d.doc_name))]),
                row(&[("content", Some(&d.content)), ("updated_at", Some(&d.updated_at))]),
            )
        }
        ImportStep::File(i) => {
            let f = &b.archive_files[i];
            (vec![s("files"), f.file_name.clone()], Row::new(), row(&[("content", Some(&f.content))]))
        }
        ImportStep::SyncMark => {
            (vec![s("sync_meta"), b.ring_id.clone()], Row::new(), row(&[("value", Some(&b.exported_at))]))
        }
        _ => (vec![s("other")], Row::new(), Row::new()),
    }
}

fn apply(db: &mut Db, b: &ring_core::sync::SyncBundle) {
    for step in import_plan(b) {
        let (k, insert_only, set) = step_upsert(b, &step);
        let r = db.entry(k).or_insert_with(|| insert_only);
        for (c, v) in set {
            r.insert(c, v);
        }
    }
}

#[test]
fn importing_twice_leaves_the_same_rows() {
    let b = export_bundle(
        "r1",
        s("t"),
        vec![graph(2, 1)],
        vec![],
        vec![
            GroupDocBundle { doc_name: s("d"), content: s("first"), updated_at: s("1") },
            GroupDocBundle { doc_name: s("d"), content: s("second"), updated_at: s("2") },
        ],
        vec![ArchiveFileBundle { file_name: s("a.md"), content: s("x") }],
    );
    let mut db = Db::new();
    db.insert(vec![s("graphs"), s("g")], row(&[("id", Some("g")), ("created_at", Some("old"))]));
    apply(&mut db, &b);
    let once = db.clone();
    apply(&mut db, &b);
    assert_eq!(db, once);
    let doc = &once[&vec![s("group_docs"), s("r1"), s("d")]];
    assert_eq!(doc["content"], Some(s("second")));
    assert_eq!(once[&vec![s("graphs"), s("g")]]["created_at"], Some(s("old")));
}
