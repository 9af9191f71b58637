//! Moving a ring between servers: the bundle a ring is exported as, and the
//! order in which an imported bundle is written back, with the counts that an
//! import reports.
use vstd::prelude::*;
use vstd::string::*;

use crate::archive::{join_path, path_join};
use crate::graph::{GraphEdgeRow, GraphNodeRow, GraphRow};
use crate::text::{owned, str_ends_with};

verus! {

/// A ring's exported data.
pub struct SyncBundle {
    pub version: String,
    pub ring_id: String,
    pub exported_at: String,
    pub graphs: Vec<GraphBundle>,
    pub archive_records: Vec<ArchiveRecordBundle>,
    pub group_docs: Vec<GroupDocBundle>,
    pub archive_files: Vec<ArchiveFileBundle>,
}

/// A graph with its nodes and edges.
pub struct GraphBundle {
    pub graph: GraphRow,
    pub nodes: Vec<GraphNodeRow>,
    pub edges: Vec<GraphEdgeRow>,
}

/// An archive record.
pub struct ArchiveRecordBundle {
    pub id: String,
    pub ring_id: String,
    pub session_id: Option<String>,
    pub node_id: Option<String>,
    pub file_name: String,
    pub commit_sha: Option<String>,
    pub status: String,
    pub archived_by: String,
    pub created_at: String,
    pub updated_at: String,
}

/// A group document.
pub struct GroupDocBundle {
    pub doc_name: String,
    pub content: String,
    pub updated_at: String,
}

/// A Markdown file of the ring's archive directory.
pub struct ArchiveFileBundle {
    pub file_name: String,
    pub content: String,
}

/// The bundle of a ring: format version `1.0`, the ring, when it was
/// exported, and its data.
pub fn export_bundle(
    ring_id: &str,
    exported_at: String,
    graphs: Vec<GraphBundle>,
    archive_records: Vec<ArchiveRecordBundle>,
    group_docs: Vec<GroupDocBundle>,
    archive_files: Vec<ArchiveFileBundle>,
) -> (r: SyncBundle)
    ensures
        r.version@ == "1.0"@,
        r.ring_id@ == ring_id@,
        r.exported_at == exported_at,
        r.graphs@ == graphs@,
        r.archive_records@ == archive_records@,
        r.group_docs@ == group_docs@,
        r.archive_files@ == archive_files@,
{
    SyncBundle {
        version: owned("1.0"),
        ring_id: owned(ring_id),
        exported_at,
        graphs,
        archive_records,
        group_docs,
        archive_files,
    }
}

/// Whether an entry of the archive directory is exported: a file whose name
/// ends in `.md`.
pub fn is_exported_archive(name: &str, is_file: bool) -> (r: bool)
    ensures
        r == (is_file && ".md"@.is_suffix_of(name@)),
{
    is_file && str_ends_with(name, ".md")
}

/// The archive directory of a ring.
pub fn archives_dir(rings_dir: &str, ring_id: &str) -> (r: String)
    ensures
        r@ == path_join(path_join(rings_dir@, ring_id@), "archives"@),
{
    let d = join_path(rings_dir, ring_id);
    join_path(d.as_str(), "archives")
}

// ---------------------------------------------------------------------------
// Importing
// ---------------------------------------------------------------------------

/// One write of an import, by position in the bundle.
#[derive(PartialEq, Eq, Structural, Clone, Copy, Debug)]
pub enum ImportStep {
    /// Upsert graph `g`.
    Graph(usize),
    /// Upsert node `n` of graph `g`.
    Node(usize, usize),
    /// Upsert edge `e` of graph `g`.
    Edge(usize, usize),
    /// Upsert archive record `i`.
    Record(usize),
    /// Upsert group document `i`.
    Doc(usize),
    /// Create the ring's archive directory.
    ArchiveDir,
    /// Write archive file `i`.
    File(usize),
    /// Note when the ring was last synchronised.
    SyncMark,
}

/// The writes for one graph: the graph, then its nodes, then its edges.
pub open spec fn graph_block(g: int, b: GraphBundle) -> Seq<ImportStep> {
    seq![ImportStep::Graph(g as usize)] + Seq::new(
        b.nodes@.len(),
        |n: int| ImportStep::Node(g as usize, n as usize),
    ) + Seq::new(b.edges@.len(), |e: int| ImportStep::Edge(g as usize, e as usize))
}

pub open spec fn graph_blocks(gs: Seq<GraphBundle>) -> Seq<ImportStep>
    decreases gs.len(),
{
    if gs.len() == 0 {
        Seq::empty()
    } else {
        graph_blocks(gs.drop_last()) + graph_block(gs.len() - 1, gs.last())
    }
}

/// The writes of an import, in order: each graph with its nodes and edges,
/// the archive records, the group documents, the archive directory, the
/// archive files, and last the synchronisation mark.
pub open spec fn import_plan_of(b: SyncBundle) -> Seq<ImportStep> {
    graph_blocks(b.graphs@) + Seq::new(b.archive_records@.len(), |i: int| ImportStep::Record(i as usize))
        + Seq::new(b.group_docs@.len(), |i: int| ImportStep::Doc(i as usize)) + seq![ImportStep::ArchiveDir]
        + Seq::new(b.archive_files@.len(), |i: int| ImportStep::File(i as usize)) + seq![ImportStep::SyncMark]
}

/// The writes of an import (see `import_plan_of`).
pub fn import_plan(b: &SyncBundle) -> (r: Vec<ImportStep>)
    ensures
        r@ == import_plan_of(*b),
{
    let mut r: Vec<ImportStep> = Vec::new();
    let mut g: usize = 0;
    while g < b.graphs.len()
        invariant
            g <= b.graphs@.len(),
            r@ == graph_blocks(b.graphs@.take(g as int)),
        decreases b.graphs@.len() - g,
    {
        let ghost before = r@;
        let gb = &b.graphs[g];
        r.push(ImportStep::Graph(g));
        let mut n: usize = 0;
        while n < gb.nodes.len()
            invariant
                n <= gb.nodes@.len(),
                r@ == before + seq![ImportStep::Graph(g)] + Seq::new(
                    n as nat,
                    |k: int| ImportStep::Node(g, k as usize),
                ),
            decreases gb.nodes@.len() - n,
        {
            r.push(ImportStep::Node(g, n));
            proof {
                assert(Seq::new((n + 1) as nat, |k: int| ImportStep::Node(g, k as usize)) =~= Seq::new(
                    n as nat,
                    |k: int| ImportStep::Node(g, k as usize),
                ).push(ImportStep::Node(g, n)));
            }
            n += 1;
        }
        let ghost mid = r@;
        let mut e: usize = 0;
        while e < gb.edges.len()
            invariant
                e <= gb.edges@.len(),
                r@ == mid + Seq::new(e as nat, |k: int| ImportStep::Edge(g, k as usize)),
            decreases gb.edges@.len() - e,
        {
            r.push(ImportStep::Edge(g, e));
            proof {
                assert(Seq::new((e + 1) as nat, |k: int| ImportStep::Edge(g, k as usize)) =~= Seq::new(
                    e as nat,
                    |k: int| ImportStep::Edge(g, k as usize),
                ).push(ImportStep::Edge(g, e)));
            }
            e += 1;
        }
        proof {
            let gs = b.graphs@.take(g + 1);
            assert(gs.drop_last() =~= b.graphs@.take(g as int));
            assert(gs.last() == b.graphs@[g as int]);
            assert(r@ =~= graph_blocks(b.graphs@.take(g as int)) + graph_block(g as int, b.graphs@[g as int]));
        }
        g += 1;
    }
    proof {
        assert(b.graphs@.take(b.graphs@.len() as int) =~= b.graphs@);
    }
    let ghost p0 = r@;
    let mut i: usize = 0;
    while i < b.archive_records.len()
        invariant
            i <= b.archive_records@.len(),
            r@ == p0 + Seq::new(i as nat, |k: int| ImportStep::Record(k as usize)),
        decreases b.archive_records@.len() - i,
    {
        r.push(ImportStep::Record(i));
        proof {
            assert(Seq::new((i + 1) as nat, |k: int| ImportStep::Record(k as usize)) =~= Seq::new(
                i as nat,
                |k: int| ImportStep::Record(k as usize),
            ).push(ImportStep::Record(i)));
        }
        i += 1;
    }
    let ghost p1 = r@;
    let mut i: usize = 0;
    while i < b.group_docs.len()
        invariant
            i <= b.group_docs@.len(),
            r@ == p1 + Seq::new(i as nat, |k: int| ImportStep::Doc(k as usize)),
        decreases b.group_docs@.len() - i,
    {
        r.push(ImportStep::Doc(i));
        proof {
            assert(Seq::new((i + 1) as nat, |k: int| ImportStep::Doc(k as usize)) =~= Seq::new(
                i as nat,
                |k: int| ImportStep::Doc(k as usize),
            ).push(ImportStep::Doc(i)));
        }
        i += 1;
    }
    r.push(ImportStep::ArchiveDir);
    let ghost p2 = r@;
    let mut i: usize = 0;
    while i < b.archive_files.len()
        invariant
            i <= b.archive_files@.len(),
            r@ == p2 + Seq::new(i as nat, |k: int| ImportStep::File(k as usize)),
        decreases b.archive_files@.len() - i,
    {
        r.push(ImportStep::File(i));
        proof {
            assert(Seq::new((i + 1) as nat, |k: int| ImportStep::File(k as usize)) =~= Seq::new(
                i as nat,
                |k: int| ImportStep::File(k as usize),
            ).push(ImportStep::File(i)));
        }
        i += 1;
    }
    r.push(ImportStep::SyncMark);
    proof {
        assert(r@ =~= import_plan_of(*b));
    }
    r
}

/// What an import wrote: how many graphs, nodes, edges, archive records,
/// group documents and archive files.
pub struct ImportResult {
    pub graphs: usize,
    pub nodes: usize,
    pub edges: usize,
    pub archive_records: usize,
    pub group_docs: usize,
    pub archive_files: usize,
}

/// The kinds of counted writes.
pub enum Counted {
    Graphs,
    Nodes,
    Edges,
    Records,
    Docs,
    Files,
}

pub open spec fn counts_as(s: ImportStep, k: Counted) -> bool {
    match k {
        Counted::Graphs => s is Graph,
        Counted::Nodes => s is Node,
        Counted::Edges => s is Edge,
        Counted::Records => s is Record,
        Counted::Docs => s is Doc,
        Counted::Files => s is File,
    }
}

/// How many writes of a kind a sequence of writes holds.
pub open spec fn count_of(steps: Seq<ImportStep>, k: Counted) -> nat
    decreases steps.len(),
{
    if steps.len() == 0 {
        0
    } else {
        count_of(steps.drop_last(), k) + if counts_as(steps.last(), k) {
            1nat
        } else {
            0nat
        }
    }
}

proof fn lemma_count_le_len(steps: Seq<ImportStep>, k: Counted)
    ensures
        count_of(steps, k) <= steps.len(),
    decreases steps.len(),
{
    if steps.len() > 0 {
        lemma_count_le_len(steps.drop_last(), k);
    }
}

proof fn lemma_count_append(a: Seq<ImportStep>, b: Seq<ImportStep>, k: Counted)
    ensures
        count_of(a + b, k) == count_of(a, k) + count_of(b, k),
    decreases b.len(),
{
    if b.len() == 0 {
        assert(a + b =~= a);
    } else {
        lemma_count_append(a, b.drop_last(), k);
        assert((a + b).drop_last() =~= a + b.drop_last());
    }
}

impl ImportResult {
    /// The counts of a sequence of writes.
    pub fn tally(steps: &Vec<ImportStep>) -> (r: ImportResult)
        ensures
            r.graphs == count_of(steps@, Counted::Graphs),
            r.nodes == count_of(steps@, Counted::Nodes),
            r.edges == count_of(steps@, Counted::Edges),
            r.archive_records == count_of(steps@, Counted::Records),
            r.group_docs == count_of(steps@, Counted::Docs),
            r.archive_files == count_of(steps@, Counted::Files),
    {
        let mut r = ImportResult { graphs: 0, nodes: 0, edges: 0, archive_records: 0, group_docs: 0, archive_files: 0 };
        let mut i: usize = 0;
        while i < steps.len()
            invariant
                i <= steps@.len(),
                r.graphs == count_of(steps@.take(i as int), Counted::Graphs),
                r.nodes == count_of(steps@.take(i as int), Counted::Nodes),
                r.edges == count_of(steps@.take(i as int), Counted::Edges),
                r.archive_records == count_of(steps@.take(i as int), Counted::Records),
                r.group_docs == count_of(steps@.take(i as int), Counted::Docs),
                r.archive_files == count_of(steps@.take(i as int), Counted::Files),
            decreases steps@.len() - i,
        {
            proof {
                lemma_count_le_len(steps@.take(i as int), Counted::Graphs);
                lemma_count_le_len(steps@.take(i as int), Counted::Nodes);
                lemma_count_le_len(steps@.take(i as int), Counted::Edges);
                lemma_count_le_len(steps@.take(i as int), Counted::Records);
                lemma_count_le_len(steps@.take(i as int), Counted::Docs);
                lemma_count_le_len(steps@.take(i as int), Counted::Files);
                assert(steps@.take(i + 1).drop_last() =~= steps@.take(i as int));
                assert(steps@.take(i + 1).last() == steps@[i as int]);
            }
            match steps[i] {
                ImportStep::Graph(_) => r.graphs = r.graphs + 1,
                ImportStep::Node(_, _) => r.nodes = r.nodes + 1,
                ImportStep::Edge(_, _) => r.edges = r.edges + 1,
                ImportStep::Record(_) => r.archive_records = r.archive_records + 1,
                ImportStep::Doc(_) => r.group_docs = r.group_docs + 1,
                ImportStep::File(_) => r.archive_files = r.archive_files + 1,
                _ => {},
            }
            i += 1;
        }
        proof {
            assert(steps@.take(steps@.len() as int) =~= steps@);
        }
        r
    }
}

/// How many nodes the graphs of a bundle hold in all.
pub open spec fn total_nodes(gs: Seq<GraphBundle>) -> nat
    decreases gs.len(),
{
    if gs.len() == 0 {
        0
    } else {
        total_nodes(gs.drop_last()) + gs.last().nodes@.len()
    }
}

/// How many edges the graphs of a bundle hold in all.
pub open spec fn total_edges(gs: Seq<GraphBundle>) -> nat
    decreases gs.len(),
{
    if gs.len() == 0 {
        0
    } else {
        total_edges(gs.drop_last()) + gs.last().edges@.len()
    }
}

proof fn lemma_count_new(n: nat, f: spec_fn(int) -> ImportStep, k: Counted, counted: bool)
    requires
        forall|i: int| 0 <= i < n ==> counts_as(#[trigger] f(i), k) == counted,
    ensures
        count_of(Seq::new(n, f), k) == if counted {
            n
        } else {
            0
        },
    decreases n,
{
    if n > 0 {
        lemma_count_new((n - 1) as nat, f, k, counted);
        assert(Seq::new(n, f).drop_last() =~= Seq::new((n - 1) as nat, f));
    }
}

proof fn lemma_count_single(s: ImportStep, k: Counted)
    ensures
        count_of(seq![s], k) == if counts_as(s, k) {
            1nat
        } else {
            0nat
        },
{
    assert(seq![s].drop_last() =~= Seq::<ImportStep>::empty());
    assert(count_of(Seq::<ImportStep>::empty(), k) == 0);
    assert(seq![s].last() == s);
}

proof fn lemma_graph_block_counts(g: int, b: GraphBundle)
    ensures
        count_of(graph_block(g, b), Counted::Graphs) == 1,
        count_of(graph_block(g, b), Counted::Nodes) == b.nodes@.len(),
        count_of(graph_block(g, b), Counted::Edges) == b.edges@.len(),
        count_of(graph_block(g, b), Counted::Records) == 0,
        count_of(graph_block(g, b), Counted::Docs) == 0,
        count_of(graph_block(g, b), Counted::Files) == 0,
{
    let head = seq![ImportStep::Graph(g as usize)];
    let ns = Seq::new(b.nodes@.len(), |n: int| ImportStep::Node(g as usize, n as usize));
    let es = Seq::new(b.edges@.len(), |e: int| ImportStep::Edge(g as usize, e as usize));
    let fnode = |n: int| ImportStep::Node(g as usize, n as usize);
    let fedge = |e: int| ImportStep::Edge(g as usize, e as usize);
    lemma_count_single(ImportStep::Graph(g as usize), Counted::Graphs);
    lemma_count_single(ImportStep::Graph(g as usize), Counted::Nodes);
    lemma_count_single(ImportStep::Graph(g as usize), Counted::Edges);
    lemma_count_single(ImportStep::Graph(g as usize), Counted::Records);
    lemma_count_single(ImportStep::Graph(g as usize), Counted::Docs);
    lemma_count_single(ImportStep::Graph(g as usize), Counted::Files);
    lemma_count_new(b.nodes@.len(), fnode, Counted::Graphs, false);
    lemma_count_new(b.nodes@.len(), fnode, Counted::Nodes, true);
    lemma_count_new(b.nodes@.len(), fnode, Counted::Edges, false);
    lemma_count_new(b.nodes@.len(), fnode, Counted::Records, false);
    lemma_count_new(b.nodes@.len(), fnode, Counted::Docs, false);
    lemma_count_new(b.nodes@.len(), fnode, Counted::Files, false);
    lemma_count_new(b.edges@.len(), fedge, Counted::Graphs, false);
    lemma_count_new(b.edges@.len(), fedge, Counted::Nodes, false);
    lemma_count_new(b.edges@.len(), fedge, Counted::Edges, true);
    lemma_count_new(b.edges@.len(), fedge, Counted::Records, false);
    lemma_count_new(b.edges@.len(), fedge, Counted::Docs, false);
    lemma_count_new(b.edges@.len(), fedge, Counted::Files, false);
    assert(ns =~= Seq::new(b.nodes@.len(), fnode));
    assert(es =~= Seq::new(b.edges@.len(), fedge));
    lemma_count_append(head, ns, Counted::Graphs);
    lemma_count_append(head, ns, Counted::Nodes);
    lemma_count_append(head, ns, Counted::Edges);
    lemma_count_append(head, ns, Counted::Records);
    lemma_count_append(head, ns, Counted::Docs);
    lemma_count_append(head, ns, Counted::Files);
    lemma_count_append(head + ns, es, Counted::Graphs);
    lemma_count_append(head + ns, es, Counted::Nodes);
    lemma_count_append(head + ns, es, Counted::Edges);
    lemma_count_append(head + ns, es, Counted::Records);
    lemma_count_append(head + ns, es, Counted::Docs);
    lemma_count_append(head + ns, es, Counted::Files);
}

proof fn lemma_graph_blocks_counts(gs: Seq<GraphBundle>)
    ensures
        count_of(graph_blocks(gs), Counted::Graphs) == gs.len(),
        count_of(graph_blocks(gs), Counted::Nodes) == total_nodes(gs),
        count_of(graph_blocks(gs), Counted::Edges) == total_edges(gs),
        count_of(graph_blocks(gs), Counted::Records) == 0,
        count_of(graph_blocks(gs), Counted::Docs) == 0,
        count_of(graph_blocks(gs), Counted::Files) == 0,
    decreases gs.len(),
{
    if gs.len() > 0 {
        let a = graph_blocks(gs.drop_last());
        let b = graph_block(gs.len() - 1, gs.last());
        lemma_graph_blocks_counts(gs.drop_last());
        lemma_graph_block_counts(gs.len() - 1, gs.last());
        lemma_count_append(a, b, Counted::Graphs);
        lemma_count_append(a, b, Counted::Nodes);
        lemma_count_append(a, b, Counted::Edges);
        lemma_count_append(a, b, Counted::Records);
        lemma_count_append(a, b, Counted::Docs);
        lemma_count_append(a, b, Counted::Files);
    }
}

proof fn lemma_plan_parts(b: SyncBundle, k: Counted)
    ensures
        count_of(import_plan_of(b), k) == count_of(graph_blocks(b.graphs@), k) + (if k is Records {
            b.archive_records@.len()
        } else {
            0
        }) + (if k is Docs {
            b.group_docs@.len()
        } else {
            0
        }) + (if k is Files {
            b.archive_files@.len()
        } else {
            0
        }),
{
    let p0 = graph_blocks(b.graphs@);
    let fr = |i: int| ImportStep::Record(i as usize);
    let fd = |i: int| ImportStep::Doc(i as usize);
    let ff = |i: int| ImportStep::File(i as usize);
    let p1 = Seq::new(b.archive_records@.len(), fr);
    let p2 = Seq::new(b.group_docs@.len(), fd);
    let p3 = seq![ImportStep::ArchiveDir];
    let p4 = Seq::new(b.archive_files@.len(), ff);
    let p5 = seq![ImportStep::SyncMark];
    assert(import_plan_of(b) =~= p0 + p1 + p2 + p3 + p4 + p5);
    lemma_count_new(b.archive_records@.len(), fr, k, k is Records);
    lemma_count_new(b.group_docs@.len(), fd, k, k is Docs);
    lemma_count_new(b.archive_files@.len(), ff, k, k is Files);
    lemma_count_single(ImportStep::ArchiveDir, k);
    lemma_count_single(ImportStep::SyncMark, k);
    lemma_count_append(p0, p1, k);
    lemma_count_append(p0 + p1, p2, k);
    lemma_count_append(p0 + p1 + p2, p3, k);
    lemma_count_append(p0 + p1 + p2 + p3, p4, k);
    lemma_count_append(p0 + p1 + p2 + p3 + p4, p5, k);
}

/// An import that completes reports exactly what the bundle holds: one
/// graph per graph bundle, all their nodes and edges, and every archive
/// record, group document and archive file.
pub proof fn law_import_counts_match_bundle(b: SyncBundle)
    ensures
        count_of(import_plan_of(b), Counted::Graphs) == b.graphs@.len(),
        count_of(import_plan_of(b), Counted::Nodes) == total_nodes(b.graphs@),
        count_of(import_plan_of(b), Counted::Edges) == total_edges(b.graphs@),
        count_of(import_plan_of(b), Counted::Records) == b.archive_records@.len(),
        count_of(import_plan_of(b), Counted::Docs) == b.group_docs@.len(),
        count_of(import_plan_of(b), Counted::Files) == b.archive_files@.len(),
{
    lemma_graph_blocks_counts(b.graphs@);
    lemma_plan_parts(b, Counted::Graphs);
    lemma_plan_parts(b, Counted::Nodes);
    lemma_plan_parts(b, Counted::Edges);
    lemma_plan_parts(b, Counted::Records);
    lemma_plan_parts(b, Counted::Docs);
    lemma_plan_parts(b, Counted::Files);
}

// ---------------------------------------------------------------------------
// Importing twice
// ---------------------------------------------------------------------------

/// A stored row: column name to value, `None` for NULL.
pub type RowModel = Map<Seq<char>, Option<Seq<char>>>;

/// Where a row is stored: its table, then its key columns.
pub type RowKey = Seq<Seq<char>>;

/// One write of an import: where, the columns only an insert sets, and the
/// columns that both an insert and an update set (an `INSERT ... ON
/// CONFLICT DO UPDATE SET`).
pub type UpsertModel = (RowKey, RowModel, RowModel);

/// What is stored at `k`, if anything.
pub open spec fn row_at(db: Map<RowKey, RowModel>, k: RowKey) -> Option<RowModel> {
    if db.contains_key(k) {
        Some(db[k])
    } else {
        None
    }
}

/// One write: a new row when the key is free, else the set columns updated.
pub open spec fn upsert(db: Map<RowKey, RowModel>, w: UpsertModel) -> Map<RowKey, RowModel> {
    if db.contains_key(w.0) {
        db.insert(w.0, db[w.0].union_prefer_right(w.2))
    } else {
        db.insert(w.0, w.1.union_prefer_right(w.2))
    }
}

/// The writes applied in order.
pub open spec fn upsert_all(db: Map<RowKey, RowModel>, ws: Seq<UpsertModel>) -> Map<RowKey, RowModel>
    decreases ws.len(),
{
    if ws.len() == 0 {
        db
    } else {
        upsert(upsert_all(db, ws.drop_last()), ws.last())
    }
}

/// A column value from a text.
pub open spec fn text_col(s: String) -> Option<Seq<char>> {
    Some(s@)
}

/// A column value from an optional text.
pub open spec fn opt_col(s: Option<String>) -> Option<Seq<char>> {
    match s {
        Some(t) => Some(t@),
        None => None,
    }
}

/// What one step of an import writes. Files and the archive directory count
/// as rows of their own; the synchronisation mark's `updated_at`, which is
/// the time of the import, is left out.
pub open spec fn step_write(b: SyncBundle, s: ImportStep) -> UpsertModel {
    match s {
        ImportStep::Graph(g) => {
            let r = b.graphs@[g as int].graph;
            (
                seq!["graphs"@, r.id@],
                map!["id"@ => text_col(r.id), "ring_id"@ => text_col(r.ring_id), "created_at"@ => text_col(
                    r.created_at,
                )],
                map!["name"@ => text_col(r.name), "updated_at"@ => text_col(r.updated_at)],
            )
        },
        ImportStep::Node(g, n) => {
            let r = b.graphs@[g as int].nodes@[n as int];
            (
                seq!["graph_nodes"@, r.id@],
                map!["id"@ => text_col(r.id), "graph_id"@ => text_col(r.graph_id), "ring_id"@ => text_col(
                    r.ring_id,
                ), "created_at"@ => text_col(r.created_at)],
                map![
                    "label"@ => text_col(r.label), "parent_id"@ => opt_col(r.parent_id),
                    "node_type"@ => text_col(r.node_type), "content"@ => text_col(r.content),
                    "tags"@ => text_col(r.tags), "markdown_path"@ => opt_col(r.markdown_path),
                    "metadata"@ => text_col(r.metadata), "updated_at"@ => text_col(r.updated_at)
                ],
            )
        },
        ImportStep::Edge(g, e) => {
            let r = b.graphs@[g as int].edges@[e as int];
            (
                seq!["graph_edges"@, r.id@],
                map!["id"@ => text_col(r.id), "graph_id"@ => text_col(r.graph_id), "ring_id"@ => text_col(
                    r.ring_id,
                ), "created_at"@ => text_col(r.created_at)],
                map![
                    "source_id"@ => text_col(r.source_id), "target_id"@ => text_col(r.target_id),
                    "relation"@ => text_col(r.relation), "label"@ => text_col(r.label)
                ],
            )
        },
        ImportStep::Record(i) => {
            let r = b.archive_records@[i as int];
            let always = map!["status"@ => text_col(r.status), "updated_at"@ => text_col(r.updated_at)];
            (
                seq!["archive_records"@, r.id@],
                map![
                    "id"@ => text_col(r.id), "ring_id"@ => text_col(r.ring_id),
                    "session_id"@ => opt_col(r.session_id), "node_id"@ => opt_col(r.node_id),
                    "file_name"@ => text_col(r.file_name), "commit_sha"@ => None::<Seq<char>>,
                    "archived_by"@ => text_col(r.archived_by), "created_at"@ => text_col(r.created_at)
                ],
                match r.commit_sha {
                    Some(c) => always.insert("commit_sha"@, Some(c@)),
                    None => always,
                },
            )
        },
        ImportStep::Doc(i) => {
            let d = b.group_docs@[i as int];
            (
                seq!["group_docs"@, b.ring_id@, d.doc_name@],
                map!["ring_id"@ => text_col(b.ring_id), "doc_name"@ => text_col(d.doc_name)],
                map!["content"@ => text_col(d.content), "updated_at"@ => text_col(d.updated_at)],
            )
        },
        ImportStep::ArchiveDir => (seq!["archives"@, b.ring_id@], Map::empty(), Map::empty()),
        ImportStep::File(i) => {
            let f = b.archive_files@[i as int];
            (
                seq!["archive_files"@, b.ring_id@, f.file_name@],
                Map::empty(),
                map!["content"@ => text_col(f.content)],
            )
        },
        ImportStep::SyncMark => (
            seq!["sync_meta"@, b.ring_id@, "last_sync_at"@],
            map!["ring_id"@ => text_col(b.ring_id), "key"@ => Some("last_sync_at"@)],
            map!["value"@ => text_col(b.exported_at)],
        ),
    }
}

/// The writes of an import, in the order of its plan.
pub open spec fn import_writes(b: SyncBundle) -> Seq<UpsertModel> {
    import_plan_of(b).map_values(|s: ImportStep| step_write(b, s))
}

/// The set columns of the writes at `k`, later ones over earlier ones.
pub open spec fn updates_at(ws: Seq<UpsertModel>, k: RowKey) -> RowModel
    decreases ws.len(),
{
    if ws.len() == 0 {
        Map::empty()
    } else if ws.last().0 == k {
        updates_at(ws.drop_last(), k).union_prefer_right(ws.last().2)
    } else {
        updates_at(ws.drop_last(), k)
    }
}

/// What the writes leave at `k`, starting from `x`.
pub open spec fn row_after(ws: Seq<UpsertModel>, k: RowKey, x: Option<RowModel>) -> Option<RowModel>
    decreases ws.len(),
{
    if ws.len() == 0 {
        x
    } else {
        let before = row_after(ws.drop_last(), k, x);
        let w = ws.last();
        if w.0 != k {
            before
        } else {
            match before {
                Some(r) => Some(r.union_prefer_right(w.2)),
                None => Some(w.1.union_prefer_right(w.2)),
            }
        }
    }
}

proof fn lemma_row_at_after(db: Map<RowKey, RowModel>, ws: Seq<UpsertModel>, k: RowKey)
    ensures
        row_at(upsert_all(db, ws), k) == row_after(ws, k, row_at(db, k)),
    decreases ws.len(),
{
    if ws.len() > 0 {
        lemma_row_at_after(db, ws.drop_last(), k);
    }
}

proof fn lemma_present_row_after(ws: Seq<UpsertModel>, k: RowKey, r: RowModel)
    ensures
        row_after(ws, k, Some(r)) == Some(r.union_prefer_right(updates_at(ws, k))),
    decreases ws.len(),
{
    if ws.len() > 0 {
        lemma_present_row_after(ws.drop_last(), k, r);
        let u = updates_at(ws.drop_last(), k);
        let w = ws.last();
        if w.0 == k {
            assert(r.union_prefer_right(u).union_prefer_right(w.2) =~= r.union_prefer_right(
                u.union_prefer_right(w.2),
            ));
        }
    } else {
        assert(r.union_prefer_right(Map::empty()) =~= r);
    }
}

proof fn lemma_absent_row_after(ws: Seq<UpsertModel>, k: RowKey)
    ensures
        row_after(ws, k, None) is None ==> updates_at(ws, k) == Map::<Seq<char>, Option<Seq<char>>>::empty(),
        row_after(ws, k, None) matches Some(r) ==> r.union_prefer_right(updates_at(ws, k)) == r,
    decreases ws.len(),
{
    if ws.len() > 0 {
        let prev = ws.drop_last();
        lemma_absent_row_after(prev, k);
        let w = ws.last();
        let u = updates_at(prev, k);
        if w.0 == k {
            match row_after(prev, k, None) {
                None => {
                    let r = w.1.union_prefer_right(w.2);
                    assert(u.union_prefer_right(w.2) =~= w.2);
                    assert(r.union_prefer_right(w.2) =~= r);
                },
                Some(r0) => {
                    let r = r0.union_prefer_right(w.2);
                    assert forall|c: Seq<char>| u.contains_key(c) implies r0.contains_key(c) && r0[c]
                        == u[c] by {
                        assert(r0.union_prefer_right(u).contains_key(c));
                        assert(r0.union_prefer_right(u)[c] == u[c]);
                    }
                    assert(r.union_prefer_right(u.union_prefer_right(w.2)) =~= r);
                },
            }
        }
    }
}

proof fn lemma_upsert_twice_at(db: Map<RowKey, RowModel>, ws: Seq<UpsertModel>, k: RowKey)
    ensures
        row_at(upsert_all(upsert_all(db, ws), ws), k) == row_at(upsert_all(db, ws), k),
{
    let once = upsert_all(db, ws);
    lemma_row_at_after(db, ws, k);
    lemma_row_at_after(once, ws, k);
    let u = updates_at(ws, k);
    match row_at(db, k) {
        Some(r) => {
            lemma_present_row_after(ws, k, r);
            let r1 = r.union_prefer_right(u);
            lemma_present_row_after(ws, k, r1);
            assert(r1.union_prefer_right(u) =~= r1);
        },
        None => {
            lemma_absent_row_after(ws, k);
            match row_after(ws, k, None) {
                Some(r1) => {
                    lemma_present_row_after(ws, k, r1);
                },
                None => {},
            }
        },
    }
}

/// Applying the same writes twice leaves what applying them once leaves.
pub proof fn law_upserts_idempotent(db: Map<RowKey, RowModel>, ws: Seq<UpsertModel>)
    ensures
        upsert_all(upsert_all(db, ws), ws) == upsert_all(db, ws),
{
    let once = upsert_all(db, ws);
    let twice = upsert_all(once, ws);
    assert forall|k: RowKey| #[trigger] twice.contains_key(k) == once.contains_key(k) && (once.contains_key(k)
        ==> twice[k] == once[k]) by {
        lemma_upsert_twice_at(db, ws, k);
    }
    assert(twice =~= once);
}

/// Importing a bundle a second time leaves the rows, files and directory
/// as the first import left them (the time of the synchronisation mark
/// aside).
pub proof fn law_import_idempotent(db: Map<RowKey, RowModel>, b: SyncBundle)
    ensures
        upsert_all(upsert_all(db, import_writes(b)), import_writes(b)) == upsert_all(db, import_writes(b)),
{
    law_upserts_idempotent(db, import_writes(b));
}

} // verus!
