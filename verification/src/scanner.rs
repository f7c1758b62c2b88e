//! Recursive scanning of a usage-log directory snapshot.
//!
//! The scanner works on an in-memory snapshot of a directory tree: every
//! file with the log extension is collected, however deeply it is nested,
//! together with its text content; files with any other extension are
//! ignored. A root directory contributes files only through its
//! `"projects"` subdirectory; a root without one is silently skipped.

use vstd::prelude::*;
use vstd::string::*;

verus! {

/// A snapshot of one entry of a directory tree: a file with its text
/// content, or a directory with the entries listed inside it. A file that
/// could not be read is simply left out of the snapshot.
pub enum DirEntry {
    File { name: String, content: String },
    Dir { name: String, entries: Vec<DirEntry> },
}

/// The mathematical model of a [`DirEntry`].
pub enum FsNode {
    File { name: Seq<char>, content: Seq<char> },
    Dir { name: Seq<char>, entries: Seq<FsNode> },
}

/// The model of a directory-tree snapshot entry.
pub open spec fn entry_model(e: DirEntry) -> FsNode
    decreases e,
{
    match e {
        DirEntry::File { name, content } => FsNode::File { name: name@, content: content@ },
        DirEntry::Dir { name, entries } => FsNode::Dir {
            name: name@,
            entries: entries_model(entries@),
        },
    }
}

/// The models of a sequence of sibling snapshot entries.
pub open spec fn entries_model(es: Seq<DirEntry>) -> Seq<FsNode>
    decreases es,
{
    if es.len() == 0 {
        Seq::empty()
    } else {
        seq![entry_model(es[0])] + entries_model(es.drop_first())
    }
}

/// `entries_model` maps the sequence elementwise.
pub proof fn lemma_entries_model(es: Seq<DirEntry>)
    ensures
        entries_model(es).len() == es.len(),
        forall|i: int| 0 <= i < es.len() ==> entries_model(es)[i] == entry_model(es[i]),
    decreases es,
{
    if es.len() > 0 {
        lemma_entries_model(es.drop_first());
    }
}

impl View for DirEntry {
    type V = FsNode;

    open spec fn view(&self) -> FsNode {
        entry_model(*self)
    }
}

impl DeepView for DirEntry {
    type V = FsNode;

    open spec fn deep_view(&self) -> FsNode {
        entry_model(*self)
    }
}

/// A log file found by a scan: its path and its raw text content.
pub struct LogFileRecord {
    pub path: String,
    pub content: String,
}

/// The mathematical model of a [`LogFileRecord`].
pub struct FsRecord {
    pub path: Seq<char>,
    pub content: Seq<char>,
}

impl View for LogFileRecord {
    type V = FsRecord;

    open spec fn view(&self) -> FsRecord {
        FsRecord { path: self.path@, content: self.content@ }
    }
}

impl DeepView for LogFileRecord {
    type V = FsRecord;

    open spec fn deep_view(&self) -> FsRecord {
        self.view()
    }
}

/// True when `name` carries the log-file extension: it ends in `".jsonl"`
/// and the dot is not its first character.
pub open spec fn has_log_extension(name: Seq<char>) -> bool {
    name.len() > 6 && name.subrange(name.len() - 6, name.len() as int) == ".jsonl"@
}

/// Decides whether a file name carries the log-file extension.
pub fn file_has_log_extension(name: &str) -> (r: bool)
    ensures
        r == has_log_extension(name@),
{
    let n: usize = name.unicode_len();
    if n <= 6 {
        return false;
    }
    let suffix = String::from_str(name.substring_char(n - 6, n));
    let pattern = String::from_str(".jsonl");
    suffix == pattern
}

/// The records that a scan of `node` under `prefix` yields: every file with
/// the log extension, at any depth, each under the path formed from the
/// directory names leading to it.
pub open spec fn spec_scan(node: FsNode, prefix: Seq<char>) -> Seq<FsRecord>
    decreases node,
{
    match node {
        FsNode::File { name, content } => {
            if has_log_extension(name) {
                seq![FsRecord { path: prefix + name, content }]
            } else {
                Seq::empty()
            }
        },
        FsNode::Dir { name, entries } => spec_scan_all(entries, prefix + name + "/"@),
    }
}

/// The concatenated scans of a sequence of sibling entries.
pub open spec fn spec_scan_all(nodes: Seq<FsNode>, prefix: Seq<char>) -> Seq<FsRecord>
    decreases nodes,
{
    if nodes.len() == 0 {
        Seq::empty()
    } else {
        spec_scan(nodes[0], prefix) + spec_scan_all(nodes.drop_first(), prefix)
    }
}

/// Scans one snapshot entry under `prefix`, collecting every log file in it.
pub fn scan_entry(e: &DirEntry, prefix: &str) -> (out: Vec<LogFileRecord>)
    ensures
        out.deep_view() == spec_scan(e@, prefix@),
    decreases *e,
{
    match e {
        DirEntry::File { name, content } => {
            let mut out: Vec<LogFileRecord> = Vec::new();
            if file_has_log_extension(name.as_str()) {
                let path = String::from_str(prefix).concat(name.as_str());
                out.push(LogFileRecord { path, content: content.clone() });
            }
            proof {
                if has_log_extension(name@) {
                    assert(out.deep_view() =~= seq![
                        FsRecord { path: prefix@ + name@, content: content@ },
                    ]);
                } else {
                    assert(out.deep_view() =~= Seq::<FsRecord>::empty());
                }
            }
            out
        },
        DirEntry::Dir { name, entries } => {
            let sub_prefix = String::from_str(prefix).concat(name.as_str()).concat("/");
            let ghost nodes = entries_model(entries@);
            let mut out: Vec<LogFileRecord> = Vec::new();
            let mut i: usize = 0;
            proof {
                lemma_entries_model(entries@);
                assert(nodes.subrange(0, nodes.len() as int) =~= nodes);
                assert(out.deep_view() + spec_scan_all(nodes, sub_prefix@) =~= spec_scan_all(
                    nodes,
                    sub_prefix@,
                ));
            }
            while i < entries.len()
                invariant
                    0 <= i <= entries.len(),
                    *e == (DirEntry::Dir { name: *name, entries: *entries }),
                    nodes == entries_model(entries@),
                    nodes.len() == entries.len(),
                    forall|j: int| 0 <= j < nodes.len() ==> nodes[j] == entry_model(entries[j]),
                    sub_prefix@ == prefix@ + name@ + "/"@,
                    spec_scan_all(nodes, sub_prefix@) =~= out.deep_view() + spec_scan_all(
                        nodes.subrange(i as int, nodes.len() as int),
                        sub_prefix@,
                    ),
                decreases entries.len() - i,
            {
                let ghost rest = nodes.subrange(i as int, nodes.len() as int);
                proof {
                    assert(decreases_to!(*e => (*e)->Dir_entries));
                    assert((*e)->Dir_entries == *entries);
                    assert(decreases_to!(*entries => entries[i as int]));
                    assert(decreases_to!(*e => entries[i as int]));
                }
                let mut sub = scan_entry(&entries[i], sub_prefix.as_str());
                let ghost prev = out.deep_view();
                let ghost subv = sub.deep_view();
                out.append(&mut sub);
                proof {
                    assert(out.deep_view() =~= prev + subv);
                    assert(rest.drop_first() =~= nodes.subrange(i as int + 1, nodes.len() as int));
                    assert(spec_scan_all(rest, sub_prefix@) == spec_scan(rest[0], sub_prefix@)
                        + spec_scan_all(rest.drop_first(), sub_prefix@));
                }
                i = i + 1;
            }
            proof {
                assert(nodes.subrange(nodes.len() as int, nodes.len() as int)
                    =~= Seq::<FsNode>::empty());
                assert(out.deep_view() =~= spec_scan_all(nodes, sub_prefix@));
            }
            out
        },
    }
}

/// A snapshot of one discovered root directory: its path and the entries
/// listed directly inside it.
pub struct RootSnapshot {
    pub path: String,
    pub entries: Vec<DirEntry>,
}

/// The mathematical model of a [`RootSnapshot`].
pub struct RootModel {
    pub path: Seq<char>,
    pub entries: Seq<FsNode>,
}

impl View for RootSnapshot {
    type V = RootModel;

    open spec fn view(&self) -> RootModel {
        RootModel { path: self.path@, entries: entries_model(self.entries@) }
    }
}

impl DeepView for RootSnapshot {
    type V = RootModel;

    open spec fn deep_view(&self) -> RootModel {
        self.view()
    }
}

/// True when `n` is a directory named `"projects"`.
pub open spec fn is_projects_dir(n: FsNode) -> bool {
    n matches FsNode::Dir { name, entries } && name == "projects"@
}

/// The first directory named `"projects"` among `entries`, if any.
pub open spec fn find_projects(entries: Seq<FsNode>) -> Option<FsNode>
    decreases entries,
{
    if entries.len() == 0 {
        None
    } else if is_projects_dir(entries[0]) {
        Some(entries[0])
    } else {
        find_projects(entries.drop_first())
    }
}

proof fn lemma_find_projects_at(s: Seq<FsNode>, i: int)
    requires
        0 <= i <= s.len(),
        forall|j: int| 0 <= j < i ==> !is_projects_dir(s[j]),
        i < s.len() ==> is_projects_dir(s[i]),
    ensures
        find_projects(s) == if i < s.len() {
            Some(s[i])
        } else {
            None::<FsNode>
        },
    decreases i,
{
    if i > 0 {
        let s1 = s.drop_first();
        assert(forall|j: int| 0 <= j < i - 1 ==> !is_projects_dir(s1[j]));
        lemma_find_projects_at(s1, i - 1);
    }
}

/// The raw text contents of a sequence of scanned records, in order.
pub open spec fn record_contents(rs: Seq<FsRecord>) -> Seq<Seq<char>> {
    rs.map_values(|r: FsRecord| r.content)
}

/// What one root contributes to a load: the contents of every log file
/// under its `"projects"` subdirectory, or nothing when it has none.
pub open spec fn root_contents(r: RootModel) -> Seq<Seq<char>> {
    match find_projects(r.entries) {
        Some(p) => record_contents(spec_scan(p, r.path + "/"@)),
        None => Seq::empty(),
    }
}

/// The contents that loading a sequence of roots yields, in root order.
pub open spec fn spec_load_all(roots: Seq<RootModel>) -> Seq<Seq<char>>
    decreases roots,
{
    if roots.len() == 0 {
        Seq::empty()
    } else {
        root_contents(roots[0]) + spec_load_all(roots.drop_first())
    }
}

/// Returns the first directory entry named `"projects"`, if any.
fn find_projects_entry<'a>(entries: &'a Vec<DirEntry>) -> (r: Option<&'a DirEntry>)
    ensures
        match r {
            Some(d) => find_projects(entries_model(entries@)) == Some(d@),
            None => find_projects(entries_model(entries@)) is None,
        },
{
    let ghost nodes = entries_model(entries@);
    proof {
        lemma_entries_model(entries@);
    }
    let pattern = String::from_str("projects");
    let mut i: usize = 0;
    while i < entries.len()
        invariant
            0 <= i <= entries@.len(),
            nodes == entries_model(entries@),
            nodes.len() == entries@.len(),
            forall|j: int| 0 <= j < nodes.len() ==> nodes[j] == entry_model(entries@[j]),
            pattern@ == "projects"@,
            forall|j: int| 0 <= j < i ==> !is_projects_dir(nodes[j]),
        decreases entries@.len() - i,
    {
        let found: bool = match &entries[i] {
            DirEntry::Dir { name, entries: _sub } => *name == pattern,
            DirEntry::File { .. } => false,
        };
        if found {
            proof {
                lemma_find_projects_at(nodes, i as int);
            }
            return Some(&entries[i]);
        }
        i = i + 1;
    }
    proof {
        lemma_find_projects_at(nodes, nodes.len() as int);
    }
    None
}

/// Collects the raw text content of every log file under the `"projects"`
/// subdirectory of each root, in root order. A root without a `"projects"`
/// subdirectory is silently skipped; zero roots yield an empty result
/// rather than an error. The `since_date` parameter is accepted but not
/// applied as a filter: all discovered content is returned.
pub fn load_usage_data(since_date: Option<String>, roots: &Vec<RootSnapshot>) -> (r: Result<
    Vec<String>,
    String,
>)
    ensures
        r matches Ok(contents) && contents.deep_view() == spec_load_all(roots.deep_view()),
{
    let ghost _ = since_date;
    let mut out: Vec<String> = Vec::new();
    let mut i: usize = 0;
    proof {
        assert(roots.deep_view().subrange(0, roots.deep_view().len() as int) =~= roots.deep_view());
        assert(out.deep_view() =~= Seq::<Seq<char>>::empty());
        assert(out.deep_view() + spec_load_all(roots.deep_view()) =~= spec_load_all(
            roots.deep_view(),
        ));
    }
    while i < roots.len()
        invariant
            0 <= i <= roots@.len(),
            roots.deep_view().len() == roots@.len(),
            spec_load_all(roots.deep_view()) =~= out.deep_view() + spec_load_all(
                roots.deep_view().subrange(i as int, roots.deep_view().len() as int),
            ),
        decreases roots@.len() - i,
    {
        let ghost rest = roots.deep_view().subrange(i as int, roots.deep_view().len() as int);
        proof {
            assert(rest[0] == roots.deep_view()[i as int]);
            assert(rest.drop_first() =~= roots.deep_view().subrange(
                i as int + 1,
                roots.deep_view().len() as int,
            ));
        }
        let root = &roots[i];
        match find_projects_entry(&root.entries) {
            Some(p) => {
                let prefix = root.path.clone().concat("/");
                let records = scan_entry(p, prefix.as_str());
                let ghost recs = records.deep_view();
                let mut j: usize = 0;
                proof {
                    assert(record_contents(recs.subrange(0, 0)) =~= Seq::<Seq<char>>::empty());
                    assert(out.deep_view() + Seq::<Seq<char>>::empty() =~= out.deep_view());
                }
                let ghost base = out.deep_view();
                while j < records.len()
                    invariant
                        0 <= j <= records@.len(),
                        recs == records.deep_view(),
                        recs.len() == records@.len(),
                        out.deep_view() =~= base + record_contents(recs.subrange(0, j as int)),
                    decreases records@.len() - j,
                {
                    let ghost prev = out.deep_view();
                    out.push(records[j].content.clone());
                    proof {
                        assert(out.deep_view() =~= prev.push(recs[j as int].content));
                        assert(recs.subrange(0, j as int + 1) =~= recs.subrange(0, j as int).push(
                            recs[j as int],
                        ));
                        assert(record_contents(recs.subrange(0, j as int + 1)) =~= record_contents(
                            recs.subrange(0, j as int),
                        ).push(recs[j as int].content));
                    }
                    j = j + 1;
                }
                proof {
                    assert(recs.subrange(0, recs.len() as int) =~= recs);
                    assert(root_contents(rest[0]) == record_contents(recs));
                    assert(out.deep_view() =~= base + root_contents(rest[0]));
                }
            },
            None => {
                proof {
                    assert(root_contents(rest[0]) =~= Seq::<Seq<char>>::empty());
                    assert(out.deep_view() + Seq::<Seq<char>>::empty() =~= out.deep_view());
                }
            },
        }
        i = i + 1;
    }
    proof {
        assert(roots.deep_view().subrange(
            roots.deep_view().len() as int,
            roots.deep_view().len() as int,
        ) =~= Seq::<RootModel>::empty());
        assert(out.deep_view() =~= spec_load_all(roots.deep_view()));
    }
    Ok(out)
}

/// A root whose snapshot has no `"projects"` subdirectory contributes an
/// empty sequence: loading such a root alone yields no content, and no
/// error.
pub proof fn lemma_root_without_projects_is_empty(root: RootModel)
    requires
        find_projects(root.entries) is None,
    ensures
        spec_load_all(seq![root]) == Seq::<Seq<char>>::empty(),
{
    assert(seq![root].drop_first() =~= Seq::<RootModel>::empty());
    assert(seq![root][0] == root);
    assert(root_contents(root) == Seq::<Seq<char>>::empty());
    assert(spec_load_all(seq![root]) == root_contents(root) + spec_load_all(
        seq![root].drop_first(),
    ));
    assert(root_contents(root) + spec_load_all(seq![root].drop_first())
        =~= Seq::<Seq<char>>::empty());
}

/// Loading zero discovered roots yields an empty sequence.
pub proof fn lemma_load_all_of_no_roots()
    ensures
        spec_load_all(Seq::empty()) == Seq::<Seq<char>>::empty(),
{
}

/// Every record a scan yields carries the log extension on its path: a
/// file with any other extension is never collected.
pub proof fn lemma_scan_only_log_files(node: FsNode, prefix: Seq<char>)
    ensures
        forall|i: int|
            0 <= i < spec_scan(node, prefix).len() ==> has_log_extension(
                #[trigger] spec_scan(node, prefix)[i].path,
            ),
    decreases node,
{
    match node {
        FsNode::File { name, content } => {
            if has_log_extension(name) {
                let path = prefix + name;
                assert(path.subrange(path.len() - 6, path.len() as int) =~= name.subrange(
                    name.len() - 6,
                    name.len() as int,
                ));
                assert(has_log_extension(path));
                assert(spec_scan(node, prefix) == seq![FsRecord { path, content }]);
                assert forall|i: int| 0 <= i < spec_scan(node, prefix).len() implies
                    has_log_extension(#[trigger] spec_scan(node, prefix)[i].path) by {
                    assert(spec_scan(node, prefix)[i] == FsRecord { path, content });
                }
            } else {
                assert(spec_scan(node, prefix).len() == 0);
            }
        },
        FsNode::Dir { name, entries } => {
            lemma_scan_all_only_log_files(entries, prefix + name + "/"@);
            assert(spec_scan(node, prefix) == spec_scan_all(entries, prefix + name + "/"@));
        },
    }
}

proof fn lemma_scan_all_only_log_files(nodes: Seq<FsNode>, prefix: Seq<char>)
    ensures
        forall|i: int|
            0 <= i < spec_scan_all(nodes, prefix).len() ==> has_log_extension(
                #[trigger] spec_scan_all(nodes, prefix)[i].path,
            ),
    decreases nodes,
{
    if nodes.len() > 0 {
        lemma_scan_only_log_files(nodes[0], prefix);
        lemma_scan_all_only_log_files(nodes.drop_first(), prefix);
        let head = spec_scan(nodes[0], prefix);
        let tail = spec_scan_all(nodes.drop_first(), prefix);
        assert forall|i: int| 0 <= i < spec_scan_all(nodes, prefix).len() implies has_log_extension(
            #[trigger] spec_scan_all(nodes, prefix)[i].path,
        ) by {
            if i < head.len() {
                assert(spec_scan_all(nodes, prefix)[i] == head[i]);
            } else {
                assert(spec_scan_all(nodes, prefix)[i] == tail[i - head.len()]);
            }
        }
    }
}

/// The scan of a directory finds everything that the scan of any one of
/// its children finds, however deeply nested: recursion descends into
/// every subdirectory.
pub proof fn lemma_scan_finds_nested(
    name: Seq<char>,
    entries: Seq<FsNode>,
    k: int,
    prefix: Seq<char>,
    r: FsRecord,
)
    requires
        0 <= k < entries.len(),
        spec_scan(entries[k], prefix + name + "/"@).contains(r),
    ensures
        spec_scan(FsNode::Dir { name, entries }, prefix).contains(r),
{
    lemma_scan_all_contains(entries, k, prefix + name + "/"@, r);
}

proof fn lemma_scan_all_contains(nodes: Seq<FsNode>, k: int, prefix: Seq<char>, r: FsRecord)
    requires
        0 <= k < nodes.len(),
        spec_scan(nodes[k], prefix).contains(r),
    ensures
        spec_scan_all(nodes, prefix).contains(r),
    decreases k,
{
    let head = spec_scan(nodes[0], prefix);
    let tail = spec_scan_all(nodes.drop_first(), prefix);
    if k == 0 {
        let w = choose|w: int| 0 <= w < head.len() && head[w] == r;
        assert(spec_scan_all(nodes, prefix)[w] == r);
    } else {
        assert(nodes.drop_first()[k - 1] == nodes[k]);
        lemma_scan_all_contains(nodes.drop_first(), k - 1, prefix, r);
        let w = choose|w: int| 0 <= w < tail.len() && tail[w] == r;
        assert(spec_scan_all(nodes, prefix)[head.len() + w] == r);
    }
}

} // verus!
