//! A provider that keeps its files in memory.
use vstd::prelude::*;
use crate::error::{ErrorView, VfsError};
use crate::mime::{guess_mime, is_guess};
use crate::tree::{subtree_order, Node, NodeView, Tree};
use crate::types::{
    dot_name, entry_uris, entry_views, event, is_dot_name, opt_text, renamed, stat_view, CopyOpts,
    DeleteOpts, DirEntry, EntryView, EventView, FileType, FsEvent, FsEventKind, ListOpts,
    ProviderCaps, Stat, StatView, WriteOpts,
};
use crate::uri::{lemma_graft, relocated, suffix_of, uri_views, UriView, VfsUri};

verus! {

/// A watch on a uri: with `recursive`, on everything below it too.
#[derive(Debug)]
pub struct WatchReg {
    pub id: u64,
    pub root: VfsUri,
    pub recursive: bool,
}

pub struct RegView {
    pub id: u64,
    pub root: UriView,
    pub recursive: bool,
}

impl View for WatchReg {
    type V = RegView;

    open spec fn view(&self) -> RegView {
        RegView { id: self.id, root: self.root@, recursive: self.recursive }
    }
}

/// An event and the watches that are to hear of it, oldest first.
#[derive(Debug)]
pub struct Notice {
    pub event: FsEvent,
    pub watchers: Vec<u64>,
}

pub struct NoticeView {
    pub event: EventView,
    pub watchers: Seq<u64>,
}

impl View for Notice {
    type V = NoticeView;

    open spec fn view(&self) -> NoticeView {
        NoticeView { event: self.event@, watchers: self.watchers@ }
    }
}

/// A provider that keeps its files in memory.
#[derive(Debug)]
pub struct MemProvider {
    tree: Tree,
    watchers: Vec<WatchReg>,
    next_watch_id: u64,
}

#[verifier::ext_equal]
pub struct MemView {
    pub tree: Map<UriView, NodeView>,
    pub watchers: Seq<RegView>,
    pub next_watch_id: u64,
}

/// The views of a list of watches.
pub open spec fn reg_views(regs: Seq<WatchReg>) -> Seq<RegView> {
    regs.map_values(|r: WatchReg| r@)
}

impl View for MemProvider {
    type V = MemView;

    closed spec fn view(&self) -> MemView {
        MemView {
            tree: self.tree@,
            watchers: reg_views(self.watchers@),
            next_watch_id: self.next_watch_id,
        }
    }
}

/// The watch is to hear of a change at `uri`.
pub open spec fn hears(reg: RegView, uri: UriView) -> bool {
    if reg.recursive {
        reg.root.covers(uri)
    } else {
        uri.parent() == Some(reg.root) || reg.root == uri
    }
}

/// The ids of the watches that are to hear of a change at `uri`, oldest first.
pub open spec fn audience(regs: Seq<RegView>, uri: UriView) -> Seq<u64>
    decreases regs.len(),
{
    if regs.len() == 0 {
        Seq::empty()
    } else {
        let before = audience(regs.drop_last(), uri);
        if hears(regs.last(), uri) {
            before.push(regs.last().id)
        } else {
            before
        }
    }
}

/// The watches whose id is another one.
pub open spec fn without(regs: Seq<RegView>, id: u64) -> Seq<RegView>
    decreases regs.len(),
{
    if regs.len() == 0 {
        Seq::empty()
    } else {
        let before = without(regs.drop_last(), id);
        if regs.last().id == id {
            before
        } else {
            before.push(regs.last())
        }
    }
}

/// What is known of a node.
pub open spec fn node_stat(node: NodeView) -> StatView {
    match node {
        NodeView::File { data, modified_ms } => StatView {
            file_type: FileType::File,
            size: data.len() as u64,
            modified_ms: Some(modified_ms),
            created_ms: Some(modified_ms),
            readonly: false,
            symlink_target: None,
        },
        NodeView::Dir { modified_ms } => StatView {
            file_type: FileType::Directory,
            size: 0,
            modified_ms: Some(modified_ms),
            created_ms: Some(modified_ms),
            readonly: false,
            symlink_target: None,
        },
    }
}

/// What is known of a top directory, which is always there.
pub open spec fn root_stat() -> StatView {
    StatView {
        file_type: FileType::Directory,
        size: 0,
        modified_ms: None,
        created_ms: None,
        readonly: false,
        symlink_target: None,
    }
}

/// The listing entry of a node with a guessed media type, which only files
/// have.
pub open spec fn entry_of(uri: UriView, node: NodeView, mime: Option<Seq<char>>) -> EntryView {
    let name = uri.name_or_empty();
    match node {
        NodeView::File { data, modified_ms } => EntryView {
            uri,
            name,
            file_type: FileType::File,
            size: data.len() as u64,
            modified_ms: Some(modified_ms),
            hidden: dot_name(name),
            mime,
        },
        NodeView::Dir { modified_ms } => EntryView {
            uri,
            name,
            file_type: FileType::Directory,
            size: 0,
            modified_ms: Some(modified_ms),
            hidden: dot_name(name),
            mime: None,
        },
    }
}

/// The uri is an entry of the directory that a listing shows.
pub open spec fn shown(
    tree: Map<UriView, NodeView>,
    dir: UriView,
    include_hidden: bool,
    uri: UriView,
) -> bool {
    &&& tree.contains_key(uri)
    &&& uri.parent() == Some(dir)
    &&& include_hidden || !dot_name(uri.name_or_empty())
}

/// The entries are those of the directory, each once, in some order.
pub open spec fn is_listing(
    tree: Map<UriView, NodeView>,
    dir: UriView,
    include_hidden: bool,
    entries: Seq<EntryView>,
) -> bool {
    &&& entry_uris(entries).no_duplicates()
    &&& forall|k: UriView| #[trigger]
        entry_uris(entries).contains(k) <==> shown(tree, dir, include_hidden, k)
    &&& forall|i: int|
        0 <= i < entries.len() ==> {
            let e = #[trigger] entries[i];
            &&& e == entry_of(e.uri, tree[e.uri], e.mime)
            &&& e.file_type == FileType::File ==> is_guess(e.name, e.mime)
        }
}

pub open spec fn min_int(a: int, b: int) -> int {
    if a <= b {
        a
    } else {
        b
    }
}

/// The bytes of a range: what of it lies past the end does not count.
pub open spec fn in_range(data: Seq<u8>, range: Option<(u64, u64)>) -> Seq<u8> {
    match range {
        None => data,
        Some((start, end)) => {
            let from = min_int(start as usize as int, data.len() as int);
            let to = min_int(end as usize as int, data.len() as int);
            if to <= from {
                Seq::empty()
            } else {
                data.subrange(from, to)
            }
        },
    }
}

/// The tree without the uri and everything below it.
pub open spec fn pruned(tree: Map<UriView, NodeView>, root: UriView) -> Map<UriView, NodeView> {
    Map::new(|k: UriView| tree.contains_key(k) && !root.covers(k), |k: UriView| tree[k])
}

/// Something lies below the uri.
pub open spec fn has_below(tree: Map<UriView, NodeView>, root: UriView) -> bool {
    exists|k: UriView| #[trigger] tree.contains_key(k) && root.is_ancestor_of(k)
}

/// The uri from which `k` comes when what is at and below `from` is put at
/// `to`.
pub open spec fn origin(from: UriView, to: UriView, k: UriView) -> UriView {
    UriView { segments: from.segments + suffix_of(k, to.segments.len()), ..from }
}

/// A node of the tree comes to stand at `k` when what is at and below `from`
/// is put at `to`.
pub open spec fn lands(tree: Map<UriView, NodeView>, from: UriView, to: UriView, k: UriView) -> bool {
    to.covers(k) && tree.contains_key(origin(from, to, k))
}

/// The tree with what is at and below `from` also at `to`.
pub open spec fn copied(tree: Map<UriView, NodeView>, from: UriView, to: UriView) -> Map<
    UriView,
    NodeView,
> {
    Map::new(
        |k: UriView| tree.contains_key(k) || lands(tree, from, to, k),
        |k: UriView|
            if lands(tree, from, to, k) {
                tree[origin(from, to, k)]
            } else {
                tree[k]
            },
    )
}

/// The tree with what is at and below `from` at `to` in its place.
pub open spec fn moved(tree: Map<UriView, NodeView>, from: UriView, to: UriView) -> Map<
    UriView,
    NodeView,
> {
    pruned(copied(tree, from, to), from)
}

/// Every uri at and below `from` can be put below `to`.
pub open spec fn transferable(tree: Map<UriView, NodeView>, from: UriView, to: UriView) -> bool {
    forall|k: UriView| #[trigger]
        tree.contains_key(k) && from.covers(k) ==> relocated(k, from.segments.len(), to) is Ok
}

/// The tree after the nodes at the uris were taken away and put below `to`,
/// one after the other, up to the first that cannot be put there: that one is
/// gone.
pub open spec fn moved_in_order(
    tree: Map<UriView, NodeView>,
    keys: Seq<UriView>,
    depth: nat,
    to: UriView,
) -> (Map<UriView, NodeView>, Option<ErrorView>)
    decreases keys.len(),
{
    if keys.len() == 0 {
        (tree, None)
    } else {
        let (t, fault) = moved_in_order(tree, keys.drop_last(), depth, to);
        let k = keys.last();
        if fault is Some || !t.contains_key(k) {
            (t, fault)
        } else {
            match relocated(k, depth, to) {
                Err(e) => (t.remove(k), Some(e)),
                Ok(u) => (t.remove(k).insert(u, t[k]), None),
            }
        }
    }
}

/// The view of what a change gave back.
pub open spec fn notice_view(r: Result<Notice, VfsError>) -> Result<NoticeView, ErrorView> {
    match r {
        Ok(n) => Ok(n@),
        Err(e) => Err(e@),
    }
}

/// The view of what a read gave back.
pub open spec fn bytes_view(r: Result<Vec<u8>, VfsError>) -> Result<Seq<u8>, ErrorView> {
    match r {
        Ok(b) => Ok(b@),
        Err(e) => Err(e@),
    }
}

impl MemView {
    pub open spec fn is_dir(self, uri: UriView) -> bool {
        self.tree.contains_key(uri) && self.tree[uri] is Dir
    }

    pub open spec fn is_file(self, uri: UriView) -> bool {
        self.tree.contains_key(uri) && self.tree[uri] is File
    }

    /// The directory in which the uri would be made, where it is missing.
    pub open spec fn missing_parent(self, uri: UriView) -> Option<UriView> {
        match uri.parent() {
            Some(p) => if !p.is_root() && !self.is_dir(p) {
                Some(p)
            } else {
                None
            },
            None => None,
        }
    }

    /// The event, and the watches that hear of it.
    pub open spec fn notice(self, e: EventView) -> NoticeView {
        NoticeView { event: e, watchers: audience(self.watchers, e.uri) }
    }

    pub open spec fn stat(self, uri: UriView) -> Result<StatView, ErrorView> {
        if uri.is_root() {
            Ok(root_stat())
        } else if self.tree.contains_key(uri) {
            Ok(node_stat(self.tree[uri]))
        } else {
            Err(ErrorView::NotFound(uri))
        }
    }

    /// Why the uri cannot be listed, if so.
    pub open spec fn list_fault(self, uri: UriView) -> Option<ErrorView> {
        if uri.is_root() || self.is_dir(uri) {
            None
        } else if self.is_file(uri) {
            Some(ErrorView::NotADirectory(uri))
        } else {
            Some(ErrorView::NotFound(uri))
        }
    }

    pub open spec fn read(
        self,
        uri: UriView,
        range: Option<(u64, u64)>,
        cancelled: bool,
    ) -> Result<Seq<u8>, ErrorView> {
        if cancelled {
            Err(ErrorView::Cancelled)
        } else if self.is_file(uri) {
            Ok(in_range(self.tree[uri]->data, range))
        } else if self.is_dir(uri) {
            Err(ErrorView::IsADirectory(uri))
        } else {
            Err(ErrorView::NotFound(uri))
        }
    }

    /// Why the uri cannot be written, if so.
    pub open spec fn write_fault(self, uri: UriView, opts: WriteOpts) -> Option<ErrorView> {
        if self.is_dir(uri) {
            Some(ErrorView::IsADirectory(uri))
        } else if !opts.overwrite && self.is_file(uri) {
            Some(ErrorView::AlreadyExists(uri))
        } else {
            match self.missing_parent(uri) {
                Some(p) => if opts.create_parents {
                    None
                } else {
                    Some(ErrorView::NotFound(p))
                },
                None => None,
            }
        }
    }

    /// The tree with a file written.
    pub open spec fn written(self, uri: UriView, data: Seq<u8>, now: u64) -> Map<
        UriView,
        NodeView,
    > {
        let base = match self.missing_parent(uri) {
            Some(p) => self.tree.insert(p, NodeView::Dir { modified_ms: now }),
            None => self.tree,
        };
        base.insert(uri, NodeView::File { data, modified_ms: now })
    }

    /// Why the directory cannot be made, if so.
    pub open spec fn mkdir_fault(self, uri: UriView) -> Option<ErrorView> {
        if self.tree.contains_key(uri) {
            Some(ErrorView::AlreadyExists(uri))
        } else {
            match self.missing_parent(uri) {
                Some(p) => Some(ErrorView::NotFound(p)),
                None => None,
            }
        }
    }

    /// Why the uri cannot be deleted, if so.
    pub open spec fn delete_fault(self, uri: UriView, recursive: bool) -> Option<ErrorView> {
        if !self.tree.contains_key(uri) {
            Some(ErrorView::NotFound(uri))
        } else if self.is_dir(uri) && has_below(self.tree, uri) && !recursive {
            Some(ErrorView::DirectoryNotEmpty(uri))
        } else {
            None
        }
    }

    /// The tree with the uri deleted, and with a directory what is below it.
    pub open spec fn deleted(self, uri: UriView) -> Map<UriView, NodeView> {
        if self.is_dir(uri) {
            pruned(self.tree, uri)
        } else {
            self.tree.remove(uri)
        }
    }

    /// Why what is at `from` may not be put at `to`, if so.
    pub open spec fn transfer_fault(self, from: UriView, to: UriView, overwrite: bool) -> Option<
        ErrorView,
    > {
        if !self.tree.contains_key(from) {
            Some(ErrorView::NotFound(from))
        } else if self.tree.contains_key(to) && !overwrite {
            Some(ErrorView::AlreadyExists(to))
        } else {
            None
        }
    }

    /// A change ended as `fault` says: refused with nothing changed, or done
    /// with the new tree and the event told.
    pub open spec fn ends(
        self,
        after: MemView,
        r: Result<NoticeView, ErrorView>,
        fault: Option<ErrorView>,
        tree: Map<UriView, NodeView>,
        e: EventView,
    ) -> bool {
        match fault {
            Some(err) => r == Err::<NoticeView, ErrorView>(err) && after == self,
            None => r == Ok::<NoticeView, ErrorView>(self.notice(e)) && after == (MemView {
                tree,
                ..self
            }),
        }
    }

    /// The nodes at `from` were moved to `to` one after the other, in the
    /// order of `keys`.
    pub open spec fn moves(
        self,
        after: MemView,
        r: Result<NoticeView, ErrorView>,
        from: UriView,
        to: UriView,
        keys: Seq<UriView>,
    ) -> bool {
        let (tree, fault) = moved_in_order(self.tree, keys, from.segments.len(), to);
        &&& subtree_order(self.tree, from, keys)
        &&& after == (MemView { tree, ..self })
        &&& r == match fault {
            Some(e) => Err::<NoticeView, ErrorView>(e),
            None => Ok::<NoticeView, ErrorView>(self.notice(renamed(from, to))),
        }
    }
}

/// The listing entry of a node with a guessed media type.
pub fn dir_entry(uri: &VfsUri, node: &Node, mime: Option<String>) -> (r: DirEntry)
    ensures
        r@ == entry_of(uri@, node@, opt_text(mime)),
{
    let name = match uri.name() {
        Some(n) => n.to_owned(),
        None => "".to_owned(),
    };
    proof {
        reveal_strlit("");
        assert(name@ =~= uri@.name_or_empty());
    }
    let hidden = is_dot_name(name.as_str());
    match node {
        Node::File { data, modified_ms } => DirEntry {
            uri: uri.clone(),
            name,
            file_type: FileType::File,
            size: data.len() as u64,
            modified_ms: Some(*modified_ms),
            hidden,
            mime,
        },
        Node::Dir { modified_ms } => DirEntry {
            uri: uri.clone(),
            name,
            file_type: FileType::Directory,
            size: 0,
            modified_ms: Some(*modified_ms),
            hidden,
            mime: None,
        },
    }
}

fn copy_between(data: &Vec<u8>, from: usize, to: usize) -> (r: Vec<u8>)
    requires
        from <= to <= data@.len(),
    ensures
        r@ == data@.subrange(from as int, to as int),
{
    let mut out: Vec<u8> = Vec::new();
    let mut i: usize = from;
    while i < to
        invariant
            from <= i <= to <= data@.len(),
            out@ =~= data@.subrange(from as int, i as int),
        decreases to - i,
    {
        out.push(data[i]);
        i += 1;
    }
    out
}

proof fn lemma_take_one_more(s: Seq<UriView>, i: int)
    requires
        0 <= i < s.len(),
    ensures
        forall|k: UriView| #[trigger]
            s.take(i + 1).contains(k) <==> s.take(i).contains(k) || k == s[i],
        s.no_duplicates() ==> !s.take(i).contains(s[i]),
{
    assert forall|k: UriView| #[trigger]
        s.take(i + 1).contains(k) <==> s.take(i).contains(k) || k == s[i] by {
        if s.take(i + 1).contains(k) {
            let more = s.take(i + 1);
            let j = choose|j: int| 0 <= j < more.len() && more[j] == k;
            if j < i {
                assert(s.take(i)[j] == k);
            }
        }
        if s.take(i).contains(k) {
            let j = choose|j: int| 0 <= j < i && s.take(i)[j] == k;
            assert(s.take(i + 1)[j] == k);
        }
        assert(s.take(i + 1)[i] == s[i]);
    }
    if s.no_duplicates() && s.take(i).contains(s[i]) {
        let j = choose|j: int| 0 <= j < i && s.take(i)[j] == s[i];
        assert(s[j] == s[i]);
    }
}

proof fn lemma_push_distinct(s: Seq<UriView>, x: UriView)
    requires
        s.no_duplicates(),
        !s.contains(x),
    ensures
        s.push(x).no_duplicates(),
        forall|k: UriView| #[trigger] s.push(x).contains(k) <==> s.contains(k) || k == x,
{
    let t = s.push(x);
    assert(t.take(s.len() as int) =~= s);
    assert(t.take(s.len() as int + 1) =~= t);
    lemma_take_one_more(t, s.len() as int);
    assert forall|a: int, b: int| 0 <= a < t.len() && 0 <= b < t.len() && a != b implies t[a]
        != t[b] by {
        if a < s.len() {
            assert(s.contains(s[a]));
        }
        if b < s.len() {
            assert(s.contains(s[b]));
        }
    }
}

/// A subtree has more than one uri exactly where something lies below its
/// root.
proof fn lemma_more_than_one(tree: Map<UriView, NodeView>, root: UriView, keys: Seq<UriView>)
    requires
        tree.contains_key(root),
        subtree_order(tree, root, keys),
    ensures
        keys.len() > 1 <==> has_below(tree, root),
{
    assert(keys.contains(root));
    let r = choose|i: int| 0 <= i < keys.len() && keys[i] == root;
    if keys.len() > 1 {
        let other: int = if r == 0 {
            1
        } else {
            0
        };
        let k = keys[other];
        assert(keys.contains(k));
        assert(k != root);
        assert(tree.contains_key(k) && root.is_ancestor_of(k));
    }
    if has_below(tree, root) {
        let k = choose|k: UriView| #[trigger] tree.contains_key(k) && root.is_ancestor_of(k);
        assert(keys.contains(k));
        let i = choose|i: int| 0 <= i < keys.len() && keys[i] == k;
        assert(i != r);
    }
}

/// A fault on the way ends the move.
proof fn lemma_moved_stops(
    tree: Map<UriView, NodeView>,
    keys: Seq<UriView>,
    depth: nat,
    to: UriView,
    i: int,
)
    requires
        0 <= i <= keys.len(),
        moved_in_order(tree, keys.take(i), depth, to).1 is Some,
    ensures
        moved_in_order(tree, keys, depth, to) == moved_in_order(tree, keys.take(i), depth, to),
    decreases keys.len() - i,
{
    if i == keys.len() {
        assert(keys.take(i) =~= keys);
    } else {
        assert(keys.take(i + 1).drop_last() =~= keys.take(i));
        lemma_moved_stops(tree, keys, depth, to, i + 1);
    }
}

/// A uri at or below `from` lands at one uri, from which its origin is found
/// again.
pub proof fn lemma_origin(from: UriView, to: UriView, k: UriView)
    requires
        from.covers(k),
    ensures
        relocated(k, from.segments.len(), to) matches Ok(u) ==> to.covers(u) && origin(from, to, u)
            == k,
{
    let suffix = suffix_of(k, from.segments.len());
    lemma_graft(to, suffix);
    if let Ok(u) = relocated(k, from.segments.len(), to) {
        let n = to.segments.len() as int;
        assert(u.segments.skip(n) =~= suffix);
        assert(u.segments.take(n) =~= to.segments);
        assert(from.segments + suffix =~= k.segments) by {
            assert(k.segments.take(from.segments.len() as int) =~= from.segments);
        }
        if suffix.len() == 0 {
            assert(u.segments =~= to.segments);
            assert(u =~= to);
        }
        assert(origin(from, to, u) =~= k);
    }
}

/// What lands at a uri has its origin at or below `from`.
pub proof fn lemma_origin_covered(from: UriView, to: UriView, u: UriView)
    requires
        to.covers(u),
    ensures
        from.covers(origin(from, to, u)),
        relocated(origin(from, to, u), from.segments.len(), to) matches Ok(v) ==> v == u,
{
    let k = origin(from, to, u);
    let suffix = suffix_of(u, to.segments.len());
    let n = from.segments.len() as int;
    assert(k.segments.take(n) =~= from.segments);
    assert(k.segments.skip(n) =~= suffix);
    if suffix.len() == 0 {
        assert(k.segments =~= from.segments);
        assert(k =~= from);
    }
    lemma_graft(to, suffix);
    assert(to.segments + suffix =~= u.segments) by {
        assert(u.segments.take(to.segments.len() as int) =~= to.segments);
    }
    if let Ok(v) = relocated(k, from.segments.len(), to) {
        assert(v =~= u);
    }
}

/// Nodes put at the targets of the uris at and below `from` give the copy.
proof fn lemma_copied(
    tree: Map<UriView, NodeView>,
    from: UriView,
    to: UriView,
    keys: Seq<UriView>,
    targets: Seq<UriView>,
    after: Map<UriView, NodeView>,
)
    requires
        subtree_order(tree, from, keys),
        targets.len() == keys.len(),
        forall|i: int|
            0 <= i < keys.len() ==> relocated(keys[i], from.segments.len(), to) == Ok::<
                UriView,
                ErrorView,
            >(#[trigger] targets[i]),
        forall|k: UriView| #[trigger]
            after.contains_key(k) <==> tree.contains_key(k) || targets.contains(k),
        forall|k: UriView| #[trigger]
            after.contains_key(k) && !targets.contains(k) ==> after[k] == tree[k],
        forall|i: int| 0 <= i < keys.len() ==> after[#[trigger] targets[i]] == tree[keys[i]],
    ensures
        transferable(tree, from, to),
        after == copied(tree, from, to),
{
    assert forall|k: UriView| #[trigger] tree.contains_key(k) && from.covers(k) implies relocated(
        k,
        from.segments.len(),
        to,
    ) is Ok by {
        assert(keys.contains(k));
        let i = choose|i: int| 0 <= i < keys.len() && keys[i] == k;
        assert(targets[i] == targets[i]);
    }
    assert forall|u: UriView| targets.contains(u) <==> #[trigger] lands(tree, from, to, u) by {
        if targets.contains(u) {
            let i = choose|i: int| 0 <= i < targets.len() && targets[i] == u;
            assert(keys.contains(keys[i]));
            lemma_origin(from, to, keys[i]);
        }
        if lands(tree, from, to, u) {
            let k = origin(from, to, u);
            lemma_origin_covered(from, to, u);
            assert(keys.contains(k));
            let i = choose|i: int| 0 <= i < keys.len() && keys[i] == k;
            assert(targets[i] == u);
        }
    }
    let want = copied(tree, from, to);
    assert forall|u: UriView| #[trigger] after.contains_key(u) implies after[u] == want[u] by {
        if lands(tree, from, to, u) {
            assert(targets.contains(u));
            let i = choose|i: int| 0 <= i < targets.len() && targets[i] == u;
            assert(keys.contains(keys[i]));
            lemma_origin(from, to, keys[i]);
        }
    }
    assert(after =~= want);
}

impl Default for MemProvider {
    fn default() -> (r: MemProvider)
        ensures
            r.wf(),
            r@.tree == Map::<UriView, NodeView>::empty(),
            r@.watchers == Seq::<RegView>::empty(),
            r@.next_watch_id == 0,
    {
        MemProvider::new()
    }
}

impl MemProvider {
    /// The provider is in order: each uri of its tree occurs once.
    pub closed spec fn wf(self) -> bool {
        self.tree.wf()
    }

    pub fn new() -> (r: MemProvider)
        ensures
            r.wf(),
            r@.tree == Map::<UriView, NodeView>::empty(),
            r@.watchers == Seq::<RegView>::empty(),
            r@.next_watch_id == 0,
    {
        let r = MemProvider { tree: Tree::new(), watchers: Vec::new(), next_watch_id: 0 };
        assert(r@.watchers =~= Seq::<RegView>::empty());
        r
    }

    pub fn scheme(&self) -> (r: &str)
        ensures
            r@ == "mem"@,
    {
        "mem"
    }

    pub fn caps(&self) -> (r: ProviderCaps)
        ensures
            r == (ProviderCaps {
                read: true,
                write: true,
                watch: true,
                trash: false,
                copy_within: true,
                case_sensitive: true,
            }),
    {
        ProviderCaps {
            read: true,
            write: true,
            watch: true,
            trash: false,
            copy_within: true,
            case_sensitive: true,
        }
    }

    /// The event, and the watches that hear of it.
    pub fn notify(&self, event: FsEvent) -> (r: Notice)
        ensures
            r@ == self@.notice(event@),
    {
        let mut ids: Vec<u64> = Vec::new();
        let mut i: usize = 0;
        let ghost regs = self@.watchers;
        assert(regs.take(0) =~= Seq::<RegView>::empty());
        while i < self.watchers.len()
            invariant
                i <= self.watchers@.len(),
                regs == reg_views(self.watchers@),
                ids@ == audience(regs.take(i as int), event@.uri),
            decreases self.watchers.len() - i,
        {
            let reg = &self.watchers[i];
            let matches = if reg.recursive {
                reg.root.same(&event.uri) || reg.root.is_ancestor_of(&event.uri)
            } else {
                let below = match event.uri.parent() {
                    Some(p) => p.same(&reg.root),
                    None => false,
                };
                below || reg.root.same(&event.uri)
            };
            proof {
                assert(regs.take(i + 1).drop_last() =~= regs.take(i as int));
                assert(regs.take(i + 1).last() == reg@);
            }
            if matches {
                ids.push(reg.id);
            }
            i += 1;
        }
        assert(regs.take(regs.len() as int) =~= regs);
        Notice { event, watchers: ids }
    }

    pub fn stat(&self, uri: &VfsUri) -> (r: Result<Stat, VfsError>)
        requires
            self.wf(),
        ensures
            stat_view(r) == self@.stat(uri@),
    {
        if uri.is_root() {
            return Ok(
                Stat {
                    file_type: FileType::Directory,
                    size: 0,
                    modified_ms: None,
                    created_ms: None,
                    readonly: false,
                    symlink_target: None,
                },
            );
        }
        match self.tree.get(uri) {
            Some(Node::File { data, modified_ms }) => Ok(
                Stat {
                    file_type: FileType::File,
                    size: data.len() as u64,
                    modified_ms: Some(*modified_ms),
                    created_ms: Some(*modified_ms),
                    readonly: false,
                    symlink_target: None,
                },
            ),
            Some(Node::Dir { modified_ms }) => Ok(
                Stat {
                    file_type: FileType::Directory,
                    size: 0,
                    modified_ms: Some(*modified_ms),
                    created_ms: Some(*modified_ms),
                    readonly: false,
                    symlink_target: None,
                },
            ),
            None => Err(VfsError::NotFound(uri.clone())),
        }
    }

    /// The bytes of a file, or those of a range of it.
    pub fn read(&self, uri: &VfsUri, range: Option<(u64, u64)>, cancelled: bool) -> (r: Result<
        Vec<u8>,
        VfsError,
    >)
        requires
            self.wf(),
        ensures
            bytes_view(r) == self@.read(uri@, range, cancelled),
    {
        if cancelled {
            return Err(VfsError::Cancelled);
        }
        match self.tree.get(uri) {
            Some(Node::File { data, .. }) => {
                let len: usize = data.len();
                let bytes = match range {
                    Some((start, end)) => {
                        let s: usize = start as usize;
                        let e: usize = end as usize;
                        let from: usize = if s <= len {
                            s
                        } else {
                            len
                        };
                        let top: usize = if e <= len {
                            e
                        } else {
                            len
                        };
                        let to: usize = if top <= from {
                            from
                        } else {
                            top
                        };
                        copy_between(data, from, to)
                    },
                    None => copy_between(data, 0, len),
                };
                assert(bytes@ =~= in_range(data@, range));
                Ok(bytes)
            },
            Some(Node::Dir { .. }) => Err(VfsError::IsADirectory(uri.clone())),
            None => Err(VfsError::NotFound(uri.clone())),
        }
    }

    /// The entries of a directory, each once, in no order that is promised.
    pub fn list(&self, uri: &VfsUri, opts: ListOpts) -> (r: Result<Vec<DirEntry>, VfsError>)
        requires
            self.wf(),
        ensures
            match r {
                Err(e) => self@.list_fault(uri@) == Some(e@),
                Ok(entries) => self@.list_fault(uri@) is None && is_listing(
                    self@.tree,
                    uri@,
                    opts.include_hidden,
                    entry_views(entries@),
                ),
            },
    {
        if !uri.is_root() {
            match self.tree.get(uri) {
                Some(Node::Dir { .. }) => {},
                Some(Node::File { .. }) => {
                    return Err(VfsError::NotADirectory(uri.clone()));
                },
                None => {
                    return Err(VfsError::NotFound(uri.clone()));
                },
            }
        }
        let mut entries: Vec<DirEntry> = Vec::new();
        let n: usize = self.tree.len();
        let mut i: usize = 0;
        let ghost tree = self@.tree;
        let ghost order = self.tree.order();
        assert(entry_uris(entry_views(entries@)) =~= Seq::<UriView>::empty());
        while i < n
            invariant
                self.wf(),
                tree == self.tree@,
                order == self.tree.order(),
                n == order.len(),
                i <= n,
                entry_uris(entry_views(entries@)).no_duplicates(),
                forall|k: UriView| #[trigger]
                    entry_uris(entry_views(entries@)).contains(k) <==> order.take(
                        i as int,
                    ).contains(k) && shown(tree, uri@, opts.include_hidden, k),
                forall|j: int|
                    0 <= j < entries@.len() ==> {
                        let e = #[trigger] entry_views(entries@)[j];
                        &&& e == entry_of(e.uri, tree[e.uri], e.mime)
                        &&& e.file_type == FileType::File ==> is_guess(e.name, e.mime)
                    },
            decreases n - i,
        {
            let ghost views = entry_views(entries@);
            let ghost keys = entry_uris(views);
            let (key, node) = self.tree.entry(i);
            i += 1;
            proof {
                self.tree.lemma_order();
                lemma_take_one_more(order, i - 1);
            }
            let here = match key.parent() {
                Some(p) => p.same(uri),
                None => false,
            };
            if !here {
                continue;
            }
            let hidden = match key.name() {
                Some(name) => is_dot_name(name),
                None => false,
            };
            if hidden && !opts.include_hidden {
                continue;
            }
            let mime = match (node, key.name()) {
                (Node::File { .. }, Some(name)) => guess_mime(name),
                _ => None,
            };
            let entry = dir_entry(key, node, mime);
            entries.push(entry);
            proof {
                assert(shown(tree, uri@, opts.include_hidden, key@));
                assert(entry_views(entries@) =~= views.push(entry@));
                assert(entry_uris(entry_views(entries@)) =~= keys.push(key@));
                assert(!keys.contains(key@));
                lemma_push_distinct(keys, key@);
                assert forall|j: int| 0 <= j < entries@.len() implies {
                    let e = #[trigger] entry_views(entries@)[j];
                    &&& e == entry_of(e.uri, tree[e.uri], e.mime)
                    &&& e.file_type == FileType::File ==> is_guess(e.name, e.mime)
                } by {
                    if j < views.len() {
                        assert(entry_views(entries@)[j] == views[j]);
                    }
                }
            }
        }
        proof {
            self.tree.lemma_order();
            assert(order.take(n as int) =~= order);
            assert forall|k: UriView| #[trigger]
                entry_uris(entry_views(entries@)).contains(k) <==> shown(
                    tree,
                    uri@,
                    opts.include_hidden,
                    k,
                ) by {
                assert(order.contains(k) <==> tree.contains_key(k));
            }
        }
        Ok(entries)
    }

    fn parent_missing(&self, uri: &VfsUri) -> (r: Option<VfsUri>)
        requires
            self.wf(),
        ensures
            r is Some == self@.missing_parent(uri@) is Some,
            r matches Some(p) ==> self@.missing_parent(uri@) == Some(p@),
    {
        match uri.parent() {
            Some(p) => if !p.is_root() && !self.tree.has_dir(&p) {
                Some(p)
            } else {
                None
            },
            None => None,
        }
    }

    /// Writes a file.  The bytes were taken in before.
    pub fn write(&mut self, uri: &VfsUri, data: Vec<u8>, opts: WriteOpts, now: u64) -> (r: Result<
        Notice,
        VfsError,
    >)
        requires
            old(self).wf(),
        ensures
            final(self).wf(),
            old(self)@.ends(
                final(self)@,
                notice_view(r),
                old(self)@.write_fault(uri@, opts),
                old(self)@.written(uri@, data@, now),
                event(
                    if old(self)@.tree.contains_key(uri@) {
                        FsEventKind::Modified
                    } else {
                        FsEventKind::Created
                    },
                    uri@,
                ),
            ),
    {
        let ghost before = self@;
        if self.tree.has_dir(uri) {
            return Err(VfsError::IsADirectory(uri.clone()));
        }
        if !opts.overwrite && self.tree.has_file(uri) {
            return Err(VfsError::AlreadyExists(uri.clone()));
        }
        if let Some(parent) = self.parent_missing(uri) {
            if opts.create_parents {
                proof {
                    assert(uri@.segments.drop_last().len() < uri@.segments.len());
                    assert(parent@ != uri@);
                }
                self.tree.insert(parent, Node::Dir { modified_ms: now });
            } else {
                return Err(VfsError::NotFound(parent));
            }
        }
        let existed = self.tree.contains(uri);
        assert(existed == before.tree.contains_key(uri@));
        self.tree.insert(uri.clone(), Node::File { data, modified_ms: now });
        let kind = if existed {
            FsEventKind::Modified
        } else {
            FsEventKind::Created
        };
        Ok(self.notify(FsEvent::of(kind, uri)))
    }

    /// Makes a directory.
    pub fn mkdir(&mut self, uri: &VfsUri, now: u64) -> (r: Result<Notice, VfsError>)
        requires
            old(self).wf(),
        ensures
            final(self).wf(),
            old(self)@.ends(
                final(self)@,
                notice_view(r),
                old(self)@.mkdir_fault(uri@),
                old(self)@.tree.insert(uri@, NodeView::Dir { modified_ms: now }),
                event(FsEventKind::Created, uri@),
            ),
    {
        if self.tree.contains(uri) {
            return Err(VfsError::AlreadyExists(uri.clone()));
        }
        if let Some(parent) = self.parent_missing(uri) {
            return Err(VfsError::NotFound(parent));
        }
        self.tree.insert(uri.clone(), Node::Dir { modified_ms: now });
        Ok(self.notify(FsEvent::of(FsEventKind::Created, uri)))
    }

    /// Deletes a file, or a directory: with `recursive`, also one that is not
    /// empty.
    pub fn delete(&mut self, uri: &VfsUri, opts: DeleteOpts) -> (r: Result<Notice, VfsError>)
        requires
            old(self).wf(),
        ensures
            final(self).wf(),
            old(self)@.ends(
                final(self)@,
                notice_view(r),
                old(self)@.delete_fault(uri@, opts.recursive),
                old(self)@.deleted(uri@),
                event(FsEventKind::Removed, uri@),
            ),
    {
        let ghost before = self@;
        if !self.tree.contains(uri) {
            return Err(VfsError::NotFound(uri.clone()));
        }
        if self.tree.has_dir(uri) {
            let keys = self.tree.subtree(uri);
            let ghost views = uri_views(keys@);
            proof {
                lemma_more_than_one(before.tree, uri@, views);
            }
            if keys.len() > 1 && !opts.recursive {
                return Err(VfsError::DirectoryNotEmpty(uri.clone()));
            }
            let mut i: usize = 0;
            let ghost regs = self.watchers;
            let ghost next = self.next_watch_id;
            while i < keys.len()
                invariant
                    self.wf(),
                    self.watchers == regs,
                    self.next_watch_id == next,
                    i <= keys@.len(),
                    views == uri_views(keys@),
                    forall|k: UriView| #[trigger]
                        self.tree@.contains_key(k) <==> before.tree.contains_key(k) && !views.take(
                            i as int,
                        ).contains(k),
                    forall|k: UriView| #[trigger]
                        self.tree@.contains_key(k) ==> self.tree@[k] == before.tree[k],
                decreases keys.len() - i,
            {
                self.tree.remove(&keys[i]);
                proof {
                    lemma_take_one_more(views, i as int);
                }
                i += 1;
            }
            proof {
                assert(views.take(views.len() as int) =~= views);
                assert(self.tree@ =~= pruned(before.tree, uri@));
            }
        } else {
            self.tree.remove(uri);
        }
        Ok(self.notify(FsEvent::of(FsEventKind::Removed, uri)))
    }

    /// Moves what is at and below `from` to `to`.
    ///
    /// The nodes are moved one after the other, in no order that is promised;
    /// the order shows only where one of the two uris covers the other, or
    /// where a segment cannot be joined.
    pub fn rename(&mut self, from: &VfsUri, to: &VfsUri, overwrite: bool) -> (r: Result<
        Notice,
        VfsError,
    >)
        requires
            old(self).wf(),
        ensures
            final(self).wf(),
            match old(self)@.transfer_fault(from@, to@, overwrite) {
                Some(e) => notice_view(r) == Err::<NoticeView, ErrorView>(e) && final(self)@ == old(
                    self,
                )@,
                None => exists|keys: Seq<UriView>| #[trigger]
                    old(self)@.moves(final(self)@, notice_view(r), from@, to@, keys),
            },
    {
        let ghost before = self@;
        if !self.tree.contains(from) {
            return Err(VfsError::NotFound(from.clone()));
        }
        if self.tree.contains(to) && !overwrite {
            return Err(VfsError::AlreadyExists(to.clone()));
        }
        let keys = self.tree.subtree(from);
        let depth: usize = from.depth();
        let ghost views = uri_views(keys@);
        let ghost regs = self.watchers;
        let ghost next = self.next_watch_id;
        let mut i: usize = 0;
        assert(views.take(0) =~= Seq::<UriView>::empty());
        while i < keys.len()
            invariant
                self.wf(),
                self.watchers == regs,
                self.next_watch_id == next,
                before.watchers == reg_views(regs@),
                before.next_watch_id == next,
                i <= keys@.len(),
                views == uri_views(keys@),
                depth == from@.segments.len(),
                subtree_order(before.tree, from@, views),
                old(self)@ == before,
                before.transfer_fault(from@, to@, overwrite) is None,
                moved_in_order(before.tree, views.take(i as int), depth as nat, to@) == (
                    self.tree@,
                    None::<ErrorView>,
                ),
            decreases keys.len() - i,
        {
            let ghost t = self.tree@;
            let ghost k = views[i as int];
            proof {
                assert(views.take(i + 1).drop_last() =~= views.take(i as int));
                assert(views.take(i + 1).last() == k);
            }
            if let Some(node) = self.tree.remove(&keys[i]) {
                match keys[i].relocate(depth, to) {
                    Err(e) => {
                        proof {
                            lemma_moved_stops(before.tree, views, depth as nat, to@, i + 1);
                            assert(before.moves(
                                self@,
                                Err::<NoticeView, ErrorView>(e@),
                                from@,
                                to@,
                                views,
                            ));
                        }
                        return Err(e);
                    },
                    Ok(new_key) => {
                        self.tree.insert(new_key, node);
                    },
                }
            } else {
                assert(self.tree@ =~= t);
            }
            i += 1;
        }
        assert(views.take(views.len() as int) =~= views);
        let notice = self.notify(FsEvent::renamed(from, to));
        assert(before.moves(
            self@,
            Ok::<NoticeView, ErrorView>(notice@),
            from@,
            to@,
            views,
        ));
        Ok(notice)
    }

    /// Copies what is at and below `from` to `to`.
    pub fn copy_within(&mut self, from: &VfsUri, to: &VfsUri, opts: CopyOpts) -> (r: Result<
        Notice,
        VfsError,
    >)
        requires
            old(self).wf(),
        ensures
            final(self).wf(),
            match old(self)@.transfer_fault(from@, to@, opts.overwrite) {
                Some(e) => notice_view(r) == Err::<NoticeView, ErrorView>(e) && final(self)@ == old(
                    self,
                )@,
                None => if transferable(old(self)@.tree, from@, to@) {
                    old(self)@.ends(
                        final(self)@,
                        notice_view(r),
                        None,
                        copied(old(self)@.tree, from@, to@),
                        event(FsEventKind::Created, to@),
                    )
                } else {
                    &&& final(self)@ == old(self)@
                    &&& r is Err
                    &&& exists|k: UriView| #[trigger]
                        old(self)@.tree.contains_key(k) && from@.covers(k) && relocated(
                            k,
                            from@.segments.len(),
                            to@,
                        ) == Err::<UriView, ErrorView>(r->Err_0@)
                },
            },
    {
        let ghost before = self@;
        if !self.tree.contains(from) {
            return Err(VfsError::NotFound(from.clone()));
        }
        if self.tree.contains(to) && !opts.overwrite {
            return Err(VfsError::AlreadyExists(to.clone()));
        }
        let keys = self.tree.subtree(from);
        let depth: usize = from.depth();
        let ghost views = uri_views(keys@);
        let mut inserts: Vec<(VfsUri, Node)> = Vec::new();
        let mut i: usize = 0;
        while i < keys.len()
            invariant
                self.wf(),
                self@ == before,
                *old(self) == *self,
                i <= keys@.len(),
                views == uri_views(keys@),
                depth == from@.segments.len(),
                subtree_order(before.tree, from@, views),
                before.transfer_fault(from@, to@, opts.overwrite) is None,
                inserts@.len() == i,
                forall|j: int|
                    0 <= j < i ==> {
                        &&& relocated(views[j], depth as nat, to@) == Ok::<UriView, ErrorView>(
                            (#[trigger] inserts@[j]).0@,
                        )
                        &&& inserts@[j].1@ == before.tree[views[j]]
                    },
            decreases keys.len() - i,
        {
            let ghost k = views[i as int];
            assert(views.contains(k));
            assert(before.tree.contains_key(k));
            if let Some(node) = self.tree.get(&keys[i]) {
                match keys[i].relocate(depth, to) {
                    Err(e) => {
                        assert(before.tree.contains_key(k) && from@.covers(k));
                        assert(!transferable(before.tree, from@, to@));
                        return Err(e);
                    },
                    Ok(new_key) => {
                        inserts.push((new_key, node.clone()));
                    },
                }
            }
            i += 1;
        }
        let ghost planned = inserts@;
        let ghost regs = self.watchers;
        let ghost next = self.next_watch_id;
        let ghost targets = planned.map_values(|p: (VfsUri, Node)| p.0@);
        proof {
            assert forall|a: int, b: int|
                0 <= a < planned.len() && 0 <= b < planned.len() && (#[trigger] targets[a])
                    == (#[trigger] targets[b]) implies planned[a].1@ == planned[b].1@ by {
                assert(planned[a].0@ == targets[a] && planned[b].0@ == targets[b]);
                assert(views.contains(views[a]) && views.contains(views[b]));
                lemma_origin(from@, to@, views[a]);
                lemma_origin(from@, to@, views[b]);
            }
        }
        let mut j: usize = 0;
        while j < inserts.len()
            invariant
                self.wf(),
                self.watchers == regs,
                self.next_watch_id == next,
                before.watchers == reg_views(regs@),
                before.next_watch_id == next,
                inserts@ == planned,
                j <= planned.len(),
                targets == planned.map_values(|p: (VfsUri, Node)| p.0@),
                forall|k: UriView| #[trigger]
                    self.tree@.contains_key(k) <==> before.tree.contains_key(k) || targets.take(
                        j as int,
                    ).contains(k),
                forall|k: UriView| #[trigger]
                    self.tree@.contains_key(k) && !targets.take(j as int).contains(k)
                        ==> self.tree@[k] == before.tree[k],
                forall|a: int, b: int|
                    0 <= a < planned.len() && 0 <= b < planned.len() && (#[trigger] targets[a])
                        == (#[trigger] targets[b]) ==> planned[a].1@ == planned[b].1@,
                forall|a: int|
                    0 <= a < j ==> self.tree@[#[trigger] targets[a]] == planned[a].1@,
            decreases planned.len() - j,
        {
            proof {
                lemma_take_one_more(targets, j as int);
            }
            let ghost t = self.tree@;
            self.tree.insert(inserts[j].0.clone(), inserts[j].1.clone());
            proof {
                assert(targets[j as int] == planned[j as int].0@);
                assert forall|a: int| 0 <= a < j + 1 implies self.tree@[#[trigger] targets[a]]
                    == planned[a].1@ by {
                    if targets[a] != targets[j as int] {
                        assert(t[targets[a]] == planned[a].1@);
                    }
                }
            }
            j += 1;
        }
        proof {
            assert(targets.take(targets.len() as int) =~= targets);
            lemma_copied(before.tree, from@, to@, views, targets, self.tree@);
        }
        Ok(self.notify(FsEvent::of(FsEventKind::Created, to)))
    }

    /// Starts a watch and gives its id.
    pub fn watch(&mut self, uri: &VfsUri, recursive: bool) -> (id: u64)
        requires
            old(self).wf(),
        ensures
            final(self).wf(),
            id == old(self)@.next_watch_id,
            final(self)@ == (MemView {
                watchers: old(self)@.watchers.push(RegView { id, root: uri@, recursive }),
                next_watch_id: ((id + 1) % 0x1_0000_0000_0000_0000) as u64,
                ..old(self)@
            }),
    {
        let id: u64 = self.next_watch_id;
        self.next_watch_id = id.wrapping_add(1);
        self.watchers.push(WatchReg { id, root: uri.clone(), recursive });
        assert(self@.watchers =~= old(self)@.watchers.push(RegView { id, root: uri@, recursive }));
        id
    }

    /// Ends a watch.
    pub fn unwatch(&mut self, id: u64)
        requires
            old(self).wf(),
        ensures
            final(self).wf(),
            final(self)@ == (MemView {
                watchers: without(old(self)@.watchers, id),
                ..old(self)@
            }),
    {
        let ghost regs = self@.watchers;
        let ghost tree = self.tree;
        let ghost next = self.next_watch_id;
        let mut kept: Vec<WatchReg> = Vec::new();
        let mut i: usize = 0;
        assert(regs.take(0) =~= Seq::<RegView>::empty());
        assert(reg_views(kept@) =~= Seq::<RegView>::empty());
        while i < self.watchers.len()
            invariant
                i <= self.watchers@.len(),
                regs == reg_views(self.watchers@),
                reg_views(kept@) == without(regs.take(i as int), id),
                self.tree == tree,
                self.next_watch_id == next,
            decreases self.watchers.len() - i,
        {
            let reg = &self.watchers[i];
            proof {
                assert(regs.take(i + 1).drop_last() =~= regs.take(i as int));
                assert(regs.take(i + 1).last() == reg@);
            }
            if reg.id != id {
                let ghost so_far = reg_views(kept@);
                kept.push(
                    WatchReg { id: reg.id, root: reg.root.clone(), recursive: reg.recursive },
                );
                assert(reg_views(kept@) =~= so_far.push(reg@));
            }
            i += 1;
        }
        assert(regs.take(regs.len() as int) =~= regs);
        self.watchers = kept;
    }
}

} // verus!
