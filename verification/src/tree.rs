//! The contents of the in-memory provider: a map from uris to nodes.
use vstd::prelude::*;
use crate::uri::{uri_views, UriView, VfsUri};

verus! {

/// A file or directory in memory.
#[derive(Debug)]
pub enum Node {
    File { data: Vec<u8>, modified_ms: u64 },
    Dir { modified_ms: u64 },
}

pub enum NodeView {
    File { data: Seq<u8>, modified_ms: u64 },
    Dir { modified_ms: u64 },
}

impl View for Node {
    type V = NodeView;

    open spec fn view(&self) -> NodeView {
        match self {
            Node::File { data, modified_ms } => NodeView::File {
                data: data@,
                modified_ms: *modified_ms,
            },
            Node::Dir { modified_ms } => NodeView::Dir { modified_ms: *modified_ms },
        }
    }
}

impl Clone for Node {
    fn clone(&self) -> (r: Node)
        ensures
            r@ == self@,
    {
        match self {
            Node::File { data, modified_ms } => {
                let copy = data.clone();
                assert(copy@ =~= data@);
                Node::File { data: copy, modified_ms: *modified_ms }
            },
            Node::Dir { modified_ms } => Node::Dir { modified_ms: *modified_ms },
        }
    }
}

/// Nodes by uri.  Each uri occurs at most once among the entries.
#[derive(Debug)]
pub struct Tree {
    entries: Vec<(VfsUri, Node)>,
}

spec fn keyed(entries: Seq<(VfsUri, Node)>, k: UriView) -> bool {
    exists|i: int| 0 <= i < entries.len() && (#[trigger] entries[i]).0@ == k
}

spec fn place(entries: Seq<(VfsUri, Node)>, k: UriView) -> int {
    choose|i: int| 0 <= i < entries.len() && (#[trigger] entries[i]).0@ == k
}

spec fn contents(entries: Seq<(VfsUri, Node)>) -> Map<UriView, NodeView> {
    Map::new(|k: UriView| keyed(entries, k), |k: UriView| entries[place(entries, k)].1@)
}

spec fn distinct(entries: Seq<(VfsUri, Node)>) -> bool {
    forall|i: int, j: int|
        0 <= i < entries.len() && 0 <= j < entries.len() && i != j ==> (#[trigger] entries[i]).0@
            != (#[trigger] entries[j]).0@
}

proof fn lemma_at(entries: Seq<(VfsUri, Node)>, i: int)
    requires
        distinct(entries),
        0 <= i < entries.len(),
    ensures
        keyed(entries, entries[i].0@),
        place(entries, entries[i].0@) == i,
        contents(entries)[entries[i].0@] == entries[i].1@,
{
    let k = entries[i].0@;
    assert(keyed(entries, k));
    let p = place(entries, k);
    assert(entries[p].0@ == k);
}

impl View for Tree {
    type V = Map<UriView, NodeView>;

    closed spec fn view(&self) -> Map<UriView, NodeView> {
        contents(self.entries@)
    }
}

impl Tree {
    /// Each uri occurs at most once.
    pub closed spec fn wf(self) -> bool {
        distinct(self.entries@)
    }

    /// The uris that the tree holds, in the order in which they are walked.
    pub closed spec fn order(self) -> Seq<UriView> {
        self.entries@.map_values(|e: (VfsUri, Node)| e.0@)
    }

    /// The order lists each uri of the tree once.
    pub proof fn lemma_order(self)
        requires
            self.wf(),
        ensures
            self.order().no_duplicates(),
            forall|k: UriView| self.order().contains(k) <==> #[trigger] self@.contains_key(k),
    {
        let o = self.order();
        assert forall|k: UriView| o.contains(k) <==> #[trigger] self@.contains_key(k) by {
            if o.contains(k) {
                let i = choose|i: int| 0 <= i < o.len() && o[i] == k;
                assert(self.entries@[i].0@ == k);
            }
            if self@.contains_key(k) {
                let i = place(self.entries@, k);
                assert(o[i] == k);
            }
        }
    }

    pub fn new() -> (r: Tree)
        ensures
            r.wf(),
            r@ == Map::<UriView, NodeView>::empty(),
    {
        let r = Tree { entries: Vec::new() };
        assert(r@ =~= Map::<UriView, NodeView>::empty());
        r
    }

    fn find(&self, uri: &VfsUri) -> (r: Option<usize>)
        ensures
            match r {
                Some(i) => i < self.entries@.len() && self.entries@[i as int].0@ == uri@,
                None => !keyed(self.entries@, uri@),
            },
    {
        let mut i: usize = 0;
        while i < self.entries.len()
            invariant
                i <= self.entries@.len(),
                forall|j: int| 0 <= j < i ==> (#[trigger] self.entries@[j]).0@ != uri@,
            decreases self.entries.len() - i,
        {
            if self.entries[i].0.same(uri) {
                return Some(i);
            }
            i += 1;
        }
        None
    }

    pub fn get(&self, uri: &VfsUri) -> (r: Option<&Node>)
        requires
            self.wf(),
        ensures
            r is Some == self@.contains_key(uri@),
            r matches Some(n) ==> n@ == self@[uri@],
    {
        match self.find(uri) {
            Some(i) => {
                proof {
                    lemma_at(self.entries@, i as int);
                }
                Some(&self.entries[i].1)
            },
            None => None,
        }
    }

    pub fn contains(&self, uri: &VfsUri) -> (r: bool)
        requires
            self.wf(),
        ensures
            r == self@.contains_key(uri@),
    {
        self.get(uri).is_some()
    }

    /// Whether a directory stands at the uri.
    pub fn has_dir(&self, uri: &VfsUri) -> (r: bool)
        requires
            self.wf(),
        ensures
            r == (self@.contains_key(uri@) && self@[uri@] is Dir),
    {
        match self.get(uri) {
            Some(Node::Dir { .. }) => true,
            _ => false,
        }
    }

    /// Whether a file stands at the uri.
    pub fn has_file(&self, uri: &VfsUri) -> (r: bool)
        requires
            self.wf(),
        ensures
            r == (self@.contains_key(uri@) && self@[uri@] is File),
    {
        match self.get(uri) {
            Some(Node::File { .. }) => true,
            _ => false,
        }
    }

    pub fn remove(&mut self, uri: &VfsUri) -> (r: Option<Node>)
        requires
            old(self).wf(),
        ensures
            final(self).wf(),
            final(self)@ == old(self)@.remove(uri@),
            r is Some == old(self)@.contains_key(uri@),
            r matches Some(n) ==> n@ == old(self)@[uri@],
    {
        match self.find(uri) {
            None => {
                assert(self@.remove(uri@) =~= self@);
                None
            },
            Some(i) => {
                let ghost before = self.entries@;
                let (_, node) = self.entries.remove(i);
                proof {
                    let after = self.entries@;
                    lemma_at(before, i as int);
                    assert forall|a: int, b: int|
                        0 <= a < after.len() && 0 <= b < after.len() && a != b implies (
                    #[trigger] after[a]).0@ != (#[trigger] after[b]).0@ by {
                        let x = if a < i { a } else { a + 1 };
                        let y = if b < i { b } else { b + 1 };
                        assert(after[a] == before[x] && after[b] == before[y]);
                    }
                    assert forall|k: UriView|
                        keyed(after, k) == (keyed(before, k) && k != uri@) by {
                        if keyed(after, k) {
                            let a = place(after, k);
                            let x = if a < i { a } else { a + 1 };
                            assert(after[a] == before[x]);
                            assert(before[x].0@ == k);
                        }
                        if keyed(before, k) && k != uri@ {
                            let x = place(before, k);
                            assert(before[x].0@ == k);
                            let a = if x < i { x } else { x - 1 };
                            assert(after[a] == before[x]);
                        }
                    }
                    assert forall|k: UriView| keyed(after, k) implies contents(after)[k]
                        == contents(before)[k] by {
                        let a = place(after, k);
                        assert(after[a].0@ == k);
                        let x = if a < i { a } else { a + 1 };
                        assert(after[a] == before[x]);
                        lemma_at(before, x);
                    }
                    assert(contents(after) =~= contents(before).remove(uri@));
                }
                Some(node)
            },
        }
    }

    pub fn insert(&mut self, uri: VfsUri, node: Node)
        requires
            old(self).wf(),
        ensures
            final(self).wf(),
            final(self)@ == old(self)@.insert(uri@, node@),
    {
        let ghost start = self@;
        self.remove(&uri);
        let ghost before = self.entries@;
        let ghost key = uri@;
        let ghost value = node@;
        self.entries.push((uri, node));
        proof {
            let after = self.entries@;
            let n = before.len() as int;
            assert(!keyed(before, key)) by {
                assert(!contents(before).contains_key(key));
            }
            assert forall|a: int, b: int|
                0 <= a < after.len() && 0 <= b < after.len() && a != b implies (
            #[trigger] after[a]).0@ != (#[trigger] after[b]).0@ by {
                if a == n {
                    assert(after[b] == before[b]);
                } else if b == n {
                    assert(after[a] == before[a]);
                } else {
                    assert(after[a] == before[a] && after[b] == before[b]);
                }
            }
            assert(after[n].0@ == key);
            lemma_at(after, n);
            assert forall|k: UriView| keyed(after, k) == (keyed(before, k) || k == key) by {
                if keyed(after, k) && k != key {
                    let a = place(after, k);
                    assert(after[a].0@ == k);
                    assert(before[a].0@ == k);
                }
                if keyed(before, k) {
                    let x = place(before, k);
                    assert(before[x].0@ == k);
                    assert(after[x].0@ == k);
                }
            }
            assert forall|k: UriView| keyed(before, k) implies contents(after)[k] == contents(
                before,
            )[k] by {
                let x = place(before, k);
                assert(before[x].0@ == k);
                assert(after[x] == before[x]);
                lemma_at(after, x);
            }
            assert(after[n].1@ == value);
            assert forall|k: UriView| #[trigger] contents(after).contains_key(k)
                == start.insert(key, value).contains_key(k) by {
                assert(contents(before).contains_key(k) == (start.contains_key(k) && k != key));
                assert(contents(before).contains_key(k) == keyed(before, k));
            }
            assert forall|k: UriView| contents(after).contains_key(k) implies #[trigger] contents(
                after,
            )[k] == start.insert(key, value)[k] by {
                if k != key {
                    assert(keyed(before, k));
                    assert(contents(before)[k] == start[k]);
                }
            }
            assert(contents(after) =~= start.insert(key, value));
        }
    }

    pub fn len(&self) -> (r: usize)
        ensures
            r == self.order().len(),
    {
        self.entries.len()
    }

    /// The `i`th entry in the order of the tree.
    pub fn entry(&self, i: usize) -> (r: (&VfsUri, &Node))
        requires
            self.wf(),
            i < self.order().len(),
        ensures
            r.0@ == self.order()[i as int],
            self@.contains_key(r.0@),
            r.1@ == self@[r.0@],
    {
        proof {
            lemma_at(self.entries@, i as int);
        }
        (&self.entries[i].0, &self.entries[i].1)
    }

    /// The uris at and below `root`, in the order of the tree.
    pub fn subtree(&self, root: &VfsUri) -> (r: Vec<VfsUri>)
        requires
            self.wf(),
        ensures
            subtree_order(self@, root@, uri_views(r@)),
    {
        let mut out: Vec<VfsUri> = Vec::new();
        let mut i: usize = 0;
        let ghost order = self.order();
        while i < self.entries.len()
            invariant
                self.wf(),
                i <= self.entries@.len(),
                order == self.order(),
                order.len() == self.entries@.len(),
                uri_views(out@).no_duplicates(),
                forall|k: UriView| #[trigger]
                    uri_views(out@).contains(k) <==> order.take(i as int).contains(k)
                        && root@.covers(k),
            decreases self.entries.len() - i,
        {
            let ghost before = uri_views(out@);
            let key = &self.entries[i].0;
            let ghost k0 = key@;
            assert(order[i as int] == k0);
            proof {
                self.lemma_order();
                assert(!order.take(i as int).contains(k0)) by {
                    if order.take(i as int).contains(k0) {
                        let j = choose|j: int| 0 <= j < i && order.take(i as int)[j] == k0;
                        assert(order[j] == order[i as int]);
                    }
                }
                assert(order.take(i + 1) =~= order.take(i as int).push(k0));
            }
            if root.same(key) || root.is_ancestor_of(key) {
                out.push(key.clone());
                assert(uri_views(out@) =~= before.push(k0));
                proof {
                    lemma_push_contains(before, k0);
                    assert(!before.contains(k0));
                    let now = uri_views(out@);
                    assert forall|a: int, b: int|
                        0 <= a < now.len() && 0 <= b < now.len() && a != b implies #[trigger] now[a]
                        != #[trigger] now[b] by {
                        let n = before.len() as int;
                        if a == n {
                            assert(now[b] == before[b]);
                            assert(before.contains(now[b]));
                        } else if b == n {
                            assert(now[a] == before[a]);
                            assert(before.contains(now[a]));
                        } else {
                            assert(now[a] == before[a] && now[b] == before[b]);
                        }
                    }
                }
            }
            proof {
                lemma_push_contains(order.take(i as int), k0);
            }
            i += 1;
        }
        proof {
            self.lemma_order();
            assert(order.take(order.len() as int) =~= order);
            assert forall|k: UriView| #[trigger]
                uri_views(out@).contains(k) <==> self@.contains_key(k) && root@.covers(k) by {
                assert(order.contains(k) <==> self@.contains_key(k));
            }
        }
        out
    }
}

proof fn lemma_push_contains(s: Seq<UriView>, x: UriView)
    ensures
        forall|k: UriView| #[trigger] s.push(x).contains(k) <==> s.contains(k) || k == x,
{
    let t = s.push(x);
    assert forall|k: UriView| #[trigger] t.contains(k) <==> s.contains(k) || k == x by {
        if t.contains(k) {
            let i = choose|i: int| 0 <= i < t.len() && t[i] == k;
            if i < s.len() {
                assert(s[i] == k);
            }
        }
        if s.contains(k) {
            let i = choose|i: int| 0 <= i < s.len() && s[i] == k;
            assert(t[i] == k);
        }
        assert(t[s.len() as int] == x);
    }
}

/// `keys` lists each uri of the tree at and below `root` once, in some order.
pub open spec fn subtree_order(
    tree: Map<UriView, NodeView>,
    root: UriView,
    keys: Seq<UriView>,
) -> bool {
    &&& keys.no_duplicates()
    &&& forall|k: UriView| #[trigger]
        keys.contains(k) <==> tree.contains_key(k) && root.covers(k)
}

} // verus!
