//! What holds of the in-memory provider as a whole.
use vstd::prelude::*;
use crate::error::ErrorView;
use crate::mem::{
    audience, copied, has_below, hears, in_range, lands, lemma_origin, lemma_origin_covered,
    min_int, moved, moved_in_order, node_stat, origin, shown, transferable, without, MemView,
    NoticeView, RegView,
};
use crate::tree::NodeView;
use crate::types::{renamed, FileType, StatView, WriteOpts};
use crate::uri::{relocated, UriView};

verus! {

/// A read gives back what a write wrote: all of it, and by range.
pub proof fn law_read_after_write(
    m: MemView,
    uri: UriView,
    data: Seq<u8>,
    opts: WriteOpts,
    now: u64,
    range: Option<(u64, u64)>,
)
    requires
        m.write_fault(uri, opts) is None,
    ensures
        ({
            let after = MemView { tree: m.written(uri, data, now), ..m };
            &&& after.read(uri, None, false) == Ok::<Seq<u8>, ErrorView>(data)
            &&& after.read(uri, range, false) == Ok::<Seq<u8>, ErrorView>(in_range(data, range))
            &&& !uri.is_root() ==> after.stat(uri) == Ok::<StatView, ErrorView>(
                node_stat(NodeView::File { data, modified_ms: now }),
            )
        }),
{
}

/// A written file is shown in the listing of its directory, which is there.
pub proof fn law_written_file_is_listed(
    m: MemView,
    uri: UriView,
    data: Seq<u8>,
    opts: WriteOpts,
    now: u64,
)
    requires
        m.write_fault(uri, opts) is None,
        !uri.is_root(),
    ensures
        ({
            let after = MemView { tree: m.written(uri, data, now), ..m };
            let dir = uri.parent()->0;
            &&& after.list_fault(dir) is None
            &&& shown(after.tree, dir, true, uri)
        }),
{
    assert(uri.segments.drop_last().len() < uri.segments.len());
}

/// A write changes no other uri, but for the directory that it had to make.
pub proof fn law_write_changes_one_uri(
    m: MemView,
    uri: UriView,
    data: Seq<u8>,
    now: u64,
    other: UriView,
)
    requires
        other != uri,
        m.missing_parent(uri) != Some(other),
    ensures
        m.written(uri, data, now).contains_key(other) == m.tree.contains_key(other),
        m.tree.contains_key(other) ==> m.written(uri, data, now)[other] == m.tree[other],
{
}

/// A directory that was made is there, can be listed, and is shown in the
/// listing of the directory that holds it.
pub proof fn law_made_directory_is_there(m: MemView, uri: UriView, now: u64)
    requires
        m.mkdir_fault(uri) is None,
        !uri.is_root(),
    ensures
        ({
            let after = MemView {
                tree: m.tree.insert(uri, NodeView::Dir { modified_ms: now }),
                ..m
            };
            &&& after.stat(uri) is Ok
            &&& after.stat(uri)->Ok_0.file_type == FileType::Directory
            &&& after.list_fault(uri) is None
            &&& after.mkdir_fault(uri) == Some(ErrorView::AlreadyExists(uri))
            &&& shown(after.tree, uri.parent()->0, true, uri)
        }),
{
}

/// What was deleted is no longer there, nor is anything below a directory; the
/// rest stays as it was.
pub proof fn law_deleted_is_gone(m: MemView, uri: UriView, other: UriView)
    requires
        m.tree.contains_key(uri),
    ensures
        ({
            let after = MemView { tree: m.deleted(uri), ..m };
            &&& !uri.is_root() ==> after.stat(uri) == Err::<StatView, ErrorView>(ErrorView::NotFound(uri))
            &&& after.delete_fault(uri, true) == Some(ErrorView::NotFound(uri))
            &&& m.is_dir(uri) ==> !has_below(after.tree, uri)
            &&& !uri.covers(other) ==> after.tree.contains_key(other) == m.tree.contains_key(other)
            &&& !uri.covers(other) && m.tree.contains_key(other) ==> after.tree[other]
                == m.tree[other]
        }),
{
}

/// A copy leaves everything outside the target as it was, and puts each node
/// at and below the source at the same place below the target.
pub proof fn law_copy_keeps_the_source(
    tree: Map<UriView, NodeView>,
    from: UriView,
    to: UriView,
    k: UriView,
)
    requires
        tree.contains_key(k),
    ensures
        !to.covers(k) ==> copied(tree, from, to).contains_key(k) && copied(tree, from, to)[k]
            == tree[k],
        from.covers(k) ==> match relocated(k, from.segments.len(), to) {
            Ok(u) => copied(tree, from, to).contains_key(u) && copied(tree, from, to)[u] == tree[k],
            Err(_) => true,
        },
{
    if from.covers(k) {
        lemma_origin(from, to, k);
        if let Ok(u) = relocated(k, from.segments.len(), to) {
            assert(lands(tree, from, to, u));
        }
    }
}

spec fn moved_part(tree: Map<UriView, NodeView>, from: UriView, to: UriView, keys: Seq<UriView>) -> Map<
    UriView,
    NodeView,
> {
    Map::new(
        |k: UriView|
            (tree.contains_key(k) && !keys.contains(k)) || (to.covers(k) && keys.contains(
                origin(from, to, k),
            )),
        |k: UriView|
            if to.covers(k) && keys.contains(origin(from, to, k)) {
                tree[origin(from, to, k)]
            } else {
                tree[k]
            },
    )
}

/// Two uris that cover a third cover one another.
proof fn lemma_covers_meet(a: UriView, b: UriView, k: UriView)
    requires
        a.covers(k),
        b.covers(k),
    ensures
        a.covers(b) || b.covers(a),
{
    let m = a.segments.len() as int;
    let n = b.segments.len() as int;
    assert(k.segments.take(m) =~= a.segments);
    assert(k.segments.take(n) =~= b.segments);
    if m < n {
        assert(b.segments.take(m) =~= k.segments.take(m));
    } else if n < m {
        assert(a.segments.take(n) =~= k.segments.take(n));
    } else {
        assert(a =~= b);
    }
}

proof fn lemma_moved_part(
    tree: Map<UriView, NodeView>,
    from: UriView,
    to: UriView,
    keys: Seq<UriView>,
)
    requires
        !from.covers(to),
        !to.covers(from),
        transferable(tree, from, to),
        keys.no_duplicates(),
        forall|i: int|
            0 <= i < keys.len() ==> tree.contains_key(#[trigger] keys[i]) && from.covers(keys[i]),
    ensures
        moved_in_order(tree, keys, from.segments.len(), to) == (
            moved_part(tree, from, to, keys),
            None::<ErrorView>,
        ),
    decreases keys.len(),
{
    if keys.len() == 0 {
        assert(moved_part(tree, from, to, keys) =~= tree);
    } else {
        let prev = keys.drop_last();
        let k = keys.last();
        assert(k == keys[keys.len() - 1]);
        assert forall|i: int| 0 <= i < prev.len() implies tree.contains_key(#[trigger] prev[i])
            && from.covers(prev[i]) by {
            assert(prev[i] == keys[i]);
        }
        lemma_moved_part(tree, from, to, prev);
        let t = moved_part(tree, from, to, prev);
        assert(!prev.contains(k)) by {
            if prev.contains(k) {
                let i = choose|i: int| 0 <= i < prev.len() && prev[i] == k;
                assert(keys[i] == keys[keys.len() - 1]);
            }
        }
        if to.covers(k) {
            lemma_covers_meet(from, to, k);
        }
        assert(t.contains_key(k) && t[k] == tree[k]);
        assert(tree.contains_key(k));
        let u = relocated(k, from.segments.len(), to)->Ok_0;
        lemma_origin(from, to, k);
        assert forall|x: UriView| keys.contains(x) <==> prev.contains(x) || x == k by {
            if keys.contains(x) {
                let i = choose|i: int| 0 <= i < keys.len() && keys[i] == x;
                if i < prev.len() {
                    assert(prev[i] == x);
                }
            }
            if prev.contains(x) {
                let i = choose|i: int| 0 <= i < prev.len() && prev[i] == x;
                assert(keys[i] == x);
            }
            assert(keys[keys.len() - 1] == k);
        }
        let want = moved_part(tree, from, to, keys);
        let got = t.remove(k).insert(u, t[k]);
        assert forall|x: UriView| to.covers(x) && origin(from, to, x) == k implies x == u by {
            lemma_origin_covered(from, to, x);
        }
        assert(u != k);
        assert(!from.covers(u)) by {
            if from.covers(u) {
                lemma_covers_meet(from, to, u);
            }
        }
        assert forall|x: UriView| #[trigger] got.contains_key(x) == want.contains_key(x) by {}
        assert forall|x: UriView| #[trigger] got.contains_key(x) implies got[x] == want[x] by {}
        assert(got =~= want);
    }
}

/// Between two uris of which neither covers the other, a rename that is not
/// refused puts each node at and below `from` at the same place below `to`,
/// in whatever order the nodes are walked, and tells of it.
pub proof fn law_rename_moves_the_tree(
    m: MemView,
    after: MemView,
    r: Result<NoticeView, ErrorView>,
    from: UriView,
    to: UriView,
    keys: Seq<UriView>,
)
    requires
        !from.covers(to),
        !to.covers(from),
        transferable(m.tree, from, to),
        m.moves(after, r, from, to, keys),
    ensures
        r == Ok::<NoticeView, ErrorView>(m.notice(renamed(from, to))),
        after == (MemView { tree: moved(m.tree, from, to), ..m }),
{
    let tree = m.tree;
    assert forall|i: int| 0 <= i < keys.len() implies tree.contains_key(#[trigger] keys[i])
        && from.covers(keys[i]) by {
        assert(keys.contains(keys[i]));
    }
    lemma_moved_part(tree, from, to, keys);
    let part = moved_part(tree, from, to, keys);
    let want = moved(tree, from, to);
    assert forall|k: UriView| to.covers(k) implies keys.contains(origin(from, to, k)) == lands(
        tree,
        from,
        to,
        k,
    ) && !from.covers(k) by {
        lemma_origin_covered(from, to, k);
        if from.covers(k) {
            lemma_covers_meet(from, to, k);
        }
    }
    assert forall|k: UriView| #[trigger] part.contains_key(k) == want.contains_key(k) by {
        assert(copied(tree, from, to).contains_key(k) == (tree.contains_key(k) || lands(
            tree,
            from,
            to,
            k,
        )));
        assert(keys.contains(k) == (tree.contains_key(k) && from.covers(k)));
    }
    assert(part =~= want);
}

/// A rename between uris of which neither covers the other takes the source
/// away.
pub proof fn law_rename_leaves_nothing_behind(
    tree: Map<UriView, NodeView>,
    from: UriView,
    to: UriView,
    k: UriView,
)
    requires
        from.covers(k),
    ensures
        !moved(tree, from, to).contains_key(k),
{
}

/// A new watch hears of every change at its uri, and with `recursive` of every
/// change below it.
pub proof fn law_watch_hears(regs: Seq<RegView>, reg: RegView, uri: UriView)
    ensures
        hears(reg, uri) ==> audience(regs.push(reg), uri) == audience(regs, uri).push(reg.id),
        !hears(reg, uri) ==> audience(regs.push(reg), uri) == audience(regs, uri),
        hears(reg, reg.root),
        reg.recursive && reg.root.is_ancestor_of(uri) ==> hears(reg, uri),
{
    assert(regs.push(reg).drop_last() =~= regs);
}

/// A watch that has ended hears of nothing.
pub proof fn law_ended_watch_is_silent(regs: Seq<RegView>, id: u64, uri: UriView)
    ensures
        !audience(without(regs, id), uri).contains(id),
    decreases regs.len(),
{
    if regs.len() > 0 {
        let prev = without(regs.drop_last(), id);
        law_ended_watch_is_silent(regs.drop_last(), id, uri);
        if regs.last().id != id {
            assert(without(regs, id).drop_last() =~= prev);
            let a = audience(prev, uri);
            let b = audience(without(regs, id), uri);
            if b.contains(id) {
                let i = choose|i: int| 0 <= i < b.len() && b[i] == id;
                assert(i < a.len());
                assert(a[i] == id);
            }
        }
    }
}

/// Two ranges that meet read what the range over both reads.
pub proof fn law_ranges_join(data: Seq<u8>, a: u64, b: u64, c: u64)
    requires
        a <= b <= c <= usize::MAX,
    ensures
        in_range(data, Some((a, b))) + in_range(data, Some((b, c))) == in_range(
            data,
            Some((a, c)),
        ),
{
    let n = data.len() as int;
    let x = min_int(a as int, n);
    let y = min_int(b as int, n);
    let z = min_int(c as int, n);
    assert(a as usize as int == a as int && b as usize as int == b as int && c as usize as int
        == c as int);
    assert(data.subrange(x, y) + data.subrange(y, z) =~= data.subrange(x, z));
    assert(in_range(data, Some((a, b))) =~= data.subrange(x, y));
    assert(in_range(data, Some((b, c))) =~= data.subrange(y, z));
    assert(in_range(data, Some((a, c))) =~= data.subrange(x, z));
}

} // verus!
