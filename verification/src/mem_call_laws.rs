//! What the operations of the in-memory provider give and change, in terms of
//! the files and directories that it holds.
use vstd::prelude::*;
use crate::error::{ErrorView, VfsError};
use crate::mem::{
    audience, dir_entry, has_below, in_range, notice_view, without, MemProvider, Notice, RegView,
};
use crate::mime::guessed_mime;
use crate::tree::{Node, NodeView};
use crate::types::{
    entry_uris, entry_views, opt_text, CopyOpts, DeleteOpts, DirEntry, EventView, FileType, FsEvent,
    FsEventKind, ListOpts, ProviderCaps, Stat, WriteOpts,
};
use crate::uri::{relocated, UriView, VfsUri};

verus! {

/// The uri one segment above; that of a top directory is itself.
pub open spec fn above(uri: UriView) -> UriView {
    UriView { segments: uri.segments.drop_last(), ..uri }
}

/// The uri is at `root`, or its segments begin with those of `root`.
pub open spec fn at_or_below(root: UriView, uri: UriView) -> bool {
    &&& root.scheme == uri.scheme
    &&& root.authority == uri.authority
    &&& root.segments.len() <= uri.segments.len()
    &&& uri.segments.take(root.segments.len() as int) == root.segments
}

proof fn lemma_at_or_below(root: UriView, uri: UriView)
    ensures
        root.covers(uri) == at_or_below(root, uri),
{
    if root.segments.len() == uri.segments.len() {
        assert(uri.segments.take(root.segments.len() as int) =~= uri.segments);
        if at_or_below(root, uri) {
            assert(root =~= uri);
        }
    }
}

/// Something that is no directory lies where the uri's directory should be, or
/// nothing does.  A top directory is always there.
pub open spec fn lacks_directory(tree: Map<UriView, NodeView>, uri: UriView) -> bool {
    uri.segments.len() > 1 && !(tree.contains_key(above(uri)) && tree[above(uri)] is Dir)
}

/// A look-up tells what is there: of a file its size and the time at which it
/// was written, of a directory the time at which it was made, and of a top
/// directory only that it is one.  What is not there is not found.
pub proof fn law_stat_tells_what_is_there(m: &MemProvider, uri: &VfsUri, r: Result<Stat, VfsError>)
    requires
        call_ensures(MemProvider::stat, (m, uri), r),
    ensures
        ({
            let top = uri@.segments.len() == 0;
            let here = m@.tree.contains_key(uri@);
            &&& r is Ok <==> top || here
            &&& r matches Err(e) ==> e@ == ErrorView::NotFound(uri@)
            &&& r matches Ok(st) ==> {
                &&& !st.readonly
                &&& st.symlink_target is None
                &&& top ==> st.file_type == FileType::Directory && st.size == 0
                    && st.modified_ms is None && st.created_ms is None
                &&& !top ==> match m@.tree[uri@] {
                    NodeView::File { data, modified_ms } => {
                        &&& st.file_type == FileType::File
                        &&& st.size == data.len() as u64
                        &&& st.modified_ms == Some(modified_ms)
                        &&& st.created_ms == Some(modified_ms)
                    },
                    NodeView::Dir { modified_ms } => {
                        &&& st.file_type == FileType::Directory
                        &&& st.size == 0
                        &&& st.modified_ms == Some(modified_ms)
                        &&& st.created_ms == Some(modified_ms)
                    },
                }
            }
        }),
{
    assert(r matches Ok(st) ==> st@.symlink_target == opt_text(st.symlink_target));
}

/// A listing agrees with a look-up: the type, size and time of every entry are
/// those that a look-up of its uri gives.
pub proof fn law_listing_agrees_with_stat(
    m: &MemProvider,
    dir: &VfsUri,
    opts: ListOpts,
    entries: Vec<DirEntry>,
    i: int,
    found: Result<Stat, VfsError>,
)
    requires
        call_ensures(MemProvider::list, (m, dir, opts), Ok::<Vec<DirEntry>, VfsError>(entries)),
        0 <= i < entries@.len(),
        call_ensures(MemProvider::stat, (m, &entries@[i].uri), found),
    ensures
        found is Ok,
        entries@[i].file_type == found->Ok_0.file_type,
        entries@[i].size == found->Ok_0.size,
        entries@[i].modified_ms == found->Ok_0.modified_ms,
        entries@[i].modified_ms is Some,
{
    let e = entry_views(entries@)[i];
    assert(e == entries@[i]@);
    assert(entry_uris(entry_views(entries@))[i] == e.uri);
    assert(entry_uris(entry_views(entries@)).contains(e.uri));
}

/// A listing shows what lies in the directory, each once: all of it where
/// hidden entries are asked for, and else what has a name without a dot at its
/// start.
pub proof fn law_listing_shows_the_directory(
    m: &MemProvider,
    dir: &VfsUri,
    opts: ListOpts,
    entries: Vec<DirEntry>,
    k: UriView,
)
    requires
        call_ensures(MemProvider::list, (m, dir, opts), Ok::<Vec<DirEntry>, VfsError>(entries)),
    ensures
        (exists|i: int| 0 <= i < entries@.len() && (#[trigger] entries@[i]).uri@ == k) <==> {
            &&& m@.tree.contains_key(k)
            &&& k.segments.len() > 0
            &&& above(k) == dir@
            &&& opts.include_hidden || k.segments.last().len() == 0 || k.segments.last()[0] != '.'
        },
        forall|i: int, j: int|
            0 <= i < j < entries@.len() ==> (#[trigger] entries@[i]).uri@ != (
            #[trigger] entries@[j]).uri@,
{
    let views = entry_views(entries@);
    let uris = entry_uris(views);
    assert forall|i: int| 0 <= i < entries@.len() implies uris[i] == (#[trigger] entries@[i]).uri@ by {
        assert(views[i] == entries@[i]@);
    }
    if exists|i: int| 0 <= i < entries@.len() && (#[trigger] entries@[i]).uri@ == k {
        let i = choose|i: int| 0 <= i < entries@.len() && (#[trigger] entries@[i]).uri@ == k;
        assert(uris[i] == k);
        assert(uris.contains(k));
    }
    if uris.contains(k) {
        let i = choose|i: int| 0 <= i < uris.len() && uris[i] == k;
        assert(entries@[i].uri@ == k);
    }
    assert forall|i: int, j: int| 0 <= i < j < entries@.len() implies (#[trigger] entries@[i]).uri@
        != (#[trigger] entries@[j]).uri@ by {
        assert(uris[i] != uris[j]);
    }
}

/// An entry has the name of its uri, is hidden where that begins with a dot,
/// and tells of the node that is there; a file has the media type guessed for
/// its name, a directory none.
pub proof fn law_entry_tells_of_its_node(
    m: &MemProvider,
    dir: &VfsUri,
    opts: ListOpts,
    entries: Vec<DirEntry>,
    i: int,
)
    requires
        call_ensures(MemProvider::list, (m, dir, opts), Ok::<Vec<DirEntry>, VfsError>(entries)),
        0 <= i < entries@.len(),
    ensures
        ({
            let e = entries@[i];
            let name = e.uri@.segments.last();
            &&& e.name@ == name
            &&& e.hidden == (name.len() > 0 && name[0] == '.')
            &&& match m@.tree[e.uri@] {
                NodeView::File { data, modified_ms } => {
                    &&& e.file_type == FileType::File
                    &&& e.size == data.len() as u64
                    &&& e.modified_ms == Some(modified_ms)
                    &&& !name.contains('\\') && !name.contains(':') ==> opt_text(e.mime)
                        == guessed_mime(name)
                },
                NodeView::Dir { modified_ms } => {
                    &&& e.file_type == FileType::Directory
                    &&& e.size == 0
                    &&& e.modified_ms == Some(modified_ms)
                    &&& e.mime is None
                },
            }
        }),
{
    let views = entry_views(entries@);
    let e = views[i];
    assert(e == entries@[i]@);
    assert(entry_uris(views)[i] == e.uri);
    assert(entry_uris(views).contains(e.uri));
    assert(e.mime == opt_text(entries@[i].mime));
}

/// The same of the entry of a single node.
pub proof fn law_entry_of_a_node(uri: &VfsUri, node: &Node, mime: Option<String>, r: DirEntry)
    requires
        call_ensures(dir_entry, (uri, node, mime), r),
    ensures
        r.uri@ == uri@,
        uri@.segments.len() > 0 ==> r.name@ == uri@.segments.last(),
        uri@.segments.len() == 0 ==> r.name@.len() == 0,
        r.hidden == (r.name@.len() > 0 && r.name@[0] == '.'),
        match node@ {
            NodeView::File { data, modified_ms } => {
                &&& r.file_type == FileType::File
                &&& r.size == data.len() as u64
                &&& r.modified_ms == Some(modified_ms)
                &&& opt_text(r.mime) == opt_text(mime)
            },
            NodeView::Dir { modified_ms } => {
                &&& r.file_type == FileType::Directory
                &&& r.size == 0
                &&& r.modified_ms == Some(modified_ms)
                &&& r.mime is None
            },
        },
{
    assert(r@.mime == opt_text(r.mime));
}

/// Only a directory is listed, and a top directory always is; a file is none,
/// and what is not there is not found.
pub proof fn law_only_directories_are_listed(
    m: &MemProvider,
    uri: &VfsUri,
    opts: ListOpts,
    r: Result<Vec<DirEntry>, VfsError>,
)
    requires
        call_ensures(MemProvider::list, (m, uri, opts), r),
    ensures
        ({
            let here = m@.tree.contains_key(uri@);
            &&& r is Ok <==> uri@.segments.len() == 0 || (here && m@.tree[uri@] is Dir)
            &&& r matches Err(e) ==> e@ == if here {
                ErrorView::NotADirectory(uri@)
            } else {
                ErrorView::NotFound(uri@)
            }
        }),
{
}

/// A read gives the bytes of a file, those from the start of the range up to
/// its end as far as there are any; a directory is not read, what is not there
/// is not found, and a cancelled read gives nothing.
pub proof fn law_read_gives_the_bytes(
    m: &MemProvider,
    uri: &VfsUri,
    range: Option<(u64, u64)>,
    cancelled: bool,
    r: Result<Vec<u8>, VfsError>,
)
    requires
        call_ensures(MemProvider::read, (m, uri, range, cancelled), r),
    ensures
        ({
            let here = m@.tree.contains_key(uri@);
            let node = m@.tree[uri@];
            &&& r is Ok <==> !cancelled && here && node is File
            &&& r matches Err(e) ==> e@ == if cancelled {
                ErrorView::Cancelled
            } else if here {
                ErrorView::IsADirectory(uri@)
            } else {
                ErrorView::NotFound(uri@)
            }
            &&& r matches Ok(bytes) ==> {
                let data = node->data;
                &&& range is None ==> bytes@ == data
                &&& range matches Some((start, end)) ==> (start <= usize::MAX && end <= usize::MAX
                    ==> {
                    &&& bytes@.len() == if start <= end && start <= data.len() {
                        (if end <= data.len() {
                            end as int
                        } else {
                            data.len() as int
                        }) - start
                    } else {
                        0
                    }
                    &&& forall|i: int|
                        0 <= i < bytes@.len() ==> #[trigger] bytes@[i] == data[start + i]
                })
            }
        }),
{
    if let Ok(bytes) = r {
        if let Some((start, end)) = range {
            let data = m@.tree[uri@]->data;
            if start <= usize::MAX && end <= usize::MAX {
                assert(start as usize as int == start as int && end as usize as int == end as int);
                assert(bytes@ == in_range(data, range));
            }
        }
    }
}

/// A write puts the bytes and the time at the uri, makes the directory that it
/// lacks where asked to, and changes nothing else; it tells that the file was
/// made or, where it was there, changed.  A directory is not written, a file is
/// overwritten only where asked to, and without its directory the uri is not
/// written; then nothing changes.
pub proof fn law_write_puts_the_bytes(
    m: &mut MemProvider,
    uri: &VfsUri,
    data: Vec<u8>,
    opts: WriteOpts,
    now: u64,
    r: Result<Notice, VfsError>,
    other: UriView,
)
    requires
        call_ensures(MemProvider::write, (m, uri, data, opts, now), r),
    ensures
        ({
            let tree = old(m)@.tree;
            let after = final(m)@.tree;
            let here = tree.contains_key(uri@);
            let lacks = lacks_directory(tree, uri@);
            &&& final(m)@.watchers == old(m)@.watchers
            &&& final(m)@.next_watch_id == old(m)@.next_watch_id
            &&& here && tree[uri@] is Dir ==> (r matches Err(e) && e@ == ErrorView::IsADirectory(
                uri@,
            ))
            &&& here && tree[uri@] is File && !opts.overwrite ==> (r matches Err(e) && e@
                == ErrorView::AlreadyExists(uri@))
            &&& !(here && tree[uri@] is Dir) && !(here && !opts.overwrite) && lacks
                && !opts.create_parents ==> (r matches Err(e) && e@ == ErrorView::NotFound(
                above(uri@),
            ))
            &&& r is Ok <==> !(here && (tree[uri@] is Dir || !opts.overwrite)) && (!lacks
                || opts.create_parents)
            &&& r is Err ==> after == tree
            &&& r matches Ok(notice) ==> {
                &&& after.contains_key(uri@)
                &&& after[uri@] == (NodeView::File { data: data@, modified_ms: now })
                &&& lacks ==> after.contains_key(above(uri@)) && after[above(uri@)] == (
                NodeView::Dir { modified_ms: now })
                &&& other != uri@ && !(lacks && other == above(uri@)) ==> after.contains_key(other)
                    == tree.contains_key(other) && (tree.contains_key(other) ==> after[other]
                    == tree[other])
                &&& notice.event@ == (EventView {
                    kind: if here {
                        FsEventKind::Modified
                    } else {
                        FsEventKind::Created
                    },
                    uri: uri@,
                    renamed_to: None,
                })
                &&& notice.watchers@ == audience(old(m)@.watchers, uri@)
            }
        }),
{
    assert(r matches Ok(n) ==> n@.event == n.event@ && n@.watchers == n.watchers@);
    if uri@.segments.len() > 1 {
        assert(uri@.segments.drop_last().len() == uri@.segments.len() - 1);
        assert(above(uri@) != uri@);
    }
}

/// A written file is read back, and is listed and looked up with its size and
/// the time at which it was written.
pub proof fn law_written_file_is_there(
    m: &mut MemProvider,
    uri: &VfsUri,
    data: Vec<u8>,
    opts: WriteOpts,
    now: u64,
    notice: Notice,
    read: Result<Vec<u8>, VfsError>,
    found: Result<Stat, VfsError>,
    dir: &VfsUri,
    listed: Vec<DirEntry>,
    i: int,
)
    requires
        call_ensures(
            MemProvider::write,
            (m, uri, data, opts, now),
            Ok::<Notice, VfsError>(notice),
        ),
        uri@.segments.len() > 0,
    ensures
        call_ensures(MemProvider::read, (final(m), uri, None::<(u64, u64)>, false), read) ==> (
        read matches Ok(bytes) && bytes@ == data@),
        call_ensures(MemProvider::stat, (final(m), uri), found) ==> (found matches Ok(st)
            && st.file_type == FileType::File && st.size == data@.len() && st.modified_ms == Some(
            now,
        )),
        call_ensures(
            MemProvider::list,
            (final(m), dir, ListOpts { include_hidden: true }),
            Ok::<Vec<DirEntry>, VfsError>(listed),
        ) && 0 <= i < listed@.len() && listed@[i].uri@ == uri@ ==> listed@[i].file_type
            == FileType::File && listed@[i].size == data@.len() && listed@[i].modified_ms == Some(
            now,
        ),
{
    law_write_puts_the_bytes(m, uri, data, opts, now, Ok(notice), uri@);
    assert(data.len() == data@.len());
    if call_ensures(
        MemProvider::list,
        (final(m), dir, ListOpts { include_hidden: true }),
        Ok::<Vec<DirEntry>, VfsError>(listed),
    ) && 0 <= i < listed@.len() && listed@[i].uri@ == uri@ {
        law_entry_tells_of_its_node(final(m), dir, ListOpts { include_hidden: true }, listed, i);
    }
}

/// A directory is made where nothing is and its own directory is there, with
/// the time; nothing else changes, and it is told that it was made.
pub proof fn law_mkdir_makes_one_directory(
    m: &mut MemProvider,
    uri: &VfsUri,
    now: u64,
    r: Result<Notice, VfsError>,
)
    requires
        call_ensures(MemProvider::mkdir, (m, uri, now), r),
    ensures
        ({
            let tree = old(m)@.tree;
            let here = tree.contains_key(uri@);
            let lacks = lacks_directory(tree, uri@);
            &&& final(m)@.watchers == old(m)@.watchers
            &&& r is Ok <==> !here && !lacks
            &&& r matches Err(e) ==> final(m)@ == old(m)@ && e@ == if here {
                ErrorView::AlreadyExists(uri@)
            } else {
                ErrorView::NotFound(above(uri@))
            }
            &&& r matches Ok(notice) ==> {
                &&& final(m)@.tree == tree.insert(uri@, NodeView::Dir { modified_ms: now })
                &&& notice.event@ == (EventView {
                    kind: FsEventKind::Created,
                    uri: uri@,
                    renamed_to: None,
                })
                &&& notice.watchers@ == audience(old(m)@.watchers, uri@)
            }
        }),
{
    assert(r matches Ok(n) ==> n@.event == n.event@ && n@.watchers == n.watchers@);
}

/// A deletion takes the uri away, and with a directory all that is below it;
/// nothing else changes, and the removal is told.  What is not there is not
/// found, and a directory that is not empty is deleted only where asked to.
pub proof fn law_delete_takes_the_tree_away(
    m: &mut MemProvider,
    uri: &VfsUri,
    opts: DeleteOpts,
    r: Result<Notice, VfsError>,
    k: UriView,
)
    requires
        call_ensures(MemProvider::delete, (m, uri, opts), r),
    ensures
        ({
            let tree = old(m)@.tree;
            let after = final(m)@.tree;
            let here = tree.contains_key(uri@);
            let full = here && tree[uri@] is Dir && exists|j: UriView| #[trigger]
                tree.contains_key(j) && j != uri@ && at_or_below(uri@, j);
            let gone = k == uri@ || (tree[uri@] is Dir && at_or_below(uri@, k));
            &&& final(m)@.watchers == old(m)@.watchers
            &&& r is Ok <==> here && (!full || opts.recursive)
            &&& r matches Err(e) ==> final(m)@ == old(m)@ && e@ == if here {
                ErrorView::DirectoryNotEmpty(uri@)
            } else {
                ErrorView::NotFound(uri@)
            }
            &&& r matches Ok(notice) ==> {
                &&& after.contains_key(k) == (tree.contains_key(k) && !gone)
                &&& after.contains_key(k) ==> after[k] == tree[k]
                &&& notice.event@ == (EventView {
                    kind: FsEventKind::Removed,
                    uri: uri@,
                    renamed_to: None,
                })
                &&& notice.watchers@ == audience(old(m)@.watchers, uri@)
            }
        }),
{
    assert(r matches Ok(n) ==> n@.event == n.event@ && n@.watchers == n.watchers@);
    let tree = old(m)@.tree;
    lemma_at_or_below(uri@, k);
    assert forall|j: UriView| at_or_below(uri@, j) == uri@.covers(j) by {
        lemma_at_or_below(uri@, j);
    }
    if has_below(tree, uri@) {
        let j = choose|j: UriView| #[trigger] tree.contains_key(j) && uri@.is_ancestor_of(j);
        assert(tree.contains_key(j) && j != uri@ && at_or_below(uri@, j));
    }
    if exists|j: UriView| #[trigger] tree.contains_key(j) && j != uri@ && at_or_below(uri@, j) {
        let j = choose|j: UriView| #[trigger]
            tree.contains_key(j) && j != uri@ && at_or_below(uri@, j);
        assert(uri@.is_ancestor_of(j));
    }
}

/// What is not there is neither renamed nor copied, and what is in the way is
/// overwritten only where asked to; then nothing changes.
pub proof fn law_transfer_is_refused(
    m: &mut MemProvider,
    n: &mut MemProvider,
    from: &VfsUri,
    to: &VfsUri,
    overwrite: bool,
    r: Result<Notice, VfsError>,
    q: Result<Notice, VfsError>,
)
    ensures
        call_ensures(MemProvider::rename, (m, from, to, overwrite), r) ==> {
            let here = old(m)@.tree.contains_key(from@);
            let blocked = old(m)@.tree.contains_key(to@) && !overwrite;
            !here || blocked ==> final(m)@ == old(m)@ && (r matches Err(e) && e@ == if !here {
                ErrorView::NotFound(from@)
            } else {
                ErrorView::AlreadyExists(to@)
            })
        },
        call_ensures(MemProvider::copy_within, (n, from, to, CopyOpts { overwrite }), q) ==> {
            let here = old(n)@.tree.contains_key(from@);
            let blocked = old(n)@.tree.contains_key(to@) && !overwrite;
            !here || blocked ==> final(n)@ == old(n)@ && (q matches Err(e) && e@ == if !here {
                ErrorView::NotFound(from@)
            } else {
                ErrorView::AlreadyExists(to@)
            })
        },
{
}

/// A copy that is not refused and whose names can all stand at the target puts
/// every node at and below the source at the same place at the target, with its
/// bytes and times, adds nothing else, and keeps what is not replaced; it tells
/// that the target was made.
pub proof fn law_copy_puts_every_node(
    m: &mut MemProvider,
    from: &VfsUri,
    to: &VfsUri,
    opts: CopyOpts,
    r: Result<Notice, VfsError>,
    k: UriView,
)
    requires
        call_ensures(MemProvider::copy_within, (m, from, to, opts), r),
        old(m)@.tree.contains_key(from@),
        opts.overwrite || !old(m)@.tree.contains_key(to@),
        forall|j: UriView| #[trigger]
            old(m)@.tree.contains_key(j) && at_or_below(from@, j) ==> relocated(
                j,
                from@.segments.len(),
                to@,
            ) is Ok,
    ensures
        ({
            let tree = old(m)@.tree;
            let after = final(m)@.tree;
            let place = UriView {
                segments: to@.segments + k.segments.skip(from@.segments.len() as int),
                ..to@
            };
            let source = UriView {
                segments: from@.segments + k.segments.skip(to@.segments.len() as int),
                ..from@
            };
            let replaced = at_or_below(to@, k) && tree.contains_key(source);
            &&& tree.contains_key(k) && at_or_below(from@, k) ==> after.contains_key(place)
                && after[place] == tree[k]
            &&& after.contains_key(k) == (tree.contains_key(k) || replaced)
            &&& tree.contains_key(k) && !replaced ==> after[k] == tree[k]
            &&& final(m)@.watchers == old(m)@.watchers
            &&& r matches Ok(notice) && notice.event@ == (EventView {
                kind: FsEventKind::Created,
                uri: to@,
                renamed_to: None,
            })
        }),
{
    let tree = old(m)@.tree;
    assert forall|j: UriView| at_or_below(from@, j) == from@.covers(j) by {
        lemma_at_or_below(from@, j);
    }
    lemma_at_or_below(to@, k);
    assert(r matches Ok(n) ==> n@.event == n.event@);
    if tree.contains_key(k) && at_or_below(from@, k) {
        crate::mem_laws::law_copy_keeps_the_source(tree, from@, to@, k);
        crate::uri::lemma_graft(to@, crate::uri::suffix_of(k, from@.segments.len()));
    }
}

/// A rename that is not refused, between uris of which neither is at or below
/// the other, and whose names can all stand at the target, takes every node at
/// and below the source to the same place at the target, with its bytes and
/// times, adds nothing else, and keeps what is not replaced; it tells of the
/// new name.
pub proof fn law_rename_takes_every_node(
    m: &mut MemProvider,
    from: &VfsUri,
    to: &VfsUri,
    overwrite: bool,
    r: Result<Notice, VfsError>,
    k: UriView,
)
    requires
        call_ensures(MemProvider::rename, (m, from, to, overwrite), r),
        old(m)@.tree.contains_key(from@),
        overwrite || !old(m)@.tree.contains_key(to@),
        !at_or_below(from@, to@),
        !at_or_below(to@, from@),
        forall|j: UriView| #[trigger]
            old(m)@.tree.contains_key(j) && at_or_below(from@, j) ==> relocated(
                j,
                from@.segments.len(),
                to@,
            ) is Ok,
    ensures
        ({
            let tree = old(m)@.tree;
            let after = final(m)@.tree;
            let place = UriView {
                segments: to@.segments + k.segments.skip(from@.segments.len() as int),
                ..to@
            };
            let source = UriView {
                segments: from@.segments + k.segments.skip(to@.segments.len() as int),
                ..from@
            };
            let replaced = at_or_below(to@, k) && tree.contains_key(source);
            &&& tree.contains_key(k) && at_or_below(from@, k) ==> after.contains_key(place)
                && after[place] == tree[k] && !after.contains_key(k)
            &&& after.contains_key(k) == ((tree.contains_key(k) && !at_or_below(from@, k))
                || replaced)
            &&& tree.contains_key(k) && !at_or_below(from@, k) && !replaced ==> after[k] == tree[k]
            &&& final(m)@.watchers == old(m)@.watchers
            &&& r matches Ok(notice) && notice.event@ == (EventView {
                kind: FsEventKind::Renamed,
                uri: from@,
                renamed_to: Some(to@),
            })
        }),
{
    let tree = old(m)@.tree;
    assert forall|j: UriView|
        at_or_below(from@, j) == from@.covers(j) && at_or_below(to@, j) == to@.covers(j) by {
        lemma_at_or_below(from@, j);
        lemma_at_or_below(to@, j);
    }
    let keys = choose|keys: Seq<UriView>| #[trigger]
        old(m)@.moves(final(m)@, notice_view(r), from@, to@, keys);
    crate::mem_laws::law_rename_moves_the_tree(
        old(m)@,
        final(m)@,
        notice_view(r),
        from@,
        to@,
        keys,
    );
    assert(r matches Ok(n) ==> n@.event == n.event@);
    if at_or_below(from@, k) && at_or_below(to@, k) {
        lemma_meet(from@, to@, k);
    }
    if tree.contains_key(k) && at_or_below(from@, k) {
        crate::mem_laws::law_copy_keeps_the_source(tree, from@, to@, k);
        crate::uri::lemma_graft(to@, crate::uri::suffix_of(k, from@.segments.len()));
        let place = UriView {
            segments: to@.segments + k.segments.skip(from@.segments.len() as int),
            ..to@
        };
        assert(place.segments.take(to@.segments.len() as int) =~= to@.segments);
        assert(at_or_below(to@, place));
        if at_or_below(from@, place) {
            lemma_meet(from@, to@, place);
        }
    }
}

/// Of two uris that a third is at or below, one is at or below the other.
proof fn lemma_meet(a: UriView, b: UriView, k: UriView)
    requires
        at_or_below(a, k),
        at_or_below(b, k),
    ensures
        at_or_below(a, b) || at_or_below(b, a),
{
    let m = a.segments.len() as int;
    let n = b.segments.len() as int;
    if m <= n {
        assert(b.segments.take(m) =~= k.segments.take(m));
    } else {
        assert(a.segments.take(n) =~= k.segments.take(n));
    }
}

/// A new watch has an id of its own and its uri; ending it takes it away and
/// leaves the others.
pub proof fn law_watches_are_listed(
    m: &mut MemProvider,
    uri: &VfsUri,
    recursive: bool,
    id: u64,
    n: &mut MemProvider,
    ended: u64,
    reg: RegView,
)
    ensures
        call_ensures(MemProvider::watch, (m, uri, recursive), id) ==> {
            &&& id == old(m)@.next_watch_id
            &&& final(m)@.watchers == old(m)@.watchers.push(RegView { id, root: uri@, recursive })
            &&& id < u64::MAX ==> final(m)@.next_watch_id == id + 1
            &&& final(m)@.tree == old(m)@.tree
        },
        call_ensures(MemProvider::unwatch, (n, ended), ()) ==> {
            &&& final(n)@.watchers.contains(reg) == (old(n)@.watchers.contains(reg) && reg.id
                != ended)
            &&& final(n)@.tree == old(n)@.tree
            &&& final(n)@.next_watch_id == old(n)@.next_watch_id
        },
{
    lemma_without(old(n)@.watchers, ended, reg);
}

proof fn lemma_without(regs: Seq<RegView>, id: u64, reg: RegView)
    ensures
        without(regs, id).contains(reg) == (regs.contains(reg) && reg.id != id),
    decreases regs.len(),
{
    if regs.len() > 0 {
        let prev = regs.drop_last();
        let last = regs.last();
        lemma_without(prev, id, reg);
        let before = without(prev, id);
        assert(regs =~= prev.push(last));
        lemma_reg_push(prev, last, reg);
        lemma_reg_push(before, last, reg);
    }
}

proof fn lemma_reg_push(s: Seq<RegView>, x: RegView, y: RegView)
    ensures
        s.push(x).contains(y) == (s.contains(y) || x == y),
{
    let t = s.push(x);
    if t.contains(y) {
        let i = choose|i: int| 0 <= i < t.len() && t[i] == y;
        if i < s.len() {
            assert(s[i] == y);
        }
    }
    if s.contains(y) {
        let i = choose|i: int| 0 <= i < s.len() && s[i] == y;
        assert(t[i] == y);
    }
    assert(t[s.len() as int] == x);
}

/// A change at a uri is heard by a watch on it, by a watch on its directory,
/// and by a recursive watch on anything above it; and by no other.  The oldest
/// watch hears first.
pub proof fn law_who_hears_of_a_change(regs: Seq<RegView>, reg: RegView, uri: UriView)
    ensures
        ({
            let heard = reg.root == uri || (reg.recursive && at_or_below(reg.root, uri)) || (
            !reg.recursive && uri.segments.len() > 0 && above(uri) == reg.root);
            audience(regs.push(reg), uri) == if heard {
                audience(regs, uri).push(reg.id)
            } else {
                audience(regs, uri)
            }
        }),
        audience(Seq::empty(), uri).len() == 0,
{
    lemma_at_or_below(reg.root, uri);
    assert(regs.push(reg).drop_last() =~= regs);
}

/// A notice holds the event and those who hear of it.
pub proof fn law_notice_is_for_the_audience(m: &MemProvider, event: FsEvent, r: Notice)
    requires
        call_ensures(MemProvider::notify, (m, event), r),
    ensures
        r.event@ == event@,
        r.watchers@ == audience(m@.watchers, event@.uri),
{
    assert(r@.event == r.event@);
}

/// The provider reads, writes, watches and copies by itself, tells names apart
/// by case, and has no trash; it begins empty.
pub proof fn law_memory_can(m: &MemProvider, caps: ProviderCaps, scheme: &str, begun: MemProvider)
    ensures
        call_ensures(MemProvider::caps, (m,), caps) ==> caps.read && caps.write && caps.watch
            && caps.copy_within && caps.case_sensitive && !caps.trash,
        call_ensures(MemProvider::scheme, (m,), scheme) ==> scheme@ == "mem"@,
        call_ensures(MemProvider::new, (), begun) ==> begun@.tree == Map::<
            UriView,
            NodeView,
        >::empty() && begun@.watchers.len() == 0 && begun@.next_watch_id == 0,
{
}

} // verus!
