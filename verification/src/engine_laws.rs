//! What the engine finds among its providers, and what a tree holds.
use vstd::prelude::*;
use crate::copy_one::bytes_from;
use crate::engine::{law_only_serving_providers_are_kept, serves, VfsEngine};
use crate::error::{ErrorView, VfsError};
use crate::provider::{ProviderCall, Request};
use crate::tree::{Node, NodeView, Tree};
use crate::types::Stat;
use crate::uri::{UriView, VfsUri};
use crate::walk::{Walk, WalkPhaseView};

verus! {

/// A provider serves its scheme from its registration on, in a place of its own;
/// the one that served it before is dropped, and the others keep their places.
pub proof fn law_provider_is_registered<P>(
    engine: &mut VfsEngine<P>,
    scheme: &str,
    provider: P,
    place: usize,
    other: Seq<char>,
    i: int,
)
    requires
        call_ensures(VfsEngine::<P>::register_provider, (engine, scheme, provider), place),
        old(engine).wf(),
    ensures
        final(engine).wf(),
        place == old(engine).providers().len(),
        final(engine).providers().len() == place + 1,
        final(engine).providers()[place as int] == Some(provider),
        final(engine).schemes().contains_key(scheme@) && final(engine).schemes()[scheme@] == place,
        other != scheme@ ==> final(engine).schemes().contains_key(other)
            == old(engine).schemes().contains_key(other),
        other != scheme@ && old(engine).schemes().contains_key(other)
            ==> final(engine).schemes()[other] == old(engine).schemes()[other],
        0 <= i < place && old(engine).schemes().contains_key(scheme@)
            && old(engine).schemes()[scheme@] == i ==> final(engine).providers()[i] is None,
        0 <= i < place && !(old(engine).schemes().contains_key(scheme@)
            && old(engine).schemes()[scheme@] == i) ==> final(engine).providers()[i]
            == old(engine).providers()[i],
        final(engine).in_flight() == old(engine).in_flight(),
{
    let before = *old(engine);
    if before.schemes().contains_key(scheme@) {
        let last = before.schemes()[scheme@];
        assert(serves(before.schemes(), last));
        law_only_serving_providers_are_kept(before, last);
    }
}

/// The provider of a uri is the one registered for its scheme; where there is
/// none, the error names the scheme.  A request goes to that provider as it is.
pub proof fn law_provider_serves_its_scheme<P>(
    engine: &VfsEngine<P>,
    uri: &VfsUri,
    r: Result<usize, VfsError>,
    request: Request,
    q: Result<ProviderCall, VfsError>,
)
    ensures
        call_ensures(VfsEngine::<P>::provider_for, (engine, uri), r) ==> {
            &&& r is Ok == engine.schemes().contains_key(uri@.scheme)
            &&& r matches Ok(place) ==> place == engine.schemes()[uri@.scheme]
            &&& r matches Err(e) ==> e@ == ErrorView::NoProvider(uri@.scheme)
        },
        call_ensures(VfsEngine::<P>::call, (engine, uri, request), q) ==> {
            &&& q is Ok == engine.schemes().contains_key(uri@.scheme)
            &&& q matches Ok(call) ==> call.provider == engine.schemes()[uri@.scheme]
                && call.request@ == request@
            &&& q matches Err(e) ==> e@ == ErrorView::NoProvider(uri@.scheme)
        },
{
    if let Ok(call) = q {
        assert(call@.provider == call.provider && call@.request == call.request@);
    }
}

/// An engine begins without providers; those in it are found by their places.
pub proof fn law_engine_holds_its_providers<P>(
    fresh: VfsEngine<P>,
    engine: &VfsEngine<P>,
    n: usize,
    place: usize,
    r: Option<&P>,
    scheme: Seq<char>,
    id: u128,
)
    ensures
        call_ensures(VfsEngine::<P>::new, (), fresh) ==> fresh.wf() && fresh.providers().len() == 0
            && !fresh.schemes().contains_key(scheme) && !fresh.in_flight().contains_key(id),
        call_ensures(VfsEngine::<P>::places, (engine,), n) ==> n == engine.providers().len(),
        call_ensures(VfsEngine::<P>::provider, (engine, place), r) ==> {
            &&& r is Some <==> place < engine.providers().len()
                && engine.providers()[place as int] is Some
            &&& r matches Some(p) ==> engine.providers()[place as int] == Some(*p)
        },
{
}

/// A tree answers for a uri by what was put there last and not taken away since.
pub proof fn law_tree_answers(
    t: &Tree,
    uri: &VfsUri,
    got: Option<&Node>,
    there: bool,
    dir: bool,
    file: bool,
    fresh: Tree,
)
    ensures
        call_ensures(Tree::get, (t, uri), got) ==> {
            &&& got is Some == t@.contains_key(uri@)
            &&& got matches Some(n) ==> n@ == t@[uri@]
        },
        call_ensures(Tree::contains, (t, uri), there) ==> there == t@.contains_key(uri@),
        call_ensures(Tree::has_dir, (t, uri), dir) ==> (dir <==> t@.contains_key(uri@)
            && t@[uri@] is Dir),
        call_ensures(Tree::has_file, (t, uri), file) ==> (file <==> t@.contains_key(uri@)
            && t@[uri@] is File),
        call_ensures(Tree::new, (), fresh) ==> !fresh@.contains_key(uri@),
{
}

/// To put a node at a uri, or to take it away, touches no other uri.
pub proof fn law_tree_changes_at_one_uri(
    t: &mut Tree,
    uri: VfsUri,
    node: Node,
    s: &mut Tree,
    at: &VfsUri,
    gone: Option<Node>,
    other: UriView,
)
    ensures
        call_ensures(Tree::insert, (t, uri, node), ()) ==> {
            &&& final(t)@.contains_key(uri@) && final(t)@[uri@] == node@
            &&& other != uri@ ==> final(t)@.contains_key(other) == old(t)@.contains_key(other)
            &&& other != uri@ && old(t)@.contains_key(other) ==> final(t)@[other] == old(t)@[other]
        },
        call_ensures(Tree::remove, (s, at), gone) ==> {
            &&& !final(s)@.contains_key(at@)
            &&& gone is Some == old(s)@.contains_key(at@)
            &&& gone matches Some(n) ==> n@ == old(s)@[at@]
            &&& other != at@ ==> final(s)@.contains_key(other) == old(s)@.contains_key(other)
            &&& other != at@ && old(s)@.contains_key(other) ==> final(s)@[other] == old(s)@[other]
        },
{
}

/// A node says what it holds.
pub proof fn law_nodes_say_what_they_hold(n: Node)
    ensures
        n matches Node::File { data, modified_ms } ==> n@ == (NodeView::File {
            data: data@,
            modified_ms,
        }),
        n matches Node::Dir { modified_ms } ==> n@ == (NodeView::Dir { modified_ms }),
{
}

/// The subtree of a uri is what is at it or below it, each uri once.
pub proof fn law_subtree_is_at_or_below(t: &Tree, root: &VfsUri, r: Vec<VfsUri>, u: UriView)
    requires
        call_ensures(Tree::subtree, (t, root), r),
    ensures
        ({
            let found = r@.map_values(|x: VfsUri| x@);
            &&& found.no_duplicates()
            &&& found.contains(u) <==> t@.contains_key(u) && (u == root@ || (u.scheme
                == root@.scheme && u.authority == root@.authority && root@.segments.len()
                < u.segments.len() && u.segments.take(root@.segments.len() as int)
                == root@.segments))
        }),
{
    assert(crate::uri::uri_views(r@) =~= r@.map_values(|x: VfsUri| x@));
}

/// A walk counts what it found, adds its bytes up, and gives all of it or the
/// error that ended it.
pub proof fn law_walk_gives_what_it_found(
    w: &Walk,
    n: usize,
    bytes: u128,
    over: Walk,
    r: Result<Vec<(VfsUri, Stat)>, VfsError>,
    i: int,
)
    ensures
        call_ensures(Walk::found, (w,), n) ==> n == w@.out.len(),
        call_ensures(Walk::bytes, (w,), bytes) ==> bytes == bytes_from(w@.out, 0),
        call_ensures(Walk::finish, (over,), r) ==> {
            &&& r matches Ok(found) ==> {
                &&& over@.phase matches WalkPhaseView::Ended(end) && end is Ok
                &&& found@.len() == over@.out.len()
                &&& 0 <= i < found@.len() ==> found@[i].0@ == over@.out[i].0 && found@[i].1@
                    == over@.out[i].1
            }
            &&& r matches Err(e) ==> over@.phase == WalkPhaseView::Ended(Err(e@))
        },
{
    if call_ensures(Walk::finish, (over,), r) {
        if let Ok(found) = r {
            assert(crate::walk::found_views(found@).len() == found@.len());
            if 0 <= i < found@.len() {
                assert(crate::walk::found_views(found@)[i] == (found@[i].0@, found@[i].1@));
            }
        }
    }
}

} // verus!
