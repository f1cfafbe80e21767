//! What the operations on uris give, in terms of their texts and segments.
use std::path::{Path, PathBuf};
use vstd::prelude::*;
use crate::error::{ErrorView, VfsError};
use crate::paths::{components_of, path_of, PartView, PathPart};
use crate::percent::{
    encode_segment, encoded_byte, encoded_bytes, hex_value, percent_decoded, percent_encoded,
    unescaped,
};
use crate::text::{
    concat2, concat3, decimal, decimal_text, digits_value, has_char, joined,
    law_split_of_joined, numeral, parse_numeral, same_text, to_lower, trim_end,
};
use crate::uri::{
    authority_ends, display, first_separator, is_drive_letter, lemma_parsed,
    local_segments, read_segment, read_segments, scheme_char, separator_at,
    written_segments, UriView, VfsUri,
};

verus! {

/// `://` stands in the text at `i`.
pub open spec fn colon_slashes(s: Seq<char>, i: int) -> bool {
    i + 2 < s.len() && s[i] == ':' && s[i + 1] == '/' && s[i + 2] == '/'
}

/// The letters of a scheme in either case.
pub open spec fn letter(c: char) -> bool {
    'a' <= c <= 'z' || 'A' <= c <= 'Z'
}

/// The text can be a scheme, in either case.
pub open spec fn names_scheme(raw: Seq<char>) -> bool {
    &&& raw.len() > 0
    &&& letter(raw[0])
    &&& forall|i: int|
        1 <= i < raw.len() ==> (letter(#[trigger] raw[i]) || '0' <= raw[i] <= '9' || raw[i] == '+'
            || raw[i] == '-')
}

/// One text is the other in lower case.
pub open spec fn in_lower_case(raw: Seq<char>, low: Seq<char>) -> bool {
    &&& low.len() == raw.len()
    &&& forall|i: int|
        0 <= i < raw.len() ==> {
            &&& 'A' <= #[trigger] raw[i] <= 'Z' ==> low[i] as int == raw[i] as int + 32
            &&& !('A' <= raw[i] <= 'Z') ==> low[i] == raw[i]
        }
}

/// The written segment can be read.
pub open spec fn readable(raw: Seq<char>) -> bool {
    &&& raw.len() > 0
    &&& raw != seq!['.']
    &&& raw != seq!['.', '.']
    &&& percent_decoded(raw) is Some
}

proof fn lemma_scheme(raw: Seq<char>)
    ensures
        in_lower_case(raw, crate::text::lowered(raw)),
        crate::uri::scheme_ok(crate::text::lowered(raw)) <==> names_scheme(raw),
{
    let low = crate::text::lowered(raw);
    assert forall|i: int| 0 <= i < raw.len() implies {
        &&& 'A' <= #[trigger] raw[i] <= 'Z' ==> low[i] as int == raw[i] as int + 32
        &&& !('A' <= raw[i] <= 'Z') ==> low[i] == raw[i]
    } by {
        assert(low[i] == crate::text::lower(raw[i]));
    }
    if crate::uri::scheme_ok(low) {
        assert forall|i: int| 1 <= i < raw.len() implies (letter(#[trigger] raw[i]) || '0' <= raw[i]
            <= '9' || raw[i] == '+' || raw[i] == '-') by {
            assert(scheme_char(low[i]));
        }
        assert(low[0] == crate::text::lower(raw[0]));
    }
    if names_scheme(raw) {
        assert forall|i: int| 1 <= i < low.len() implies scheme_char(#[trigger] low[i]) by {
            assert(letter(raw[i]) || '0' <= raw[i] <= '9' || raw[i] == '+' || raw[i] == '-');
        }
        assert(low[0] == crate::text::lower(raw[0]));
    }
}

/// A text is read at its first `://`: what stands before it is the scheme, in
/// lower case; what follows up to a slash is the authority; the rest is the
/// path.  The scheme is looked at first.
pub proof fn law_text_is_taken_apart(s: &str, sep: int, auth: int, r: Result<VfsUri, VfsError>)
    requires
        call_ensures(VfsUri::parse, (s,), r),
        0 <= sep,
        0 <= auth,
        sep + 3 + auth <= s@.len(),
        colon_slashes(s@, sep),
        forall|j: int| 0 <= j < sep ==> !#[trigger] colon_slashes(s@, j),
        forall|j: int| sep + 3 <= j < sep + 3 + auth ==> #[trigger] s@[j] != '/',
        sep + 3 + auth < s@.len() ==> s@[sep + 3 + auth] == '/',
    ensures
        ({
            let raw = s@.take(sep);
            let path = read_segments(written_segments(s@.skip(sep + 3 + auth)));
            &&& r is Ok <==> names_scheme(raw) && path is Ok
            &&& sep == 0 ==> r->Err_0@ == ErrorView::InvalidUri("empty scheme"@)
            &&& sep > 0 && !names_scheme(raw) ==> r->Err_0@ == ErrorView::InvalidUri(
                "invalid scheme: "@ + raw,
            )
            &&& names_scheme(raw) && path is Err ==> r->Err_0@ == path->Err_0
            &&& r matches Ok(u) ==> {
                &&& in_lower_case(raw, u@.scheme)
                &&& u@.authority == s@.subrange(sep + 3, sep + 3 + auth)
                &&& u@.segments == path->Ok_0
            }
        }),
{
    let t = s@;
    assert forall|j: int| 0 <= j < sep implies !separator_at(t, j) by {
        assert(!colon_slashes(t, j));
    }
    assert(first_separator(t, sep));
    let rest = t.skip(sep + 3);
    assert forall|j: int| 0 <= j < auth implies rest[j] != '/' by {
        assert(t[sep + 3 + j] != '/');
    }
    assert(authority_ends(rest, auth));
    lemma_parsed(t, sep, auth);
    lemma_scheme(t.take(sep));
    assert(rest.skip(auth) =~= t.skip(sep + 3 + auth));
    assert(rest.take(auth) =~= t.subrange(sep + 3, sep + 3 + auth));
}

/// A text without `://` is no uri.
pub proof fn law_text_without_a_scheme_is_refused(s: &str, r: Result<VfsUri, VfsError>)
    requires
        call_ensures(VfsUri::parse, (s,), r),
        forall|j: int| 0 <= j < s@.len() ==> !#[trigger] colon_slashes(s@, j),
    ensures
        r matches Err(e) && e@ == ErrorView::InvalidUri("missing scheme separator: "@ + s@),
{
    assert forall|i: int| !separator_at(s@, i) by {
        if separator_at(s@, i) {
            assert(colon_slashes(s@, i));
        }
    }
}

/// Written segments are read each for itself, decoded.  An empty one, a dot,
/// two dots, and one that does not decode to text are refused, and the first
/// such decides.
pub proof fn law_segments_are_read(raws: Seq<Seq<char>>, i: int)
    ensures
        (forall|j: int| 0 <= j < raws.len() ==> readable(#[trigger] raws[j])) ==> {
            &&& read_segments(raws) is Ok
            &&& read_segments(raws)->Ok_0.len() == raws.len()
            &&& 0 <= i < raws.len() ==> Some(read_segments(raws)->Ok_0[i]) == percent_decoded(
                raws[i],
            )
        },
        0 <= i < raws.len() && !readable(raws[i]) && (forall|j: int|
            0 <= j < i ==> readable(#[trigger] raws[j])) ==> {
            &&& read_segments(raws) is Err
            &&& raws[i].len() == 0 ==> read_segments(raws)->Err_0 == ErrorView::InvalidUri(
                "empty path segment"@,
            )
            &&& raws[i] == seq!['.'] || raws[i] == seq!['.', '.'] ==> read_segments(raws)->Err_0
                == ErrorView::InvalidUri("path traversal segment not allowed: "@ + raws[i])
            &&& raws[i].len() > 0 && raws[i] != seq!['.'] && raws[i] != seq!['.', '.']
                ==> read_segments(raws)->Err_0 == ErrorView::InvalidUri(
                "invalid percent-encoding in segment: "@ + raws[i],
            )
        },
    decreases raws.len(),
{
    if raws.len() > 0 {
        let init = raws.drop_last();
        let n = raws.len() - 1;
        law_segments_are_read(init, i);
        assert(raws[n] == raws.last());
        assert forall|j: int| 0 <= j < init.len() && readable(raws[j]) implies readable(
            #[trigger] init[j],
        ) by {
            assert(init[j] == raws[j]);
        }
        assert(read_segment(raws.last()) is Ok <==> readable(raws.last()));
        if i < n && i >= 0 {
            assert(init[i] == raws[i]);
        }
        if forall|j: int| 0 <= j < raws.len() ==> readable(#[trigger] raws[j]) {
            assert(readable(raws[n]));
        }
        if i == n && (forall|j: int| 0 <= j < i ==> readable(#[trigger] raws[j])) {
            assert(forall|j: int| 0 <= j < init.len() ==> readable(#[trigger] init[j]));
            law_segments_are_read(init, 0);
        }
    }
}

/// The text holds slashes and nothing else.
pub open spec fn all_slashes(s: Seq<char>) -> bool {
    forall|i: int| 0 <= i < s.len() ==> #[trigger] s[i] == '/'
}

proof fn lemma_trim_slashes(s: Seq<char>, slashes: Seq<char>)
    requires
        all_slashes(slashes),
        s.len() > 0 ==> s.last() != '/',
    ensures
        trim_end(s + slashes, '/') == s,
    decreases slashes.len(),
{
    let all = s + slashes;
    if slashes.len() == 0 {
        assert(all =~= s);
    } else {
        assert(slashes[slashes.len() - 1] == '/');
        assert(all.last() == '/');
        assert(all.drop_last() =~= s + slashes.drop_last());
        lemma_trim_slashes(s, slashes.drop_last());
    }
}

/// The segments of a path stand between its slashes; slashes at its end do not
/// count, and a path of slashes has none.
pub proof fn law_segments_stand_between_slashes(raws: Seq<Seq<char>>, slashes: Seq<char>)
    requires
        raws.len() > 0,
        raws.last().len() > 0,
        forall|i: int| 0 <= i < raws.len() ==> !(#[trigger] raws[i]).contains('/'),
        all_slashes(slashes),
    ensures
        written_segments(seq!['/'] + joined(raws, seq!['/']) + slashes) == raws,
        written_segments(slashes).len() == 0,
{
    let body = joined(raws, seq!['/']);
    let path = seq!['/'] + body;
    let last = raws.last();
    assert(body.len() > 0 && body.last() == last.last());
    assert(!raws[raws.len() - 1].contains('/'));
    assert(last[last.len() - 1] != '/');
    assert(path.last() == body.last());
    lemma_trim_slashes(path, slashes);
    assert(path.skip(1) =~= body);
    law_split_of_joined(raws, '/');
    lemma_trim_slashes(Seq::empty(), slashes);
    assert(Seq::<char>::empty() + slashes =~= slashes);
}

/// Segments are joined with a slash between neighbours, in their order.
pub proof fn law_joined(parts: Seq<Seq<char>>, last: Seq<char>, sep: Seq<char>)
    ensures
        joined(Seq::empty(), sep).len() == 0,
        joined(seq![last], sep) == last,
        parts.len() > 0 ==> joined(parts.push(last), sep) == joined(parts, sep) + sep + last,
{
    assert(parts.push(last).drop_last() =~= parts);
}

/// The text of a uri is its scheme, `://`, its authority, and a slash before
/// each of its segments, encoded; a top directory has one slash.  Its path is
/// the same with the segments as they are.
pub proof fn law_uri_is_shown(
    u: &VfsUri,
    r: String,
    p: String,
    parent: UriView,
    shown: Seq<char>,
    plain_path: Seq<char>,
)
    requires
        call_ensures(VfsUri::to_string, (u,), r),
        call_ensures(VfsUri::path, (u,), p),
    ensures
        u@.segments.len() == 0 ==> r@ == u@.scheme + "://"@ + u@.authority + "/"@ && p@ == "/"@,
        u@.segments.len() == 1 ==> r@ == u@.scheme + "://"@ + u@.authority + "/"@ + percent_encoded(
            u@.segments[0],
        ) && p@ == "/"@ + u@.segments[0],
        u@.segments.len() > 1 && parent == (UriView { segments: u@.segments.drop_last(), ..u@ })
            && shown == display(parent) && plain_path == parent.path() ==> r@ == shown + "/"@
            + percent_encoded(u@.segments.last()) && p@ == plain_path + "/"@ + u@.segments.last(),
{
    let segs = u@.segments;
    let enc = crate::uri::encoded_segments(segs);
    let base = u@.scheme + "://"@ + u@.authority + "/"@;
    if segs.len() == 0 {
        assert(r@ =~= base);
        assert(p@ =~= "/"@);
    } else if segs.len() == 1 {
        assert(enc[0] == percent_encoded(segs[0]));
    } else {
        let init = segs.drop_last();
        assert(enc.drop_last() =~= crate::uri::encoded_segments(init));
        assert(enc.last() == percent_encoded(segs.last()));
        let head = joined(crate::uri::encoded_segments(init), "/"@);
        assert(base + (head + "/"@ + enc.last()) =~= base + head + "/"@ + enc.last());
        let plain_head = joined(init, "/"@);
        assert("/"@ + (plain_head + "/"@ + segs.last()) =~= "/"@ + plain_head + "/"@ + segs.last());
    }
}

/// The parts of a uri are handed out as they are.
pub proof fn law_parts_of_a_uri(
    u: &VfsUri,
    scheme: &str,
    authority: &str,
    segments: Vec<&str>,
    name: Option<&str>,
    root: bool,
    depth: usize,
    i: int,
)
    ensures
        call_ensures(VfsUri::scheme, (u,), scheme) ==> scheme@ == u@.scheme,
        call_ensures(VfsUri::authority, (u,), authority) ==> authority@ == u@.authority,
        call_ensures(VfsUri::segments, (u,), segments) ==> segments@.len() == u@.segments.len() && (
        0 <= i < segments@.len() ==> segments@[i]@ == u@.segments[i]),
        call_ensures(VfsUri::name, (u,), name) ==> {
            &&& name is None <==> u@.segments.len() == 0
            &&& name matches Some(s) ==> s@ == u@.segments[u@.segments.len() - 1]
        },
        call_ensures(VfsUri::is_root, (u,), root) ==> (root <==> u@.segments.len() == 0),
        call_ensures(VfsUri::depth, (u,), depth) ==> depth == u@.segments.len(),
{
    if call_ensures(VfsUri::segments, (u,), segments) {
        let views = segments@.map_values(|s: &str| s@);
        assert(views.len() == segments@.len());
        if 0 <= i < segments@.len() {
            assert(views[i] == segments@[i]@);
        }
    }
}

/// The parent of a uri is the uri without its last segment; a top directory has
/// none.  A uri that is cut has its first segments, and no more than it had.
pub proof fn law_uris_above(u: &VfsUri, r: Option<VfsUri>, depth: usize, c: VfsUri)
    ensures
        call_ensures(VfsUri::parent, (u,), r) ==> {
            &&& r is None <==> u@.segments.len() == 0
            &&& r matches Some(p) ==> p@.scheme == u@.scheme && p@.authority == u@.authority
                && p@.segments == u@.segments.take(u@.segments.len() - 1)
        },
        call_ensures(VfsUri::cut, (u, depth), c) ==> {
            &&& c@.scheme == u@.scheme && c@.authority == u@.authority
            &&& u@.segments.len() <= depth ==> c@.segments == u@.segments
            &&& u@.segments.len() > depth ==> c@.segments == u@.segments.take(depth as int)
        },
{
    if u@.segments.len() > 0 {
        assert(u@.segments.drop_last() =~= u@.segments.take(u@.segments.len() - 1));
    }
}

/// Why a segment cannot be joined, in the order in which that is looked at.
pub open spec fn refused_segment(seg: Seq<char>, e: ErrorView) -> bool {
    &&& seg.len() == 0 ==> e == ErrorView::InvalidUri("empty path segment"@)
    &&& seg == seq!['.'] || seg == seq!['.', '.'] ==> e == ErrorView::InvalidUri(
        "path traversal segment not allowed: "@ + seg,
    )
    &&& seg.contains('/') ==> e == ErrorView::InvalidUri("segment may not contain '/': "@ + seg)
}

/// A segment is joined behind the others unless it is empty, a dot, two dots,
/// or holds a slash.  A new name takes the place of the last segment, or is the
/// first of a top directory.
pub proof fn law_segments_are_joined(
    u: &VfsUri,
    seg: &str,
    r: Result<VfsUri, VfsError>,
    q: Result<VfsUri, VfsError>,
)
    ensures
        call_ensures(VfsUri::join, (u, seg), r) ==> {
            &&& r is Ok <==> crate::bulk_laws::joinable(seg@)
            &&& r matches Ok(c) ==> c@.scheme == u@.scheme && c@.authority == u@.authority
                && c@.segments == u@.segments.push(seg@)
            &&& r matches Err(e) ==> refused_segment(seg@, e@)
        },
        call_ensures(VfsUri::with_name, (u, seg), q) ==> {
            &&& q is Ok <==> crate::bulk_laws::joinable(seg@)
            &&& q matches Ok(c) ==> {
                &&& c@.scheme == u@.scheme && c@.authority == u@.authority
                &&& u@.segments.len() == 0 ==> c@.segments == seq![seg@]
                &&& u@.segments.len() > 0 ==> c@.segments == u@.segments.update(
                    u@.segments.len() - 1,
                    seg@,
                )
            }
            &&& q matches Err(e) ==> refused_segment(seg@, e@)
        },
{
    if u@.segments.len() == 0 {
        assert(u@.segments.push(seg@) =~= seq![seg@]);
    } else {
        assert(u@.segments.drop_last().push(seg@) =~= u@.segments.update(
            u@.segments.len() - 1,
            seg@,
        ));
    }
}

/// A uri lies below another where both are of one scheme and authority, and its
/// segments are those of the other and at least one more.
pub proof fn law_what_lies_below(
    a: &VfsUri,
    b: &VfsUri,
    below: bool,
    place: bool,
    same: bool,
    more: Seq<Seq<char>>,
)
    ensures
        call_ensures(VfsUri::is_ancestor_of, (a, b), below) ==> {
            &&& below ==> a@.scheme == b@.scheme && a@.authority == b@.authority
                && a@.segments.len() < b@.segments.len()
            &&& below ==> forall|i: int|
                0 <= i < a@.segments.len() ==> #[trigger] a@.segments[i] == b@.segments[i]
            &&& a@.scheme == b@.scheme && a@.authority == b@.authority && more.len() > 0
                && b@.segments == a@.segments + more ==> below
        },
        call_ensures(VfsUri::same_place, (a, b), place) ==> (place <==> a@.scheme == b@.scheme
            && a@.authority == b@.authority),
        call_ensures(VfsUri::same, (a, b), same) ==> (same <==> a@.scheme == b@.scheme
            && a@.authority == b@.authority && a@.segments == b@.segments),
{
    if call_ensures(VfsUri::is_ancestor_of, (a, b), below) {
        let n = a@.segments.len() as int;
        if below {
            assert forall|i: int| 0 <= i < n implies #[trigger] a@.segments[i]
                == b@.segments[i] by {
                assert(b@.segments.take(n)[i] == b@.segments[i]);
            }
        }
        if more.len() > 0 && b@.segments == a@.segments + more {
            assert(b@.segments.take(n) =~= a@.segments);
        }
    }
    if a@.scheme == b@.scheme && a@.authority == b@.authority && a@.segments == b@.segments {
        assert(a@ =~= b@);
    }
}

/// A uri that is moved below another keeps the segments after the first so
/// many, in their order.
pub proof fn law_uri_is_moved_below(
    u: &VfsUri,
    depth: usize,
    to: &VfsUri,
    r: Result<VfsUri, VfsError>,
)
    requires
        call_ensures(VfsUri::relocate, (u, depth, to), r),
    ensures
        r matches Ok(c) ==> {
            &&& c@.scheme == to@.scheme && c@.authority == to@.authority
            &&& depth >= u@.segments.len() ==> c@.segments == to@.segments
            &&& depth < u@.segments.len() ==> c@.segments == to@.segments + u@.segments.skip(
                depth as int,
            )
        },
        (forall|i: int|
            depth <= i < u@.segments.len() ==> crate::bulk_laws::joinable(
                #[trigger] u@.segments[i],
            )) ==> r is Ok,
{
    let suffix = crate::uri::suffix_of(u@, depth as nat);
    lemma_grafted(to@, suffix);
    if depth >= u@.segments.len() {
        assert(suffix =~= Seq::<Seq<char>>::empty());
        assert(to@.segments + suffix =~= to@.segments);
    }
    if forall|i: int|
        depth <= i < u@.segments.len() ==> crate::bulk_laws::joinable(#[trigger] u@.segments[i]) {
        assert forall|i: int| 0 <= i < suffix.len() implies crate::bulk_laws::joinable(
            #[trigger] suffix[i],
        ) by {
            assert(suffix[i] == u@.segments[depth + i]);
        }
    }
}

proof fn lemma_grafted(to: UriView, suffix: Seq<Seq<char>>)
    ensures
        crate::uri::graft(to, suffix) matches Ok(c) ==> c.scheme == to.scheme && c.authority
            == to.authority && c.segments == to.segments + suffix,
        (forall|i: int|
            0 <= i < suffix.len() ==> crate::bulk_laws::joinable(#[trigger] suffix[i]))
            ==> crate::uri::graft(to, suffix) is Ok,
    decreases suffix.len(),
{
    if suffix.len() == 0 {
        assert(to.segments + suffix =~= to.segments);
    } else {
        lemma_grafted(to, suffix.drop_last());
        assert((to.segments + suffix.drop_last()).push(suffix.last()) =~= to.segments + suffix);
        if forall|i: int|
            0 <= i < suffix.len() ==> crate::bulk_laws::joinable(#[trigger] suffix[i]) {
            assert(crate::bulk_laws::joinable(suffix[suffix.len() - 1]));
            assert forall|i: int| 0 <= i < suffix.drop_last().len() implies
                crate::bulk_laws::joinable(#[trigger] suffix.drop_last()[i]) by {
                assert(suffix.drop_last()[i] == suffix[i]);
            }
        }
    }
}

/// The components of a local path become segments in their order: a drive with
/// its colon, and each name.  The root, a dot and a prefix that is no drive
/// leave nothing; two dots, and a name that is no text, have no place in a uri,
/// and the first of them decides.
pub proof fn law_components_become_segments(parts: Seq<PartView>, last: PartView)
    ensures
        local_segments(Seq::empty()) is Ok && local_segments(Seq::empty())->Ok_0.len() == 0,
        local_segments(parts) matches Err(e) ==> (local_segments(parts.push(last)) matches Err(f)
            && f == e),
        local_segments(parts) matches Ok(segs) ==> {
            let now = local_segments(parts.push(last));
            &&& last matches PartView::Normal(name) ==> (now matches Ok(s) && s == segs.push(name))
            &&& last matches PartView::Disk(letter) ==> (now matches Ok(s) && s == segs.push(
                seq![letter as char, ':'],
            ))
            &&& last matches PartView::VerbatimDisk(letter) ==> (now matches Ok(s) && s
                == segs.push(seq![letter as char, ':']))
            &&& last is OtherPrefix || last is RootDir || last is CurDir ==> (now matches Ok(s) && s
                == segs)
            &&& last is ParentDir ==> (now matches Err(e) && e == ErrorView::InvalidUri(
                "local path contains '..'"@,
            ))
            &&& last is NotUnicode ==> (now matches Err(e) && e == ErrorView::InvalidUri(
                "local path is not valid UTF-8"@,
            ))
        },
{
    assert(parts.push(last).drop_last() =~= parts);
}

/// The uri of a local path has the scheme `file`, no authority, and the
/// segments of the components of the path.
pub proof fn law_local_paths_have_file_uris(
    p: &Path,
    r: Result<VfsUri, VfsError>,
    parts: &Vec<PathPart>,
    q: Result<VfsUri, VfsError>,
)
    ensures
        call_ensures(VfsUri::from_local_path, (p,), r) ==> {
            &&& r is Ok == local_segments(components_of(p)) is Ok
            &&& r matches Ok(u) ==> u@.scheme == "file"@ && u@.authority.len() == 0 && u@.segments
                == local_segments(components_of(p))->Ok_0
            &&& r matches Err(e) ==> e@ == local_segments(components_of(p))->Err_0
        },
        call_ensures(VfsUri::from_path_parts, (parts,), q) ==> {
            let views = parts@.map_values(|x: PathPart| x@);
            &&& q is Ok == local_segments(views) is Ok
            &&& q matches Ok(u) ==> u@.scheme == "file"@ && u@.authority.len() == 0 && u@.segments
                == local_segments(views)->Ok_0
            &&& q matches Err(e) ==> e@ == local_segments(views)->Err_0
        },
{
    assert(crate::paths::part_views(parts@) =~= parts@.map_values(|x: PathPart| x@));
}

/// Parts say what they are.
pub proof fn law_parts_say_what_they_are(x: PathPart)
    ensures
        x matches PathPart::Disk(l) ==> x@ == PartView::Disk(l),
        x matches PathPart::VerbatimDisk(l) ==> x@ == PartView::VerbatimDisk(l),
        x is OtherPrefix ==> x@ is OtherPrefix,
        x is RootDir ==> x@ is RootDir,
        x is CurDir ==> x@ is CurDir,
        x is ParentDir ==> x@ is ParentDir,
        x matches PathPart::Normal(name) ==> x@ == PartView::Normal(name@),
        x is NotUnicode ==> x@ is NotUnicode,
{
}

/// A `file` uri, and no other, has a local path: from its drive and a backslash
/// or from the root slash on, one piece for each segment.
pub proof fn law_file_uris_have_local_paths(
    u: &VfsUri,
    r: Result<Vec<String>, VfsError>,
    q: Result<PathBuf, VfsError>,
    i: int,
)
    ensures
        call_ensures(VfsUri::local_pieces, (u,), r) ==> {
            let on_drive = u@.segments.len() > 0 && u@.segments[0].len() == 2 && letter(
                u@.segments[0][0],
            ) && u@.segments[0][1] == ':';
            &&& r is Ok <==> u@.scheme == "file"@
            &&& r matches Err(e) ==> e@ == ErrorView::InvalidUri(
                "cannot convert non-file uri to a local path: "@ + display(u@),
            )
            &&& r matches Ok(v) ==> {
                &&& on_drive ==> v@.len() == u@.segments.len() && v@[0]@ == u@.segments[0] + "\\"@
                    && (1 <= i < v@.len() ==> v@[i]@ == u@.segments[i])
                &&& !on_drive ==> v@.len() == u@.segments.len() + 1 && v@[0]@ == "/"@ && (1 <= i
                    < v@.len() ==> v@[i]@ == u@.segments[i - 1])
            }
        },
        call_ensures(VfsUri::to_local_path, (u,), q) && call_ensures(VfsUri::local_pieces, (u,), r)
            ==> {
            &&& q is Ok == r is Ok
            &&& q matches Ok(p) ==> p == path_of(r->Ok_0@.map_values(|s: String| s@))
            &&& q matches Err(e) ==> e@ == r->Err_0@
        },
{
    if call_ensures(VfsUri::local_pieces, (u,), r) {
        if let Ok(v) = r {
            let t = crate::text::texts(v@);
            assert(t.len() == v@.len());
            assert(t =~= v@.map_values(|s: String| s@));
            if 0 <= i < v@.len() {
                assert(t[i] == v@[i]@);
            }
            if v@.len() > 0 {
                assert(t[0] == v@[0]@);
            }
        }
    }
}

/// A drive is an ASCII letter and a colon.
pub proof fn law_drives(seg: &str, r: bool)
    requires
        call_ensures(is_drive_letter, (seg,), r),
    ensures
        r <==> seg@.len() == 2 && letter(seg@[0]) && seg@[1] == ':',
{
}

/// A byte is written as itself where it is an ASCII letter, a digit, or one of
/// `-`, `.`, `_`, `~` and `:`; any other as a percent sign and two hexadecimal
/// digits, in upper case, which denote it.
pub proof fn law_bytes_are_encoded(b: u8)
    ensures
        ({
            let c = b as char;
            let kept = letter(c) || '0' <= c <= '9' || c == '-' || c == '.' || c == '_' || c == '~'
                || c == ':';
            let e = encoded_byte(b);
            &&& kept ==> e == seq![c]
            &&& !kept ==> {
                &&& e.len() == 3
                &&& e[0] == '%'
                &&& '0' <= e[1] <= '9' || 'A' <= e[1] <= 'F'
                &&& '0' <= e[2] <= '9' || 'A' <= e[2] <= 'F'
                &&& hex_value(e[1] as u8) matches Some(high) && hex_value(e[2] as u8) matches Some(
                    low,
                ) && high * 16 + low == b
            }
        }),
{
}

/// The values of hexadecimal digits of either case.
pub proof fn law_hexadecimal_digits(b: u8)
    ensures
        48 <= b <= 57 ==> hex_value(b) == Some(b - 48),
        65 <= b <= 70 ==> hex_value(b) == Some(b - 65 + 10),
        97 <= b <= 102 ==> hex_value(b) == Some(b - 97 + 10),
        !(48 <= b <= 57) && !(65 <= b <= 70) && !(97 <= b <= 102) ==> hex_value(b) is None,
{
}

/// Bytes are encoded each for itself, in their order.
pub proof fn law_bytes_are_encoded_in_order(a: Seq<u8>, b: Seq<u8>)
    ensures
        encoded_bytes(Seq::empty()).len() == 0,
        a.len() == 1 ==> encoded_bytes(a) == encoded_byte(a[0]),
        encoded_bytes(a + b) == encoded_bytes(a) + encoded_bytes(b),
    decreases a.len(),
{
    if a.len() == 0 {
        assert(a + b =~= b);
        assert(encoded_bytes(a) + encoded_bytes(b) =~= encoded_bytes(b));
    } else {
        law_bytes_are_encoded_in_order(a.skip(1), b);
        assert((a + b).skip(1) =~= a.skip(1) + b);
        assert(encoded_byte(a[0]) + (encoded_bytes(a.skip(1)) + encoded_bytes(b)) =~= encoded_byte(
            a[0],
        ) + encoded_bytes(a.skip(1)) + encoded_bytes(b));
        if a.len() == 1 {
            assert(encoded_bytes(a.skip(1)) =~= Seq::<char>::empty());
            assert(encoded_byte(a[0]) + Seq::<char>::empty() =~= encoded_byte(a[0]));
        }
    }
}

/// A segment is encoded byte by byte.
pub proof fn law_segment_is_encoded(segment: &str, r: String)
    requires
        call_ensures(encode_segment, (segment,), r),
    ensures
        r@ == encoded_bytes(vstd::utf8::encode_utf8(segment@)),
        percent_decoded(r@) == Some(segment@),
{
    crate::percent::law_decode_of_encode(segment@);
}

/// A percent sign and two hexadecimal digits are decoded to the byte that they
/// denote; every other byte is kept.
pub proof fn law_bytes_are_decoded(b: u8, high: u8, low: u8, rest: Seq<u8>)
    ensures
        unescaped(Seq::empty()).len() == 0,
        b != 37 ==> unescaped(seq![b] + rest) == seq![b] + unescaped(rest),
        hex_value(high) is Some && hex_value(low) is Some ==> unescaped(
            seq![37u8, high, low] + rest,
        ) == seq![(hex_value(high)->0 * 16 + hex_value(low)->0) as u8] + unescaped(rest),
        hex_value(high) is None ==> unescaped(seq![37u8, high] + rest) == seq![37u8] + unescaped(
            seq![high] + rest,
        ),
{
    assert((seq![b] + rest).skip(1) =~= rest);
    assert((seq![37u8, high, low] + rest).skip(3) =~= rest);
    assert((seq![37u8, high] + rest).skip(1) =~= seq![high] + rest);
}

/// Numbers are written in base ten, and read back.
pub proof fn law_numbers_are_written(n: u64, r: String, s: &str, v: Option<u64>)
    ensures
        call_ensures(decimal_text, (n,), r) ==> {
            &&& r@.len() > 0
            &&& forall|i: int| 0 <= i < r@.len() ==> '0' <= #[trigger] r@[i] <= '9'
            &&& numeral(r@) == Some(n)
            &&& n >= 10 ==> r@.last() as int == 48 + n % 10 && r@.drop_last() == decimal(
                (n / 10) as nat,
            )
            &&& n < 10 ==> r@.len() == 1 && r@[0] as int == 48 + n
        },
        call_ensures(parse_numeral, (s,), v) ==> v == numeral(s@),
{
    crate::text::law_numeral_of_decimal(n);
    if call_ensures(decimal_text, (n,), r) {
        crate::text::lemma_decimal_value(n as nat);
        if n >= 10 {
            assert(r@.drop_last() =~= decimal((n / 10) as nat));
        }
    }
}

/// A numeral is a run of at least one digit, after one plus sign at most, whose
/// value fits; each digit counts ten times the next.
pub proof fn law_numerals(s: Seq<char>, digits: Seq<char>, d: char)
    ensures
        numeral(s) is Some ==> ({
            let body = if s.len() > 0 && s[0] == '+' {
                s.skip(1)
            } else {
                s
            };
            &&& body.len() > 0
            &&& forall|i: int| 0 <= i < body.len() ==> '0' <= #[trigger] body[i] <= '9'
            &&& numeral(s)->0 == digits_value(body)
        }),
        numeral(Seq::empty()) is None,
        digits_value(Seq::empty()) == 0,
        '0' <= d <= '9' ==> digits_value(digits.push(d)) == digits_value(digits) * 10 + (d as int
            - 48),
        (forall|i: int| 0 <= i < s.len() ==> '0' <= #[trigger] s[i] <= '9') && s.len() > 0
            && digits_value(s) <= u64::MAX ==> numeral(s) == Some(digits_value(s) as u64)
            && numeral(seq!['+'] + s) == numeral(s),
        digits_value(s) > u64::MAX && s.len() > 0 && '0' <= s[0] <= '9' ==> numeral(s) is None,
{
    assert(digits.push(d).drop_last() =~= digits);
    assert((seq!['+'] + s).skip(1) =~= s);
    if s.len() > 0 && (forall|i: int| 0 <= i < s.len() ==> '0' <= #[trigger] s[i] <= '9') {
        assert('0' <= s[0] <= '9');
    }
}

/// Texts are put together, compared and searched as sequences of characters,
/// and lowered letter by letter.
pub proof fn law_texts(
    a: &str,
    b: &str,
    c: &str,
    two: String,
    three: String,
    same: bool,
    ch: char,
    has: bool,
    low: String,
)
    ensures
        call_ensures(concat2, (a, b), two) ==> two@ == a@ + b@,
        call_ensures(concat3, (a, b, c), three) ==> three@ == a@ + b@ + c@,
        call_ensures(same_text, (a, b), same) ==> (same <==> a@ == b@),
        call_ensures(has_char, (a, ch), has) ==> (has <==> exists|i: int|
            0 <= i < a@.len() && #[trigger] a@[i] == ch),
        call_ensures(to_lower, (a,), low) ==> in_lower_case(a@, low@),
{
    lemma_scheme(a@);
    if call_ensures(has_char, (a, ch), has) {
        if has {
            let i = choose|i: int| 0 <= i < a@.len() && a@[i] == ch;
            assert(a@[i] == ch);
        }
    }
}

} // verus!
