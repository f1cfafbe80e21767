//! What holds of uris as a whole.
use std::path::Path;
use vstd::prelude::*;
use vstd::utf8::*;
use crate::error::ErrorView;
use crate::paths::{all_one_part, components_of, rooted_parts, PartView};
use crate::percent::{
    encoded_bytes, law_decode_of_encode, lemma_decoded_not_empty, lemma_encoded_empty,
    lemma_encoded_plain, percent_encoded, plain,
};
use crate::text::{joined, law_split_of_joined, lower, lowered, trim_end};
use crate::uri::{
    authority_ends, display, drive_letter, encoded_segments, first_separator, is_dots, join_fault,
    lemma_parsed, local_segments, local_uri, parsed, read_segment, read_segments,
    scheme_char, scheme_ok, segment_fault, separator_at, valid_scheme, written_segments, UriView,
};

verus! {

proof fn lemma_first_separator(s: Seq<char>, i: int)
    requires
        separator_at(s, i),
    ensures
        exists|f: int| first_separator(s, f),
    decreases i,
{
    if forall|j: int| 0 <= j < i ==> !separator_at(s, j) {
        assert(first_separator(s, i));
    } else {
        let j = choose|j: int| 0 <= j < i && separator_at(s, j);
        lemma_first_separator(s, j);
    }
}

proof fn lemma_authority_end(rest: Seq<char>, i: int)
    requires
        0 <= i <= rest.len(),
        forall|j: int| 0 <= j < i ==> rest[j] != '/',
    ensures
        exists|a: int| authority_ends(rest, a),
    decreases rest.len() - i,
{
    if i == rest.len() || rest[i] == '/' {
        assert(authority_ends(rest, i));
    } else {
        lemma_authority_end(rest, i + 1);
    }
}

proof fn lemma_read_not_empty(raws: Seq<Seq<char>>)
    ensures
        read_segments(raws) matches Ok(segs) ==> segs.len() == raws.len() && forall|i: int|
            0 <= i < segs.len() ==> (#[trigger] segs[i]).len() > 0,
    decreases raws.len(),
{
    if raws.len() > 0 {
        lemma_read_not_empty(raws.drop_last());
        if raws.last().len() > 0 {
            lemma_decoded_not_empty(raws.last());
        }
    }
}

/// A uri that was read from text has a lower-case scheme, an authority
/// without a slash, and no empty segment.
pub proof fn law_parsed_is_well_formed(s: Seq<char>)
    ensures
        parsed(s) matches Ok(u) ==> u.well_formed(),
{
    if exists|i: int| separator_at(s, i) {
        let i = choose|i: int| separator_at(s, i);
        lemma_first_separator(s, i);
        let sep = choose|f: int| first_separator(s, f);
        let rest = s.skip(sep + 3);
        lemma_authority_end(rest, 0);
        let auth = choose|a: int| authority_ends(rest, a);
        assert(authority_ends(rest, auth));
        lemma_parsed(s, sep, auth);
        assert(!rest.take(auth).contains('/'));
        lemma_read_not_empty(written_segments(rest.skip(auth)));
    }
}

proof fn lemma_scheme_has_no_colon(scheme: Seq<char>, i: int)
    requires
        scheme_ok(scheme),
        0 <= i < scheme.len(),
    ensures
        scheme[i] != ':',
        lower(scheme[i]) == scheme[i],
{
    if i > 0 {
        assert(scheme_char(scheme[i]));
    }
}

/// A text that a scheme, `://`, an authority and a path make up, taken apart
/// again.
proof fn lemma_parsed_parts(
    raw: Seq<char>,
    authority: Seq<char>,
    path: Seq<char>,
)
    requires
        !raw.contains(':'),
        !authority.contains('/'),
        path.len() > 0 ==> path[0] == '/',
    ensures
        parsed(raw + "://"@ + authority + path) == (match valid_scheme(raw) {
            Err(e) => Err::<UriView, ErrorView>(e),
            Ok(scheme) => match read_segments(written_segments(path)) {
                Err(e) => Err(e),
                Ok(segments) => Ok(UriView { scheme, authority, segments }),
            },
        }),
{
    reveal_strlit("://");
    let s = raw + "://"@ + authority + path;
    let sep = raw.len() as int;
    assert(separator_at(s, sep));
    assert forall|j: int| 0 <= j < sep implies !separator_at(s, j) by {
        assert(s[j] == raw[j]);
    }
    assert(first_separator(s, sep));
    let rest = s.skip(sep + 3);
    assert(rest =~= authority + path);
    let auth = authority.len() as int;
    assert forall|j: int| 0 <= j < auth implies rest[j] != '/' by {
        assert(rest[j] == authority[j]);
    }
    assert(authority_ends(rest, auth));
    lemma_parsed(s, sep, auth);
    assert(s.take(sep) =~= raw);
    assert(rest.take(auth) =~= authority);
    assert(rest.skip(auth) =~= path);
}

proof fn lemma_encoded_has_no_slash(seg: Seq<char>)
    ensures
        !percent_encoded(seg).contains('/'),
{
    let bytes = encode_utf8(seg);
    lemma_encoded_plain(bytes);
    let e = encoded_bytes(bytes);
    if e.contains('/') {
        let i = choose|i: int| 0 <= i < e.len() && e[i] == '/';
        assert(plain(e[i]));
    }
}

/// An encoded segment reads as the segment.
proof fn lemma_read_encoded(seg: Seq<char>)
    requires
        seg.len() > 0,
        !is_dots(seg),
    ensures
        read_segment(percent_encoded(seg)) == Ok::<Seq<char>, ErrorView>(seg),
{
    let raw = percent_encoded(seg);
    law_decode_of_encode(seg);
    lemma_encoded_empty(seg);
    assert(!is_dots(raw)) by {
        lemma_dots_encode();
        if raw == seq!['.'] {
            law_decode_of_encode(seq!['.']);
        }
        if raw == seq!['.', '.'] {
            law_decode_of_encode(seq!['.', '.']);
        }
    }
}

/// The segments of dots are their own encoding.
proof fn lemma_dots_encode()
    ensures
        percent_encoded(seq!['.']) == seq!['.'],
        percent_encoded(seq!['.', '.']) == seq!['.', '.'],
{
    let one = seq!['.'];
    let two = seq!['.', '.'];
    assert(is_ascii_chars(one));
    assert(is_ascii_chars(two));
    is_ascii_chars_encode_utf8(one);
    is_ascii_chars_encode_utf8(two);
    assert(one[0] as u8 == 46u8);
    assert(two[0] as u8 == 46u8);
    assert(two[1] as u8 == 46u8);
    assert(encode_utf8(one) =~= seq![46u8]);
    assert(encode_utf8(two) =~= seq![46u8, 46u8]);
    assert(seq![46u8].skip(1) =~= Seq::<u8>::empty());
    assert(seq![46u8, 46u8].skip(1) =~= seq![46u8]);
    reveal_with_fuel(encoded_bytes, 3);
    assert(encoded_bytes(seq![46u8]) =~= one);
    assert(encoded_bytes(seq![46u8, 46u8]) =~= two);
}

proof fn lemma_read_all_encoded(segments: Seq<Seq<char>>)
    requires
        forall|i: int| 0 <= i < segments.len() ==> (#[trigger] segments[i]).len() > 0,
        forall|i: int| 0 <= i < segments.len() ==> !is_dots(#[trigger] segments[i]),
    ensures
        read_segments(encoded_segments(segments)) == Ok::<Seq<Seq<char>>, ErrorView>(segments),
    decreases segments.len(),
{
    if segments.len() == 0 {
        assert(segments =~= Seq::<Seq<char>>::empty());
    } else {
        let init = segments.drop_last();
        assert forall|i: int| 0 <= i < init.len() implies (#[trigger] init[i]).len() > 0
            && !is_dots(init[i]) by {
            assert(init[i] == segments[i]);
        }
        lemma_read_all_encoded(init);
        let last = segments[segments.len() - 1];
        lemma_read_encoded(last);
        assert(encoded_segments(segments).drop_last() =~= encoded_segments(init));
        assert(init.push(last) =~= segments);
    }
}

proof fn lemma_joined_last(parts: Seq<Seq<char>>, sep: Seq<char>)
    requires
        parts.len() > 0,
        parts.last().len() > 0,
    ensures
        joined(parts, sep).len() > 0,
        joined(parts, sep).last() == parts.last().last(),
{
}

/// The written segments of a slash and encoded segments are these segments.
proof fn lemma_written_of_encoded(segments: Seq<Seq<char>>)
    requires
        forall|i: int| 0 <= i < segments.len() ==> (#[trigger] segments[i]).len() > 0,
    ensures
        written_segments("/"@ + joined(encoded_segments(segments), "/"@)) == encoded_segments(
            segments,
        ),
{
    reveal_strlit("/");
    assert("/"@ =~= seq!['/']);
    let enc = encoded_segments(segments);
    let body = joined(enc, "/"@);
    let path = "/"@ + body;
    if segments.len() == 0 {
        assert(body =~= Seq::<char>::empty());
        assert(path.last() == '/');
        assert(path.drop_last() =~= Seq::<char>::empty());
        assert(trim_end(path, '/') =~= Seq::<char>::empty()) by {
            reveal_with_fuel(trim_end, 2);
        }
        assert(enc =~= Seq::<Seq<char>>::empty());
    } else {
        let last = segments[segments.len() - 1];
        assert(enc.last() == percent_encoded(last));
        lemma_encoded_empty(last);
        lemma_encoded_has_no_slash(last);
        lemma_joined_last(enc, "/"@);
        let tail = enc.last();
        assert(tail[tail.len() - 1] == tail.last());
        assert(tail.last() != '/');
        assert(path.last() == body.last());
        assert(trim_end(path, '/') == path);
        assert(path.skip(1) =~= body);
        assert forall|i: int| 0 <= i < enc.len() implies !(#[trigger] enc[i]).contains('/') by {
            lemma_encoded_has_no_slash(segments[i]);
        }
        law_split_of_joined(enc, '/');
    }
}

/// The text of a uri reads back as the uri, unless a segment is `.` or `..`:
/// such a segment can only be written escaped, and is shown as it is.
pub proof fn law_parse_of_display(u: UriView)
    requires
        u.well_formed(),
        u.without_dots(),
    ensures
        parsed(display(u)) == Ok::<UriView, ErrorView>(u),
{
    reveal_strlit("/");
    let path = "/"@ + joined(encoded_segments(u.segments), "/"@);
    assert(path[0] == '/');
    assert(!u.scheme.contains(':')) by {
        if u.scheme.contains(':') {
            let i = choose|i: int| 0 <= i < u.scheme.len() && u.scheme[i] == ':';
            lemma_scheme_has_no_colon(u.scheme, i);
        }
    }
    lemma_parsed_parts(u.scheme, u.authority, path);
    assert(display(u) =~= u.scheme + "://"@ + u.authority + path);
    assert(lowered(u.scheme) =~= u.scheme) by {
        assert forall|i: int| 0 <= i < u.scheme.len() implies lowered(u.scheme)[i] == u.scheme[i] by {
            lemma_scheme_has_no_colon(u.scheme, i);
        }
    }
    lemma_written_of_encoded(u.segments);
    lemma_read_all_encoded(u.segments);
}

/// The case of the letters in a scheme does not matter.
pub proof fn law_scheme_case_is_folded(raw: Seq<char>, authority: Seq<char>, path: Seq<char>)
    requires
        !raw.contains(':'),
        !authority.contains('/'),
        path.len() > 0 ==> path[0] == '/',
    ensures
        ({
            let given = parsed(raw + "://"@ + authority + path);
            let folded = parsed(lowered(raw) + "://"@ + authority + path);
            &&& given is Ok == folded is Ok
            &&& given is Ok ==> given == folded && given->Ok_0.scheme == lowered(raw)
        }),
{
    let low = lowered(raw);
    assert(!low.contains(':')) by {
        if low.contains(':') {
            let i = choose|i: int| 0 <= i < low.len() && low[i] == ':';
            assert(low[i] == lower(raw[i]));
            assert(raw[i] == ':');
        }
    }
    lemma_parsed_parts(raw, authority, path);
    lemma_parsed_parts(low, authority, path);
    assert(lowered(low) =~= low) by {
        assert forall|i: int| 0 <= i < low.len() implies lowered(low)[i] == low[i] by {
            lemma_lower_twice(raw[i]);
        }
    }
}

proof fn lemma_lower_twice(c: char)
    ensures
        lower(lower(c)) == lower(c),
{
}

/// A path in which some written segment is empty, `.` or `..` is refused.
pub proof fn law_traversal_is_refused(path: Seq<char>, i: int)
    requires
        0 <= i < written_segments(path).len(),
        segment_fault(written_segments(path)[i]) is Some,
    ensures
        read_segments(written_segments(path)) is Err,
{
    lemma_fault_is_met(written_segments(path), i);
}

proof fn lemma_fault_is_met(raws: Seq<Seq<char>>, i: int)
    requires
        0 <= i < raws.len(),
        segment_fault(raws[i]) is Some,
    ensures
        read_segments(raws) is Err,
    decreases raws.len(),
{
    if i < raws.len() - 1 {
        assert(raws.drop_last()[i] == raws[i]);
        lemma_fault_is_met(raws.drop_last(), i);
    }
}

/// A joined uri lies in the uri that it was joined to, under the name given,
/// and its name is neither empty nor dots and holds no slash.
pub proof fn law_join_and_parent(u: UriView, seg: Seq<char>)
    ensures
        u.join(seg) is Ok <==> seg.len() > 0 && !is_dots(seg) && !seg.contains('/'),
        u.join(seg) matches Ok(c) ==> {
            &&& c.parent() == Some(u)
            &&& c.name() == Some(seg)
            &&& u.is_ancestor_of(c)
            &&& u.well_formed() ==> c.well_formed()
            &&& u.without_dots() ==> c.without_dots()
        },
{
    if join_fault(seg) is None {
        let c = u.child(seg);
        assert(c.segments.drop_last() =~= u.segments);
        assert(c.segments.take(u.segments.len() as int) =~= u.segments);
        assert(c.parent()->0 =~= u);
    }
}

/// Only a top directory has no parent, and a parent is an ancestor.
pub proof fn law_parent_is_ancestor(u: UriView)
    ensures
        u.parent() is None <==> u.is_root(),
        u.parent() matches Some(p) ==> p.is_ancestor_of(u) && u.name() is Some && p.child(
            u.name()->0,
        ) == u,
{
    if !u.is_root() {
        let p = u.parent()->0;
        assert(p.segments =~= u.segments.take(p.segments.len() as int));
        assert(p.segments.push(u.segments.last()) =~= u.segments);
        assert(p.child(u.name()->0) =~= u);
    }
}

/// A renamed uri keeps its parent.
pub proof fn law_with_name_keeps_parent(u: UriView, name: Seq<char>)
    ensures
        u.with_name(name) matches Ok(v) ==> v.name() == Some(name) && v.parent() == (
        if u.is_root() {
            Some(u)
        } else {
            u.parent()
        }),
{
    match u.parent() {
        Some(p) => law_join_and_parent(p, name),
        None => law_join_and_parent(u, name),
    }
}

/// Ancestry is a strict order: nothing is its own ancestor, and what lies
/// below something below a uri lies below the uri.
pub proof fn law_ancestry_is_strict_order(a: UriView, b: UriView, c: UriView)
    ensures
        !a.is_ancestor_of(a),
        a.is_ancestor_of(b) ==> !b.is_ancestor_of(a),
        a.is_ancestor_of(b) && b.is_ancestor_of(c) ==> a.is_ancestor_of(c),
{
    if a.is_ancestor_of(b) && b.is_ancestor_of(c) {
        let n = a.segments.len() as int;
        assert(c.segments.take(n) =~= b.segments.take(n)) by {
            assert forall|i: int| 0 <= i < n implies c.segments[i] == b.segments[i] by {
                assert(b.segments[i] == c.segments.take(b.segments.len() as int)[i]);
            }
        }
    }
}

proof fn lemma_local_prefixed(head: Seq<PartView>, names: Seq<Seq<char>>)
    requires
        local_segments(head) is Ok,
    ensures
        local_segments(head + names.map_values(|n: Seq<char>| PartView::Normal(n))) == Ok::<
            Seq<Seq<char>>,
            ErrorView,
        >(local_segments(head)->Ok_0 + names),
    decreases names.len(),
{
    let f = |n: Seq<char>| PartView::Normal(n);
    let all = head + names.map_values(f);
    if names.len() == 0 {
        assert(all =~= head);
        assert(local_segments(head)->Ok_0 + names =~= local_segments(head)->Ok_0);
    } else {
        lemma_local_prefixed(head, names.drop_last());
        assert(all.drop_last() =~= head + names.drop_last().map_values(f));
        assert(all.last() == PartView::Normal(names.last()));
        assert((local_segments(head)->Ok_0 + names.drop_last()).push(names.last())
            =~= local_segments(head)->Ok_0 + names);
    }
}

/// The uri of an absolute local path without a drive gives back the root
/// slash and the names of the path.
pub proof fn law_rooted_path_round_trip(names: Seq<Seq<char>>)
    requires
        names.len() > 0 ==> !drive_letter(names[0]),
    ensures
        local_uri(rooted_parts(names)) is Ok,
        local_uri(rooted_parts(names))->Ok_0.segments == names,
        local_uri(rooted_parts(names))->Ok_0.local_pieces() == Ok::<Seq<Seq<char>>, ErrorView>(
            seq!["/"@] + names,
        ),
{
    let head = seq![PartView::RootDir];
    assert(head.drop_last() =~= Seq::<PartView>::empty());
    reveal_with_fuel(local_segments, 2);
    assert(local_segments(head) == Ok::<Seq<Seq<char>>, ErrorView>(Seq::empty()));
    lemma_local_prefixed(head, names);
    assert(Seq::<Seq<char>>::empty() + names =~= names);
}

/// A `file` uri without an authority is the uri of the components that its
/// pieces name: below the root, or on a drive.
pub proof fn law_local_uri_round_trip(u: UriView)
    requires
        u.scheme == "file"@,
        u.authority.len() == 0,
    ensures
        u.segments.len() == 0 || !drive_letter(u.segments[0]) ==> {
            &&& u.local_pieces() == Ok::<Seq<Seq<char>>, ErrorView>(seq!["/"@] + u.segments)
            &&& local_uri(rooted_parts(u.segments)) == Ok::<UriView, ErrorView>(u)
        },
        u.segments.len() > 0 && drive_letter(u.segments[0]) ==> {
            let letter = u.segments[0][0] as u8;
            let names = u.segments.skip(1);
            let parts = seq![PartView::Disk(letter), PartView::RootDir] + names.map_values(
                |n: Seq<char>| PartView::Normal(n),
            );
            &&& u.local_pieces() == Ok::<Seq<Seq<char>>, ErrorView>(
                seq![u.segments[0] + "\\"@] + names,
            )
            &&& local_uri(parts) == Ok::<UriView, ErrorView>(u)
        },
{
    assert(u.authority =~= Seq::<char>::empty());
    if u.segments.len() == 0 || !drive_letter(u.segments[0]) {
        law_rooted_path_round_trip(u.segments);
    } else {
        let letter = u.segments[0][0] as u8;
        let drive = seq![letter as char, ':'];
        assert(drive =~= u.segments[0]);
        lemma_drive_segments(PartView::Disk(letter), letter, u.segments.skip(1));
        assert(seq![drive] + u.segments.skip(1) =~= u.segments);
    }
}

/// A local path below the root, not on a drive, whose names are one plain
/// component each: its uri names a path again, and the components of that path
/// are those of the first, so that the two are equal as paths.
pub proof fn law_local_path_round_trip(p: &Path, names: Seq<Seq<char>>)
    ensures
        components_of(p) == rooted_parts(names) && all_one_part(names) && (names.len() > 0
            ==> !drive_letter(names[0])) ==> {
            &&& local_uri(components_of(p)) is Ok
            &&& local_uri(components_of(p))->Ok_0.is_rooted_path()
            &&& rooted_parts(local_uri(components_of(p))->Ok_0.segments) == components_of(p)
        },
{
    if components_of(p) == rooted_parts(names) && (names.len() > 0 ==> !drive_letter(names[0])) {
        law_rooted_path_round_trip(names);
    }
}

proof fn lemma_drive_segments(disk: PartView, letter: u8, names: Seq<Seq<char>>)
    requires
        disk == PartView::Disk(letter) || disk == PartView::VerbatimDisk(letter),
    ensures
        local_segments(
            seq![disk, PartView::RootDir] + names.map_values(|n: Seq<char>| PartView::Normal(n)),
        ) == Ok::<Seq<Seq<char>>, ErrorView>(seq![seq![letter as char, ':']] + names),
{
    let head = seq![disk, PartView::RootDir];
    let drive = seq![letter as char, ':'];
    assert(head.drop_last() =~= seq![disk]);
    assert(seq![disk].drop_last() =~= Seq::<PartView>::empty());
    reveal_with_fuel(local_segments, 3);
    assert(Seq::<Seq<char>>::empty().push(drive) =~= seq![drive]);
    assert(local_segments(head) == Ok::<Seq<Seq<char>>, ErrorView>(seq![drive]));
    lemma_local_prefixed(head, names);
}

/// The uri of a path on a drive gives back the drive with its backslash and
/// the names of the path, whether or not the drive is verbatim.
pub proof fn law_drive_path_round_trip(letter: u8, verbatim: bool, names: Seq<Seq<char>>)
    requires
        drive_letter(seq![letter as char, ':']),
    ensures
        ({
            let disk = if verbatim { PartView::VerbatimDisk(letter) } else { PartView::Disk(letter) };
            let parts = seq![disk, PartView::RootDir] + names.map_values(
                |n: Seq<char>| PartView::Normal(n),
            );
            &&& local_uri(parts) is Ok
            &&& local_uri(parts)->Ok_0.local_pieces() == Ok::<Seq<Seq<char>>, ErrorView>(
                seq![seq![letter as char, ':'] + "\\"@] + names,
            )
        }),
{
    let disk = if verbatim { PartView::VerbatimDisk(letter) } else { PartView::Disk(letter) };
    let drive = seq![letter as char, ':'];
    lemma_drive_segments(disk, letter, names);
    assert((seq![drive] + names).skip(1) =~= names);
}

} // verus!
