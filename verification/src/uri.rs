//! Uris of the file system: `scheme://authority/segment/segment`.
use std::path::{Path, PathBuf};
use vstd::prelude::*;
use crate::error::{ErrorView, VfsError};
use crate::paths::{
    all_one_part, build_path, components_of, part_views, path_in, path_of, path_parts,
    rooted_parts, PartView, PathPart,
};
use crate::percent::{decode_percent, encode_segment, percent_decoded, percent_encoded};
use crate::text::{
    chars_of, clone_texts, concat2, concat3, find_char, has_char, join_texts, joined, lowered,
    same_text, split_chars, split_on, text_between, texts, to_lower, trim_end,
};
use crate::uri_laws::{law_local_uri_round_trip, law_parse_of_display, law_parsed_is_well_formed};

verus! {

/// The address of a file or directory: a scheme that picks the provider, an
/// authority that the provider gives a meaning, and a path of segments, held
/// decoded.
#[derive(Debug, Hash, PartialOrd, Ord)]
pub struct VfsUri {
    scheme: String,
    authority: String,
    segments: Vec<String>,
}

/// A uri with its texts as sequences of characters.
#[verifier::ext_equal]
pub struct UriView {
    pub scheme: Seq<char>,
    pub authority: Seq<char>,
    pub segments: Seq<Seq<char>>,
}

impl View for VfsUri {
    type V = UriView;

    closed spec fn view(&self) -> UriView {
        UriView {
            scheme: self.scheme@,
            authority: self.authority@,
            segments: texts(self.segments@),
        }
    }
}

/// `://` stands in `s` at `i`.
pub open spec fn separator_at(s: Seq<char>, i: int) -> bool {
    0 <= i && i + 3 <= s.len() && s[i] == ':' && s[i + 1] == '/' && s[i + 2] == '/'
}

/// `i` is the first place of `://` in `s`.
pub open spec fn first_separator(s: Seq<char>, i: int) -> bool {
    separator_at(s, i) && forall|j: int| 0 <= j < i ==> !separator_at(s, j)
}

/// A lower-case ASCII letter.
pub open spec fn lower_letter(c: char) -> bool {
    'a' <= c <= 'z'
}

/// A character that a scheme may hold after its first.
pub open spec fn scheme_char(c: char) -> bool {
    lower_letter(c) || '0' <= c <= '9' || c == '+' || c == '-'
}

/// A scheme: a lower-case letter, then letters, digits, `+` and `-`.
pub open spec fn scheme_ok(s: Seq<char>) -> bool {
    &&& s.len() > 0
    &&& lower_letter(s[0])
    &&& forall|i: int| 1 <= i < s.len() ==> scheme_char(#[trigger] s[i])
}

/// The scheme that the text before `://` stands for, in lower case.
pub open spec fn valid_scheme(raw: Seq<char>) -> Result<Seq<char>, ErrorView> {
    if raw.len() == 0 {
        Err(ErrorView::InvalidUri("empty scheme"@))
    } else if scheme_ok(lowered(raw)) {
        Ok(lowered(raw))
    } else {
        Err(ErrorView::InvalidUri("invalid scheme: "@ + raw))
    }
}

/// One of the segments `.` and `..`, which stand for a walk through the tree.
pub open spec fn is_dots(seg: Seq<char>) -> bool {
    seg == seq!['.'] || seg == seq!['.', '.']
}

/// Why a text cannot be a segment as it is written in a uri, if so.
pub open spec fn segment_fault(seg: Seq<char>) -> Option<ErrorView> {
    if seg.len() == 0 {
        Some(ErrorView::InvalidUri("empty path segment"@))
    } else if is_dots(seg) {
        Some(ErrorView::InvalidUri("path traversal segment not allowed: "@ + seg))
    } else {
        None
    }
}

/// Why a text cannot be joined to a uri as a segment, if so.
pub open spec fn join_fault(seg: Seq<char>) -> Option<ErrorView> {
    if segment_fault(seg) is Some {
        segment_fault(seg)
    } else if seg.contains('/') {
        Some(ErrorView::InvalidUri("segment may not contain '/': "@ + seg))
    } else {
        None
    }
}

/// The segment that a written segment stands for.
pub open spec fn read_segment(raw: Seq<char>) -> Result<Seq<char>, ErrorView> {
    match segment_fault(raw) {
        Some(e) => Err(e),
        None => match percent_decoded(raw) {
            Some(seg) => Ok(seg),
            None => Err(ErrorView::InvalidUri("invalid percent-encoding in segment: "@ + raw)),
        },
    }
}

/// The segments that written segments stand for; the first fault decides.
pub open spec fn read_segments(raws: Seq<Seq<char>>) -> Result<Seq<Seq<char>>, ErrorView>
    decreases raws.len(),
{
    if raws.len() == 0 {
        Ok(Seq::empty())
    } else {
        match read_segments(raws.drop_last()) {
            Err(e) => Err(e),
            Ok(segs) => match read_segment(raws.last()) {
                Err(e) => Err(e),
                Ok(seg) => Ok(segs.push(seg)),
            },
        }
    }
}

/// The written segments of a path: slashes at its end do not count.
pub open spec fn written_segments(path: Seq<char>) -> Seq<Seq<char>> {
    let trimmed = trim_end(path, '/');
    let body = if trimmed.len() > 0 && trimmed[0] == '/' {
        trimmed.skip(1)
    } else {
        trimmed
    };
    if body.len() == 0 {
        Seq::empty()
    } else {
        split_on(body, '/')
    }
}

/// `i` ends the authority in the text after `://`: at the first slash, or at
/// the end of the text.
pub open spec fn authority_ends(rest: Seq<char>, i: int) -> bool {
    &&& 0 <= i <= rest.len()
    &&& i < rest.len() ==> rest[i] == '/'
    &&& forall|j: int| 0 <= j < i ==> rest[j] != '/'
}

/// The uri that the text with its first `://` at `sep` and its authority of
/// `auth` characters stands for.
pub open spec fn read_parts(s: Seq<char>, sep: int, auth: int) -> Result<UriView, ErrorView> {
    let rest = s.skip(sep + 3);
    match valid_scheme(s.take(sep)) {
        Err(e) => Err(e),
        Ok(scheme) => match read_segments(written_segments(rest.skip(auth))) {
            Err(e) => Err(e),
            Ok(segments) => Ok(UriView { scheme, authority: rest.take(auth), segments }),
        },
    }
}

/// The uri that a text stands for.
pub open spec fn parsed(s: Seq<char>) -> Result<UriView, ErrorView> {
    if exists|i: int| separator_at(s, i) {
        let sep = choose|i: int| first_separator(s, i);
        let rest = s.skip(sep + 3);
        let auth = choose|i: int| authority_ends(rest, i);
        read_parts(s, sep, auth)
    } else {
        Err(ErrorView::InvalidUri("missing scheme separator: "@ + s))
    }
}

/// The segments, each percent-encoded.
pub open spec fn encoded_segments(segments: Seq<Seq<char>>) -> Seq<Seq<char>> {
    segments.map_values(|s: Seq<char>| percent_encoded(s))
}

/// The text of a uri.
pub open spec fn display(u: UriView) -> Seq<char> {
    u.scheme + "://"@ + u.authority + "/"@ + joined(encoded_segments(u.segments), "/"@)
}

/// An upper- or lower-case ASCII letter and a colon.
pub open spec fn drive_letter(seg: Seq<char>) -> bool {
    seg.len() == 2 && seg[1] == ':' && ('a' <= seg[0] <= 'z' || 'A' <= seg[0] <= 'Z')
}

/// The segment, if any, that a path component becomes.
pub open spec fn part_segment(part: PartView) -> Result<Option<Seq<char>>, ErrorView> {
    match part {
        PartView::Disk(letter) => Ok(Some(seq![letter as char, ':'])),
        PartView::VerbatimDisk(letter) => Ok(Some(seq![letter as char, ':'])),
        PartView::Normal(name) => Ok(Some(name)),
        PartView::ParentDir => Err(ErrorView::InvalidUri("local path contains '..'"@)),
        PartView::NotUnicode => Err(ErrorView::InvalidUri("local path is not valid UTF-8"@)),
        _ => Ok(None),
    }
}

/// The segments of a local path; the first component without a place in a
/// uri decides the error.
pub open spec fn local_segments(parts: Seq<PartView>) -> Result<Seq<Seq<char>>, ErrorView>
    decreases parts.len(),
{
    if parts.len() == 0 {
        Ok(Seq::empty())
    } else {
        match local_segments(parts.drop_last()) {
            Err(e) => Err(e),
            Ok(segs) => match part_segment(parts.last()) {
                Err(e) => Err(e),
                Ok(None) => Ok(segs),
                Ok(Some(seg)) => Ok(segs.push(seg)),
            },
        }
    }
}

/// The `file` uri of a local path.
pub open spec fn local_uri(parts: Seq<PartView>) -> Result<UriView, ErrorView> {
    match local_segments(parts) {
        Err(e) => Err(e),
        Ok(segments) => Ok(
            UriView { scheme: "file"@, authority: Seq::empty(), segments },
        ),
    }
}

impl UriView {
    /// The uri of a top directory.
    pub open spec fn is_root(self) -> bool {
        self.segments.len() == 0
    }

    /// The directory that holds the uri.
    pub open spec fn parent(self) -> Option<UriView> {
        if self.is_root() {
            None
        } else {
            Some(UriView { segments: self.segments.drop_last(), ..self })
        }
    }

    /// The last segment.
    pub open spec fn name(self) -> Option<Seq<char>> {
        if self.is_root() {
            None
        } else {
            Some(self.segments.last())
        }
    }

    /// The last segment, or nothing for a top directory.
    pub open spec fn name_or_empty(self) -> Seq<char> {
        if self.is_root() {
            Seq::empty()
        } else {
            self.segments.last()
        }
    }

    /// The uri one segment below.
    pub open spec fn child(self, seg: Seq<char>) -> UriView {
        UriView { segments: self.segments.push(seg), ..self }
    }

    /// The uri one segment below, where the segment can be joined.
    pub open spec fn join(self, seg: Seq<char>) -> Result<UriView, ErrorView> {
        match join_fault(seg) {
            Some(e) => Err(e),
            None => Ok(self.child(seg)),
        }
    }

    /// The uri with its last segment replaced; a top directory gains one.
    pub open spec fn with_name(self, seg: Seq<char>) -> Result<UriView, ErrorView> {
        match self.parent() {
            Some(p) => p.join(seg),
            None => self.join(seg),
        }
    }

    /// Both uris name the same provider and place in it.
    pub open spec fn same_place(self, other: UriView) -> bool {
        self.scheme == other.scheme && self.authority == other.authority
    }

    /// `other` lies strictly below, segment by segment.
    pub open spec fn is_ancestor_of(self, other: UriView) -> bool {
        &&& self.same_place(other)
        &&& self.segments.len() < other.segments.len()
        &&& self.segments == other.segments.take(self.segments.len() as int)
    }

    /// `other` is the uri itself or lies below it.
    pub open spec fn covers(self, other: UriView) -> bool {
        self == other || self.is_ancestor_of(other)
    }

    /// The uri itself, or the one above it with so many segments.
    pub open spec fn cut(self, depth: nat) -> UriView {
        if self.segments.len() <= depth {
            self
        } else {
            UriView { segments: self.segments.take(depth as int), ..self }
        }
    }

    /// The path of the uri, not encoded.
    pub open spec fn path(self) -> Seq<char> {
        "/"@ + joined(self.segments, "/"@)
    }

    /// What every uri that was read from text satisfies.
    pub open spec fn well_formed(self) -> bool {
        &&& scheme_ok(self.scheme)
        &&& !self.authority.contains('/')
        &&& forall|i: int| 0 <= i < self.segments.len() ==> (#[trigger] self.segments[i]).len() > 0
    }

    /// No segment is `.` or `..`.
    pub open spec fn without_dots(self) -> bool {
        forall|i: int| 0 <= i < self.segments.len() ==> !is_dots(#[trigger] self.segments[i])
    }

    /// A `file` uri whose segments name a local path below the root, not on a
    /// drive.
    pub open spec fn is_rooted_path(self) -> bool {
        &&& self.scheme == "file"@
        &&& self.segments.len() > 0 ==> !drive_letter(self.segments[0])
        &&& all_one_part(self.segments)
    }

    /// The pieces that make up the local path of a `file` uri: a drive with
    /// its backslash or the root slash, then the segments.
    pub open spec fn local_pieces(self) -> Result<Seq<Seq<char>>, ErrorView> {
        if self.scheme != "file"@ {
            Err(
                ErrorView::InvalidUri(
                    "cannot convert non-file uri to a local path: "@ + display(self),
                ),
            )
        } else if self.segments.len() > 0 && drive_letter(self.segments[0]) {
            Ok(seq![self.segments[0] + "\\"@] + self.segments.skip(1))
        } else {
            Ok(seq!["/"@] + self.segments)
        }
    }
}

/// The segments joined to `to` one after the other; the first that cannot be
/// joined decides the error.
pub open spec fn graft(to: UriView, suffix: Seq<Seq<char>>) -> Result<UriView, ErrorView>
    decreases suffix.len(),
{
    if suffix.len() == 0 {
        Ok(to)
    } else {
        match graft(to, suffix.drop_last()) {
            Err(e) => Err(e),
            Ok(u) => u.join(suffix.last()),
        }
    }
}

/// The segments after the first `depth`.
pub open spec fn suffix_of(uri: UriView, depth: nat) -> Seq<Seq<char>> {
    if depth <= uri.segments.len() {
        uri.segments.skip(depth as int)
    } else {
        Seq::empty()
    }
}

/// The uri below `to` that has the place of `uri` below a uri of `depth`
/// segments.
pub open spec fn relocated(uri: UriView, depth: nat, to: UriView) -> Result<UriView, ErrorView> {
    graft(to, suffix_of(uri, depth))
}

/// The view of a result that holds a uri or an error.
pub open spec fn uri_result(r: Result<VfsUri, VfsError>) -> Result<UriView, ErrorView> {
    match r {
        Ok(u) => Ok(u@),
        Err(e) => Err(e@),
    }
}

/// The views of a list of uris.
pub open spec fn uri_views(uris: Seq<VfsUri>) -> Seq<UriView> {
    uris.map_values(|u: VfsUri| u@)
}

/// The scheme that the text before `://` stands for.
fn validate_scheme(raw: &str) -> (r: Result<String, VfsError>)
    ensures
        match r {
            Ok(s) => valid_scheme(raw@) == Ok::<Seq<char>, ErrorView>(s@),
            Err(e) => valid_scheme(raw@) == Err::<Seq<char>, ErrorView>(e@),
        },
{
    if raw.is_empty() {
        return Err(VfsError::InvalidUri("empty scheme".to_owned()));
    }
    let low = to_lower(raw);
    let chars = chars_of(low.as_str());
    if chars[0] < 'a' || 'z' < chars[0] {
        return Err(VfsError::InvalidUri(concat2("invalid scheme: ", raw)));
    }
    let mut i: usize = 1;
    while i < chars.len()
        invariant
            1 <= i <= chars@.len(),
            chars@ == lowered(raw@),
            raw@.len() > 0,
            lower_letter(chars@[0]),
            forall|j: int| 1 <= j < i ==> scheme_char(#[trigger] chars@[j]),
        decreases chars.len() - i,
    {
        let c = chars[i];
        if !(('a' <= c && c <= 'z') || ('0' <= c && c <= '9') || c == '+' || c == '-') {
            assert(!scheme_char(chars@[i as int]));
            return Err(VfsError::InvalidUri(concat2("invalid scheme: ", raw)));
        }
        i += 1;
    }
    Ok(low)
}

fn dots(seg: &str) -> (r: bool)
    ensures
        r == is_dots(seg@),
{
    let chars = chars_of(seg);
    let one = chars.len() == 1 && chars[0] == '.';
    let two = chars.len() == 2 && chars[0] == '.' && chars[1] == '.';
    assert(one ==> seg@ =~= seq!['.']);
    assert(two ==> seg@ =~= seq!['.', '.']);
    one || two
}

/// Whether a text can be a segment as it is written in a uri.
fn validate_segment(seg: &str) -> (r: Result<(), VfsError>)
    ensures
        match r {
            Ok(()) => segment_fault(seg@) is None,
            Err(e) => segment_fault(seg@) == Some(e@),
        },
{
    if seg.is_empty() {
        return Err(VfsError::InvalidUri("empty path segment".to_owned()));
    }
    if dots(seg) {
        return Err(
            VfsError::InvalidUri(concat2("path traversal segment not allowed: ", seg)),
        );
    }
    Ok(())
}

/// Whether a text can be joined to a uri as a segment.
fn validate_join(seg: &str) -> (r: Result<(), VfsError>)
    ensures
        match r {
            Ok(()) => join_fault(seg@) is None,
            Err(e) => join_fault(seg@) == Some(e@),
        },
{
    match validate_segment(seg) {
        Err(e) => Err(e),
        Ok(()) => {
            if has_char(seg, '/') {
                Err(VfsError::InvalidUri(concat2("segment may not contain '/': ", seg)))
            } else {
                Ok(())
            }
        },
    }
}

fn decode_segment(raw: &str) -> (r: Result<String, VfsError>)
    ensures
        match r {
            Ok(s) => percent_decoded(raw@) == Some(s@),
            Err(e) => percent_decoded(raw@) is None && e@ == ErrorView::InvalidUri(
                "invalid percent-encoding in segment: "@ + raw@,
            ),
        },
{
    match decode_percent(raw) {
        Some(s) => Ok(s),
        None => Err(
            VfsError::InvalidUri(concat2("invalid percent-encoding in segment: ", raw)),
        ),
    }
}

/// Whether a segment is an ASCII letter and a colon.
pub fn is_drive_letter(seg: &str) -> (r: bool)
    ensures
        r == drive_letter(seg@),
{
    let chars = chars_of(seg);
    chars.len() == 2 && chars[1] == ':' && (('a' <= chars[0] && chars[0] <= 'z') || ('A' <= chars[0]
        && chars[0] <= 'Z'))
}

fn find_separator(chars: &Vec<char>) -> (r: Option<usize>)
    ensures
        match r {
            Some(i) => first_separator(chars@, i as int),
            None => forall|i: int| !separator_at(chars@, i),
        },
{
    let mut i: usize = 0;
    while i < chars.len()
        invariant
            i <= chars@.len(),
            forall|j: int| 0 <= j < i ==> !separator_at(chars@, j),
        decreases chars.len() - i,
    {
        if chars.len() - i >= 3 && chars[i] == ':' && chars[i + 1] == '/' && chars[i + 2] == '/' {
            assert(separator_at(chars@, i as int));
            return Some(i);
        }
        i += 1;
    }
    None
}

/// The segments of the path that `chars[from..]` holds.
fn parse_segments(chars: &Vec<char>, from: usize) -> (r: Result<Vec<String>, VfsError>)
    requires
        from <= chars@.len(),
        from < chars@.len() ==> chars@[from as int] == '/',
    ensures
        match r {
            Ok(v) => read_segments(written_segments(chars@.skip(from as int))) == Ok::<
                Seq<Seq<char>>,
                ErrorView,
            >(texts(v@)),
            Err(e) => read_segments(written_segments(chars@.skip(from as int))) == Err::<
                Seq<Seq<char>>,
                ErrorView,
            >(e@),
        },
{
    let ghost path = chars@.skip(from as int);
    let mut end: usize = chars.len();
    assert(chars@.subrange(from as int, end as int) =~= path);
    while end > from && chars[end - 1] == '/'
        invariant
            from <= end <= chars@.len(),
            trim_end(path, '/') == trim_end(chars@.subrange(from as int, end as int), '/'),
        decreases end,
    {
        assert(chars@.subrange(from as int, end as int).drop_last() =~= chars@.subrange(
            from as int,
            end - 1,
        ));
        end -= 1;
    }
    let ghost trimmed = chars@.subrange(from as int, end as int);
    let mut segments: Vec<String> = Vec::new();
    if end == from {
        assert(trimmed =~= Seq::<char>::empty());
        assert(texts(segments@) =~= Seq::<Seq<char>>::empty());
        return Ok(segments);
    }
    assert(trim_end(path, '/') == trimmed);
    assert(trimmed.skip(1) =~= chars@.subrange(from + 1, end as int));
    if end == from + 1 {
        assert(texts(segments@) =~= Seq::<Seq<char>>::empty());
        return Ok(segments);
    }
    let raws = split_chars(chars, from + 1, end, '/');
    let ghost written = texts(raws@);
    assert(written == written_segments(path));
    let mut i: usize = 0;
    assert(texts(segments@) =~= Seq::<Seq<char>>::empty());
    while i < raws.len()
        invariant
            i <= raws@.len(),
            written == texts(raws@),
            written == written_segments(chars@.skip(from as int)),
            read_segments(written.take(i as int)) == Ok::<Seq<Seq<char>>, ErrorView>(
                texts(segments@),
            ),
        decreases raws.len() - i,
    {
        let ghost before = segments@;
        proof {
            assert(written.take(i + 1).drop_last() =~= written.take(i as int));
            assert(written.take(i + 1).last() == raws@[i as int]@);
        }
        match validate_segment(raws[i].as_str()) {
            Err(e) => {
                proof {
                    lemma_fault_decides(written, i + 1);
                }
                return Err(e);
            },
            Ok(()) => {},
        }
        match decode_segment(raws[i].as_str()) {
            Err(e) => {
                proof {
                    lemma_fault_decides(written, i + 1);
                }
                return Err(e);
            },
            Ok(s) => segments.push(s),
        }
        assert(texts(segments@) =~= texts(before).push(segments@.last()@));
        i += 1;
    }
    assert(written.take(raws@.len() as int) =~= written);
    Ok(segments)
}

proof fn lemma_fault_decides(raws: Seq<Seq<char>>, i: int)
    requires
        0 <= i <= raws.len(),
        read_segments(raws.take(i)) is Err,
    ensures
        read_segments(raws) == read_segments(raws.take(i)),
    decreases raws.len() - i,
{
    if i == raws.len() {
        assert(raws.take(i) =~= raws);
    } else {
        assert(raws.take(i + 1).drop_last() =~= raws.take(i));
        lemma_fault_decides(raws, i + 1);
    }
}

pub proof fn lemma_parsed(s: Seq<char>, sep: int, auth: int)
    requires
        first_separator(s, sep),
        authority_ends(s.skip(sep + 3), auth),
    ensures
        parsed(s) == read_parts(s, sep, auth),
{
    let i = choose|i: int| first_separator(s, i);
    assert(first_separator(s, i));
    assert(i == sep) by {
        if i < sep {
            assert(!separator_at(s, i));
        }
        if sep < i {
            assert(!separator_at(s, sep));
        }
    }
    let rest = s.skip(sep + 3);
    let a = choose|a: int| authority_ends(rest, a);
    assert(authority_ends(rest, a));
    assert(a == auth) by {
        if a < auth {
            assert(rest[a] != '/');
        }
        if auth < a {
            assert(rest[auth] != '/');
        }
    }
}

impl Clone for VfsUri {
    fn clone(&self) -> (r: VfsUri)
        ensures
            r@ == self@,
    {
        VfsUri {
            scheme: self.scheme.clone(),
            authority: self.authority.clone(),
            segments: clone_texts(&self.segments),
        }
    }
}

impl PartialEq for VfsUri {
    fn eq(&self, other: &VfsUri) -> (r: bool) {
        self.same(other)
    }
}

impl vstd::std_specs::cmp::PartialEqSpecImpl for VfsUri {
    open spec fn obeys_eq_spec() -> bool {
        true
    }

    open spec fn eq_spec(&self, other: &VfsUri) -> bool {
        self@ == other@
    }
}

impl Eq for VfsUri {

}

impl VfsUri {
    /// Whether two uris are equal.
    pub fn same(&self, other: &VfsUri) -> (r: bool)
        ensures
            r == (self@ == other@),
    {
        if self.scheme != other.scheme || self.authority != other.authority {
            return false;
        }
        if self.segments.len() != other.segments.len() {
            assert(self@.segments.len() != other@.segments.len());
            return false;
        }
        let r = self.shares_prefix(other);
        assert(other@.segments.take(self@.segments.len() as int) =~= other@.segments);
        r
    }

    fn shares_prefix(&self, other: &VfsUri) -> (r: bool)
        requires
            self@.segments.len() <= other@.segments.len(),
        ensures
            r == (self@.segments == other@.segments.take(self@.segments.len() as int)),
    {
        let ghost n = self@.segments.len() as int;
        let mut i: usize = 0;
        while i < self.segments.len()
            invariant
                i <= self.segments@.len() <= other.segments@.len(),
                n == self@.segments.len(),
                n == self.segments@.len(),
                other@.segments.len() == other.segments@.len(),
                forall|j: int| 0 <= j < i ==> self.segments@[j]@ == other.segments@[j]@,
            decreases self.segments.len() - i,
        {
            if self.segments[i] != other.segments[i] {
                assert(self@.segments[i as int] != other@.segments.take(n)[i as int]);
                return false;
            }
            i += 1;
        }
        assert(self@.segments =~= other@.segments.take(n));
        true
    }

    /// Reads a uri from its text.
    pub fn parse(s: &str) -> (r: Result<VfsUri, VfsError>)
        ensures
            uri_result(r) == parsed(s@),
            r matches Ok(u) ==> u@.well_formed(),
    {
        let chars = chars_of(s);
        let sep = match find_separator(&chars) {
            None => {
                return Err(VfsError::InvalidUri(concat2("missing scheme separator: ", s)));
            },
            Some(i) => i,
        };
        assert(separator_at(s@, sep as int));
        assert(sep + 3 <= chars.len());
        let rest: usize = sep + 3;
        let slash: usize = match find_char(&chars, rest, '/') {
            Some(i) => i,
            None => chars.len(),
        };
        proof {
            let tail = s@.skip(rest as int);
            assert(tail.skip(slash - rest) =~= s@.skip(slash as int));
            assert(tail.take(slash - rest) =~= s@.subrange(rest as int, slash as int));
            assert forall|j: int| 0 <= j < slash - rest implies tail[j] != '/' by {
                assert(tail[j] == chars@[j + rest]);
            }
            assert(authority_ends(tail, slash - rest));
            lemma_parsed(s@, sep as int, slash - rest);
            assert(s@.take(sep as int) =~= s@.subrange(0, sep as int));
        }
        let scheme_raw = text_between(&chars, 0, sep);
        let scheme = match validate_scheme(scheme_raw.as_str()) {
            Err(e) => {
                return Err(e);
            },
            Ok(scheme) => scheme,
        };
        let segments = match parse_segments(&chars, slash) {
            Err(e) => {
                return Err(e);
            },
            Ok(segments) => segments,
        };
        let authority = text_between(&chars, rest, slash);
        let u = VfsUri { scheme, authority, segments };
        proof {
            law_parsed_is_well_formed(s@);
        }
        Ok(u)
    }

    /// The `file` uri of a local path given by its components.
    pub fn from_path_parts(parts: &Vec<PathPart>) -> (r: Result<VfsUri, VfsError>)
        ensures
            uri_result(r) == local_uri(part_views(parts@)),
    {
        let mut segments: Vec<String> = Vec::new();
        let mut i: usize = 0;
        let ghost views = part_views(parts@);
        assert(texts(segments@) =~= Seq::<Seq<char>>::empty());
        while i < parts.len()
            invariant
                i <= parts@.len(),
                views == part_views(parts@),
                local_segments(views.take(i as int)) == Ok::<Seq<Seq<char>>, ErrorView>(
                    texts(segments@),
                ),
            decreases parts.len() - i,
        {
            let ghost before = segments@;
            proof {
                assert(views.take(i + 1).drop_last() =~= views.take(i as int));
                assert(views.take(i + 1).last() == parts@[i as int]@);
            }
            match &parts[i] {
                PathPart::Disk(letter) | PathPart::VerbatimDisk(letter) => {
                    let mut drive = String::new();
                    drive.push(*letter as char);
                    drive.push(':');
                    assert(drive@ =~= seq![*letter as char, ':']);
                    segments.push(drive);
                    assert(texts(segments@) =~= texts(before).push(segments@.last()@));
                },
                PathPart::Normal(name) => {
                    segments.push(name.clone());
                    assert(texts(segments@) =~= texts(before).push(segments@.last()@));
                },
                PathPart::ParentDir => {
                    proof {
                        lemma_part_decides(views, i + 1);
                    }
                    return Err(VfsError::InvalidUri("local path contains '..'".to_owned()));
                },
                PathPart::NotUnicode => {
                    proof {
                        lemma_part_decides(views, i + 1);
                    }
                    return Err(VfsError::InvalidUri("local path is not valid UTF-8".to_owned()));
                },
                PathPart::OtherPrefix => {},
                PathPart::RootDir => {},
                PathPart::CurDir => {},
            }
            i += 1;
        }
        assert(views.take(parts@.len() as int) =~= views);
        let u = VfsUri { scheme: "file".to_owned(), authority: String::new(), segments };
        Ok(u)
    }

    /// The `file` uri of a local path.
    pub fn from_local_path(p: &Path) -> (r: Result<VfsUri, VfsError>)
        ensures
            uri_result(r) == local_uri(components_of(p)),
    {
        let parts = path_parts(p);
        VfsUri::from_path_parts(&parts)
    }

    /// The pieces that make up the local path of a `file` uri.
    pub fn local_pieces(&self) -> (r: Result<Vec<String>, VfsError>)
        ensures
            match r {
                Ok(v) => self@.local_pieces() == Ok::<Seq<Seq<char>>, ErrorView>(texts(v@)),
                Err(e) => self@.local_pieces() == Err::<Seq<Seq<char>>, ErrorView>(e@),
            },
    {
        if !same_text(self.scheme.as_str(), "file") {
            return Err(
                VfsError::InvalidUri(
                    concat2(
                        "cannot convert non-file uri to a local path: ",
                        self.to_string().as_str(),
                    ),
                ),
            );
        }
        let mut pieces: Vec<String> = Vec::new();
        let mut i: usize = 0;
        if self.segments.len() > 0 && is_drive_letter(self.segments[0].as_str()) {
            pieces.push(concat2(self.segments[0].as_str(), "\\"));
            i = 1;
        } else {
            pieces.push("/".to_owned());
        }
        let ghost start = i as int;
        let ghost head = pieces@[0]@;
        let ghost segs = self@.segments;
        while i < self.segments.len()
            invariant
                0 <= start <= i <= self.segments@.len(),
                segs == texts(self.segments@),
                texts(pieces@) =~= seq![head] + segs.subrange(start, i as int),
            decreases self.segments.len() - i,
        {
            let ghost before = pieces@;
            pieces.push(self.segments[i].clone());
            i += 1;
            assert(texts(pieces@) =~= texts(before).push(segs[i - 1]));
            assert(segs.subrange(start, i as int) =~= segs.subrange(start, i - 1).push(
                segs[i - 1],
            ));
        }
        assert(segs.subrange(start, segs.len() as int) =~= segs.skip(start));
        assert(segs.skip(0) =~= segs);
        Ok(pieces)
    }

    /// The local path of a `file` uri.  A path below the root has the segments
    /// as its components, and `from_local_path` gives the uri back.
    pub fn to_local_path(&self) -> (r: Result<PathBuf, VfsError>)
        ensures
            match r {
                Ok(p) => {
                    &&& self@.local_pieces() is Ok
                    &&& p == path_of(self@.local_pieces()->Ok_0)
                    &&& self@.is_rooted_path() ==> components_of(path_in(&p)) == rooted_parts(
                        self@.segments,
                    )
                    &&& self@.is_rooted_path() && self@.authority.len() == 0 ==> local_uri(
                        components_of(path_in(&p)),
                    ) == Ok::<UriView, ErrorView>(self@)
                },
                Err(e) => self@.local_pieces() == Err::<Seq<Seq<char>>, ErrorView>(e@),
            },
    {
        match self.local_pieces() {
            Err(e) => Err(e),
            Ok(pieces) => {
                proof {
                    if self@.is_rooted_path() {
                        assert(texts(pieces@).drop_first() =~= self@.segments);
                        if self@.authority.len() == 0 {
                            law_local_uri_round_trip(self@);
                        }
                    }
                }
                Ok(build_path(&pieces))
            },
        }
    }

    pub fn scheme(&self) -> (r: &str)
        ensures
            r@ == self@.scheme,
    {
        self.scheme.as_str()
    }

    pub fn authority(&self) -> (r: &str)
        ensures
            r@ == self@.authority,
    {
        self.authority.as_str()
    }

    /// The path of the uri, not encoded.
    pub fn path(&self) -> (r: String)
        ensures
            r@ == self@.path(),
    {
        concat2("/", join_texts(&self.segments, "/").as_str())
    }

    /// The segments of the path, decoded.
    pub fn segments(&self) -> (r: Vec<&str>)
        ensures
            r@.map_values(|s: &str| s@) == self@.segments,
    {
        let mut out: Vec<&str> = Vec::new();
        let mut i: usize = 0;
        while i < self.segments.len()
            invariant
                i <= self.segments@.len(),
                out@.len() == i,
                forall|j: int| 0 <= j < i ==> (#[trigger] out@[j])@ == self.segments@[j]@,
            decreases self.segments.len() - i,
        {
            out.push(self.segments[i].as_str());
            i += 1;
        }
        assert(out@.map_values(|s: &str| s@) =~= self@.segments);
        out
    }

    /// The last segment.
    pub fn name(&self) -> (r: Option<&str>)
        ensures
            r is Some == self@.name() is Some,
            r matches Some(s) ==> self@.name() == Some(s@),
    {
        if self.segments.len() == 0 {
            None
        } else {
            Some(self.segments[self.segments.len() - 1].as_str())
        }
    }

    /// Whether the uri is that of a top directory.
    pub fn is_root(&self) -> (r: bool)
        ensures
            r == self@.is_root(),
    {
        self.segments.len() == 0
    }

    /// The directory that holds the uri.
    pub fn parent(&self) -> (r: Option<VfsUri>)
        ensures
            r is Some == self@.parent() is Some,
            r matches Some(u) ==> self@.parent() == Some(u@),
    {
        if self.segments.len() == 0 {
            return None;
        }
        let mut segments = clone_texts(&self.segments);
        segments.pop();
        let u = VfsUri {
            scheme: self.scheme.clone(),
            authority: self.authority.clone(),
            segments,
        };
        assert(u@.segments =~= self@.segments.drop_last());
        Some(u)
    }

    /// The uri one segment below.
    pub fn join(&self, segment: &str) -> (r: Result<VfsUri, VfsError>)
        ensures
            uri_result(r) == self@.join(segment@),
    {
        match validate_join(segment) {
            Err(e) => Err(e),
            Ok(()) => {
                let mut segments = clone_texts(&self.segments);
                segments.push(segment.to_owned());
                let u = VfsUri {
                    scheme: self.scheme.clone(),
                    authority: self.authority.clone(),
                    segments,
                };
                assert(u@.segments =~= self@.segments.push(segment@));
                Ok(u)
            },
        }
    }

    /// The uri with its last segment replaced; a top directory gains one.
    pub fn with_name(&self, name: &str) -> (r: Result<VfsUri, VfsError>)
        ensures
            uri_result(r) == self@.with_name(name@),
    {
        match self.parent() {
            Some(parent) => parent.join(name),
            None => self.join(name),
        }
    }

    /// Whether `other` lies strictly below, segment by segment: `file:///a/b`
    /// is an ancestor of `file:///a/b/c` but not of `file:///a/bc`.
    pub fn is_ancestor_of(&self, other: &VfsUri) -> (r: bool)
        ensures
            r == self@.is_ancestor_of(other@),
    {
        if self.scheme != other.scheme || self.authority != other.authority {
            return false;
        }
        if self.segments.len() >= other.segments.len() {
            return false;
        }
        self.shares_prefix(other)
    }

    /// Whether both uris name the same provider and place in it.
    pub fn same_place(&self, other: &VfsUri) -> (r: bool)
        ensures
            r == self@.same_place(other@),
    {
        self.scheme == other.scheme && self.authority == other.authority
    }

    /// The uri below `to` that has the place of this uri below a uri of
    /// `depth` segments.
    pub fn relocate(&self, depth: usize, to: &VfsUri) -> (r: Result<VfsUri, VfsError>)
        ensures
            uri_result(r) == relocated(self@, depth as nat, to@),
    {
        if depth >= self.segments.len() {
            assert(suffix_of(self@, depth as nat) =~= Seq::<Seq<char>>::empty());
            return Ok(to.clone());
        }
        let ghost suffix = self@.segments.skip(depth as int);
        let mut out = to.clone();
        let mut i: usize = depth;
        assert(suffix.take(0) =~= Seq::<Seq<char>>::empty());
        while i < self.segments.len()
            invariant
                depth <= i <= self.segments@.len(),
                suffix == texts(self.segments@).skip(depth as int),
                self@.segments == texts(self.segments@),
                graft(to@, suffix.take(i - depth)) == Ok::<UriView, ErrorView>(out@),
            decreases self.segments.len() - i,
        {
            proof {
                assert(suffix.take(i + 1 - depth).drop_last() =~= suffix.take(i - depth));
                assert(suffix.take(i + 1 - depth).last() == self.segments@[i as int]@);
            }
            match out.join(self.segments[i].as_str()) {
                Err(e) => {
                    proof {
                        lemma_graft_decides(to@, suffix, i + 1 - depth);
                    }
                    return Err(e);
                },
                Ok(u) => {
                    out = u;
                },
            }
            i += 1;
        }
        assert(suffix.take(suffix.len() as int) =~= suffix);
        Ok(out)
    }

    /// The number of segments.
    pub fn depth(&self) -> (r: usize)
        ensures
            r == self@.segments.len(),
    {
        self.segments.len()
    }

    /// The uri itself, or the one above it with so many segments.
    pub fn cut(&self, depth: usize) -> (r: VfsUri)
        ensures
            r@ == self@.cut(depth as nat),
    {
        let mut segments = clone_texts(&self.segments);
        let ghost all = texts(segments@);
        if depth < segments.len() {
            segments.truncate(depth);
            assert(texts(segments@) =~= all.take(depth as int));
        }
        VfsUri { scheme: self.scheme.clone(), authority: self.authority.clone(), segments }
    }

    /// The text of the uri.
    pub fn to_string(&self) -> (r: String)
        ensures
            r@ == display(self@),
            self@.well_formed() && self@.without_dots() ==> parsed(r@) == Ok::<UriView, ErrorView>(
                self@,
            ),
    {
        let mut encoded: Vec<String> = Vec::new();
        let mut i: usize = 0;
        let ghost segs = self@.segments;
        assert(texts(encoded@) =~= encoded_segments(segs.take(0)));
        while i < self.segments.len()
            invariant
                i <= self.segments@.len(),
                segs == texts(self.segments@),
                texts(encoded@) == encoded_segments(segs.take(i as int)),
            decreases self.segments.len() - i,
        {
            let ghost before = encoded@;
            encoded.push(encode_segment(self.segments[i].as_str()));
            i += 1;
            assert(texts(encoded@) =~= texts(before).push(encoded@.last()@));
            assert(encoded_segments(segs.take(i as int)) =~= encoded_segments(
                segs.take(i - 1),
            ).push(percent_encoded(segs[i - 1])));
        }
        assert(segs.take(segs.len() as int) =~= segs);
        let head = concat3(self.scheme.as_str(), "://", self.authority.as_str());
        let tail = join_texts(&encoded, "/");
        let r = concat3(head.as_str(), "/", tail.as_str());
        proof {
            if self@.well_formed() && self@.without_dots() {
                law_parse_of_display(self@);
            }
        }
        r
    }
}

proof fn lemma_graft_decides(to: UriView, suffix: Seq<Seq<char>>, i: int)
    requires
        0 <= i <= suffix.len(),
        graft(to, suffix.take(i)) is Err,
    ensures
        graft(to, suffix) == graft(to, suffix.take(i)),
    decreases suffix.len() - i,
{
    if i == suffix.len() {
        assert(suffix.take(i) =~= suffix);
    } else {
        assert(suffix.take(i + 1).drop_last() =~= suffix.take(i));
        lemma_graft_decides(to, suffix, i + 1);
    }
}

/// Where every segment can be joined, they are appended as they are.
pub proof fn lemma_graft(to: UriView, suffix: Seq<Seq<char>>)
    ensures
        graft(to, suffix) matches Ok(u) ==> u == (UriView {
            segments: to.segments + suffix,
            ..to
        }),
    decreases suffix.len(),
{
    if suffix.len() == 0 {
        assert(to.segments + suffix =~= to.segments);
    } else {
        lemma_graft(to, suffix.drop_last());
        assert((to.segments + suffix.drop_last()).push(suffix.last()) =~= to.segments + suffix);
    }
}

proof fn lemma_part_decides(parts: Seq<PartView>, i: int)
    requires
        0 <= i <= parts.len(),
        local_segments(parts.take(i)) is Err,
    ensures
        local_segments(parts) == local_segments(parts.take(i)),
    decreases parts.len() - i,
{
    if i == parts.len() {
        assert(parts.take(i) =~= parts);
    } else {
        assert(parts.take(i + 1).drop_last() =~= parts.take(i));
        lemma_part_decides(parts, i + 1);
    }
}

} // verus!
