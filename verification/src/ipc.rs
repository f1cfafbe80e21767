//! The rules of the commands and of the `vfs` protocol by which a client
//! reaches the file system.
use std::path::Path;
use vstd::prelude::*;
use vstd::utf8::encode_utf8;
use crate::error::{ErrorView, VfsError};
use crate::paths::components_of;
use crate::percent::{decode_percent, percent_decoded, percent_encoded};
use crate::text::{
    chars_of, concat2, concat3, decimal, decimal_text, find_char, numeral, parse_numeral,
    starts_with, text_between, trim_start,
};
use crate::types::opt_text;
use crate::uri::{display, local_uri, parsed, uri_result, UriView, VfsUri};

verus! {

pub const STATUS_OK: u16 = 200;

pub const STATUS_PARTIAL_CONTENT: u16 = 206;

pub const STATUS_BAD_REQUEST: u16 = 400;

pub const STATUS_FORBIDDEN: u16 = 403;

pub const STATUS_NOT_FOUND: u16 = 404;

pub const STATUS_INTERNAL_SERVER_ERROR: u16 = 500;

/// How much a read through a command gives at most, where the client names no
/// limit: larger files are read through the protocol.
pub const DEFAULT_MAX_READ: u64 = 16777216;

/// The characters that count as white space at the ends of a text.
pub open spec fn white(c: char) -> bool {
    ||| '\u{9}' <= c <= '\u{d}'
    ||| c == '\u{20}'
    ||| c == '\u{85}'
    ||| c == '\u{a0}'
    ||| c == '\u{1680}'
    ||| '\u{2000}' <= c <= '\u{200a}'
    ||| c == '\u{2028}'
    ||| c == '\u{2029}'
    ||| c == '\u{202f}'
    ||| c == '\u{205f}'
    ||| c == '\u{3000}'
}

/// The text between `from` and `to` is `s` without the white space at its
/// ends.
pub open spec fn trims_to(s: Seq<char>, from: int, to: int) -> bool {
    &&& 0 <= from <= to <= s.len()
    &&& forall|i: int| 0 <= i < from ==> white(#[trigger] s[i])
    &&& forall|i: int| to <= i < s.len() ==> white(#[trigger] s[i])
    &&& from < to ==> !white(s[from]) && !white(s[to - 1])
}

/// `s` without the white space at its ends.
pub open spec fn trimmed(s: Seq<char>) -> Seq<char>
    decreases s.len(),
{
    if s.len() == 0 {
        s
    } else if white(s[0]) {
        trimmed(s.drop_first())
    } else if white(s.last()) {
        trimmed(s.drop_last())
    } else {
        s
    }
}

/// `s` up to the first `c`, or all of it.
pub open spec fn up_to(s: Seq<char>, c: char) -> Seq<char>
    decreases s.len(),
{
    if s.len() == 0 || s[0] == c {
        Seq::empty()
    } else {
        seq![s[0]] + up_to(s.drop_first(), c)
    }
}

/// The range of bytes that `start-end` asks for of so many bytes, its last
/// byte part of it: an empty start asks for the last bytes, an empty end for
/// all from the start on.
pub open spec fn byte_range(start: Seq<char>, end: Seq<char>, size: u64) -> Option<(u64, u64)> {
    if start.len() == 0 {
        match numeral(end) {
            Some(n) => if n == 0 || size == 0 {
                None
            } else {
                Some(
                    (
                        if n < size {
                            (size - n) as u64
                        } else {
                            0
                        },
                        (size - 1) as u64,
                    ),
                )
            },
            None => None,
        }
    } else {
        match numeral(start) {
            None => None,
            Some(first) => if first >= size {
                None
            } else if end.len() == 0 {
                Some((first, (size - 1) as u64))
            } else {
                match numeral(end) {
                    None => None,
                    Some(last) => if last < first {
                        None
                    } else if last < size {
                        Some((first, last))
                    } else {
                        Some((first, (size - 1) as u64))
                    },
                }
            },
        }
    }
}

/// The range that a header asks for: the first of those that it lists.
pub open spec fn header_range(header: Seq<char>, size: u64) -> Option<(u64, u64)> {
    if !starts_with(header, "bytes="@) {
        None
    } else {
        let first = trimmed(up_to(header.skip(6), ','));
        let start = up_to(first, '-');
        if start.len() == first.len() {
            None
        } else {
            byte_range(start, first.skip(start.len() as int + 1), size)
        }
    }
}

fn is_white(c: char) -> (r: bool)
    ensures
        r == white(c),
{
    ('\u{9}' <= c && c <= '\u{d}') || c == '\u{20}' || c == '\u{85}' || c == '\u{a0}' || c
        == '\u{1680}' || ('\u{2000}' <= c && c <= '\u{200a}') || c == '\u{2028}' || c == '\u{2029}'
        || c == '\u{202f}' || c == '\u{205f}' || c == '\u{3000}'
}

proof fn lemma_up_to(s: Seq<char>, c: char, i: int)
    requires
        0 <= i <= s.len(),
        forall|j: int| 0 <= j < i ==> s[j] != c,
        i < s.len() ==> s[i] == c,
    ensures
        up_to(s, c) == s.take(i),
    decreases s.len(),
{
    if s.len() == 0 || i == 0 {
        assert(s.take(i) =~= Seq::<char>::empty());
    } else {
        assert(s[0] != c);
        let t = s.drop_first();
        assert forall|j: int| 0 <= j < i - 1 implies t[j] != c by {
            assert(t[j] == s[j + 1]);
        }
        lemma_up_to(t, c, i - 1);
        assert(seq![s[0]] + t.take(i - 1) =~= s.take(i));
    }
}

proof fn lemma_trimmed(s: Seq<char>, from: int, to: int)
    requires
        trims_to(s, from, to),
    ensures
        trimmed(s) == s.subrange(from, to),
    decreases s.len(),
{
    if s.len() == 0 {
        assert(s.subrange(from, to) =~= s);
    } else if white(s[0]) {
        let t = s.drop_first();
        if from == 0 {
            assert(to == 0);
            assert forall|i: int| 0 <= i < t.len() implies white(#[trigger] t[i]) by {
                assert(t[i] == s[i + 1]);
            }
            assert(trims_to(t, 0, 0));
            lemma_trimmed(t, 0, 0);
            assert(t.subrange(0, 0) =~= s.subrange(from, to));
        } else {
            assert forall|i: int| 0 <= i < from - 1 implies white(#[trigger] t[i]) by {
                assert(t[i] == s[i + 1]);
            }
            assert forall|i: int| to - 1 <= i < t.len() implies white(#[trigger] t[i]) by {
                assert(t[i] == s[i + 1]);
            }
            lemma_trimmed(t, from - 1, to - 1);
            assert(t.subrange(from - 1, to - 1) =~= s.subrange(from, to));
        }
    } else if white(s.last()) {
        let t = s.drop_last();
        assert(from == 0);
        assert(to < s.len()) by {
            if to == s.len() {
                assert(!white(s[to - 1]));
            }
        }
        assert(trims_to(t, from, to));
        lemma_trimmed(t, from, to);
        assert(t.subrange(from, to) =~= s.subrange(from, to));
    } else {
        assert(from == 0);
        assert(to == s.len()) by {
            if to < s.len() {
                assert(white(s[s.len() - 1]));
            }
        }
        assert(s.subrange(from, to) =~= s);
    }
}

/// The range that `start-end` asks for.
fn read_range(start: &str, end: &str, size: u64) -> (r: Option<(u64, u64)>)
    ensures
        r == byte_range(start@, end@, size),
{
    if start.is_empty() {
        return match parse_numeral(end) {
            Some(n) => {
                if n == 0 || size == 0 {
                    None
                } else if n < size {
                    Some((size - n, size - 1))
                } else {
                    Some((0, size - 1))
                }
            },
            None => None,
        };
    }
    let first: u64 = match parse_numeral(start) {
        Some(n) => n,
        None => {
            return None;
        },
    };
    if first >= size {
        return None;
    }
    let last: u64 = if end.is_empty() {
        size - 1
    } else {
        match parse_numeral(end) {
            Some(n) => if n < size {
                n
            } else {
                size - 1
            },
            None => {
                return None;
            },
        }
    };
    if last < first {
        return None;
    }
    Some((first, last))
}

/// The range that a header asks for of so many bytes, its last byte part of
/// it; of a list of ranges only the first counts.
pub fn parse_single_range(header: &str, size: u64) -> (r: Option<(u64, u64)>)
    ensures
        r == header_range(header@, size),
        r matches Some((first, last)) ==> first <= last < size,
{
    proof {
        law_range_is_within_the_size(header@, size);
        reveal_strlit("bytes=");
    }
    let chars = chars_of(header);
    if chars.len() < 6 {
        return None;
    }
    if !(chars[0] == 'b' && chars[1] == 'y' && chars[2] == 't' && chars[3] == 'e' && chars[4] == 's'
        && chars[5] == '=') {
        proof {
            let p = chars@.take(6);
            assert(p[0] == chars@[0] && p[1] == chars@[1] && p[2] == chars@[2] && p[3] == chars@[3]
                && p[4] == chars@[4] && p[5] == chars@[5]);
        }
        return None;
    }
    assert(chars@.take(6) =~= "bytes="@);
    let ghost spec_part = chars@.skip(6);
    let stop: usize = match find_char(&chars, 6, ',') {
        Some(i) => i,
        None => chars.len(),
    };
    let ghost listed = spec_part.take(stop - 6);
    proof {
        assert forall|j: int| 0 <= j < stop - 6 implies spec_part[j] != ',' by {
            assert(spec_part[j] == chars@[j + 6]);
        }
        lemma_up_to(spec_part, ',', stop - 6);
    }
    let mut from: usize = 6;
    while from < stop && is_white(chars[from])
        invariant
            6 <= from <= stop <= chars@.len(),
            forall|i: int| 6 <= i < from ==> white(#[trigger] chars@[i]),
        decreases stop - from,
    {
        from += 1;
    }
    let mut to: usize = stop;
    while to > from && is_white(chars[to - 1])
        invariant
            6 <= from <= to <= stop <= chars@.len(),
            forall|i: int| to <= i < stop ==> white(#[trigger] chars@[i]),
        decreases to,
    {
        to -= 1;
    }
    let ghost first = chars@.subrange(from as int, to as int);
    proof {
        assert forall|i: int| 0 <= i < from - 6 implies white(#[trigger] listed[i]) by {
            assert(listed[i] == chars@[i + 6]);
        }
        assert forall|i: int| to - 6 <= i < listed.len() implies white(#[trigger] listed[i]) by {
            assert(listed[i] == chars@[i + 6]);
        }
        assert(trims_to(listed, from - 6, to - 6));
        lemma_trimmed(listed, from - 6, to - 6);
        assert(listed.subrange(from - 6, to - 6) =~= first);
    }
    match find_char(&chars, from, '-') {
        Some(dash) => {
            if dash >= to {
                proof {
                    assert forall|j: int| 0 <= j < first.len() implies first[j] != '-' by {
                        assert(first[j] == chars@[j + from]);
                    }
                    lemma_up_to(first, '-', first.len() as int);
                }
                return None;
            }
            proof {
                let d = dash - from;
                assert forall|j: int| 0 <= j < d implies first[j] != '-' by {
                    assert(first[j] == chars@[j + from]);
                }
                assert(first[d] == chars@[dash as int]);
                lemma_up_to(first, '-', d);
                assert(first.take(d) =~= chars@.subrange(from as int, dash as int));
                assert(first.skip(d + 1) =~= chars@.subrange(dash + 1, to as int));
            }
            let start = text_between(&chars, from, dash);
            let end = text_between(&chars, dash + 1, to);
            read_range(start.as_str(), end.as_str(), size)
        },
        None => {
            proof {
                assert forall|j: int| 0 <= j < first.len() implies first[j] != '-' by {
                    assert(first[j] == chars@[j + from]);
                }
                lemma_up_to(first, '-', first.len() as int);
            }
            None
        },
    }
}

/// A range that a header asks for lies within the bytes that there are, and
/// holds at least one.
pub proof fn law_range_is_within_the_size(header: Seq<char>, size: u64)
    ensures
        header_range(header, size) matches Some((first, last)) ==> first <= last < size,
{
}

/// The status of an answer that tells of an error.
pub open spec fn error_status(e: ErrorView) -> u16 {
    match e {
        ErrorView::NotFound(_) => STATUS_NOT_FOUND,
        ErrorView::PermissionDenied(_) => STATUS_FORBIDDEN,
        _ => STATUS_INTERNAL_SERVER_ERROR,
    }
}

/// The status of an answer that tells of an error.
pub fn status_for_error(err: &VfsError) -> (r: u16)
    ensures
        r == error_status(err@),
{
    match err {
        VfsError::NotFound(_) => STATUS_NOT_FOUND,
        VfsError::PermissionDenied(_) => STATUS_FORBIDDEN,
        _ => STATUS_INTERNAL_SERVER_ERROR,
    }
}

/// An answer of the protocol: a status, headers and bytes.
#[derive(Debug)]
pub struct Response {
    pub status: u16,
    pub headers: Vec<(String, String)>,
    pub body: Vec<u8>,
}

#[verifier::ext_equal]
pub struct ResponseView {
    pub status: u16,
    pub headers: Seq<(Seq<char>, Seq<char>)>,
    pub body: Seq<u8>,
}

/// The views of headers.
pub open spec fn header_views(headers: Seq<(String, String)>) -> Seq<(Seq<char>, Seq<char>)> {
    headers.map_values(|h: (String, String)| (h.0@, h.1@))
}

impl View for Response {
    type V = ResponseView;

    open spec fn view(&self) -> ResponseView {
        ResponseView {
            status: self.status,
            headers: header_views(self.headers@),
            body: self.body@,
        }
    }
}

/// The answer that tells of an error.
pub open spec fn error_answer(status: u16, message: Seq<char>) -> ResponseView {
    ResponseView {
        status,
        headers: seq![("content-type"@, "text/plain; charset=utf-8"@)],
        body: encode_utf8(message),
    }
}

/// The answer that tells of an error.
pub fn error_response(status: u16, message: &str) -> (r: Response)
    ensures
        r@ == error_answer(status, message@),
{
    let mut headers: Vec<(String, String)> = Vec::new();
    headers.push(("content-type".to_owned(), "text/plain; charset=utf-8".to_owned()));
    let r = Response { status, headers, body: message.as_bytes_vec() };
    assert(r@ =~= error_answer(status, message@));
    r
}

/// The answer to a request that failed.
pub open spec fn failure_answer(e: ErrorView) -> ResponseView {
    error_answer(error_status(e), e.message())
}

/// The answer to a request that failed.
pub fn failure_response(e: &VfsError) -> (r: Response)
    ensures
        r@ == failure_answer(e@),
{
    let message = e.to_string();
    error_response(status_for_error(e), message.as_str())
}

/// The uri that a request is for: its path is a percent-encoded uri behind
/// slashes.
pub open spec fn requested(path: Seq<char>) -> Result<UriView, ResponseView> {
    match percent_decoded(trim_start(path, '/')) {
        None => Err(error_answer(STATUS_BAD_REQUEST, "invalid path encoding"@)),
        Some(text) => match parsed(text) {
            Err(e) => Err(error_answer(STATUS_BAD_REQUEST, e.message())),
            Ok(u) => Ok(u),
        },
    }
}

fn without_slashes(path: &str) -> (r: String)
    ensures
        r@ == trim_start(path@, '/'),
{
    let chars = chars_of(path);
    let mut i: usize = 0;
    let ghost all = chars@;
    assert(all.skip(0) =~= all);
    while i < chars.len() && chars[i] == '/'
        invariant
            i <= chars@.len(),
            all == chars@,
            trim_start(all.skip(i as int), '/') == trim_start(all, '/'),
        decreases chars.len() - i,
    {
        assert(all.skip(i as int).drop_first() =~= all.skip(i + 1));
        assert(all.skip(i as int)[0] == '/');
        i += 1;
    }
    assert(i < all.len() ==> all.skip(i as int)[0] == all[i as int]);
    assert(all.subrange(i as int, all.len() as int) =~= all.skip(i as int));
    text_between(&chars, i, chars.len())
}

/// The uri that a request is for, or the answer to one that is for none.
pub fn request_uri(path: &str) -> (r: Result<VfsUri, Response>)
    ensures
        match r {
            Ok(u) => requested(path@) == Ok::<UriView, ResponseView>(u@),
            Err(answer) => requested(path@) == Err::<UriView, ResponseView>(answer@),
        },
{
    let encoded = without_slashes(path);
    match decode_percent(encoded.as_str()) {
        None => Err(error_response(STATUS_BAD_REQUEST, "invalid path encoding")),
        Some(text) => match VfsUri::parse(text.as_str()) {
            Err(e) => {
                let message = e.to_string();
                Err(error_response(STATUS_BAD_REQUEST, message.as_str()))
            },
            Ok(u) => Ok(u),
        },
    }
}

/// What an answer is to hold before its bytes are read.
#[derive(Debug)]
pub struct AnswerPlan {
    pub status: u16,
    pub mime: String,
    pub content_range: Option<String>,
    /// The bytes to read: from the first up to the second, or all.
    pub range: Option<(u64, u64)>,
}

pub struct PlanView {
    pub status: u16,
    pub mime: Seq<char>,
    pub content_range: Option<Seq<char>>,
    pub range: Option<(u64, u64)>,
}

impl View for AnswerPlan {
    type V = PlanView;

    open spec fn view(&self) -> PlanView {
        PlanView {
            status: self.status,
            mime: self.mime@,
            content_range: opt_text(self.content_range),
            range: self.range,
        }
    }
}

/// The view of a header that may be missing.
pub open spec fn header_view(h: Option<&str>) -> Option<Seq<char>> {
    match h {
        Some(s) => Some(s@),
        None => None,
    }
}

/// The media type of an answer.
pub open spec fn answer_mime(mime: Option<Seq<char>>) -> Seq<char> {
    match mime {
        Some(m) => m,
        None => "application/octet-stream"@,
    }
}

/// What an answer is to hold for a file of so many bytes: the range that the
/// header asks for where it names one, and else all.
pub open spec fn planned_answer(
    mime: Option<Seq<char>>,
    size: u64,
    range_header: Option<Seq<char>>,
) -> PlanView {
    let range = match range_header {
        Some(h) => header_range(h, size),
        None => None,
    };
    match range {
        Some((first, last)) => PlanView {
            status: STATUS_PARTIAL_CONTENT,
            mime: answer_mime(mime),
            content_range: Some(
                "bytes "@ + decimal(first as nat) + "-"@ + decimal(last as nat) + "/"@ + decimal(
                    size as nat,
                ),
            ),
            range: Some((first, (last + 1) as u64)),
        },
        None => PlanView {
            status: STATUS_OK,
            mime: answer_mime(mime),
            content_range: None,
            range: None,
        },
    }
}

/// What an answer is to hold, with a guessed media type.
pub fn plan_answer_as(mime: Option<String>, size: u64, range_header: Option<&str>) -> (r: AnswerPlan)
    ensures
        r@ == planned_answer(opt_text(mime), size, header_view(range_header)),
{
    let mime = match mime {
        Some(m) => m,
        None => "application/octet-stream".to_owned(),
    };
    let range = match range_header {
        Some(h) => parse_single_range(h, size),
        None => None,
    };
    match range {
        Some((first, last)) => {
            let a = concat3("bytes ", decimal_text(first).as_str(), "-");
            let b = concat3(a.as_str(), decimal_text(last).as_str(), "/");
            let text = concat2(b.as_str(), decimal_text(size).as_str());
            proof {
                assert(text@ =~= "bytes "@ + decimal(first as nat) + "-"@ + decimal(last as nat)
                    + "/"@ + decimal(size as nat));
            }
            AnswerPlan {
                status: STATUS_PARTIAL_CONTENT,
                mime,
                content_range: Some(text),
                range: Some((first, last + 1)),
            }
        },
        None => AnswerPlan { status: STATUS_OK, mime, content_range: None, range: None },
    }
}

/// The answer that holds the bytes.
pub open spec fn answer(plan: PlanView, body: Seq<u8>) -> ResponseView {
    let headers = seq![
        ("content-type"@, plan.mime),
        ("accept-ranges"@, "bytes"@),
        ("content-length"@, decimal(body.len())),
    ];
    ResponseView {
        status: plan.status,
        headers: match plan.content_range {
            Some(range) => headers.push(("content-range"@, range)),
            None => headers,
        },
        body,
    }
}

/// The answer that holds the bytes.
pub fn respond(plan: AnswerPlan, body: Vec<u8>) -> (r: Response)
    ensures
        r@ == answer(plan@, body@),
{
    let ghost want = answer(plan@, body@);
    let mut headers: Vec<(String, String)> = Vec::new();
    headers.push(("content-type".to_owned(), plan.mime));
    headers.push(("accept-ranges".to_owned(), "bytes".to_owned()));
    headers.push(("content-length".to_owned(), decimal_text(body.len() as u64)));
    if let Some(range) = plan.content_range {
        headers.push(("content-range".to_owned(), range));
    }
    let r = Response { status: plan.status, headers, body };
    assert(r@.headers =~= want.headers);
    r
}

/// A request by the percent-encoded text of a uri is for that uri, behind
/// however many slashes.
pub proof fn law_request_names_its_uri(u: UriView, encoded: Seq<char>, path: Seq<char>)
    requires
        u.well_formed(),
        u.without_dots(),
        percent_decoded(encoded) == Some(display(u)),
        trim_start(path, '/') == encoded,
    ensures
        requested(path) == Ok::<UriView, ResponseView>(u),
{
    crate::uri_laws::law_parse_of_display(u);
}

/// Every uri that was read from a text and holds no dot segment has such a
/// path: a slash and its text, percent-encoded.
pub proof fn law_every_uri_can_be_requested(u: UriView)
    requires
        u.well_formed(),
        u.without_dots(),
    ensures
        requested(seq!['/'] + percent_encoded(display(u))) == Ok::<UriView, ResponseView>(u),
{
    let encoded = percent_encoded(display(u));
    let path = seq!['/'] + encoded;
    crate::percent::law_decode_of_encode(display(u));
    crate::percent::lemma_encoded_plain(encode_utf8(display(u)));
    assert(path.drop_first() =~= encoded);
    assert(path[0] == '/');
    assert(encoded.len() == 0 || encoded[0] != '/');
    reveal_with_fuel(trim_start, 2);
    law_request_names_its_uri(u, encoded, path);
}

/// How a read through a command is made.
#[derive(Clone, Copy, Debug, PartialEq, Eq)]
pub enum ReadPlan {
    /// The bytes from the first up to the second.
    Range(u64, u64),
    /// All bytes, of which there may be no more than so many.
    All(u64),
}

/// How a read through a command is made; a range may be no longer than the
/// limit.
pub open spec fn planned_read(range: Option<(u64, u64)>, max_size: Option<u64>) -> Result<
    ReadPlan,
    ErrorView,
> {
    let max = match max_size {
        Some(m) => m,
        None => DEFAULT_MAX_READ,
    };
    match range {
        Some((start, end)) => if end - start > max {
            Err(ErrorView::TooLarge { limit: max })
        } else {
            Ok(ReadPlan::Range(start, end))
        },
        None => Ok(ReadPlan::All(max)),
    }
}

/// How a read through a command is made.
pub fn plan_read(range: Option<(u64, u64)>, max_size: Option<u64>) -> (r: Result<
    ReadPlan,
    VfsError,
>)
    ensures
        match r {
            Ok(plan) => planned_read(range, max_size) == Ok::<ReadPlan, ErrorView>(plan),
            Err(e) => planned_read(range, max_size) == Err::<ReadPlan, ErrorView>(e@),
        },
{
    let max: u64 = match max_size {
        Some(m) => m,
        None => DEFAULT_MAX_READ,
    };
    match range {
        Some((start, end)) => {
            if end.saturating_sub(start) > max {
                return Err(VfsError::TooLarge { limit: max });
            }
            Ok(ReadPlan::Range(start, end))
        },
        None => Ok(ReadPlan::All(max)),
    }
}

/// The uri of the home directory, where there is one.
pub fn home_uri(home: Option<&Path>) -> (r: Result<VfsUri, VfsError>)
    ensures
        uri_result(r) == match home {
            Some(p) => local_uri(components_of(p)),
            None => Err::<UriView, ErrorView>(
                ErrorView::Io { message: "could not determine home directory"@ },
            ),
        },
{
    match home {
        Some(p) => VfsUri::from_local_path(p),
        None => Err(
            VfsError::Io { message: "could not determine home directory".to_owned() },
        ),
    }
}

} // verus!
