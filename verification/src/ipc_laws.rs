//! What the protocol and the commands answer, in terms of what was asked.
use std::path::Path;
use vstd::prelude::*;
use vstd::utf8::encode_utf8;
use crate::error::{ErrorView, VfsError};
use crate::ipc::{
    error_response, failure_response, home_uri, parse_single_range, plan_answer_as, plan_read,
    request_uri, respond, status_for_error, trimmed, up_to, white, AnswerPlan, ReadPlan, Response,
    DEFAULT_MAX_READ, STATUS_BAD_REQUEST, STATUS_FORBIDDEN, STATUS_INTERNAL_SERVER_ERROR,
    STATUS_NOT_FOUND, STATUS_OK, STATUS_PARTIAL_CONTENT,
};
use crate::mime::guessed_mime;
use crate::paths::components_of;
use crate::percent::percent_decoded;
use crate::request::{RequestAction, RequestPhaseView, RequestReply, VfsRequest};
use crate::text::{decimal, numeral, trim_start};
use crate::uri::{local_uri, parsed, VfsUri};

verus! {

/// The text holds no `c`.
pub open spec fn free_of(s: Seq<char>, c: char) -> bool {
    forall|i: int| 0 <= i < s.len() ==> #[trigger] s[i] != c
}

/// The text holds nothing but white space.
pub open spec fn blank(s: Seq<char>) -> bool {
    forall|i: int| 0 <= i < s.len() ==> white(#[trigger] s[i])
}

/// What follows the first of a list: nothing, or a comma and the rest.
pub open spec fn list_rest(s: Seq<char>) -> bool {
    s.len() == 0 || s[0] == ','
}

proof fn lemma_up_to(s: Seq<char>, rest: Seq<char>, c: char)
    requires
        free_of(s, c),
        rest.len() == 0 || rest[0] == c,
    ensures
        up_to(s + rest, c) == s,
    decreases s.len(),
{
    if s.len() == 0 {
        assert(s + rest =~= rest);
        assert(up_to(rest, c) =~= s);
    } else {
        assert((s + rest)[0] == s[0]);
        assert((s + rest).drop_first() =~= s.drop_first() + rest);
        assert forall|i: int| 0 <= i < s.drop_first().len() implies #[trigger] s.drop_first()[i]
            != c by {
            assert(s.drop_first()[i] == s[i + 1]);
        }
        lemma_up_to(s.drop_first(), rest, c);
        assert(seq![s[0]] + s.drop_first() =~= s);
    }
}

proof fn lemma_trimmed(before: Seq<char>, s: Seq<char>, after: Seq<char>)
    requires
        blank(before),
        blank(after),
        s.len() > 0,
        !white(s[0]),
        !white(s.last()),
    ensures
        trimmed(before + s + after) == s,
    decreases before.len() + after.len(),
{
    let all = before + s + after;
    if before.len() > 0 {
        assert(all[0] == before[0]);
        assert(all.drop_first() =~= before.drop_first() + s + after);
        assert forall|i: int| 0 <= i < before.drop_first().len() implies white(
            #[trigger] before.drop_first()[i],
        ) by {
            assert(before.drop_first()[i] == before[i + 1]);
        }
        lemma_trimmed(before.drop_first(), s, after);
    } else {
        assert(all[0] == s[0]);
        if after.len() > 0 {
            assert(all.last() == after.last());
            assert(all.drop_last() =~= before + s + after.drop_last());
            lemma_trimmed(before, s, after.drop_last());
        } else {
            assert(all =~= s);
        }
    }
}

/// The range that `first-last` asks for, as numbers.  Of `-n` it is the last
/// `n` bytes, or all where there are fewer; of `a-` all bytes from `a` on; of
/// `a-b` those from `a` to `b` or to the end.  White space around it does not
/// count, nor does what follows a comma.  There is none where no byte is asked
/// for, where the range begins past the end or ends before it begins, and where
/// a number is none.
pub proof fn law_range_is_read(
    header: &str,
    size: u64,
    r: Option<(u64, u64)>,
    before: Seq<char>,
    a: Seq<char>,
    b: Seq<char>,
    after: Seq<char>,
    rest: Seq<char>,
)
    requires
        call_ensures(parse_single_range, (header, size), r),
        header@ == "bytes="@ + (before + (a + seq!['-'] + b) + after + rest),
        blank(before),
        blank(after),
        list_rest(rest),
        free_of(before, ','),
        free_of(after, ','),
        free_of(a, ','),
        free_of(b, ','),
        free_of(a, '-'),
        a.len() > 0 ==> !white(a[0]),
        b.len() > 0 ==> !white(b.last()),
    ensures
        a.len() == 0 ==> {
            &&& numeral(b) is None || numeral(b) == Some(0u64) || size == 0 ==> r is None
            &&& numeral(b) matches Some(n) ==> (0 < n && 0 < size ==> (r matches Some((first, last))
                && last == size - 1 && (n <= size ==> last - first + 1 == n) && (n > size ==> first
                == 0)))
        },
        a.len() > 0 ==> {
            &&& numeral(a) is None ==> r is None
            &&& b.len() > 0 && numeral(b) is None ==> r is None
            &&& numeral(a) matches Some(first) ==> {
                &&& first >= size ==> r is None
                &&& first < size && b.len() == 0 ==> r == Some((first, (size - 1) as u64))
                &&& numeral(b) matches Some(last) ==> (b.len() > 0 ==> {
                    &&& last < first ==> r is None
                    &&& first <= last && first < size && last < size ==> r == Some((first, last))
                    &&& first <= last && first < size && last >= size ==> r == Some(
                        (first, (size - 1) as u64),
                    )
                })
            }
        },
{
    reveal_strlit("bytes=");
    let mid = a + seq!['-'] + b;
    let list = before + mid + after + rest;
    assert(header@.skip(6) =~= list);
    assert(header@.take(6) =~= "bytes="@);
    let part = before + mid + after;
    assert(list =~= part + rest);
    assert forall|i: int| 0 <= i < part.len() implies #[trigger] part[i] != ',' by {
        if i < before.len() {
            assert(part[i] == before[i]);
        } else if i < before.len() + a.len() {
            assert(part[i] == a[i - before.len()]);
        } else if i == before.len() + a.len() {
            assert(part[i] == '-');
        } else if i < before.len() + mid.len() {
            assert(part[i] == b[i - before.len() - a.len() - 1]);
        } else {
            assert(part[i] == after[i - before.len() - mid.len()]);
        }
    }
    lemma_up_to(part, rest, ',');
    assert(mid[0] == if a.len() > 0 {
        a[0]
    } else {
        '-'
    });
    assert(mid.last() == if b.len() > 0 {
        b.last()
    } else {
        '-'
    });
    lemma_trimmed(before, mid, after);
    assert(mid =~= a + (seq!['-'] + b));
    lemma_up_to(a, seq!['-'] + b, '-');
    assert(mid.skip(a.len() as int + 1) =~= b);
}

/// A header that does not begin with `bytes=` asks for no range, nor does one
/// without a dash before the first comma.
pub proof fn law_other_headers_ask_for_no_range(
    header: &str,
    size: u64,
    r: Option<(u64, u64)>,
    s: Seq<char>,
    rest: Seq<char>,
)
    requires
        call_ensures(parse_single_range, (header, size), r),
    ensures
        header@.len() < 6 || header@.take(6) != "bytes="@ ==> r is None,
        header@ == "bytes="@ + (s + rest) && free_of(s, '-') && free_of(s, ',') && list_rest(rest)
            ==> r is None,
        r matches Some((first, last)) ==> first <= last < size,
{
    reveal_strlit("bytes=");
    if header@ == "bytes="@ + (s + rest) && free_of(s, '-') && free_of(s, ',') && list_rest(rest) {
        assert(header@.skip(6) =~= s + rest);
        lemma_up_to(s, rest, ',');
        lemma_trimmed_holds(s, '-');
        assert(trimmed(s) + Seq::<char>::empty() =~= trimmed(s));
        lemma_up_to(trimmed(s), Seq::empty(), '-');
    }
}

proof fn lemma_trimmed_holds(s: Seq<char>, c: char)
    requires
        free_of(s, c),
    ensures
        free_of(trimmed(s), c),
    decreases s.len(),
{
    if s.len() == 0 {
    } else if white(s[0]) {
        assert forall|i: int| 0 <= i < s.drop_first().len() implies #[trigger] s.drop_first()[i]
            != c by {
            assert(s.drop_first()[i] == s[i + 1]);
        }
        lemma_trimmed_holds(s.drop_first(), c);
    } else if white(s.last()) {
        lemma_trimmed_holds(s.drop_last(), c);
    }
}

/// The spaces that may stand around a range: the blank, the controls from the
/// tabulator to the carriage return, and the spaces and line ends beyond ASCII.
pub proof fn law_white_space(c: char)
    ensures
        c == ' ' || c == '\t' || c == '\n' || c == '\r' || c == '\u{b}' || c == '\u{c}' ==> white(c),
        '!' <= c <= '~' || c < '\t' ==> !white(c),
        c > '~' ==> (white(c) <==> {
            let code = c as int;
            code == 133 || code == 160 || code == 5760 || 8192 <= code <= 8202 || code == 8232
                || code == 8233 || code == 8239 || code == 8287 || code == 12288
        }),
        '\r' < c < ' ' ==> !white(c),
{
}

/// What is missing is told as 404, what may not be touched as 403, and every
/// other failure as 500.
pub proof fn law_failures_have_their_status(err: &VfsError, r: u16)
    requires
        call_ensures(status_for_error, (err,), r),
    ensures
        *err is NotFound <==> r == 404,
        *err is PermissionDenied <==> r == 403,
        !(*err is NotFound) && !(*err is PermissionDenied) <==> r == 500,
{
}

/// The statuses of the protocol, and how much a command reads at most.
pub proof fn law_numbers_of_the_protocol()
    ensures
        STATUS_OK == 200,
        STATUS_PARTIAL_CONTENT == 206,
        STATUS_BAD_REQUEST == 400,
        STATUS_FORBIDDEN == 403,
        STATUS_NOT_FOUND == 404,
        STATUS_INTERNAL_SERVER_ERROR == 500,
        DEFAULT_MAX_READ == 16 * 1024 * 1024,
{
}

/// The answer is the message as plain text in UTF-8, and nothing else.
pub open spec fn tells_message(r: Response, status: u16, message: Seq<char>) -> bool {
    &&& r.status == status
    &&& r.body@ == encode_utf8(message)
    &&& r.headers@.len() == 1
    &&& r.headers@[0].0@ == "content-type"@
    &&& r.headers@[0].1@ == "text/plain; charset=utf-8"@
}

proof fn lemma_one_header(r: Response)
    ensures
        r@.headers.len() == r.headers@.len(),
        forall|i: int| 0 <= i < r.headers@.len() ==> #[trigger] r@.headers[i] == (
            r.headers@[i].0@,
            r.headers@[i].1@,
        ),
{
}

/// A failure is answered with the status it has, and with its message.
pub proof fn law_failures_are_told(
    status: u16,
    message: &str,
    r: Response,
    e: &VfsError,
    q: Response,
)
    ensures
        call_ensures(error_response, (status, message), r) ==> tells_message(r, status, message@),
        call_ensures(failure_response, (e,), q) ==> tells_message(
            q,
            if *e is NotFound {
                404
            } else if *e is PermissionDenied {
                403
            } else {
                500
            },
            e@.message(),
        ),
{
    lemma_one_header(r);
    lemma_one_header(q);
    if call_ensures(error_response, (status, message), r) {
        assert(r@.headers[0] == (r.headers@[0].0@, r.headers@[0].1@));
    }
    if call_ensures(failure_response, (e,), q) {
        assert(q@.headers[0] == (q.headers@[0].0@, q.headers@[0].1@));
    }
}

/// A request is for the uri that stands percent-encoded behind its slashes.
/// One whose text cannot be decoded, or is no uri, is answered with 400 and
/// the reason.
pub proof fn law_request_is_for_its_uri(path: &str, text: Seq<char>, r: Result<VfsUri, Response>)
    requires
        call_ensures(request_uri, (path,), r),
    ensures
        percent_decoded(trim_start(path@, '/')) is None ==> (r matches Err(a) && tells_message(
            a,
            400,
            "invalid path encoding"@,
        )),
        percent_decoded(trim_start(path@, '/')) == Some(text) ==> {
            &&& r is Ok == parsed(text) is Ok
            &&& parsed(text) matches Ok(u) ==> r->Ok_0@ == u
            &&& parsed(text) matches Err(e) ==> tells_message(r->Err_0, 400, e.message())
        },
{
    if let Err(a) = r {
        lemma_one_header(a);
        assert(a@.headers[0] == (a.headers@[0].0@, a.headers@[0].1@));
    }
}

/// Slashes before the text of a request do not count.
pub proof fn law_slashes_do_not_count(path: Seq<char>)
    ensures
        trim_start(seq!['/'] + path, '/') == trim_start(path, '/'),
        path.len() > 0 && path[0] != '/' ==> trim_start(path, '/') == path,
{
    assert((seq!['/'] + path).drop_first() =~= path);
}

/// A file is answered whole with 200; where a header asks for a range that
/// there is, with 206, the range and the size, and the bytes of just that range.
/// Without a guess its media type is that of any bytes.
pub proof fn law_answer_is_planned(
    mime: Option<String>,
    size: u64,
    range_header: Option<&str>,
    plan: AnswerPlan,
    found: Option<(u64, u64)>,
)
    requires
        call_ensures(plan_answer_as, (mime, size, range_header), plan),
        range_header matches Some(h) ==> call_ensures(parse_single_range, (h, size), found),
        range_header is None ==> found is None,
    ensures
        mime matches Some(m) ==> plan.mime@ == m@,
        mime is None ==> plan.mime@ == "application/octet-stream"@,
        found is None ==> plan.status == 200 && plan.range is None && plan.content_range is None,
        found matches Some((first, last)) ==> {
            &&& plan.status == 206
            &&& plan.range matches Some((from, to)) && from == first && to == last + 1
            &&& plan.content_range matches Some(text) && text@ == "bytes "@ + decimal(first as nat)
                + "-"@ + decimal(last as nat) + "/"@ + decimal(size as nat)
        },
{
    assert(plan@.range == plan.range);
    assert(plan@.content_range is Some == plan.content_range is Some);
}

/// The answer holds the bytes, tells their number and type, that ranges can be
/// asked for, and the range where it holds only one.
pub proof fn law_answer_holds_the_bytes(plan: AnswerPlan, body: Vec<u8>, r: Response)
    requires
        call_ensures(respond, (plan, body), r),
    ensures
        r.status == plan.status,
        r.body@ == body@,
        r.headers@.len() == if plan.content_range is Some {
            4int
        } else {
            3int
        },
        r.headers@[0].0@ == "content-type"@ && r.headers@[0].1@ == plan.mime@,
        r.headers@[1].0@ == "accept-ranges"@ && r.headers@[1].1@ == "bytes"@,
        r.headers@[2].0@ == "content-length"@ && r.headers@[2].1@ == decimal(body@.len()),
        plan.content_range matches Some(range) ==> r.headers@[3].0@ == "content-range"@
            && r.headers@[3].1@ == range@,
{
    lemma_one_header(r);
    assert(plan@.content_range is Some == plan.content_range is Some);
    assert(r@.headers[0] == (r.headers@[0].0@, r.headers@[0].1@));
    assert(r@.headers[1] == (r.headers@[1].0@, r.headers@[1].1@));
    assert(r@.headers[2] == (r.headers@[2].0@, r.headers@[2].1@));
    if plan.content_range is Some {
        assert(r@.headers[3] == (r.headers@[3].0@, r.headers@[3].1@));
    }
}

/// A command reads no more than the limit: a range that is longer is refused
/// with the limit, any other is read as asked for, and without one all bytes
/// are, within the limit.
pub proof fn law_command_reads_within_the_limit(
    range: Option<(u64, u64)>,
    max_size: Option<u64>,
    r: Result<ReadPlan, VfsError>,
)
    requires
        call_ensures(plan_read, (range, max_size), r),
    ensures
        ({
            let limit: u64 = if max_size is Some {
                max_size->0
            } else {
                16777216
            };
            &&& range matches Some((start, end)) ==> {
                &&& end > start + limit <==> r is Err
                &&& end > start + limit ==> r->Err_0@ == (ErrorView::TooLarge { limit })
                &&& end <= start + limit ==> r->Ok_0 == ReadPlan::Range(start, end)
            }
            &&& range is None ==> (r matches Ok(plan) && plan == ReadPlan::All(limit))
        }),
{
}

/// The home directory is the one at its path; without one there is no uri.
pub proof fn law_home_is_where_its_path_is(home: Option<&Path>, r: Result<VfsUri, VfsError>)
    requires
        call_ensures(home_uri, (home,), r),
    ensures
        home is None ==> (r matches Err(e) && e@ == (ErrorView::Io {
            message: "could not determine home directory"@,
        })),
        home matches Some(p) ==> {
            &&& r is Ok == local_uri(components_of(p)) is Ok
            &&& r matches Ok(u) ==> local_uri(components_of(p))->Ok_0 == u@
            &&& r matches Err(e) ==> local_uri(components_of(p))->Err_0 == e@
        },
{
}

/// A request begins with a look at its uri; one that is for no uri is answered
/// at once.
pub proof fn law_protocol_request_begins(
    path: &str,
    range_header: Option<String>,
    r: Result<(VfsRequest, RequestAction), Response>,
    named: Result<VfsUri, Response>,
)
    requires
        call_ensures(VfsRequest::begin, (path, range_header), r),
        call_ensures(request_uri, (path,), named),
    ensures
        r is Ok == named is Ok,
        r matches Ok((request, action)) ==> {
            &&& request@.uri == named->Ok_0@
            &&& request@.phase is Looking
            &&& request@.range_header is Some == range_header is Some
            &&& range_header matches Some(h) ==> request@.range_header == Some(h@)
            &&& action matches RequestAction::Stat(u) && u@ == named->Ok_0@
        },
        r matches Err(a) ==> a@ == named->Err_0@,
{
    if let Ok((request, action)) = r {
        assert(action@ is Stat == action is Stat);
    }
}

/// A request looks its uri up, opens it at the range that its plan has, takes
/// every chunk in, and sends them all; a failure at any point is told, and
/// nothing else is.
pub proof fn law_protocol_request_goes_on(
    q: &mut VfsRequest,
    reply: RequestReply,
    mime: Option<String>,
    action: RequestAction,
)
    requires
        call_ensures(VfsRequest::step_as, (q, reply, mime), action) || call_ensures(
            VfsRequest::step,
            (q, reply),
            action,
        ),
        old(q)@.awaits(reply@),
    ensures
        ({
            let v = old(q)@;
            let after = final(q)@;
            let told = |e: ErrorView|
                after.phase is Answered && (action matches RequestAction::Respond(a)
                    && tells_message(
                    a,
                    if e is NotFound {
                        404
                    } else if e is PermissionDenied {
                        403
                    } else {
                        500
                    },
                    e.message(),
                ));
            &&& after.uri == v.uri
            &&& after.range_header == v.range_header
            &&& reply matches RequestReply::Stat(Err(e)) ==> told(e@)
            &&& reply matches RequestReply::Opened(Err(e)) ==> told(e@)
            &&& reply matches RequestReply::Chunk(Some(Err(e))) ==> told(e@)
            &&& reply matches RequestReply::Stat(Ok(st)) ==> {
                &&& after.phase is Opening
                &&& action matches RequestAction::Open(u, range) && u@ == v.uri && range
                    == after.phase->Opening_0.range
            }
            &&& v.phase matches RequestPhaseView::Opening(plan) ==> (
            reply matches RequestReply::Opened(Ok(())) ==> action is NextChunk && (
            after.phase matches RequestPhaseView::Pulling(p, body) && p == plan && body.len() == 0))
            &&& v.phase matches RequestPhaseView::Pulling(plan, body) ==> {
                &&& reply matches RequestReply::Chunk(Some(Ok(bytes))) ==> action is NextChunk && (
                after.phase matches RequestPhaseView::Pulling(p, more) && p == plan && more == body
                    + bytes@)
                &&& reply matches RequestReply::Chunk(None) ==> after.phase is Answered && (
                action matches RequestAction::Respond(a) && a.status == plan.status && a.body@
                    == body)
            }
        }),
{
    if let RequestAction::Respond(a) = action {
        lemma_one_header(a);
        if a.headers@.len() > 0 {
            assert(a@.headers[0] == (a.headers@[0].0@, a.headers@[0].1@));
        }
    }
    assert(action@ is Open == action is Open);
    assert(action@ is Respond == action is Respond);
    assert(action@ is NextChunk == action is NextChunk);
}

/// The plan of a request is that for the size that was found, the media type
/// that was guessed and the range header it came with.
pub proof fn law_protocol_request_is_planned(
    q: &mut VfsRequest,
    st: crate::types::Stat,
    mime: Option<String>,
    action: RequestAction,
    header: Option<&str>,
    plan: AnswerPlan,
)
    requires
        call_ensures(VfsRequest::step_as, (q, RequestReply::Stat(Ok(st)), mime), action),
        old(q)@.phase is Looking,
        old(q)@.range_header is Some == header is Some,
        header matches Some(h) ==> old(q)@.range_header == Some(h@),
        call_ensures(plan_answer_as, (mime, st.size, header), plan),
    ensures
        final(q)@.phase == RequestPhaseView::Opening(plan@),
        action matches RequestAction::Open(_, range) && range == plan.range,
{
    assert(old(q)@.range_header == crate::ipc::header_view(header));
    assert(RequestReply::Stat(Ok(st))@ == crate::request::RequestReplyView::Stat(Ok(st@)));
    assert(action@ is Open == action is Open);
}

/// The media type of an answer is the one guessed for the name of its uri, and
/// that of any bytes where there is no guess or no name; its status, range and
/// size are those that are planned with any media type.
pub proof fn law_media_type_is_guessed(
    q: &mut VfsRequest,
    st: crate::types::Stat,
    action: RequestAction,
    header: Option<&str>,
    mime: Option<String>,
    plan: AnswerPlan,
)
    requires
        call_ensures(VfsRequest::step, (q, RequestReply::Stat(Ok(st))), action),
        old(q)@.phase is Looking,
        old(q)@.range_header is Some == header is Some,
        header matches Some(h) ==> old(q)@.range_header == Some(h@),
        call_ensures(plan_answer_as, (mime, st.size, header), plan),
    ensures
        final(q)@.phase matches RequestPhaseView::Opening(made) && {
            let segments = old(q)@.uri.segments;
            let name = segments.last();
            &&& made.status == plan.status
            &&& made.range == plan.range
            &&& made.content_range is Some == plan.content_range is Some
            &&& plan.content_range is Some ==> made.content_range->0 == plan.content_range->0@
            &&& segments.len() == 0 ==> made.mime == "application/octet-stream"@
            &&& segments.len() > 0 && free_of(name, '\\') && free_of(name, ':') ==> made.mime
                == match guessed_mime(name) {
                Some(m) => m,
                None => "application/octet-stream"@,
            }
        },
{
    assert(old(q)@.range_header == crate::ipc::header_view(header));
    assert(RequestReply::Stat(Ok(st))@ == crate::request::RequestReplyView::Stat(Ok(st@)));
    assert(plan@.content_range is Some == plan.content_range is Some);
    let segments = old(q)@.uri.segments;
    if segments.len() > 0 && free_of(segments.last(), '\\') && free_of(segments.last(), ':') {
        assert(!segments.last().contains('\\'));
        assert(!segments.last().contains(':'));
    }
}

} // verus!
