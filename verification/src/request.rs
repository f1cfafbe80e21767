//! A request of the `vfs` protocol, from its path to its answer.
use vstd::prelude::*;
use crate::chunks::{chunk_view, flattened, take_chunk};
use crate::error::{unit_view, ErrorView, VfsError};
use crate::ipc::{
    answer, failure_answer, failure_response, plan_answer_as, planned_answer, request_uri,
    requested, respond, AnswerPlan, PlanView, Response, ResponseView,
};
use crate::mime::{guess_mime, is_guess};
use crate::types::{opt_text, stat_view, Stat, StatView};
use crate::uri::{UriView, VfsUri};

verus! {

/// What a request asks for next.
#[derive(Debug)]
pub enum RequestAction {
    /// Look the uri up.
    Stat(VfsUri),
    /// Open a stream on the bytes of the uri: from the first up to the second,
    /// or all.
    Open(VfsUri, Option<(u64, u64)>),
    /// Take the next chunk of the stream.
    NextChunk,
    /// Send the answer.
    Respond(Response),
}

pub enum RequestActionView {
    Stat(UriView),
    Open(UriView, Option<(u64, u64)>),
    NextChunk,
    Respond(ResponseView),
}

impl View for RequestAction {
    type V = RequestActionView;

    open spec fn view(&self) -> RequestActionView {
        match self {
            RequestAction::Stat(u) => RequestActionView::Stat(u@),
            RequestAction::Open(u, range) => RequestActionView::Open(u@, *range),
            RequestAction::NextChunk => RequestActionView::NextChunk,
            RequestAction::Respond(r) => RequestActionView::Respond(r@),
        }
    }
}

/// What came of an action.
#[derive(Debug)]
pub enum RequestReply {
    Stat(Result<Stat, VfsError>),
    Opened(Result<(), VfsError>),
    /// A chunk, or none where the stream is over.
    Chunk(Option<Result<Vec<u8>, VfsError>>),
}

pub enum RequestReplyView {
    Stat(Result<StatView, ErrorView>),
    Opened(Result<(), ErrorView>),
    Chunk(Option<Result<Seq<u8>, ErrorView>>),
}

impl View for RequestReply {
    type V = RequestReplyView;

    open spec fn view(&self) -> RequestReplyView {
        match self {
            RequestReply::Stat(r) => RequestReplyView::Stat(stat_view(*r)),
            RequestReply::Opened(r) => RequestReplyView::Opened(unit_view(*r)),
            RequestReply::Chunk(c) => RequestReplyView::Chunk(
                match c {
                    Some(r) => Some(chunk_view(*r)),
                    None => None,
                },
            ),
        }
    }
}

/// Where a request stands: what it waits for.
#[derive(Debug)]
pub enum RequestPhase {
    Looking,
    Opening(AnswerPlan),
    Pulling(AnswerPlan, Vec<u8>),
    Answered,
}

pub enum RequestPhaseView {
    Looking,
    Opening(PlanView),
    Pulling(PlanView, Seq<u8>),
    Answered,
}

impl View for RequestPhase {
    type V = RequestPhaseView;

    open spec fn view(&self) -> RequestPhaseView {
        match self {
            RequestPhase::Looking => RequestPhaseView::Looking,
            RequestPhase::Opening(p) => RequestPhaseView::Opening(p@),
            RequestPhase::Pulling(p, body) => RequestPhaseView::Pulling(p@, body@),
            RequestPhase::Answered => RequestPhaseView::Answered,
        }
    }
}

/// A request for the bytes of a uri.
#[derive(Debug)]
pub struct VfsRequest {
    uri: VfsUri,
    range_header: Option<String>,
    phase: RequestPhase,
}

pub struct VfsRequestView {
    pub uri: UriView,
    pub range_header: Option<Seq<char>>,
    pub phase: RequestPhaseView,
}

impl View for VfsRequest {
    type V = VfsRequestView;

    closed spec fn view(&self) -> VfsRequestView {
        VfsRequestView {
            uri: self.uri@,
            range_header: opt_text(self.range_header),
            phase: self.phase@,
        }
    }
}

impl VfsRequestView {
    pub open spec fn at(self, phase: RequestPhaseView, action: RequestActionView) -> (
        VfsRequestView,
        RequestActionView,
    ) {
        (VfsRequestView { phase, ..self }, action)
    }

    pub open spec fn answers(self, response: ResponseView) -> (VfsRequestView, RequestActionView) {
        self.at(RequestPhaseView::Answered, RequestActionView::Respond(response))
    }

    /// The reply is one to what the request waits for.
    pub open spec fn awaits(self, reply: RequestReplyView) -> bool {
        match self.phase {
            RequestPhaseView::Looking => reply is Stat,
            RequestPhaseView::Opening(_) => reply is Opened,
            RequestPhaseView::Pulling(_, _) => reply is Chunk,
            RequestPhaseView::Answered => false,
        }
    }

    /// What follows from a reply: any error is told with its status; else the
    /// bytes are taken in to the end of the stream and sent.  `mime` is the
    /// media type guessed for the uri.
    pub open spec fn stepped(self, reply: RequestReplyView, mime: Option<Seq<char>>) -> (
        VfsRequestView,
        RequestActionView,
    ) {
        match (self.phase, reply) {
            (_, RequestReplyView::Stat(Err(e))) => self.answers(failure_answer(e)),
            (_, RequestReplyView::Opened(Err(e))) => self.answers(failure_answer(e)),
            (_, RequestReplyView::Chunk(Some(Err(e)))) => self.answers(failure_answer(e)),
            (_, RequestReplyView::Stat(Ok(st))) => {
                let plan = planned_answer(mime, st.size, self.range_header);
                self.at(
                    RequestPhaseView::Opening(plan),
                    RequestActionView::Open(self.uri, plan.range),
                )
            },
            (RequestPhaseView::Opening(plan), RequestReplyView::Opened(Ok(()))) => self.at(
                RequestPhaseView::Pulling(plan, Seq::empty()),
                RequestActionView::NextChunk,
            ),
            (
                RequestPhaseView::Pulling(plan, body),
                RequestReplyView::Chunk(Some(Ok(bytes))),
            ) => self.at(
                RequestPhaseView::Pulling(plan, body + bytes),
                RequestActionView::NextChunk,
            ),
            (RequestPhaseView::Pulling(plan, body), RequestReplyView::Chunk(None)) => self.answers(
                answer(plan, body),
            ),
            _ => (self, RequestActionView::NextChunk),
        }
    }
}

/// The media type is one guessed for the uri.
pub open spec fn guessed_for(uri: UriView, mime: Option<Seq<char>>) -> bool {
    match uri.name() {
        Some(name) => is_guess(name, mime),
        None => mime is None,
    }
}

impl VfsRequest {
    /// The request for a path with a range header, if it has one, and the
    /// first action; or the answer to a request that is for no uri.
    pub fn begin(path: &str, range_header: Option<String>) -> (r: Result<
        (VfsRequest, RequestAction),
        Response,
    >)
        ensures
            match r {
                Ok((request, action)) => {
                    &&& requested(path@) == Ok::<UriView, ResponseView>(request@.uri)
                    &&& request@ == (VfsRequestView {
                        uri: request@.uri,
                        range_header: opt_text(range_header),
                        phase: RequestPhaseView::Looking,
                    })
                    &&& action@ == RequestActionView::Stat(request@.uri)
                },
                Err(response) => requested(path@) == Err::<UriView, ResponseView>(response@),
            },
    {
        match request_uri(path) {
            Err(response) => Err(response),
            Ok(uri) => {
                let action = RequestAction::Stat(uri.clone());
                Ok((VfsRequest { uri, range_header, phase: RequestPhase::Looking }, action))
            },
        }
    }

    fn fail(&mut self, e: &VfsError) -> (r: RequestAction)
        ensures
            (final(self)@, r@) == old(self)@.answers(failure_answer(e@)),
    {
        self.phase = RequestPhase::Answered;
        RequestAction::Respond(failure_response(e))
    }

    /// Takes in what came of the last action, with the media type guessed for
    /// the uri, and gives the next action.
    pub fn step_as(&mut self, reply: RequestReply, mime: Option<String>) -> (r: RequestAction)
        requires
            old(self)@.awaits(reply@),
        ensures
            (final(self)@, r@) == old(self)@.stepped(reply@, opt_text(mime)),
    {
        let mut phase = RequestPhase::Answered;
        std::mem::swap(&mut phase, &mut self.phase);
        match (phase, reply) {
            (_, RequestReply::Stat(Err(e))) => self.fail(&e),
            (_, RequestReply::Opened(Err(e))) => self.fail(&e),
            (_, RequestReply::Stat(Ok(stat))) => {
                let header = match &self.range_header {
                    Some(h) => Some(h.as_str()),
                    None => None,
                };
                let plan = plan_answer_as(mime, stat.size, header);
                let range = plan.range;
                self.phase = RequestPhase::Opening(plan);
                RequestAction::Open(self.uri.clone(), range)
            },
            (RequestPhase::Opening(plan), RequestReply::Opened(Ok(()))) => {
                let body: Vec<u8> = Vec::new();
                assert(body@ =~= Seq::<u8>::empty());
                self.phase = RequestPhase::Pulling(plan, body);
                RequestAction::NextChunk
            },
            (RequestPhase::Pulling(plan, body), RequestReply::Chunk(Some(chunk))) => {
                let mut body = body;
                match take_chunk(&mut body, false, chunk) {
                    Ok(()) => {
                        self.phase = RequestPhase::Pulling(plan, body);
                        RequestAction::NextChunk
                    },
                    Err(e) => self.fail(&e),
                }
            },
            (RequestPhase::Pulling(plan, body), RequestReply::Chunk(None)) => RequestAction::Respond(
                respond(plan, body),
            ),
            (phase, _) => {
                self.phase = phase;
                RequestAction::NextChunk
            },
        }
    }

    /// Takes in what came of the last action and gives the next.  The media
    /// type of the answer is guessed from the name of the uri.
    pub fn step(&mut self, reply: RequestReply) -> (r: RequestAction)
        requires
            old(self)@.awaits(reply@),
        ensures
            exists|mime: Option<Seq<char>>|
                {
                    &&& guessed_for(old(self)@.uri, mime)
                    &&& (final(self)@, r@) == #[trigger] old(self)@.stepped(reply@, mime)
                },
    {
        let mime = match self.uri.name() {
            Some(name) => guess_mime(name),
            None => None,
        };
        let ghost guessed = opt_text(mime);
        let ghost came = reply@;
        let action = self.step_as(reply, mime);
        assert((self@, action@) == old(self)@.stepped(came, guessed));
        action
    }
}

/// Where a request stands after chunks that all came well.
pub open spec fn pulled(r: VfsRequestView, chunks: Seq<Seq<u8>>, mime: Option<Seq<char>>) -> VfsRequestView
    decreases chunks.len(),
{
    if chunks.len() == 0 {
        r
    } else {
        pulled(r, chunks.drop_last(), mime).stepped(
            RequestReplyView::Chunk(Some(Ok(chunks.last()))),
            mime,
        ).0
    }
}

proof fn lemma_pulled(
    r: VfsRequestView,
    plan: PlanView,
    chunks: Seq<Seq<u8>>,
    mime: Option<Seq<char>>,
)
    requires
        r.phase == RequestPhaseView::Pulling(plan, Seq::empty()),
    ensures
        pulled(r, chunks, mime) == (VfsRequestView {
            phase: RequestPhaseView::Pulling(plan, flattened(chunks)),
            ..r
        }),
    decreases chunks.len(),
{
    if chunks.len() > 0 {
        lemma_pulled(r, plan, chunks.drop_last(), mime);
    }
}

/// A request for a file whose bytes come without an error is answered with all
/// of them, by the plan for the size and the range header.
pub proof fn law_request_is_answered_with_its_bytes(
    r: VfsRequestView,
    st: StatView,
    chunks: Seq<Seq<u8>>,
    mime: Option<Seq<char>>,
)
    requires
        r.phase is Looking,
    ensures
        ({
            let plan = planned_answer(mime, st.size, r.range_header);
            let (looked, open) = r.stepped(RequestReplyView::Stat(Ok(st)), mime);
            let opened = looked.stepped(RequestReplyView::Opened(Ok(())), mime).0;
            let end = pulled(opened, chunks, mime);
            &&& open == RequestActionView::Open(r.uri, plan.range)
            &&& end.stepped(RequestReplyView::Chunk(None), mime).1 == RequestActionView::Respond(
                answer(plan, flattened(chunks)),
            )
        }),
{
    let plan = planned_answer(mime, st.size, r.range_header);
    let looked = r.stepped(RequestReplyView::Stat(Ok(st)), mime).0;
    let opened = looked.stepped(RequestReplyView::Opened(Ok(())), mime).0;
    lemma_pulled(opened, plan, chunks, mime);
}

/// An error of any step is answered with its status and message.
pub proof fn law_failed_request_is_told(r: VfsRequestView, e: ErrorView, mime: Option<Seq<char>>)
    ensures
        r.stepped(RequestReplyView::Stat(Err(e)), mime).1 == RequestActionView::Respond(
            failure_answer(e),
        ),
        r.stepped(RequestReplyView::Opened(Err(e)), mime).1 == RequestActionView::Respond(
            failure_answer(e),
        ),
        r.stepped(RequestReplyView::Chunk(Some(Err(e))), mime).1 == RequestActionView::Respond(
            failure_answer(e),
        ),
{
}

} // verus!
