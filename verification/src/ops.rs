//! Operations in flight: their cancellation tokens and their progress.
use std::collections::HashMap;
use tokio_util::sync::CancellationToken;
use vstd::prelude::*;
use crate::error::{unit_view, ErrorView, VfsError};
use crate::types::{opt_uri, OpProgress, ProgressView};
use crate::uri::VfsUri;

verus! {

broadcast use vstd::std_specs::hash::group_hash_axioms;

/// The cancellation token of `tokio_util`: shared between those who may cancel
/// an operation and those who carry it out.
#[verifier::external_type_specification]
#[verifier::external_body]
pub struct ExCancellationToken(tokio_util::sync::CancellationToken);

/// `CancellationToken::new` makes a token that is not cancelled.  Whether a
/// token is cancelled is shared state: contracts name the calls on the token
/// and the answers that it gave, not the state itself.
pub assume_specification[ tokio_util::sync::CancellationToken::new ]() -> CancellationToken
;

/// `CancellationToken::clone` gives another handle on the same token: the crate
/// counts the two as equal, and cancelling one cancels the other.
pub assume_specification[ <CancellationToken as Clone>::clone ](t: &CancellationToken) -> (r:
    CancellationToken)
    ensures
        r == *t,
;

/// `CancellationToken::cancel` cancels the token, for good.
pub assume_specification[ tokio_util::sync::CancellationToken::cancel ](t: &CancellationToken)
;

/// `CancellationToken::is_cancelled` says whether the token was cancelled by
/// now, which another thread may change at any time.
pub assume_specification[ tokio_util::sync::CancellationToken::is_cancelled ](
    t: &CancellationToken,
) -> bool
;

/// `cancelled` is an answer that the token gave when it was asked whether it
/// was cancelled.  Two answers of one token may differ, as it may be cancelled
/// between them.
pub open spec fn token_answers(ct: CancellationToken, cancelled: bool) -> bool {
    call_ensures(CancellationToken::is_cancelled, (&ct,), cancelled)
}

/// The token was made anew, by `CancellationToken::new`.
pub open spec fn token_is_new(ct: CancellationToken) -> bool {
    call_ensures(CancellationToken::new, (), ct)
}

/// The token was cancelled, by `CancellationToken::cancel`.
pub open spec fn token_cancelled(ct: CancellationToken) -> bool {
    call_ensures(CancellationToken::cancel, (&ct,), ())
}

/// The token of an operation in flight.
pub open spec fn registered(ops: Map<u128, CancellationToken>, id: u128) -> Option<
    CancellationToken,
> {
    if ops.contains_key(id) {
        Some(ops[id])
    } else {
        None
    }
}

/// What a cancellation comes to: the token of the operation, if it is in
/// flight, is cancelled and given back.
pub open spec fn cancels(
    ops: Map<u128, CancellationToken>,
    id: u128,
    r: Option<CancellationToken>,
) -> bool {
    &&& r == registered(ops, id)
    &&& r matches Some(ct) ==> token_cancelled(ct)
}

/// The view of an optional token.
pub open spec fn opt_token(r: Option<&CancellationToken>) -> Option<CancellationToken> {
    match r {
        Some(ct) => Some(*ct),
        None => None,
    }
}

/// The cancellation tokens of the operations in flight, by the ids that the
/// clients gave them.
pub struct OpRegistry {
    inner: HashMap<u128, CancellationToken>,
}

impl View for OpRegistry {
    type V = Map<u128, CancellationToken>;

    closed spec fn view(&self) -> Map<u128, CancellationToken> {
        self.inner@
    }
}

impl Default for OpRegistry {
    fn default() -> (r: OpRegistry)
        ensures
            r@ == Map::<u128, CancellationToken>::empty(),
    {
        OpRegistry::new()
    }
}

impl OpRegistry {
    pub fn new() -> (r: OpRegistry)
        ensures
            r@ == Map::<u128, CancellationToken>::empty(),
    {
        OpRegistry { inner: HashMap::new() }
    }

    /// Registers an operation and gives its token, a new one.  The registration
    /// is to be ended with `finish`.
    pub fn start(&mut self, id: u128) -> (ct: CancellationToken)
        ensures
            token_is_new(ct),
            final(self)@ == old(self)@.insert(id, ct),
    {
        let ct = CancellationToken::new();
        self.inner.insert(id, ct.clone());
        ct
    }

    /// The token of an operation in flight.
    pub fn token(&self, id: u128) -> (r: Option<&CancellationToken>)
        ensures
            opt_token(r) == registered(self@, id),
    {
        self.inner.get(&id)
    }

    /// Cancels an operation and gives the token that was cancelled.  Cancelling
    /// one that is unknown or finished does nothing.
    pub fn cancel(&self, id: u128) -> (r: Option<&CancellationToken>)
        ensures
            cancels(self@, id, opt_token(r)),
    {
        match self.token(id) {
            Some(ct) => {
                ct.cancel();
                Some(ct)
            },
            None => None,
        }
    }

    /// Ends the registration of an operation.
    pub fn finish(&mut self, id: u128)
        ensures
            final(self)@ == old(self)@.remove(id),
    {
        self.inner.remove(&id);
    }

    pub fn contains(&self, id: u128) -> (r: bool)
        ensures
            r == self@.contains_key(id),
    {
        self.inner.contains_key(&id)
    }
}

/// How long after a report the next one is due in any case.
pub const THROTTLE_MIN_MS: u128 = 100;

/// How many new bytes make a report due.
pub const THROTTLE_MIN_BYTES: u64 = 65536;

/// How far an operation has come, and how far it has to go.
#[derive(Clone, Copy, Debug, PartialEq, Eq, Structural)]
pub struct Tally {
    pub done_bytes: u64,
    pub total_bytes: u64,
    pub done_files: u64,
    pub total_files: u64,
}

impl Tally {
    pub open spec fn complete(self) -> bool {
        self.done_bytes >= self.total_bytes && self.done_files >= self.total_files
    }
}

/// A report is due: some time has passed, enough bytes have come, or all is
/// done.
pub open spec fn report_due(last_bytes: u64, elapsed_ms: u128, tally: Tally) -> bool {
    ||| elapsed_ms >= THROTTLE_MIN_MS
    ||| tally.done_bytes - last_bytes >= THROTTLE_MIN_BYTES
    ||| tally.complete()
}

/// The view of an optional report.
pub open spec fn opt_progress(r: Option<OpProgress>) -> Option<ProgressView> {
    match r {
        Some(p) => Some(p@),
        None => None,
    }
}

/// An operation in flight: its id, its token, and the bytes last reported.
pub struct OpCtx {
    pub id: u128,
    pub ct: CancellationToken,
    pub last_bytes: u64,
}

/// What a step of a cancelled operation gives.
pub open spec fn unless_cancelled(cancelled: bool) -> Result<(), ErrorView> {
    if cancelled {
        Err(ErrorView::Cancelled)
    } else {
        Ok(())
    }
}

/// Refuses a step of a cancelled operation.
pub fn refuse_cancelled(cancelled: bool) -> (r: Result<(), VfsError>)
    ensures
        unit_view(r) == unless_cancelled(cancelled),
{
    if cancelled {
        Err(VfsError::Cancelled)
    } else {
        Ok(())
    }
}

impl OpCtx {
    pub fn new(id: u128, ct: CancellationToken) -> (r: OpCtx)
        ensures
            r == (OpCtx { id, ct, last_bytes: 0 }),
    {
        OpCtx { id, ct, last_bytes: 0 }
    }

    /// Whether the operation was cancelled by now, as its token answers.
    /// Another thread may cancel it at any time, so the contract does not say
    /// which answer the token gives.
    pub fn is_cancelled(&self) -> (r: bool)
        ensures
            token_answers(self.ct, r),
    {
        self.ct.is_cancelled()
    }

    /// Refuses to go on once the operation was cancelled: the result is that
    /// of the answer that the token of the operation gave.
    pub fn check_cancelled(&self) -> (r: Result<(), VfsError>)
        ensures
            token_answers(self.ct, r is Err),
            unit_view(r) == unless_cancelled(r is Err),
    {
        refuse_cancelled(self.is_cancelled())
    }

    /// The report that is due, if one is, when `elapsed_ms` have passed since
    /// the last: one after a tenth of a second, one after 64 KiB, and one when
    /// all is done.
    pub fn report(
        &mut self,
        elapsed_ms: u128,
        done_bytes: u64,
        total_bytes: u64,
        done_files: u64,
        total_files: u64,
        current: Option<VfsUri>,
    ) -> (r: Option<OpProgress>)
        ensures
            final(self).id == old(self).id,
            final(self).ct == old(self).ct,
            ({
                let tally = Tally { done_bytes, total_bytes, done_files, total_files };
                if report_due(old(self).last_bytes, elapsed_ms, tally) {
                    &&& final(self).last_bytes == done_bytes
                    &&& opt_progress(r) == Some(
                        ProgressView {
                            op_id: old(self).id,
                            done_bytes,
                            total_bytes,
                            done_files,
                            total_files,
                            current: opt_uri(current),
                        },
                    )
                } else {
                    &&& final(self).last_bytes == old(self).last_bytes
                    &&& r is None
                }
            }),
    {
        let byte_delta: u64 = done_bytes.saturating_sub(self.last_bytes);
        let done = done_bytes >= total_bytes && done_files >= total_files;
        if elapsed_ms >= THROTTLE_MIN_MS || byte_delta >= THROTTLE_MIN_BYTES || done {
            self.last_bytes = done_bytes;
            Some(
                OpProgress {
                    op_id: self.id,
                    done_bytes,
                    total_bytes,
                    done_files,
                    total_files,
                    current,
                },
            )
        } else {
            None
        }
    }
}

/// An operation is registered from its start until its end, and the others are
/// not touched; an id that was free before is free again, with the registry as
/// it was.
pub proof fn law_registration(
    ops: Map<u128, CancellationToken>,
    id: u128,
    ct: CancellationToken,
    other: u128,
)
    ensures
        registered(ops.insert(id, ct), id) == Some(ct),
        registered(ops.insert(id, ct).remove(id), id) is None,
        other != id ==> registered(ops.insert(id, ct), other) == registered(ops, other),
        other != id ==> registered(ops.insert(id, ct).remove(id), other) == registered(ops, other),
        !ops.contains_key(id) ==> ops.insert(id, ct).remove(id) == ops,
{
    if !ops.contains_key(id) {
        assert(ops.insert(id, ct).remove(id) =~= ops);
    }
}

/// To cancel an operation is to cancel the very token that its start handed
/// out, also when another operation was started or ended since; to cancel one
/// that is not in flight gives nothing.
pub proof fn law_cancel_reaches_the_operation(
    ops: Map<u128, CancellationToken>,
    id: u128,
    ct: CancellationToken,
    other: u128,
    later: CancellationToken,
    r: Option<CancellationToken>,
)
    requires
        other != id,
    ensures
        cancels(ops.insert(id, ct), id, r) ==> r == Some(ct) && token_cancelled(ct),
        cancels(ops.insert(id, ct).insert(other, later), id, r) ==> r == Some(ct)
            && token_cancelled(ct),
        cancels(ops.insert(id, ct).remove(other), id, r) ==> r == Some(ct) && token_cancelled(ct),
        cancels(ops.remove(id), id, r) ==> r is None,
{
}

/// The end of an operation is always reported; before it, a step that is not
/// reported lies within the time and the bytes of the throttle.
pub proof fn law_throttle(last_bytes: u64, elapsed_ms: u128, tally: Tally)
    ensures
        tally.complete() ==> report_due(last_bytes, elapsed_ms, tally),
        !report_due(last_bytes, elapsed_ms, tally) ==> elapsed_ms < THROTTLE_MIN_MS
            && tally.done_bytes < last_bytes + THROTTLE_MIN_BYTES,
{
}

} // verus!
