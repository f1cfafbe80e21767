//! Byte streams, taken in chunk by chunk.
use vstd::prelude::*;
use crate::error::{unit_view, ErrorView, VfsError};

verus! {

/// The view of a chunk of bytes or the error that came in its place.
pub open spec fn chunk_view(chunk: Result<Vec<u8>, VfsError>) -> Result<Seq<u8>, ErrorView> {
    match chunk {
        Ok(bytes) => Ok(bytes@),
        Err(e) => Err(e@),
    }
}

/// Why a chunk is not taken in, if so: the operation was cancelled, or the
/// stream failed.
pub open spec fn chunk_fault(cancelled: bool, chunk: Result<Seq<u8>, ErrorView>) -> Option<
    ErrorView,
> {
    if cancelled {
        Some(ErrorView::Cancelled)
    } else {
        match chunk {
            Ok(_) => None,
            Err(e) => Some(e),
        }
    }
}

/// Why a chunk is not taken in under a limit, if so: the stream failed, or the
/// bytes would be more than the limit.
pub open spec fn limit_fault(held: nat, max_size: u64, chunk: Result<Seq<u8>, ErrorView>) -> Option<
    ErrorView,
> {
    match chunk {
        Err(e) => Some(e),
        Ok(bytes) => if held + bytes.len() > max_size {
            Some(ErrorView::TooLarge { limit: max_size })
        } else {
            None
        },
    }
}

/// What taking in a chunk does to the bytes held.
pub open spec fn taken(
    before: Seq<u8>,
    after: Seq<u8>,
    chunk: Result<Seq<u8>, ErrorView>,
    fault: Option<ErrorView>,
    r: Result<(), ErrorView>,
) -> bool {
    match fault {
        Some(e) => r == Err::<(), ErrorView>(e) && after == before,
        None => r == Ok::<(), ErrorView>(()) && after == before + chunk->Ok_0,
    }
}

fn append(buf: &mut Vec<u8>, bytes: &Vec<u8>)
    ensures
        final(buf)@ == old(buf)@ + bytes@,
{
    buf.extend_from_slice(bytes.as_slice());
    assert(buf@ =~= old(buf)@ + bytes@);
}

/// Takes in the next chunk of a stream.
pub fn take_chunk(buf: &mut Vec<u8>, cancelled: bool, chunk: Result<Vec<u8>, VfsError>) -> (r:
    Result<(), VfsError>)
    ensures
        taken(
            old(buf)@,
            final(buf)@,
            chunk_view(chunk),
            chunk_fault(cancelled, chunk_view(chunk)),
            unit_view(r),
        ),
{
    if cancelled {
        return Err(VfsError::Cancelled);
    }
    match chunk {
        Err(e) => Err(e),
        Ok(bytes) => {
            append(buf, &bytes);
            Ok(())
        },
    }
}

/// Takes in the next chunk of a stream of which no more than `max_size` bytes
/// are wanted.
pub fn take_chunk_within(
    buf: &mut Vec<u8>,
    max_size: u64,
    chunk: Result<Vec<u8>, VfsError>,
) -> (r: Result<(), VfsError>)
    ensures
        taken(
            old(buf)@,
            final(buf)@,
            chunk_view(chunk),
            limit_fault(old(buf)@.len(), max_size, chunk_view(chunk)),
            unit_view(r),
        ),
{
    match chunk {
        Err(e) => Err(e),
        Ok(bytes) => {
            if buf.len() as u128 + bytes.len() as u128 > max_size as u128 {
                return Err(VfsError::TooLarge { limit: max_size });
            }
            append(buf, &bytes);
            Ok(())
        },
    }
}

/// The bytes of chunks in a row.
pub open spec fn flattened(chunks: Seq<Seq<u8>>) -> Seq<u8>
    decreases chunks.len(),
{
    if chunks.len() == 0 {
        Seq::empty()
    } else {
        flattened(chunks.drop_last()) + chunks.last()
    }
}

/// The bytes held after each of the chunks was offered, up to the first that
/// was refused.
pub open spec fn held_within(chunks: Seq<Result<Seq<u8>, ErrorView>>, max_size: u64) -> Result<
    Seq<u8>,
    ErrorView,
>
    decreases chunks.len(),
{
    if chunks.len() == 0 {
        Ok(Seq::empty())
    } else {
        match held_within(chunks.drop_last(), max_size) {
            Err(e) => Err(e),
            Ok(held) => match limit_fault(held.len(), max_size, chunks.last()) {
                Some(e) => Err(e),
                None => Ok(held + chunks.last()->Ok_0),
            },
        }
    }
}

/// A limited read gives all bytes of the stream where they are no more than
/// the limit, and is refused as too large where they are more.
pub proof fn law_limited_read(chunks: Seq<Seq<u8>>, max_size: u64)
    ensures
        ({
            let stream = chunks.map_values(|c: Seq<u8>| Ok::<Seq<u8>, ErrorView>(c));
            held_within(stream, max_size) == if flattened(chunks).len() <= max_size {
                Ok::<Seq<u8>, ErrorView>(flattened(chunks))
            } else {
                Err::<Seq<u8>, ErrorView>(ErrorView::TooLarge { limit: max_size })
            }
        }),
    decreases chunks.len(),
{
    let stream = chunks.map_values(|c: Seq<u8>| Ok::<Seq<u8>, ErrorView>(c));
    if chunks.len() > 0 {
        law_limited_read(chunks.drop_last(), max_size);
        assert(stream.drop_last() =~= chunks.drop_last().map_values(
            |c: Seq<u8>| Ok::<Seq<u8>, ErrorView>(c),
        ));
    }
}

} // verus!
