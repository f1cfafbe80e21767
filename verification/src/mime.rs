//! Media types guessed from file names.
use vstd::prelude::*;
use crate::types::opt_text;

verus! {

/// The first media type that `mime_guess` knows for a file name.
pub uninterp spec fn guessed_mime(name: Seq<char>) -> Option<Seq<char>>;

/// No platform takes a part of the name for a drive or a directory by these
/// characters.
pub open spec fn plain_name(name: Seq<char>) -> bool {
    !name.contains('\\') && !name.contains(':')
}

/// A media type that was guessed for a name.
pub open spec fn is_guess(name: Seq<char>, mime: Option<Seq<char>>) -> bool {
    plain_name(name) ==> mime == guessed_mime(name)
}

/// Calls `mime_guess::from_path` and takes the first guess.  The contract
/// claims that the guess depends on the name alone.  A backslash and a colon
/// divide a path on some platforms only, so nothing is claimed of a name with
/// one of them.
#[verifier::external_body]
pub(crate) fn guess_mime(name: &str) -> (r: Option<String>)
    ensures
        plain_name(name@) ==> opt_text(r) == guessed_mime(name@),
{
    mime_guess::from_path(name).first().map(|m| m.to_string())
}

} // verus!
