//! The trusted boundary: the few outside calls the verified core makes.
//! Each wrapper holds one call; its contract states only what the callee's
//! source or documentation shows.

use vstd::prelude::*;

verus! {

/// Relies on rand's `Rng::gen_range` over `0..n`, which panics only on an
/// empty range and otherwise returns a value drawn from the range. The
/// draw is random, so nothing beyond the range is assumed.
#[verifier::external_body]
pub(crate) fn random_below(n: u64) -> (r: u64)
    requires
        n >= 1,
    ensures
        r < n,
{
    rand::Rng::gen_range(&mut rand::thread_rng(), 0..n)
}

/// Relies on uuid's `Uuid::new_v4`, rendered through `Display` in the
/// hyphenated form, which is 36 characters long. The value is random, so
/// nothing else is assumed of it.
#[verifier::external_body]
pub(crate) fn fresh_player_id() -> (r: String)
    ensures
        r@.len() == 36,
{
    uuid::Uuid::new_v4().to_string()
}

/// What `str::trim` returns: the input without its leading and trailing
/// whitespace, a function of the characters alone.
pub uninterp spec fn trim_of(s: Seq<char>) -> Seq<char>;

/// Relies on `str::trim`.
#[verifier::external_body]
pub(crate) fn trim_str<'a>(s: &'a str) -> (r: &'a str)
    ensures
        r@ == trim_of(s@),
        s@.len() == 0 ==> r@.len() == 0,
{
    s.trim()
}

/// What `str::to_lowercase` returns: the lowercase mapping of the input, a
/// function of the characters alone.
pub uninterp spec fn lower_of(s: Seq<char>) -> Seq<char>;

/// Relies on `str::to_lowercase`.
#[verifier::external_body]
pub(crate) fn lowercase_str(s: &str) -> (r: String)
    ensures
        r@ == lower_of(s@),
        s@.len() == 0 ==> r@.len() == 0,
{
    s.to_lowercase()
}

} // verus!
