//! Chance.

use rand::Rng;
use rand::RngCore;
use vstd::prelude::*;

verus! {

/// `Rng::gen_range` of the rand crate on the thread's generator, for an inclusive range: some
/// number of the range. An empty range makes it panic. Which number comes is up to chance.
#[verifier::external_body]
pub(crate) fn draw(lo: u64, hi: u64) -> (n: u64)
    requires
        lo <= hi,
    ensures
        lo <= n <= hi,
{
    rand::thread_rng().gen_range(lo..=hi)
}

/// `RngCore::fill_bytes` of the rand crate on the thread's generator: fills the whole slice.
/// Which bytes come is up to chance.
#[verifier::external_body]
pub(crate) fn draw_bytes(n: usize) -> (bytes: Vec<u8>)
    requires
        n <= 1024,
    ensures
        bytes@.len() == n,
{
    let mut bytes = vec![0u8; n];
    rand::thread_rng().fill_bytes(&mut bytes);
    bytes
}

} // verus!
