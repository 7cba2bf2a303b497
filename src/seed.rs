//! Seeding a grid from random draws.
use rand::rngs::OsRng;
use rand::RngCore;
use vstd::prelude::*;

use crate::rules::{all_cell_values, ALIVE, DEAD};

verus! {

/// The error of rand's generators: here, a failure of the operating
/// system's entropy source.
#[verifier::external_type_specification]
#[verifier::external_body]
pub struct ExRandError(rand::Error);

/// Relies on rand's `OsRng::try_fill_bytes`: it fills the buffer from the
/// operating system's entropy source, or returns that source's error
/// instead of panicking. The draw can fail; nothing is known of the bytes,
/// which may be partly written on an error. The buffer keeps its length.
#[verifier::external_body]
fn try_fill_random(buf: &mut Vec<u8>) -> (r: Result<(), rand::Error>)
    ensures
        final(buf)@.len() == old(buf)@.len(),
{
    OsRng.try_fill_bytes(buf.as_mut_slice())
}

/// The cell that a draw seeds: dead for an even draw, alive for an odd one.
pub open spec fn cell_of_draw(d: u8) -> u8 {
    if d % 2 == 0 {
        DEAD
    } else {
        ALIVE
    }
}

/// Maps each draw to the cell it seeds, in order.
pub fn cells_from_draws(draws: &Vec<u8>) -> (r: Vec<u8>)
    ensures
        r@ == draws@.map_values(|d: u8| cell_of_draw(d)),
        all_cell_values(r@),
{
    let mut cells: Vec<u8> = Vec::with_capacity(draws.len());
    let mut i: usize = 0;
    while i < draws.len()
        invariant
            i <= draws@.len(),
            cells@ == draws@.take(i as int).map_values(|d: u8| cell_of_draw(d)),
        decreases draws@.len() - i,
    {
        let cell: u8 = if draws[i] % 2 == 0 {
            DEAD
        } else {
            ALIVE
        };
        cells.push(cell);
        assert(draws@.take(i + 1) == draws@.take(i as int).push(draws@[i as int]));
        assert(cells@ =~= draws@.take(i + 1).map_values(|d: u8| cell_of_draw(d)));
        i += 1;
    }
    assert(draws@.take(draws@.len() as int) =~= draws@);
    cells
}

/// `n` random bytes, or `None` where the entropy source failed.
pub(crate) fn random_draws(n: usize) -> (r: Option<Vec<u8>>)
    ensures
        r matches Some(v) ==> v@.len() == n,
{
    let mut draws: Vec<u8> = Vec::with_capacity(n);
    let mut i: usize = 0;
    while i < n
        invariant
            i <= n,
            draws@.len() == i,
        decreases n - i,
    {
        draws.push(0);
        i += 1;
    }
    match try_fill_random(&mut draws) {
        Ok(()) => Some(draws),
        Err(_) => None,
    }
}

} // verus!
