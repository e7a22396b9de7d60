use vstd::prelude::*;

verus! {

/// Fixed example data returned by the query surface; never persisted.
#[derive(Clone, Copy, Debug, PartialEq, Eq, Structural)]
pub struct ReserveSnapshot {
    pub total_minted: u64,
    pub total_reserve: u64,
}

/// The single-record query shape. Pure and stateless: it returns this
/// exact snapshot every time.
pub fn get_reserves() -> (r: ReserveSnapshot)
    ensures
        r == (ReserveSnapshot { total_minted: 100, total_reserve: 200 }),
{
    ReserveSnapshot { total_minted: 100, total_reserve: 200 }
}

/// The list query shape: the same two snapshots in a fixed order,
/// every time.
pub fn get_multiple_reserves() -> (r: Vec<ReserveSnapshot>)
    ensures
        r@.len() == 2,
        r@[0] == (ReserveSnapshot { total_minted: 100, total_reserve: 200 }),
        r@[1] == (ReserveSnapshot { total_minted: 300, total_reserve: 400 }),
{
    let mut v: Vec<ReserveSnapshot> = Vec::new();
    v.push(ReserveSnapshot { total_minted: 100, total_reserve: 200 });
    v.push(ReserveSnapshot { total_minted: 300, total_reserve: 400 });
    v
}

/// The tuple query shape: the same values as the single-record shape,
/// as a positional pair.
pub fn get_tuple_reserves() -> (r: (u64, u64))
    ensures
        r.0 == 100,
        r.1 == 200,
{
    (100, 200)
}

} // verus!
