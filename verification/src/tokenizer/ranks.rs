//! The table of mergeable ranks: token bytes to rank, hashed with `FxHasher`.

use rustc_hash::FxHasher;
use std::collections::HashMap;
use std::hash::BuildHasherDefault;
use vstd::prelude::*;

verus! {

/// `rustc_hash::FxHasher`: the hasher of the table, never looked into.
#[verifier::external_type_specification]
#[verifier::external_body]
pub struct ExFxHasher(FxHasher);

/// `std::hash::BuildHasherDefault`: the builder of the table's hasher, never
/// looked into.
#[verifier::external_type_specification]
#[verifier::external_body]
#[verifier::reject_recursive_types(H)]
pub struct ExBuildHasherDefault<H>(BuildHasherDefault<H>);

/// The executable table.
pub type RankTable = HashMap<Vec<u8>, u32, BuildHasherDefault<FxHasher>>;

/// Its mathematical content.
pub type RankMap = Map<Seq<u8>, u32>;

/// What a table holds.
pub uninterp spec fn rank_table_contents(table: RankTable) -> RankMap;

/// No rank belongs to two tokens.
pub open spec fn one_token_per_rank(ranks: RankMap) -> bool {
    forall|a: Seq<u8>, b: Seq<u8>|
        ranks.contains_key(a) && ranks.contains_key(b) && #[trigger] ranks[a] == #[trigger] ranks[b]
            ==> a == b
}

/// `ranks` lists the rank of each key of `contents` once, key by key in the
/// order of `keys`.
pub open spec fn lists_ranks(contents: RankMap, keys: Seq<Seq<u8>>, ranks: Seq<u32>) -> bool {
    &&& keys.no_duplicates()
    &&& keys.to_set() == contents.dom()
    &&& ranks.len() == keys.len()
    &&& forall|i: int| 0 <= i < keys.len() ==> ranks[i] == contents[#[trigger] keys[i]]
}

/// `HashMap::with_hasher` with the default `FxHasher` builder. Trusted: the
/// new table is empty.
#[verifier::external_body]
pub(crate) fn rank_table_new() -> (table: RankTable)
    ensures
        rank_table_contents(table) == RankMap::empty(),
{
    HashMap::with_hasher(BuildHasherDefault::<FxHasher>::default())
}

/// `HashMap::insert`. Trusted: the token now has this rank, whatever it had
/// before, and the other tokens keep theirs.
#[verifier::external_body]
pub(crate) fn rank_table_insert(table: &mut RankTable, token: Vec<u8>, rank: u32)
    ensures
        rank_table_contents(*final(table)) == rank_table_contents(*old(table)).insert(token@, rank),
{
    table.insert(token, rank);
}

/// `HashMap::values`, copied out. Trusted: every token's rank comes once, in
/// an order that is not promised.
#[verifier::external_body]
pub(crate) fn rank_table_ranks(table: &RankTable) -> (ranks: Vec<u32>)
    ensures
        exists|keys: Seq<Seq<u8>>| #[trigger] lists_ranks(rank_table_contents(*table), keys, ranks@),
{
    table.values().copied().collect()
}

} // verus!
