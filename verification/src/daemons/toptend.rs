//! The kinds of rankings.
use vstd::prelude::*;

verus! {

/// What a ranking ranks players by.
#[derive(Clone, Copy, Debug, PartialEq, Eq, Structural, Hash)]
pub enum RankType {
    Level,
    Power,
    Gold,
    Guild,
    Kills,
    Deaths,
}

} // verus!
