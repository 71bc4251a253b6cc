//! The data the monitor works on: one raw row per process as the
//! enumeration hands it over, the classified record shown in the view,
//! and the sort keys with their strict orders.
//!
//! CPU load is carried in hundredths of a percent and memory in bytes,
//! so every sort key compares plain integers or byte strings.

use crate::text::{lemma_lex_irrefl, lemma_lex_trans, lemma_lex_trichotomy, lex_lt, lex_lt_bytes};
use vstd::prelude::*;

verus! {

/// The interaction modes of the monitor.
#[derive(PartialEq, Eq, Structural, Clone, Copy, Debug)]
pub enum Mode {
    Normal,
    Search,
    Help,
}

/// Which column the view is ordered by.
#[derive(PartialEq, Eq, Structural, Clone, Copy, Debug)]
pub enum SortMode {
    Name,
    Cpu,
    Memory,
}

/// One row of a raw process enumeration: identifier, display name as
/// bytes, instantaneous CPU load in hundredths of a percent, and
/// resident memory in bytes.
pub struct RawProcess {
    pub pid: u32,
    pub name: Vec<u8>,
    pub cpu_centi: u32,
    pub memory: u64,
}

/// A classified process record as the view presents it; built fresh on
/// every refresh and immutable afterwards.
pub struct ProcessInfo {
    pub pid: u32,
    pub name: Vec<u8>,
    pub cpu_centi: u32,
    pub memory: u64,
    pub is_game: bool,
}

/// The strict order a sort key sorts by: names ascending
/// lexicographically, CPU and memory descending.
pub open spec fn rec_lt(sk: SortMode, a: ProcessInfo, b: ProcessInfo) -> bool {
    match sk {
        SortMode::Name => lex_lt(a.name@, b.name@),
        SortMode::Cpu => a.cpu_centi > b.cpu_centi,
        SortMode::Memory => a.memory > b.memory,
    }
}

/// `rec_lt` for a fixed sort key, as a relation value.
pub open spec fn rec_lt_of(sk: SortMode) -> spec_fn(ProcessInfo, ProcessInfo) -> bool {
    |a: ProcessInfo, b: ProcessInfo| rec_lt(sk, a, b)
}

/// Each sort key's order is a strict weak order: irreflexive,
/// transitive, and with transitive incomparability.
pub proof fn lemma_rec_lt_strict_weak(sk: SortMode)
    ensures
        crate::sort::strict_weak(rec_lt_of(sk)),
{
    let lt = rec_lt_of(sk);
    assert forall|a: ProcessInfo| !(#[trigger] lt(a, a)) by {
        match sk {
            SortMode::Name => lemma_lex_irrefl(a.name@),
            _ => {},
        }
    }
    assert forall|a: ProcessInfo, b: ProcessInfo, c: ProcessInfo|
        #[trigger] lt(a, b) && #[trigger] lt(b, c) implies lt(a, c) by {
        match sk {
            SortMode::Name => lemma_lex_trans(a.name@, b.name@, c.name@),
            _ => {},
        }
    }
    assert forall|a: ProcessInfo, b: ProcessInfo, c: ProcessInfo|
        !(#[trigger] lt(a, b)) && !(#[trigger] lt(b, c)) implies !lt(a, c) by {
        match sk {
            SortMode::Name => {
                if lex_lt(a.name@, c.name@) {
                    lemma_lex_trichotomy(a.name@, b.name@);
                    if lex_lt(b.name@, a.name@) {
                        lemma_lex_trans(b.name@, a.name@, c.name@);
                    }
                }
            },
            _ => {},
        }
    }
}

/// Does `a` sort strictly before `b` under `sk`?
pub fn rec_before(sk: SortMode, a: &ProcessInfo, b: &ProcessInfo) -> (r: bool)
    ensures
        r == rec_lt(sk, *a, *b),
{
    match sk {
        SortMode::Name => lex_lt_bytes(&a.name, &b.name),
        SortMode::Cpu => a.cpu_centi > b.cpu_centi,
        SortMode::Memory => a.memory > b.memory,
    }
}

} // verus!
