//! The rendered art that the display is drawn beside.

use crate::text::same_text;
use crate::text::trim;
use crate::text::trimmed;
use rand::seq::SliceRandom;
use vstd::prelude::*;

verus! {

/// The category of the art that fits beside the facts.
pub const SMALL_CATEGORY: &'static str = "small";

/// One rendered piece of art.
#[derive(Debug)]
pub struct CacheEntry {
    /// The art, with the control sequences that colour it.
    pub ansi_art: String,
    pub category: String,
    /// How many lines the art has.
    pub num_lines: usize,
}

impl CacheEntry {
    /// Whether the art fits beside the facts.
    pub open spec fn is_small(self) -> bool {
        self.category@ == SMALL_CATEGORY@
    }
}

/// Whether a cache file with this content holds no entry at all: it is
/// empty but for white space.
pub fn is_blank(content: &str) -> (blank: bool)
    ensures
        blank == (trimmed(content@).len() == 0),
{
    let rest = trim(content);
    rest.as_str().is_empty()
}

/// `positions` lists where the small entries stand among `entries`: every
/// such position, once, in rising order.
pub open spec fn lists_small(entries: Seq<CacheEntry>, positions: Seq<usize>) -> bool {
    &&& forall|k: int|
        0 <= k < positions.len() ==> (#[trigger] positions[k]) < entries.len()
            && entries[positions[k] as int].is_small()
    &&& forall|j: int, k: int|
        0 <= j < k < positions.len() ==> (#[trigger] positions[j]) < (#[trigger] positions[k])
    &&& forall|i: int|
        0 <= i < entries.len() && (#[trigger] entries[i]).is_small() ==> positions.contains(
            i as usize,
        )
}

/// Where the entries of the small category stand.
pub fn small_entries(entries: &Vec<CacheEntry>) -> (positions: Vec<usize>)
    ensures
        lists_small(entries@, positions@),
{
    let mut positions: Vec<usize> = Vec::new();
    let mut i: usize = 0;
    while i < entries.len()
        invariant
            i <= entries.len(),
            lists_small(entries@.take(i as int), positions@),
        decreases entries.len() - i,
    {
        let ghost before = positions@;
        let ghost seen = entries@.take(i as int);
        let ghost longer = entries@.take(i + 1);
        let small = same_text(entries[i].category.as_str(), SMALL_CATEGORY);
        if small {
            positions.push(i);
        }
        proof {
            assert forall|k: int| 0 <= k < positions.len() implies (#[trigger] positions[k])
                < longer.len() && longer[positions[k] as int].is_small() by {
                if k < before.len() {
                    assert(before[k] == positions[k]);
                    assert(seen[before[k] as int] == longer[before[k] as int]);
                }
            }
            assert forall|j: int, k: int| 0 <= j < k < positions.len() implies (
            #[trigger] positions[j]) < (#[trigger] positions[k]) by {
                assert(before[j] == positions[j]);
                if k < before.len() {
                    assert(before[k] == positions[k]);
                }
            }
            assert forall|m: int| 0 <= m < longer.len() && (#[trigger] longer[m]).is_small() implies positions@.contains(
                m as usize,
            ) by {
                if m < i {
                    assert(seen[m] == longer[m]);
                    assert(before.contains(m as usize));
                    let k = choose|k: int| 0 <= k < before.len() && before[k] == m as usize;
                    assert(positions@[k] == m as usize);
                } else {
                    assert(positions@[positions.len() - 1] == m as usize);
                }
            }
        }
        i += 1;
    }
    assert(entries@.take(entries.len() as int) == entries@);
    positions
}

/// `chosen` is a pick from `positions`: one of them, or nothing where
/// there is none.
pub open spec fn picked_from(positions: Seq<usize>, chosen: Option<usize>) -> bool {
    match chosen {
        Some(position) => positions.contains(position),
        None => positions.len() == 0,
    }
}

/// `rand::seq::SliceRandom::choose` with the generator of
/// `rand::thread_rng`: one element picked at random, none from an empty
/// slice. Which element is picked is left open.
#[verifier::external_body]
fn choose_one(positions: &Vec<usize>) -> (chosen: Option<usize>)
    ensures
        picked_from(positions@, chosen),
{
    positions.choose(&mut rand::thread_rng()).copied()
}

/// Whether `entries` holds a small entry.
pub open spec fn has_small(entries: Seq<CacheEntry>) -> bool {
    exists|i: int| 0 <= i < entries.len() && (#[trigger] entries[i]).is_small()
}

/// Picks the art to display: one of the small entries, at random. Nothing
/// where there is no small entry.
pub fn pick_art(entries: &Vec<CacheEntry>) -> (chosen: Option<&CacheEntry>)
    ensures
        chosen is Some <==> has_small(entries@),
        chosen matches Some(entry) ==> entry.is_small() && exists|i: int|
            0 <= i < entries.len() && #[trigger] entries[i] == *entry,
{
    let positions = small_entries(entries);
    match choose_one(&positions) {
        Some(at) => {
            proof {
                let k = choose|k: int| 0 <= k < positions.len() && positions[k] == at;
                assert(entries[at as int].is_small());
            }
            Some(&entries[at])
        },
        None => {
            proof {
                if has_small(entries@) {
                    let i = choose|i: int|
                        0 <= i < entries.len() && (#[trigger] entries[i]).is_small();
                    assert(positions@.contains(i as usize));
                }
            }
            None
        },
    }
}

} // verus!
