//! Bounded fan-out of fetch tasks and ordered fan-in of their outcomes.
//!
//! Every descriptor becomes one job on a worker pool of fixed size. The jobs
//! report over one channel, in whatever order they finish; the outcomes are
//! then put back in the order of the table. That every job reports, and
//! reports once, is not taken on trust from the pool or the channel: what
//! arrives is checked, and an outcome that is missing, doubled or addressed
//! to no descriptor is reported.

use crate::config::FetcherType;
use crate::config::SysInfoItem;
use crate::pool::Workers;
use vstd::prelude::*;

verus! {

/// One fact to fetch: a row of the table with its position in it.
#[derive(Clone, Copy, Debug)]
pub struct FetchDescriptor {
    /// Position in the table, counted from zero.
    pub index: usize,
    pub label: &'static str,
    pub kind: FetcherType,
}

/// What fetching one descriptor gave: its lines, tagged with its position.
#[derive(Debug)]
pub struct FetchOutcome {
    pub index: usize,
    pub lines: Vec<String>,
}

/// Why a set of outcomes is not one outcome per descriptor.
#[derive(Clone, Copy, Debug, PartialEq, Eq, Structural)]
pub enum DispatchError {
    /// An outcome arrived whose index names no descriptor, or one that an
    /// earlier outcome had served already.
    UnexpectedOutcome { index: usize },
    /// No outcome arrived for the descriptor at `index`.
    MissingOutcome { index: usize },
}

/// The descriptor made of row `index` of the table.
pub open spec fn descriptor_of(table: Seq<SysInfoItem>, index: int) -> FetchDescriptor {
    FetchDescriptor {
        index: index as usize,
        label: table[index].label,
        kind: table[index].fetcher_type,
    }
}

/// Arrival `j` cannot be filed: its index names no descriptor, or an earlier
/// arrival carries the same index.
pub open spec fn fault_at(arrived: Seq<FetchOutcome>, expected: nat, j: int) -> bool {
    arrived[j].index >= expected || exists|k: int|
        0 <= k < j && #[trigger] arrived[k].index == arrived[j].index
}

/// None of the first `upto` arrivals is a fault.
pub open spec fn faultless(arrived: Seq<FetchOutcome>, expected: nat, upto: int) -> bool {
    forall|j: int| 0 <= j < upto ==> !fault_at(arrived, expected, j)
}

/// Some arrival carries index `i`.
pub open spec fn served(arrived: Seq<FetchOutcome>, i: int) -> bool {
    exists|j: int| 0 <= j < arrived.len() && #[trigger] arrived[j].index == i
}

/// The arrivals are one outcome per descriptor: none out of range, none
/// doubled, none missing.
pub open spec fn complete(arrived: Seq<FetchOutcome>, expected: nat) -> bool {
    &&& faultless(arrived, expected, arrived.len() as int)
    &&& forall|i: int| 0 <= i < expected ==> served(arrived, i)
}

/// Every outcome stands at the position its index names.
pub open spec fn in_order(ordered: Seq<FetchOutcome>) -> bool {
    forall|i: int| 0 <= i < ordered.len() ==> (#[trigger] ordered[i]).index == i
}

/// Every arrival is found in `ordered`, at the position its index names.
pub open spec fn restores(ordered: Seq<FetchOutcome>, arrived: Seq<FetchOutcome>) -> bool {
    forall|j: int|
        0 <= j < arrived.len() ==> (#[trigger] arrived[j]).index < ordered.len()
            && ordered[arrived[j].index as int] == arrived[j]
}

/// What [`restore_order`] answers for given arrivals.
pub open spec fn restored(
    arrived: Seq<FetchOutcome>,
    expected: nat,
    res: Result<Vec<FetchOutcome>, DispatchError>,
) -> bool {
    match res {
        Ok(ordered) => {
            &&& complete(arrived, expected)
            &&& ordered@.len() == expected
            &&& in_order(ordered@)
            &&& restores(ordered@, arrived)
        },
        Err(DispatchError::UnexpectedOutcome { index }) => exists|j: int|
            0 <= j < arrived.len() && faultless(arrived, expected, j) && fault_at(
                arrived,
                expected,
                j,
            ) && #[trigger] arrived[j].index == index,
        Err(DispatchError::MissingOutcome { index }) => {
            &&& faultless(arrived, expected, arrived.len() as int)
            &&& index < expected
            &&& !served(arrived, index as int)
            &&& forall|i: int| 0 <= i < index ==> served(arrived, i)
        },
    }
}

/// One empty slot for each of `expected` descriptors.
fn empty_slots(expected: usize) -> (slots: Vec<Option<FetchOutcome>>)
    ensures
        slots.len() == expected,
        forall|i: int| 0 <= i < expected ==> slots[i] is None,
{
    let mut slots: Vec<Option<FetchOutcome>> = Vec::new();
    let mut i: usize = 0;
    while i < expected
        invariant
            i <= expected,
            slots.len() == i,
            forall|k: int| 0 <= k < i ==> slots[k] is None,
        decreases expected - i,
    {
        slots.push(None);
        i += 1;
    }
    slots
}

/// Puts the outcomes, which arrived in any order, back in the order of the
/// table: the outcome with index `i` at position `i`.
///
/// Succeeds exactly when the arrivals are one outcome for each of the
/// `expected` descriptors. Otherwise the first arrival that cannot be filed
/// is reported, or, where every arrival could be, the first descriptor that
/// was left without an outcome.
pub fn restore_order(arrived: Vec<FetchOutcome>, expected: usize) -> (res: Result<
    Vec<FetchOutcome>,
    DispatchError,
>)
    ensures
        restored(arrived@, expected as nat, res),
{
    let mut slots = empty_slots(expected);
    let ghost all = arrived@;
    for outcome in it: arrived
        invariant
            it.seq() == all,
            slots.len() == expected,
            faultless(all, expected as nat, it.index() as int),
            forall|i: int|
                0 <= i < expected ==> (#[trigger] slots[i] matches Some(o) ==> o.index == i
                    && exists|k: int| 0 <= k < it.index() && all[k] == o),
            forall|k: int|
                0 <= k < it.index() ==> (#[trigger] all[k]).index < expected && slots[all[k].index as int]
                    == Some(all[k]),
    {
        let ghost j = it.index() as int;
        let ghost before = slots@;
        assert(outcome == all[j]);
        let index = outcome.index;
        if index >= expected {
            return Err(DispatchError::UnexpectedOutcome { index });
        }
        if slots[index].is_some() {
            proof {
                let earlier = slots[index as int]->0;
                let k = choose|k: int| 0 <= k < j && all[k] == earlier;
                assert(all[k].index == all[j].index);
            }
            return Err(DispatchError::UnexpectedOutcome { index });
        }
        proof {
            assert(!fault_at(all, expected as nat, j)) by {
                if exists|k: int| 0 <= k < j && #[trigger] all[k].index == all[j].index {
                    let k = choose|k: int| 0 <= k < j && #[trigger] all[k].index == all[j].index;
                    assert(slots[all[k].index as int] == Some(all[k]));
                }
            }
        }
        slots.set(index, Some(outcome));
        proof {
            assert forall|k: int| 0 <= k < j + 1 implies (#[trigger] all[k]).index < expected
                && slots[all[k].index as int] == Some(all[k]) by {
                if k < j {
                    assert(before[all[k].index as int] == Some(all[k]));
                    assert(all[k].index != index);
                }
            }
        }
    }
    let ghost filled = slots@;
    let mut ordered: Vec<FetchOutcome> = Vec::new();
    for slot in it: slots
        invariant
            it.seq() == filled,
            all == arrived@,
            filled.len() == expected,
            ordered.len() == it.index(),
            forall|i: int| 0 <= i < it.index() ==> filled[i] == Some(#[trigger] ordered[i]),
            faultless(all, expected as nat, all.len() as int),
            forall|i: int|
                0 <= i < expected ==> (#[trigger] filled[i] matches Some(o) ==> o.index == i
                    && exists|k: int| 0 <= k < all.len() && all[k] == o),
            forall|k: int|
                0 <= k < all.len() ==> (#[trigger] all[k]).index < expected && filled[all[k].index as int]
                    == Some(all[k]),
    {
        let ghost i = it.index() as int;
        assert(0 <= i < expected);
        match slot {
            Some(outcome) => {
                ordered.push(outcome);
            },
            None => {
                proof {
                    assert(!served(all, i)) by {
                        if served(all, i) {
                            let k = choose|k: int|
                                0 <= k < all.len() && #[trigger] all[k].index == i;
                            assert(filled[all[k].index as int] == Some(all[k]));
                        }
                    }
                    assert forall|m: int| 0 <= m < i implies served(all, m) by {
                        let o = ordered[m];
                        assert(filled[m] == Some(o));
                        let k = choose|k: int| 0 <= k < all.len() && all[k] == o;
                        assert(all[k].index == m);
                    }
                }
                return Err(DispatchError::MissingOutcome { index: ordered.len() });
            },
        }
    }
    proof {
        assert forall|m: int| 0 <= m < expected implies served(all, m) by {
            let o = ordered[m];
            assert(filled[m] == Some(o));
            let k = choose|k: int| 0 <= k < all.len() && all[k] == o;
            assert(all[k].index == m);
        }
        assert(in_order(ordered@)) by {
            assert forall|m: int| 0 <= m < ordered.len() implies (#[trigger] ordered[m]).index
                == m by {
                assert(filled[m] == Some(ordered[m]));
            }
        }
        assert(restores(ordered@, all)) by {
            assert forall|k: int| 0 <= k < all.len() implies (#[trigger] all[k]).index
                < ordered.len() && ordered[all[k].index as int] == all[k] by {
                assert(!fault_at(all, expected as nat, k));
                assert(filled[all[k].index as int] == Some(all[k]));
            }
        }
    }
    Ok(ordered)
}

/// Fetches one descriptor: runs the executor on it and tags the lines with
/// the descriptor's index.
pub fn run_task<E>(executor: &E, descriptor: FetchDescriptor) -> (outcome: FetchOutcome) where
    E: Fn(FetchDescriptor) -> Vec<String>,

    requires
        call_requires(*executor, (descriptor,)),
    ensures
        outcome.index == descriptor.index,
        call_ensures(*executor, (descriptor,), outcome.lines),
{
    let lines = executor(descriptor);
    FetchOutcome { index: descriptor.index, lines }
}

/// The descriptors of a table: one for each row, in the order of the rows.
pub open spec fn descriptors(table: Seq<SysInfoItem>) -> Seq<FetchDescriptor> {
    Seq::new(table.len(), |i: int| descriptor_of(table, i))
}

/// What [`run_all`] does with a table: every descriptor of the table, and
/// nothing else, was submitted to `pool`, whose jobs run `executor`; then
/// `arrived` was taken from it, one outcome for each row at most, each an
/// answer to a submitted descriptor; and `res` is what [`restore_order`]
/// answers on `arrived`.
pub open spec fn dispatched<E: Fn(FetchDescriptor) -> Vec<String> + Send + Sync + 'static>(
    pool: Workers<E>,
    arrived: Seq<FetchOutcome>,
    table: Seq<SysInfoItem>,
    executor: E,
    res: Result<Vec<FetchOutcome>, DispatchError>,
) -> bool {
    &&& pool.executor() == executor
    &&& pool.submitted() == descriptors(table)
    &&& arrived.len() <= table.len()
    &&& forall|k: int| 0 <= k < arrived.len() ==> pool.answers(#[trigger] arrived[k])
    &&& restored(arrived, table.len(), res)
}

/// The descriptors of a table: one for each row, in the order of the rows.
pub fn descriptors_of(table: &Vec<SysInfoItem>) -> (all: Vec<FetchDescriptor>)
    ensures
        all@.len() == table@.len(),
        forall|i: int| 0 <= i < table@.len() ==> #[trigger] all@[i] == descriptor_of(table@, i),
        all@ == descriptors(table@),
{
    let mut all: Vec<FetchDescriptor> = Vec::new();
    let mut index: usize = 0;
    while index < table.len()
        invariant
            index <= table.len(),
            all@.len() == index,
            forall|i: int| 0 <= i < index ==> #[trigger] all@[i] == descriptor_of(table@, i),
        decreases table.len() - index,
    {
        all.push(
            FetchDescriptor {
                index,
                label: table[index].label,
                kind: table[index].fetcher_type,
            },
        );
        index += 1;
    }
    assert(all@ =~= descriptors(table@));
    all
}

/// Submits every descriptor of `all`, in order.
pub(crate) fn submit_all<E>(workers: &mut Workers<E>, all: &Vec<FetchDescriptor>) where
    E: Fn(FetchDescriptor) -> Vec<String> + Send + Sync + 'static,

    requires
        old(workers).accepting(),
        forall|i: int|
            0 <= i < all@.len() ==> call_requires(old(workers).executor(), (#[trigger] all@[i],)),
    ensures
        final(workers).submitted() == old(workers).submitted() + all@,
        final(workers).executor() == old(workers).executor(),
        final(workers).accepting(),
{
    let mut index: usize = 0;
    while index < all.len()
        invariant
            index <= all.len(),
            workers.accepting(),
            workers.executor() == old(workers).executor(),
            workers.submitted() == old(workers).submitted() + all@.take(index as int),
            forall|i: int|
                0 <= i < all@.len() ==> call_requires(
                    old(workers).executor(),
                    (#[trigger] all@[i],),
                ),
        decreases all.len() - index,
    {
        workers.submit(all[index]);
        assert(all@.take(index + 1) == all@.take(index as int).push(all@[index as int]));
        index += 1;
    }
    assert(all@.take(all.len() as int) == all@);
}

/// Takes the outcomes from the channel as they come: `expected` of them, or
/// fewer where the channel closes before. Each answers a descriptor that
/// was submitted.
pub(crate) fn collect<E>(workers: &Workers<E>, expected: usize) -> (arrived: Vec<FetchOutcome>) where
    E: Fn(FetchDescriptor) -> Vec<String> + Send + Sync + 'static,

    requires
        !workers.accepting(),
    ensures
        arrived@.len() <= expected,
        forall|k: int| 0 <= k < arrived@.len() ==> workers.answers(#[trigger] arrived@[k]),
{
    let mut arrived: Vec<FetchOutcome> = Vec::new();
    let mut open = true;
    while open && arrived.len() < expected
        invariant
            !workers.accepting(),
            arrived@.len() <= expected,
            forall|k: int| 0 <= k < arrived@.len() ==> workers.answers(#[trigger] arrived@[k]),
        decreases expected - arrived.len() + if open { 1nat } else { 0nat },
    {
        match workers.receive() {
            Some(outcome) => {
                arrived.push(outcome);
            },
            None => {
                open = false;
            },
        }
    }
    arrived
}

/// Fetches every row of `table` on a pool of `workers` threads and returns
/// the outcomes in the order of the table.
///
/// Every descriptor of the table is submitted; at most `workers` rows are
/// being fetched at any moment, the others wait in the pool's queue. The
/// outcomes are taken from the channel as they come, one for each row at
/// most, and handed to [`restore_order`]: the answer is its answer on what
/// arrived. Where that is a success, the outcome at each position holds
/// lines that the executor returns for the row at that position. Whether
/// it is a success rests with the pool: a job that dies leaves its row
/// without an outcome. An empty table always succeeds.
pub fn run_all<E>(table: &Vec<SysInfoItem>, workers: usize, executor: E) -> (res: Result<
    Vec<FetchOutcome>,
    DispatchError,
>) where E: Fn(FetchDescriptor) -> Vec<String> + Send + Sync + 'static
    requires
        workers >= 1,
        forall|i: int|
            0 <= i < table.len() ==> call_requires(executor, (#[trigger] descriptor_of(table@, i),)),
    ensures
        exists|pool: Workers<E>, arrived: Seq<FetchOutcome>| #[trigger]
            dispatched(pool, arrived, table@, executor, res),
        res matches Ok(ordered) ==> ordered.len() == table.len() && in_order(ordered@),
        res matches Ok(ordered) ==> forall|i: int|
            0 <= i < table.len() ==> call_ensures(
                executor,
                (descriptor_of(table@, i),),
                (#[trigger] ordered[i]).lines,
            ),
        table.len() == 0 ==> res is Ok,
{
    let expected = table.len();
    let all = descriptors_of(table);
    let mut pool = Workers::new(workers, executor);
    submit_all(&mut pool, &all);
    pool.seal();
    assert(pool.submitted() == all@);
    let arrived = collect(&pool, expected);
    let ghost taken = arrived@;
    let res = restore_order(arrived, expected);
    proof {
        assert(restored(taken, expected as nat, res));
        assert(dispatched(pool, taken, table@, executor, res));
        if expected == 0 {
            assert(taken.len() == 0);
            if res is Err {
                match res {
                    Err(DispatchError::UnexpectedOutcome { index }) => { },
                    Err(DispatchError::MissingOutcome { index }) => { },
                    Ok(_) => { },
                }
            }
        }
        if res is Ok {
            let ordered = res->Ok_0;
            lemma_restored_holds_arrivals(taken, expected as nat, ordered@);
            assert forall|i: int| 0 <= i < table.len() implies call_ensures(
                executor,
                (descriptor_of(table@, i),),
                (#[trigger] ordered[i]).lines,
            ) by {
                let outcome = ordered[i];
                assert(taken.contains(outcome));
                let j = choose|j: int| 0 <= j < taken.len() && taken[j] == outcome;
                assert(pool.answers(taken[j]));
                let k = choose|k: int|
                    0 <= k < pool.submitted().len() && (#[trigger] pool.submitted()[k]).index
                        == outcome.index && call_ensures(
                        pool.executor(),
                        (pool.submitted()[k],),
                        outcome.lines,
                    );
                assert(all@[k] == descriptor_of(table@, k));
                assert(k == i);
            }
        }
    }
    res
}

/// Every one of `arrived` carries the index of a row of `table`, and lines
/// that `executor` returns for the descriptor of that row.
pub open spec fn answer_rows<E: Fn(FetchDescriptor) -> Vec<String>>(
    arrived: Seq<FetchOutcome>,
    table: Seq<SysInfoItem>,
    executor: E,
) -> bool {
    forall|k: int|
        0 <= k < arrived.len() ==> (#[trigger] arrived[k]).index < table.len() && call_ensures(
            executor,
            (descriptor_of(table, arrived[k].index as int),),
            arrived[k].lines,
        )
}

/// What arrives from a pool to which the descriptors of a table were
/// submitted answers the rows of the table: an outcome that answers a
/// submitted descriptor answers the row that its index names.
pub proof fn lemma_dispatched_answers_rows<E: Fn(FetchDescriptor) -> Vec<String> + Send + Sync + 'static>(
    table: Seq<SysInfoItem>,
    executor: E,
    res: Result<Vec<FetchOutcome>, DispatchError>,
)
    requires
        table.len() <= usize::MAX,
        exists|pool: Workers<E>, arrived: Seq<FetchOutcome>| #[trigger]
            dispatched(pool, arrived, table, executor, res),
    ensures
        exists|arrived: Seq<FetchOutcome>|
            arrived.len() <= table.len() && #[trigger] answer_rows(arrived, table, executor)
                && restored(arrived, table.len(), res),
{
    let (pool, arrived) = choose|pool: Workers<E>, arrived: Seq<FetchOutcome>| #[trigger]
        dispatched(pool, arrived, table, executor, res);
    assert forall|k: int| 0 <= k < arrived.len() implies (#[trigger] arrived[k]).index
        < table.len() && call_ensures(
        executor,
        (descriptor_of(table, arrived[k].index as int),),
        arrived[k].lines,
    ) by {
        assert(pool.answers(arrived[k]));
        let j = choose|j: int|
            0 <= j < pool.submitted().len() && (#[trigger] pool.submitted()[j]).index
                == arrived[k].index && call_ensures(
                pool.executor(),
                (pool.submitted()[j],),
                arrived[k].lines,
            );
        assert(pool.submitted()[j] == descriptor_of(table, j));
    }
    assert(answer_rows(arrived, table, executor));
}

/// Complete arrivals are as many as the descriptors: each descriptor has
/// its one outcome and each outcome its one descriptor.
pub proof fn lemma_complete_counts(arrived: Seq<FetchOutcome>, expected: nat)
    requires
        complete(arrived, expected),
    ensures
        arrived.len() == expected,
{
    let indices = arrived.map_values(|o: FetchOutcome| o.index as int);
    assert forall|i: int, j: int|
        0 <= i < indices.len() && 0 <= j < indices.len() && i != j implies indices[i]
        != indices[j] by {
        if i < j {
            assert(!fault_at(arrived, expected, j));
            assert(arrived[i].index != arrived[j].index);
        } else {
            assert(!fault_at(arrived, expected, i));
            assert(arrived[j].index != arrived[i].index);
        }
    }
    indices.unique_seq_to_set();
    assert(indices.to_set() =~= vstd::set_lib::set_int_range(0, expected as int)) by {
        assert forall|x: int| indices.to_set().contains(x) implies 0 <= x < expected by {
            let j = choose|j: int| 0 <= j < indices.len() && indices[j] == x;
            assert(!fault_at(arrived, expected, j));
        }
        assert forall|x: int| 0 <= x < expected implies indices.to_set().contains(x) by {
            assert(served(arrived, x));
            let j = choose|j: int| 0 <= j < arrived.len() && #[trigger] arrived[j].index == x;
            assert(indices[j] == x);
        }
    }
    vstd::set_lib::lemma_int_range(0, expected as int);
}

/// What is restored from complete arrivals holds nothing but arrivals.
pub proof fn lemma_restored_holds_arrivals(
    arrived: Seq<FetchOutcome>,
    expected: nat,
    ordered: Seq<FetchOutcome>,
)
    requires
        complete(arrived, expected),
        ordered.len() == expected,
        restores(ordered, arrived),
    ensures
        forall|i: int| 0 <= i < ordered.len() ==> arrived.contains(#[trigger] ordered[i]),
{
    assert forall|i: int| 0 <= i < ordered.len() implies arrived.contains(
        #[trigger] ordered[i],
    ) by {
        assert(served(arrived, i));
        let j = choose|j: int| 0 <= j < arrived.len() && #[trigger] arrived[j].index == i;
        assert(ordered[arrived[j].index as int] == arrived[j]);
    }
}

/// Outcomes that stand in order carry strictly rising indices.
pub proof fn lemma_in_order_rises(ordered: Seq<FetchOutcome>)
    requires
        in_order(ordered),
    ensures
        forall|i: int, j: int|
            0 <= i < j < ordered.len() ==> (#[trigger] ordered[i]).index < (
            #[trigger] ordered[j]).index,
{
}

/// The order of arrival is immaterial: two complete sets of arrivals that
/// hold the same outcomes, in whatever order each, are restored to the
/// same sequence.
pub proof fn lemma_arrival_order_is_immaterial(
    first: Seq<FetchOutcome>,
    second: Seq<FetchOutcome>,
    expected: nat,
    from_first: Seq<FetchOutcome>,
    from_second: Seq<FetchOutcome>,
)
    requires
        complete(first, expected),
        complete(second, expected),
        first.to_multiset() == second.to_multiset(),
        from_first.len() == expected,
        restores(from_first, first),
        from_second.len() == expected,
        restores(from_second, second),
    ensures
        from_first == from_second,
{
    first.to_multiset_ensures();
    second.to_multiset_ensures();
    assert forall|i: int| 0 <= i < expected implies from_first[i] == from_second[i] by {
        assert(served(first, i));
        let j = choose|j: int| 0 <= j < first.len() && #[trigger] first[j].index == i;
        let outcome = first[j];
        assert(first.contains(outcome));
        assert(second.to_multiset().count(outcome) > 0);
        assert(second.contains(outcome));
        let k = choose|k: int| 0 <= k < second.len() && second[k] == outcome;
        assert(from_second[second[k].index as int] == second[k]);
        assert(from_first[first[j].index as int] == first[j]);
    }
    assert(from_first =~= from_second);
}

} // verus!
