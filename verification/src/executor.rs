//! The server-side query executor: turns one inbound query and the
//! store's contents into the stream of response frames, ending in the
//! end-of-data sentinel.

use vstd::prelude::*;
use vstd::slice::slice_to_vec;
use crate::wire::{DataOrFin, Direction, Query};

verus! {

/// A query is in bounds when its step is positive; any other query is
/// answered with the sentinel alone (the wire carries no error frames,
/// by design).
pub open spec fn query_in_bounds(q: Query) -> bool {
    q.step >= 1
}

/// The data items a valid query selects from the store (one encoded item
/// per block, indexed by block number): the blocks `start_block`,
/// `start_block + step`, ... in the requested direction, until `limit`
/// items are produced or the range leaves the store.
pub open spec fn selected_items(
    start: int,
    step: int,
    limit: int,
    dir: Direction,
    store: Seq<Seq<u8>>,
) -> Seq<Seq<u8>>
    decreases limit,
{
    if limit <= 0 || start < 0 || start >= store.len() {
        Seq::empty()
    } else {
        seq![store[start]] + selected_items(
            match dir {
                Direction::Forward => start + step,
                Direction::Backward => start - step,
            },
            step,
            limit - 1,
            dir,
            store,
        )
    }
}

/// The full response plan of a query: its selected data items, or
/// nothing for an out-of-bounds query. The sentinel follows in either
/// case.
pub open spec fn response_plan(q: Query, store: Seq<Seq<u8>>) -> Seq<Seq<u8>> {
    if query_in_bounds(q) {
        selected_items(q.start_block as int, q.step as int, q.limit as int, q.direction, store)
    } else {
        Seq::empty()
    }
}

/// The payload views of a sequence of frames (a sentinel counts as an
/// empty payload).
pub open spec fn payloads(s: Seq<DataOrFin>) -> Seq<Seq<u8>> {
    s.map_values(
        |d: DataOrFin| match d {
            DataOrFin::Data(b) => b@,
            DataOrFin::Fin => Seq::empty(),
        },
    )
}

/// The frame sequence `out` answers `q` over `store`: every frame but
/// the last carries the next selected item, and the last is the
/// sentinel.
pub open spec fn answers(out: Seq<DataOrFin>, q: Query, store: Seq<Seq<u8>>) -> bool {
    let plan = response_plan(q, store);
    &&& out.len() == plan.len() + 1
    &&& (forall|i: int|
        0 <= i < plan.len() ==> (#[trigger] out[i] matches DataOrFin::Data(b) && b@ == plan[i]))
    &&& out.last() == DataOrFin::Fin
}

/// Answers one inbound query from the store: one data frame per selected
/// item, in range order, then exactly one sentinel — also when the store
/// is truncated, when `limit` is zero, and when the query is out of
/// bounds. `read_ahead` is the prefetch window (`header_buffer_size`):
/// it only overlaps reading with sending and never changes the answer,
/// which stays correct at zero.
pub fn execute_query(q: &Query, store: &Vec<Vec<u8>>, read_ahead: usize) -> (out: Vec<DataOrFin>)
    requires
        forall|i: int| 0 <= i < store@.len() ==> store@[i]@.len() > 0,
    ensures
        answers(out@, *q, store.deep_view()),
        forall|i: int| 0 <= i < out@.len() ==> out@[i].wf(),
        q.limit == 0 ==> out@ =~= seq![DataOrFin::Fin],
{
    let ghost sdv = store.deep_view();
    proof {
        assert(sdv.len() == store@.len());
        assert(forall|i: int| 0 <= i < store@.len() ==> sdv[i] == store@[i]@);
    }
    let mut out: Vec<DataOrFin> = Vec::new();
    if q.step == 0 {
        out.push(DataOrFin::Fin);
        return out;
    }
    let n: usize = store.len();
    let mut block: u64 = q.start_block;
    let mut produced: u64 = 0;
    let mut in_range: bool = block < n as u64;
    // The next block of the walk; it can leave the representable range
    // when the walk steps past either end of the chain.
    let ghost mut cur: int = block as int;
    // One batch of up to max(read_ahead, 1) items is read from the store
    // before its frames are sent on; the batch size never changes what is
    // sent.
    let batch_target: usize = if read_ahead == 0 {
        1
    } else {
        read_ahead
    };
    while produced < q.limit && in_range
        invariant
            n == store@.len(),
            sdv == store.deep_view(),
            sdv.len() == n,
            forall|i: int| 0 <= i < n ==> sdv[i] == store@[i]@,
            forall|i: int| 0 <= i < n ==> sdv[i].len() > 0,
            q.step >= 1,
            produced <= q.limit,
            in_range <==> 0 <= cur < n as int,
            in_range ==> cur == block as int,
            batch_target >= 1,
            out@.len() == produced,
            forall|i: int| 0 <= i < out@.len() ==> out@[i] is Data && out@[i]->Data_0@.len() > 0,
            selected_items(q.start_block as int, q.step as int, q.limit as int, q.direction, sdv)
                =~= payloads(out@) + selected_items(
                cur,
                q.step as int,
                q.limit as int - produced as int,
                q.direction,
                sdv,
            ),
        decreases q.limit - produced,
    {
        let ghost out_prev = out@;
        let ghost produced0 = produced;
        let mut batch: Vec<DataOrFin> = Vec::new();
        let mut filled: usize = 0;
        // read ahead
        while filled < batch_target && produced < q.limit && in_range
            invariant
                n == store@.len(),
                sdv == store.deep_view(),
                sdv.len() == n,
                forall|i: int| 0 <= i < n ==> sdv[i] == store@[i]@,
                forall|i: int| 0 <= i < n ==> sdv[i].len() > 0,
                q.step >= 1,
                produced0 < q.limit,
                produced <= q.limit,
                produced as int == produced0 as int + filled as int,
                filled <= batch_target,
                in_range <==> 0 <= cur < n as int,
                in_range ==> cur == block as int,
                filled == 0 ==> in_range,
                batch@.len() == filled,
                forall|i: int|
                    0 <= i < batch@.len() ==> batch@[i] is Data && batch@[i]->Data_0@.len() > 0,
                out@ == out_prev,
                out@.len() == produced0,
                forall|i: int|
                    0 <= i < out@.len() ==> out@[i] is Data && out@[i]->Data_0@.len() > 0,
                selected_items(
                    q.start_block as int,
                    q.step as int,
                    q.limit as int,
                    q.direction,
                    sdv,
                ) =~= payloads(out_prev + batch@) + selected_items(
                    cur,
                    q.step as int,
                    q.limit as int - produced as int,
                    q.direction,
                    sdv,
                ),
            decreases q.limit - produced,
        {
            let ghost block0 = cur;
            let ghost batch0 = batch@;
            let ghost left0 = q.limit as int - produced as int;
            let item = slice_to_vec(store[block as usize].as_slice());
            assert(item@ == sdv[block0]);
            batch.push(DataOrFin::Data(item));
            produced = produced + 1;
            filled = filled + 1;
            let ghost next0: int = match q.direction {
                Direction::Forward => block0 + q.step as int,
                Direction::Backward => block0 - q.step as int,
            };
            proof {
                cur = next0;
            }
            match q.direction {
                Direction::Forward => {
                    match block.checked_add(q.step) {
                        Some(b2) => {
                            block = b2;
                            in_range = block < n as u64;
                        },
                        None => {
                            in_range = false;
                        },
                    }
                },
                Direction::Backward => {
                    match block.checked_sub(q.step) {
                        Some(b2) => {
                            block = b2;
                            in_range = block < n as u64;
                        },
                        None => {
                            in_range = false;
                        },
                    }
                },
            }
            proof {
                // one unfolding of the selection at block0
                assert(selected_items(block0, q.step as int, left0, q.direction, sdv)
                    =~= seq![sdv[block0]] + selected_items(
                    next0,
                    q.step as int,
                    left0 - 1,
                    q.direction,
                    sdv,
                ));
                assert(payloads(out_prev + batch@) =~= payloads(out_prev + batch0).push(
                    sdv[block0],
                ));
            }
        }
        // send the batch on
        let ghost batchf = batch@;
        proof {
            // at least one item was read, so the loop makes progress
            assert(produced > produced0);
        }
        out.append(&mut batch);
        proof {
            assert(out@ == out_prev + batchf);
        }
    }
    proof {
        assert(selected_items(
            cur,
            q.step as int,
            q.limit as int - produced as int,
            q.direction,
            sdv,
        ) =~= Seq::<Seq<u8>>::empty());
        assert(response_plan(*q, sdv) =~= payloads(out@));
    }
    let ghost out_data = out@;
    out.push(DataOrFin::Fin);
    proof {
        let plan = response_plan(*q, sdv);
        assert(out@.drop_last() =~= out_data);
        assert(forall|i: int| 0 <= i < plan.len() ==> plan[i] == payloads(out_data)[i]);
    }
    out
}

} // verus!
