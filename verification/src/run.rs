//! Whole ticks: what the machine hands out for insertion over the run of a
//! tick, when its driver answers every call.

use vstd::prelude::*;
use crate::block::{block_timestamp, block_transactions, is_candidate, recipient, sender};
use crate::indexer::{next_candidate, replied, transactions, ActionView, EventView, IndexerView, Phase};
use crate::json::JsonValue;
use crate::rpc::reported_code;
use crate::transfer::{decode_transaction, TransferView};

verus! {

/// What the provider reports as the code at each address.
pub type Codes = spec_fn(Seq<char>) -> Seq<char>;

/// A transfer between two externally-owned accounts: the record names both
/// parties, and the provider reports no code at either.
pub open spec fn qualifies(tx: JsonValue, codes: Codes) -> bool {
    &&& is_candidate(tx)
    &&& codes(recipient(tx)) == "0x"@
    &&& codes(sender(tx)) == "0x"@
}

/// The row that a transaction record of a block gives: that of a transfer
/// between two externally-owned accounts that decodes, and none for any
/// other record.
pub open spec fn row_of(tx: JsonValue, timestamp: int, codes: Codes) -> Option<TransferView> {
    if qualifies(tx, codes) {
        decode_transaction(tx, timestamp)
    } else {
        None
    }
}

/// The rows that the records at and after `from` give, in block order.
pub open spec fn rows_of(txs: Seq<JsonValue>, timestamp: int, codes: Codes, from: int) -> Seq<
    TransferView,
>
    decreases txs.len() - from,
{
    if from < 0 || from >= txs.len() {
        Seq::empty()
    } else {
        match row_of(txs[from], timestamp, codes) {
            Some(row) => seq![row] + rows_of(txs, timestamp, codes, from + 1),
            None => rows_of(txs, timestamp, codes, from + 1),
        }
    }
}

/// The actions that the machine answers a sequence of events with, one for
/// each event.
pub open spec fn actions(s: IndexerView, events: Seq<EventView>) -> Seq<ActionView>
    decreases events.len(),
{
    if events.len() == 0 {
        Seq::empty()
    } else {
        seq![s.step(events[0]).1] + actions(s.step(events[0]).0, events.drop_first())
    }
}

/// The state of the machine after a sequence of events.
pub open spec fn state_after(s: IndexerView, events: Seq<EventView>) -> IndexerView
    decreases events.len(),
{
    if events.len() == 0 {
        s
    } else {
        state_after(s.step(events[0]).0, events.drop_first())
    }
}

/// The rows that a sequence of actions hands out for insertion, in order.
pub open spec fn inserted(acts: Seq<ActionView>) -> Seq<TransferView>
    decreases acts.len(),
{
    if acts.len() == 0 {
        Seq::empty()
    } else {
        match acts[0] {
            ActionView::Insert(row) => seq![row] + inserted(acts.drop_first()),
            _ => inserted(acts.drop_first()),
        }
    }
}

/// The event answers what the machine asked last: a call about a party of
/// the transaction under the cursor with the code at that party's address,
/// an insertion with word that it was dealt with.
pub open spec fn answers(s: IndexerView, event: EventView, codes: Codes) -> bool {
    match s.phase {
        Phase::ProbingRecipient => replied(event) matches Ok(answer) && reported_code(answer)
            == Some(codes(recipient(s.transaction()))),
        Phase::ProbingSender => replied(event) matches Ok(answer) && reported_code(answer) == Some(
            codes(sender(s.transaction())),
        ),
        Phase::Writing => event is Stored,
        _ => false,
    }
}

/// Every event of the sequence answers what the machine asked before it.
pub open spec fn answered(s: IndexerView, events: Seq<EventView>, codes: Codes) -> bool
    decreases events.len(),
{
    if events.len() == 0 {
        true
    } else {
        answers(s, events[0], codes) && answered(s.step(events[0]).0, events.drop_first(), codes)
    }
}

/// The next record that names both parties lies at or after `from`, is
/// such a record, and no record before it gives a row.
pub proof fn lemma_next_candidate(txs: Seq<JsonValue>, timestamp: int, codes: Codes, from: int)
    requires
        0 <= from <= txs.len(),
    ensures
        from <= next_candidate(txs, from) <= txs.len(),
        next_candidate(txs, from) < txs.len() ==> is_candidate(txs[next_candidate(txs, from)]),
        rows_of(txs, timestamp, codes, from) == rows_of(
            txs,
            timestamp,
            codes,
            next_candidate(txs, from),
        ),
    decreases txs.len() - from,
{
    if from < txs.len() && !is_candidate(txs[from]) {
        lemma_next_candidate(txs, timestamp, codes, from + 1);
    }
}

/// The rows that are still to come in the state `s` of a tick.
pub open spec fn rows_ahead(s: IndexerView, codes: Codes) -> Seq<TransferView> {
    match s.phase {
        Phase::ProbingRecipient | Phase::ProbingSender => rows_of(
            transactions(s.block),
            s.timestamp,
            codes,
            s.cursor,
        ),
        Phase::Writing => rows_of(transactions(s.block), s.timestamp, codes, s.cursor + 1),
        _ => Seq::empty(),
    }
}

/// What is known in the state `s` of a tick of the transaction under the
/// cursor: it names both parties while one of them is asked about, and the
/// recipient holds no code once the sender is asked about.
pub open spec fn on_track(s: IndexerView, codes: Codes) -> bool {
    &&& s.valid()
    &&& (s.phase == Phase::ProbingRecipient || s.phase == Phase::ProbingSender) ==> is_candidate(
        s.transaction(),
    )
    &&& s.phase == Phase::ProbingSender ==> codes(recipient(s.transaction())) == "0x"@
}

/// Going on at `from` keeps the tick on track and loses no row.
proof fn lemma_proceed(s: IndexerView, codes: Codes, from: int)
    requires
        0 <= from <= transactions(s.block).len(),
    ensures
        on_track(s.proceed(from).0, codes),
        !(s.proceed(from).1 is Insert),
        rows_ahead(s.proceed(from).0, codes) == rows_of(
            transactions(s.block),
            s.timestamp,
            codes,
            from,
        ),
{
    lemma_next_candidate(transactions(s.block), s.timestamp, codes, from);
}

/// One answered step hands out the next row, if the transaction under the
/// cursor gives one, and leaves the rows after it still to come.
proof fn lemma_step(s: IndexerView, event: EventView, codes: Codes)
    requires
        on_track(s, codes),
        answers(s, event, codes),
    ensures
        on_track(s.step(event).0, codes),
        rows_ahead(s, codes) == inserted(seq![s.step(event).1]) + rows_ahead(
            s.step(event).0,
            codes,
        ),
{
    let txs = transactions(s.block);
    let next = s.step(event).0;
    let act = s.step(event).1;
    assert(seq![act].drop_first() == Seq::<ActionView>::empty());
    assert(inserted(seq![act].drop_first()) == Seq::<TransferView>::empty());
    lemma_proceed(s, codes, s.cursor + 1);
    match act {
        ActionView::Insert(row) => {
            assert(inserted(seq![act]) =~= seq![row]);
        },
        _ => {
            assert(inserted(seq![act]) =~= Seq::<TransferView>::empty());
            assert(rows_ahead(s, codes) == rows_ahead(next, codes));
            assert(Seq::<TransferView>::empty() + rows_ahead(next, codes) == rows_ahead(
                next,
                codes,
            ));
        },
    }
}

/// The rows of two runs of actions, one after the other.
proof fn lemma_inserted_add(first: Seq<ActionView>, second: Seq<ActionView>)
    ensures
        inserted(first + second) == inserted(first) + inserted(second),
    decreases first.len(),
{
    if first.len() == 0 {
        assert(first + second == second);
        assert(Seq::<TransferView>::empty() + inserted(second) == inserted(second));
    } else {
        assert((first + second).drop_first() == first.drop_first() + second);
        lemma_inserted_add(first.drop_first(), second);
        match first[0] {
            ActionView::Insert(row) => {
                assert(seq![row] + (inserted(first.drop_first()) + inserted(second)) == (seq![row]
                    + inserted(first.drop_first())) + inserted(second));
            },
            _ => {},
        }
    }
}

/// An answered run that reaches the sleep hands out exactly the rows that
/// were still to come.
proof fn lemma_run(s: IndexerView, events: Seq<EventView>, codes: Codes)
    requires
        on_track(s, codes),
        answered(s, events, codes),
        state_after(s, events).phase == Phase::Sleeping,
    ensures
        inserted(actions(s, events)) == rows_ahead(s, codes),
    decreases events.len(),
{
    if events.len() > 0 {
        let next = s.step(events[0]).0;
        let act = s.step(events[0]).1;
        lemma_step(s, events[0], codes);
        lemma_run(next, events.drop_first(), codes);
        lemma_inserted_add(seq![act], actions(next, events.drop_first()));
    }
}

/// The filter is sound and complete. Take a tick whose block has come, and
/// let its driver answer every call about an address with the code at that
/// address, and every insertion, until the machine sleeps. Then the rows
/// handed out for insertion are, in block order, those of the transaction
/// records that name a sender and a recipient at both of which the provider
/// reports the code `0x`, and that decode: one row for each such record and
/// none for any other. A block whose timestamp fails gives no row.
pub proof fn lemma_tick_inserts(
    s: IndexerView,
    block: JsonValue,
    events: Seq<EventView>,
    codes: Codes,
)
    requires
        answered(s.extract(block).0, events, codes),
        state_after(s.extract(block).0, events).phase == Phase::Sleeping,
    ensures
        !(s.extract(block).1 is Insert),
        inserted(actions(s.extract(block).0, events)) == match block_timestamp(block) {
            Ok(secs) => rows_of(transactions(block), secs, codes, 0),
            Err(_) => Seq::empty(),
        },
{
    match block_timestamp(block) {
        Ok(secs) => {
            if block_transactions(block) is Some {
                let taken = IndexerView { block, timestamp: secs, cursor: 0, ..s };
                lemma_proceed(taken, codes, 0);
            }
        },
        Err(_) => {},
    }
    lemma_run(s.extract(block).0, events, codes);
}

/// Every row that a block gives is the row of one of its records, and every
/// record that gives a row has it among the rows.
pub proof fn lemma_rows_of_records(txs: Seq<JsonValue>, timestamp: int, codes: Codes, from: int)
    requires
        0 <= from,
    ensures
        forall|row: TransferView|
            rows_of(txs, timestamp, codes, from).contains(row) <==> exists|i: int|
                from <= i < txs.len() && #[trigger] row_of(txs[i], timestamp, codes) == Some(row),
    decreases txs.len() - from,
{
    let rows = rows_of(txs, timestamp, codes, from);
    if from < txs.len() {
        lemma_rows_of_records(txs, timestamp, codes, from + 1);
        let rest = rows_of(txs, timestamp, codes, from + 1);
        assert forall|row: TransferView| rows.contains(row) <==> exists|i: int|
            from <= i < txs.len() && #[trigger] row_of(txs[i], timestamp, codes) == Some(
                row,
            ) by {
            match row_of(txs[from], timestamp, codes) {
                Some(first) => {
                    assert(rows == seq![first] + rest);
                    if rows.contains(row) {
                        let k = choose|k: int| 0 <= k < rows.len() && rows[k] == row;
                        if k == 0 {
                            assert(row_of(txs[from], timestamp, codes) == Some(row));
                        } else {
                            assert(rest[k - 1] == row);
                            assert(rest.contains(row));
                        }
                    }
                    if exists|i: int|
                        from <= i < txs.len() && #[trigger] row_of(txs[i], timestamp, codes)
                            == Some(row) {
                        let i = choose|i: int|
                            from <= i < txs.len() && #[trigger] row_of(txs[i], timestamp, codes)
                                == Some(row);
                        if i == from {
                            assert(rows[0] == row);
                        } else {
                            assert(rest.contains(row));
                            let k = choose|k: int| 0 <= k < rest.len() && rest[k] == row;
                            assert(rows[k + 1] == row);
                        }
                    }
                },
                None => {
                    assert(rows == rest);
                },
            }
        }
    } else {
        assert forall|row: TransferView| rows.contains(row) <==> exists|i: int|
            from <= i < txs.len() && #[trigger] row_of(txs[i], timestamp, codes) == Some(
                row,
            ) by {
            if rows.contains(row) {
                let k = choose|k: int| 0 <= k < rows.len() && rows[k] == row;
            }
        }
    }
}

/// Timestamp consistency: every row that a block gives carries the
/// timestamp of that block.
pub proof fn lemma_rows_share_timestamp(
    txs: Seq<JsonValue>,
    timestamp: int,
    codes: Codes,
    from: int,
)
    requires
        0 <= from,
    ensures
        forall|k: int|
            0 <= k < rows_of(txs, timestamp, codes, from).len() ==> (#[trigger] rows_of(
                txs,
                timestamp,
                codes,
                from,
            )[k]).timestamp == timestamp,
    decreases txs.len() - from,
{
    if from < txs.len() {
        lemma_rows_share_timestamp(txs, timestamp, codes, from + 1);
    }
}

} // verus!
