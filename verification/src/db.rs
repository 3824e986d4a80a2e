//! The table `native_currency_transfers` as a value: an append-only
//! relation keyed by transaction hash.

use vstd::prelude::*;
use crate::json::same_text;
use crate::transfer::{NativeCurrencyTransfer, TransferView};

verus! {

/// Why an operation on the table failed.
#[derive(Debug, Clone, Copy, PartialEq, Eq, Structural)]
pub enum StorageError {
    /// The table has been dropped and not been provisioned again.
    MissingTable,
}

/// The rows as mathematical values.
pub open spec fn row_views(rows: Seq<NativeCurrencyTransfer>) -> Seq<TransferView> {
    Seq::new(rows.len(), |i: int| rows[i]@)
}

/// Some row has the transaction hash `hash`.
pub open spec fn has_hash(rows: Seq<TransferView>, hash: Seq<char>) -> bool {
    exists|i: int| 0 <= i < rows.len() && (#[trigger] rows[i]).tx_hash == hash
}

/// No two rows have the same transaction hash.
pub open spec fn unique_hashes(rows: Seq<TransferView>) -> bool {
    forall|i: int, j: int|
        0 <= i < j < rows.len() ==> (#[trigger] rows[i]).tx_hash != (#[trigger] rows[j]).tx_hash
}

/// The rows after an insert that leaves a row of the same hash alone.
pub open spec fn insert_row(rows: Seq<TransferView>, row: TransferView) -> Seq<TransferView> {
    if has_hash(rows, row.tx_hash) {
        rows
    } else {
        rows.push(row)
    }
}

/// The rows sent from `address`, in table order.
pub open spec fn rows_from(rows: Seq<TransferView>, address: Seq<char>) -> Seq<TransferView> {
    rows.filter(|r: TransferView| r.from_address == address)
}

/// The rows sent to `address`, in table order.
pub open spec fn rows_to(rows: Seq<TransferView>, address: Seq<char>) -> Seq<TransferView> {
    rows.filter(|r: TransferView| r.to_address == address)
}

/// `block` is the largest block number of the rows.
pub open spec fn is_max_block(rows: Seq<TransferView>, block: int) -> bool {
    &&& exists|i: int| 0 <= i < rows.len() && (#[trigger] rows[i]).block_number == block
    &&& forall|i: int| 0 <= i < rows.len() ==> (#[trigger] rows[i]).block_number <= block
}

/// The transaction hashes of the rows, in table order.
pub open spec fn hashes(rows: Seq<TransferView>) -> Seq<Seq<char>> {
    Seq::new(rows.len(), |i: int| rows[i].tx_hash)
}

/// The rows after inserting each row of `added` in turn.
pub open spec fn insert_all(rows: Seq<TransferView>, added: Seq<TransferView>) -> Seq<TransferView>
    decreases added.len(),
{
    if added.len() == 0 {
        rows
    } else {
        insert_row(insert_all(rows, added.drop_last()), added.last())
    }
}

/// Row `i` is the one row that has the transaction hash `hash`.
pub open spec fn sole_row(rows: Seq<TransferView>, hash: Seq<char>, i: int) -> bool {
    &&& 0 <= i < rows.len()
    &&& forall|j: int| 0 <= j < rows.len() ==> ((#[trigger] rows[j]).tx_hash == hash <==> j == i)
}

/// Inserting is idempotent: the second insert of a row changes nothing, and
/// afterwards exactly one row of the table has that row's hash.
pub proof fn lemma_insert_twice(rows: Seq<TransferView>, row: TransferView)
    requires
        unique_hashes(rows),
    ensures
        insert_row(insert_row(rows, row), row) == insert_row(rows, row),
        exists|i: int| sole_row(insert_row(rows, row), row.tx_hash, i),
{
    let once = insert_row(rows, row);
    if has_hash(rows, row.tx_hash) {
        let i = choose|i: int| 0 <= i < rows.len() && (#[trigger] rows[i]).tx_hash == row.tx_hash;
        assert(sole_row(once, row.tx_hash, i));
    } else {
        let i = rows.len() as int;
        assert(once[i].tx_hash == row.tx_hash);
        assert(has_hash(once, row.tx_hash));
        assert forall|j: int| 0 <= j < once.len() implies ((#[trigger] once[j]).tx_hash
            == row.tx_hash <==> j == i) by {
            if j < i {
                assert(once[j] == rows[j]);
            }
        }
        assert(sole_row(once, row.tx_hash, i));
    }
}

/// The key stays a key: an insert into rows with distinct hashes leaves
/// rows with distinct hashes.
pub proof fn lemma_insert_keeps_key(rows: Seq<TransferView>, row: TransferView)
    requires
        unique_hashes(rows),
    ensures
        unique_hashes(insert_row(rows, row)),
{
    let after = insert_row(rows, row);
    if !has_hash(rows, row.tx_hash) {
        assert forall|i: int, j: int| 0 <= i < j < after.len() implies (#[trigger] after[i]).tx_hash
            != (#[trigger] after[j]).tx_hash by {
            assert(after[i] == rows[i]);
            if j < rows.len() {
                assert(after[j] == rows[j]);
            }
        }
    }
}

/// Primary-key uniqueness: after any sequence of inserts into rows with
/// distinct hashes, the hashes are still distinct, so that there are as
/// many distinct hashes as rows.
pub proof fn lemma_key_after_inserts(rows: Seq<TransferView>, added: Seq<TransferView>)
    requires
        unique_hashes(rows),
    ensures
        unique_hashes(insert_all(rows, added)),
        hashes(insert_all(rows, added)).to_set().len() == insert_all(rows, added).len(),
    decreases added.len(),
{
    if added.len() > 0 {
        lemma_key_after_inserts(rows, added.drop_last());
        lemma_insert_keeps_key(insert_all(rows, added.drop_last()), added.last());
    }
    let after = insert_all(rows, added);
    let keys = hashes(after);
    assert forall|i: int, j: int| 0 <= i < keys.len() && 0 <= j < keys.len() && i != j implies keys[i]
        != keys[j] by {
        if i < j {
            assert(after[i].tx_hash != after[j].tx_hash);
        } else {
            assert(after[j].tx_hash != after[i].tx_hash);
        }
    }
    keys.unique_seq_to_set();
}

/// An insert loses no hash.
pub proof fn lemma_insert_keeps_hashes(rows: Seq<TransferView>, row: TransferView, hash: Seq<char>)
    requires
        has_hash(rows, hash) || row.tx_hash == hash,
    ensures
        has_hash(insert_row(rows, row), hash),
{
    let after = insert_row(rows, row);
    if has_hash(rows, hash) {
        let i = choose|i: int| 0 <= i < rows.len() && (#[trigger] rows[i]).tx_hash == hash;
        assert(after[i].tx_hash == hash);
    } else {
        assert(after[rows.len() as int].tx_hash == hash);
    }
}

/// Inserting rows whose hashes the table all has changes nothing.
pub proof fn lemma_insert_known(rows: Seq<TransferView>, added: Seq<TransferView>)
    requires
        forall|i: int| 0 <= i < added.len() ==> has_hash(rows, (#[trigger] added[i]).tx_hash),
    ensures
        insert_all(rows, added) == rows,
    decreases added.len(),
{
    if added.len() > 0 {
        let head = added.drop_last();
        assert forall|i: int| 0 <= i < head.len() implies has_hash(
            rows,
            (#[trigger] head[i]).tx_hash,
        ) by {
            assert(head[i] == added[i]);
        }
        lemma_insert_known(rows, head);
        assert(has_hash(rows, added[added.len() - 1].tx_hash));
    }
}

/// After inserting rows, the table has the hash of each of them, and every
/// hash that it had before.
pub proof fn lemma_inserted_hashes(rows: Seq<TransferView>, added: Seq<TransferView>)
    ensures
        forall|i: int|
            0 <= i < added.len() ==> has_hash(insert_all(rows, added), (#[trigger] added[i]).tx_hash),
        forall|hash: Seq<char>| has_hash(rows, hash) ==> has_hash(insert_all(rows, added), hash),
    decreases added.len(),
{
    if added.len() > 0 {
        let head = added.drop_last();
        let last = added.last();
        let before = insert_all(rows, head);
        lemma_inserted_hashes(rows, head);
        assert forall|i: int| 0 <= i < added.len() implies has_hash(
            insert_all(rows, added),
            (#[trigger] added[i]).tx_hash,
        ) by {
            if i < head.len() {
                assert(head[i] == added[i]);
            }
            lemma_insert_keeps_hashes(before, last, added[i].tx_hash);
        }
        assert forall|hash: Seq<char>| has_hash(rows, hash) implies has_hash(
            insert_all(rows, added),
            hash,
        ) by {
            lemma_insert_keeps_hashes(before, last, hash);
        }
    }
}

/// Ingesting the same rows a second time changes nothing.
pub proof fn lemma_insert_all_twice(rows: Seq<TransferView>, added: Seq<TransferView>)
    ensures
        insert_all(insert_all(rows, added), added) == insert_all(rows, added),
{
    lemma_inserted_hashes(rows, added);
    lemma_insert_known(insert_all(rows, added), added);
}

/// The table: its rows in the order in which they were inserted, or no
/// table at all once it has been dropped.
pub struct Db {
    table: Option<Vec<NativeCurrencyTransfer>>,
}

impl View for Db {
    type V = Option<Seq<TransferView>>;

    closed spec fn view(&self) -> Option<Seq<TransferView>> {
        match self.table {
            Some(rows) => Some(row_views(rows@)),
            None => None,
        }
    }
}

impl Db {
    #[verifier::type_invariant]
    spec fn keyed(&self) -> bool {
        match self.table {
            Some(rows) => unique_hashes(row_views(rows@)),
            None => true,
        }
    }

    /// A database in which the table has just been created: no rows.
    pub fn new() -> (db: Db)
        ensures
            db@ == Some(Seq::<TransferView>::empty()),
    {
        let rows: Vec<NativeCurrencyTransfer> = Vec::new();
        assert(row_views(rows@) =~= Seq::<TransferView>::empty());
        Db { table: Some(rows) }
    }

    /// Creates the table where there is none; rows that exist stay.
    pub fn provision(&mut self)
        ensures
            final(self)@ == match old(self)@ {
                Some(rows) => Some(rows),
                None => Some(Seq::<TransferView>::empty()),
            },
    {
        if self.table.is_none() {
            let rows: Vec<NativeCurrencyTransfer> = Vec::new();
            assert(row_views(rows@) =~= Seq::<TransferView>::empty());
            self.table = Some(rows);
        }
    }

    /// Inserts a row. Where a row of the same transaction hash exists, the
    /// table stays as it is, and that is no error. Fails only where there
    /// is no table.
    pub fn insert_transfer(&mut self, transfer: NativeCurrencyTransfer) -> (r: Result<
        (),
        StorageError,
    >)
        ensures
            match old(self)@ {
                Some(rows) => r is Ok && final(self)@ == Some(insert_row(rows, transfer@)),
                None => r == Err::<(), StorageError>(StorageError::MissingTable) && final(self)@
                    is None,
            },
    {
        proof {
            use_type_invariant(&*self);
        }
        let mut table: Option<Vec<NativeCurrencyTransfer>> = None;
        core::mem::swap(&mut self.table, &mut table);
        match table {
            Some(mut rows) => {
                let ghost before = row_views(rows@);
                let mut i: usize = 0;
                while i < rows.len()
                    invariant
                        i <= rows.len(),
                        before == row_views(rows@),
                        old(self)@ == Some(before),
                        unique_hashes(before),
                        forall|j: int|
                            0 <= j < i ==> (#[trigger] before[j]).tx_hash != transfer@.tx_hash,
                    decreases rows.len() - i,
                {
                    if rows[i].tx_hash == transfer.tx_hash {
                        assert(before[i as int].tx_hash == transfer@.tx_hash);
                        self.table = Some(rows);
                        return Ok(());
                    }
                    i = i + 1;
                }
                assert(!has_hash(before, transfer@.tx_hash));
                rows.push(transfer);
                assert(row_views(rows@) =~= before.push(transfer@));
                self.table = Some(rows);
                Ok(())
            },
            None => Err(StorageError::MissingTable),
        }
    }

    /// Every row, in table order. No two of them have the same
    /// transaction hash.
    pub fn select_all_transfers(&self) -> (r: Result<Vec<NativeCurrencyTransfer>, StorageError>)
        ensures
            match self@ {
                Some(rows) => r is Ok && row_views(r->Ok_0@) == rows && unique_hashes(rows),
                None => r == Err::<Vec<NativeCurrencyTransfer>, StorageError>(
                    StorageError::MissingTable,
                ),
            },
    {
        proof {
            use_type_invariant(self);
        }
        match &self.table {
            Some(rows) => {
                let mut out: Vec<NativeCurrencyTransfer> = Vec::new();
                let mut i: usize = 0;
                while i < rows.len()
                    invariant
                        i <= rows.len(),
                        row_views(out@) == row_views(rows@).take(i as int),
                    decreases rows.len() - i,
                {
                    let ghost before = row_views(out@);
                    out.push(rows[i].duplicate());
                    assert(row_views(out@) =~= before.push(rows@[i as int]@));
                    i = i + 1;
                    assert(row_views(out@) =~= row_views(rows@).take(i as int));
                }
                assert(row_views(rows@).take(i as int) == row_views(rows@));
                Ok(out)
            },
            None => Err(StorageError::MissingTable),
        }
    }

    /// The rows sent from `txfrom`, in table order.
    pub fn read_transfers_from_address(&self, txfrom: &str) -> (r: Result<
        Vec<NativeCurrencyTransfer>,
        StorageError,
    >)
        ensures
            match self@ {
                Some(rows) => r is Ok && row_views(r->Ok_0@) == rows_from(rows, txfrom@),
                None => r == Err::<Vec<NativeCurrencyTransfer>, StorageError>(
                    StorageError::MissingTable,
                ),
            },
    {
        match &self.table {
            Some(rows) => {
                let ghost all = row_views(rows@);
                let ghost sent = |r: TransferView| r.from_address == txfrom@;
                let mut out: Vec<NativeCurrencyTransfer> = Vec::new();
                let mut i: usize = 0;
                proof {
                    reveal(Seq::filter);
                    assert(row_views(out@) =~= all.take(0).filter(sent));
                }
                while i < rows.len()
                    invariant
                        i <= rows.len(),
                        all == row_views(rows@),
                        sent == |r: TransferView| r.from_address == txfrom@,
                        row_views(out@) == all.take(i as int).filter(sent),
                    decreases rows.len() - i,
                {
                    proof {
                        reveal(Seq::filter);
                        assert(all.take(i + 1).drop_last() == all.take(i as int));
                    }
                    let ghost before = row_views(out@);
                    if same_text(rows[i].from_address.as_str(), txfrom) {
                        out.push(rows[i].duplicate());
                        assert(row_views(out@) =~= before.push(all[i as int]));
                    }
                    i = i + 1;
                }
                assert(all.take(i as int) == all);
                Ok(out)
            },
            None => Err(StorageError::MissingTable),
        }
    }

    /// The rows sent to `txto`, in table order.
    pub fn read_transfer_to_address(&self, txto: &str) -> (r: Result<
        Vec<NativeCurrencyTransfer>,
        StorageError,
    >)
        ensures
            match self@ {
                Some(rows) => r is Ok && row_views(r->Ok_0@) == rows_to(rows, txto@),
                None => r == Err::<Vec<NativeCurrencyTransfer>, StorageError>(
                    StorageError::MissingTable,
                ),
            },
    {
        match &self.table {
            Some(rows) => {
                let ghost all = row_views(rows@);
                let ghost received = |r: TransferView| r.to_address == txto@;
                let mut out: Vec<NativeCurrencyTransfer> = Vec::new();
                let mut i: usize = 0;
                proof {
                    reveal(Seq::filter);
                    assert(row_views(out@) =~= all.take(0).filter(received));
                }
                while i < rows.len()
                    invariant
                        i <= rows.len(),
                        all == row_views(rows@),
                        received == |r: TransferView| r.to_address == txto@,
                        row_views(out@) == all.take(i as int).filter(received),
                    decreases rows.len() - i,
                {
                    proof {
                        reveal(Seq::filter);
                        assert(all.take(i + 1).drop_last() == all.take(i as int));
                    }
                    let ghost before = row_views(out@);
                    if same_text(rows[i].to_address.as_str(), txto) {
                        out.push(rows[i].duplicate());
                        assert(row_views(out@) =~= before.push(all[i as int]));
                    }
                    i = i + 1;
                }
                assert(all.take(i as int) == all);
                Ok(out)
            },
            None => Err(StorageError::MissingTable),
        }
    }

    /// The largest block number of the rows; `None` for a table without
    /// rows.
    pub fn get_max_block(&self) -> (r: Result<Option<i64>, StorageError>)
        ensures
            match self@ {
                Some(rows) => match r {
                    Ok(Some(block)) => is_max_block(rows, block as int),
                    Ok(None) => rows.len() == 0,
                    Err(_) => false,
                },
                None => r == Err::<Option<i64>, StorageError>(StorageError::MissingTable),
            },
    {
        match &self.table {
            Some(rows) => {
                if rows.len() == 0 {
                    return Ok(None);
                }
                let ghost all = row_views(rows@);
                let mut best: i64 = rows[0].block_number;
                let mut i: usize = 1;
                assert(all.take(1)[0].block_number == best);
                while i < rows.len()
                    invariant
                        1 <= i <= rows.len(),
                        all == row_views(rows@),
                        is_max_block(all.take(i as int), best as int),
                    decreases rows.len() - i,
                {
                    let ghost seen = all.take(i as int);
                    let ghost k = choose|k: int|
                        0 <= k < seen.len() && (#[trigger] seen[k]).block_number == best;
                    if rows[i].block_number > best {
                        best = rows[i].block_number;
                    }
                    i = i + 1;
                    proof {
                        let now = all.take(i as int);
                        assert(now[i - 1].block_number == all[i - 1].block_number);
                        assert(now[k] == seen[k]);
                        assert forall|j: int| 0 <= j < now.len() implies (#[trigger] now[j]).block_number
                            <= best by {
                            if j < i - 1 {
                                assert(now[j] == seen[j]);
                            }
                        }
                    }
                }
                assert(all.take(i as int) == all);
                Ok(Some(best))
            },
            None => Err(StorageError::MissingTable),
        }
    }

    /// Drops the table with all its rows. Dropping where there is no table
    /// is no error.
    pub fn reset_db(&mut self) -> (r: Result<(), StorageError>)
        ensures
            r is Ok,
            final(self)@ is None,
    {
        self.table = None;
        Ok(())
    }
}

} // verus!
