//! The indexer as a machine: from its state and what has just happened to
//! its next state and what is to be done next. Whoever drives it performs
//! the action and comes back with the event that answers it.

use vstd::prelude::*;
use crate::block::{
    block_timestamp, block_transactions, names_both_parties, recipient, sender, timestamp_of,
    transactions_of, is_candidate,
};
use crate::error::{TickError, TickErrorView};
use crate::json::{text_field_of, values, Json, JsonValue};
use crate::rpc::{
    code_of, code_request, endpoint, endpoint_url, code_call, latest_block_call, interpret,
    interpret_response, is_eoa, latest_block_request, reported_code, view_of,
};
use crate::transfer::{decode_transaction, parse_transaction, NativeCurrencyTransfer, TransferView};

verus! {

/// Where the indexer stands in its tick.
#[derive(Debug, Clone, Copy, PartialEq, Eq, Structural)]
pub enum Phase {
    /// Before the first tick.
    Idle,
    /// The latest block has been asked for.
    Fetching,
    /// The code at the recipient of the transaction under the cursor has
    /// been asked for.
    ProbingRecipient,
    /// The code at the sender of the transaction under the cursor has been
    /// asked for; the recipient holds none.
    ProbingSender,
    /// The row of the transaction under the cursor has been handed out for
    /// insertion.
    Writing,
    /// Between two ticks.
    Sleeping,
}

/// What has just happened, as a mathematical value.
pub enum EventView {
    Wake,
    Unreachable,
    Reply { status: int, body: Option<JsonValue> },
    Stored { ok: bool },
}

/// What has just happened.
#[derive(Debug)]
pub enum Event {
    /// It is time for a tick: at the start, and after each sleep.
    Wake,
    /// The request of the last `Call` got no answer.
    Unreachable,
    /// The answer to the last `Call`: its HTTP status and the document in
    /// its body, `None` where the body is no JSON.
    Reply { status: u16, body: Option<Json> },
    /// The row of the last `Insert` has been dealt with; `ok` is false
    /// where the table could not take it.
    Stored { ok: bool },
}

impl View for Event {
    type V = EventView;

    open spec fn view(&self) -> EventView {
        match self {
            Event::Wake => EventView::Wake,
            Event::Unreachable => EventView::Unreachable,
            Event::Reply { status, body } => EventView::Reply {
                status: *status as int,
                body: view_of(*body),
            },
            Event::Stored { ok } => EventView::Stored { ok: *ok },
        }
    }
}

/// What is to be done next, as a mathematical value.
pub enum ActionView {
    Call(JsonValue),
    Insert(TransferView),
    Sleep { millis: int, failure: Option<TickErrorView> },
}

/// What is to be done next.
#[derive(Debug)]
pub enum Action {
    /// Post this request document to the endpoint; come back with `Reply`
    /// or `Unreachable`.
    Call(Json),
    /// Insert this row into the table; come back with `Stored`.
    Insert(NativeCurrencyTransfer),
    /// The tick is over, with the failure that ended it if one did. Sleep
    /// for so many milliseconds; come back with `Wake`.
    Sleep { millis: u64, failure: Option<TickError> },
}

/// A failure that may be missing, as a mathematical value.
pub open spec fn failure_view(failure: Option<TickError>) -> Option<TickErrorView> {
    match failure {
        Some(f) => Some(f@),
        None => None,
    }
}

impl View for Action {
    type V = ActionView;

    open spec fn view(&self) -> ActionView {
        match self {
            Action::Call(body) => ActionView::Call(body@),
            Action::Insert(row) => ActionView::Insert(row@),
            Action::Sleep { millis, failure } => ActionView::Sleep {
                millis: *millis as int,
                failure: failure_view(*failure),
            },
        }
    }
}

/// The transaction records of a block; none where the block has no array
/// of them.
pub open spec fn transactions(block: JsonValue) -> Seq<JsonValue> {
    match block_transactions(block) {
        Some(txs) => txs,
        None => Seq::empty(),
    }
}

/// The position of the first record at or after `from` that names both a
/// sender and a recipient; the number of records where there is none.
pub open spec fn next_candidate(txs: Seq<JsonValue>, from: int) -> int
    decreases txs.len() - from,
{
    if from < 0 || from >= txs.len() {
        txs.len() as int
    } else if is_candidate(txs[from]) {
        from
    } else {
        next_candidate(txs, from + 1)
    }
}

/// What a driver's event says of the last call: the document of the
/// answer, or why there is none.
pub open spec fn replied(event: EventView) -> Result<JsonValue, TickErrorView> {
    match event {
        EventView::Unreachable => Err(TickErrorView::Transport { status: None }),
        EventView::Reply { status, body } => interpret(status, body),
        _ => Err(TickErrorView::Protocol),
    }
}

/// The indexer as a mathematical value.
pub struct IndexerView {
    pub api_key: Seq<char>,
    pub database_url: Seq<char>,
    pub poll_interval: int,
    pub phase: Phase,
    /// The block of the running tick.
    pub block: JsonValue,
    /// The timestamp of that block.
    pub timestamp: int,
    /// The position of the transaction that is being dealt with.
    pub cursor: int,
}

impl IndexerView {
    /// While a transaction is being dealt with, the cursor is on one.
    pub open spec fn valid(self) -> bool {
        (self.phase == Phase::ProbingRecipient || self.phase == Phase::ProbingSender || self.phase
            == Phase::Writing) ==> 0 <= self.cursor < transactions(self.block).len()
    }

    /// The transaction under the cursor.
    pub open spec fn transaction(self) -> JsonValue {
        transactions(self.block)[self.cursor]
    }

    /// The tick ends: the block is let go and the indexer sleeps.
    pub open spec fn rest(self, failure: Option<TickErrorView>) -> (IndexerView, ActionView) {
        (
            IndexerView {
                phase: Phase::Sleeping,
                block: JsonValue::Null,
                timestamp: 0,
                cursor: 0,
                ..self
            },
            ActionView::Sleep { millis: self.poll_interval, failure },
        )
    }

    /// A tick begins: the latest block is asked for.
    pub open spec fn begin(self) -> (IndexerView, ActionView) {
        (
            IndexerView {
                phase: Phase::Fetching,
                block: JsonValue::Null,
                timestamp: 0,
                cursor: 0,
                ..self
            },
            ActionView::Call(latest_block_request()),
        )
    }

    /// The tick goes on with the first transaction at or after `from` that
    /// names both parties, and asks for the code at its recipient; where
    /// there is none, the tick ends.
    pub open spec fn proceed(self, from: int) -> (IndexerView, ActionView) {
        let txs = transactions(self.block);
        let k = next_candidate(txs, from);
        if k < txs.len() {
            (
                IndexerView { phase: Phase::ProbingRecipient, cursor: k, ..self },
                ActionView::Call(code_request(recipient(txs[k]))),
            )
        } else {
            self.rest(None)
        }
    }

    /// The block of the tick has come. Without a timestamp that decodes, or
    /// without an array of transactions, the tick ends with the failure;
    /// else it goes on with the first transaction.
    pub open spec fn extract(self, block: JsonValue) -> (IndexerView, ActionView) {
        match block_timestamp(block) {
            Err(f) => self.rest(Some(f)),
            Ok(secs) => match block_transactions(block) {
                None => self.rest(Some(TickErrorView::Protocol)),
                Some(_) => IndexerView { block, timestamp: secs, cursor: 0, ..self }.proceed(0),
            },
        }
    }

    /// The code at the party that was asked about has come. Code other than
    /// `0x` drops the transaction. After the recipient the sender is asked
    /// about; after the sender the transaction is decoded and its row
    /// handed out, or dropped where it does not decode.
    pub open spec fn probed(self, code: Seq<char>) -> (IndexerView, ActionView) {
        if code != "0x"@ {
            self.proceed(self.cursor + 1)
        } else if self.phase == Phase::ProbingRecipient {
            (
                IndexerView { phase: Phase::ProbingSender, ..self },
                ActionView::Call(code_request(sender(self.transaction()))),
            )
        } else {
            match decode_transaction(self.transaction(), self.timestamp) {
                Some(row) => (
                    IndexerView { phase: Phase::Writing, ..self },
                    ActionView::Insert(row),
                ),
                None => self.proceed(self.cursor + 1),
            }
        }
    }

    /// One step of the machine. An event that does not answer what was
    /// asked last ends the tick with a protocol failure, and so does an
    /// answer to a code request that reports no code. A call that fails
    /// ends the tick with its failure.
    pub open spec fn step(self, event: EventView) -> (IndexerView, ActionView) {
        match self.phase {
            Phase::Idle | Phase::Sleeping => match event {
                EventView::Wake => self.begin(),
                _ => self.rest(Some(TickErrorView::Protocol)),
            },
            Phase::Fetching => match replied(event) {
                Ok(block) => self.extract(block),
                Err(f) => self.rest(Some(f)),
            },
            Phase::ProbingRecipient | Phase::ProbingSender => match replied(event) {
                Ok(answer) => match reported_code(answer) {
                    Some(code) => self.probed(code),
                    None => self.rest(Some(TickErrorView::Protocol)),
                },
                Err(f) => self.rest(Some(f)),
            },
            Phase::Writing => match event {
                EventView::Stored { ok } => self.proceed(self.cursor + 1),
                _ => self.rest(Some(TickErrorView::Protocol)),
            },
        }
    }
}

/// The indexer: its configuration, and where it stands in its tick.
pub struct Indexer<'a> {
    api_key: String,
    database_url: &'a str,
    poll_interval: u64,
    phase: Phase,
    block: Json,
    timestamp: i64,
    cursor: usize,
}

impl<'a> View for Indexer<'a> {
    type V = IndexerView;

    closed spec fn view(&self) -> IndexerView {
        IndexerView {
            api_key: self.api_key@,
            database_url: self.database_url@,
            poll_interval: self.poll_interval as int,
            phase: self.phase,
            block: self.block@,
            timestamp: self.timestamp as int,
            cursor: self.cursor as int,
        }
    }
}

impl<'a> Indexer<'a> {
    #[verifier::type_invariant]
    spec fn on_a_transaction(&self) -> bool {
        self@.valid()
    }

    /// An indexer that has not started its first tick.
    pub fn new(api_key: String, database_url: &'a str, poll_interval: u64) -> (indexer: Indexer<'a>)
        ensures
            indexer@ == (IndexerView {
                api_key: api_key@,
                database_url: database_url@,
                poll_interval: poll_interval as int,
                phase: Phase::Idle,
                block: JsonValue::Null,
                timestamp: 0,
                cursor: 0,
            }),
    {
        Indexer {
            api_key,
            database_url,
            poll_interval,
            phase: Phase::Idle,
            block: Json::Null,
            timestamp: 0,
            cursor: 0,
        }
    }

    /// The address of the endpoint that calls are posted to.
    pub fn endpoint_url(&self) -> (url: String)
        ensures
            url@ == endpoint(self@.api_key),
    {
        endpoint_url(self.api_key.as_str())
    }

    /// The address of the database that rows are inserted into.
    pub fn database_url(&self) -> (url: &'a str)
        ensures
            url@ == self@.database_url,
    {
        self.database_url
    }

    /// The milliseconds to sleep between two ticks.
    pub fn poll_interval(&self) -> (millis: u64)
        ensures
            millis == self@.poll_interval,
    {
        self.poll_interval
    }

    /// Where the indexer stands in its tick.
    pub fn phase(&self) -> (phase: Phase)
        ensures
            phase == self@.phase,
    {
        self.phase
    }

    /// Ends the tick.
    fn rest(self, failure: Option<TickError>) -> (r: (Indexer<'a>, Action))
        ensures
            (r.0@, r.1@) == self@.rest(failure_view(failure)),
    {
        let millis = self.poll_interval;
        (
            Indexer {
                api_key: self.api_key,
                database_url: self.database_url,
                poll_interval: self.poll_interval,
                phase: Phase::Sleeping,
                block: Json::Null,
                timestamp: 0,
                cursor: 0,
            },
            Action::Sleep { millis, failure },
        )
    }

    /// Begins a tick, whatever stood before: asks for the latest block.
    pub fn fetch_new_block(self) -> (r: (Indexer<'a>, Action))
        ensures
            (r.0@, r.1@) == self@.begin(),
    {
        (
            Indexer {
                api_key: self.api_key,
                database_url: self.database_url,
                poll_interval: self.poll_interval,
                phase: Phase::Fetching,
                block: Json::Null,
                timestamp: 0,
                cursor: 0,
            },
            Action::Call(latest_block_call()),
        )
    }

    /// Goes on with the first transaction at or after `from` that names
    /// both parties.
    fn proceed(self, from: usize) -> (r: (Indexer<'a>, Action))
        ensures
            (r.0@, r.1@) == self@.proceed(from as int),
    {
        let mut found: Option<(usize, String)> = None;
        match transactions_of(&self.block) {
            Some(txs) => {
                let mut k: usize = from;
                while k < txs.len() && found.is_none()
                    invariant
                        values(txs@) == transactions(self@.block),
                        from <= k || found is Some,
                        found is None ==> next_candidate(values(txs@), from as int)
                            == next_candidate(values(txs@), k as int),
                        found matches Some(hit) ==> hit.0 < txs.len() && hit.0 == next_candidate(
                            values(txs@),
                            from as int,
                        ) && hit.1@ == recipient(values(txs@)[hit.0 as int]),
                    decreases txs.len() - k + if found is None { 1int } else { 0int },
                {
                    if names_both_parties(&txs[k]) {
                        found = Some((k, text_field_of(&txs[k], "to")));
                    } else {
                        k = k + 1;
                    }
                }
            },
            None => {},
        }
        match found {
            Some(hit) => {
                let call = code_call(hit.1.as_str());
                (
                    Indexer {
                        api_key: self.api_key,
                        database_url: self.database_url,
                        poll_interval: self.poll_interval,
                        phase: Phase::ProbingRecipient,
                        block: self.block,
                        timestamp: self.timestamp,
                        cursor: hit.0,
                    },
                    Action::Call(call),
                )
            },
            None => self.rest(None),
        }
    }

    /// Takes the block of the tick, whatever stood before. Without a
    /// timestamp that decodes, or without an array of transactions, the
    /// tick ends with the failure; else it goes on with the first
    /// transaction that names both parties.
    pub fn extract_transfers(self, block: Json) -> (r: (Indexer<'a>, Action))
        ensures
            (r.0@, r.1@) == self@.extract(block@),
    {
        match timestamp_of(&block) {
            Err(f) => self.rest(Some(f)),
            Ok(secs) => {
                if transactions_of(&block).is_none() {
                    return self.rest(Some(TickError::Protocol));
                }
                let taken = Indexer {
                    api_key: self.api_key,
                    database_url: self.database_url,
                    poll_interval: self.poll_interval,
                    phase: Phase::Fetching,
                    block,
                    timestamp: secs,
                    cursor: 0,
                };
                taken.proceed(0)
            },
        }
    }

    /// Leaves the transaction under the cursor and goes on with the next.
    fn pass_on(self) -> (r: (Indexer<'a>, Action))
        requires
            self@.phase == Phase::ProbingRecipient || self@.phase == Phase::ProbingSender
                || self@.phase == Phase::Writing,
        ensures
            (r.0@, r.1@) == self@.proceed(self@.cursor + 1),
    {
        proof {
            use_type_invariant(&self);
        }
        let count = match transactions_of(&self.block) {
            Some(txs) => txs.len(),
            None => 0,
        };
        assert(self.cursor < count);
        let next = self.cursor + 1;
        self.proceed(next)
    }

    /// Takes the code at the party that was asked about.
    fn probed(self, code: &str) -> (r: (Indexer<'a>, Action))
        requires
            self@.phase == Phase::ProbingRecipient || self@.phase == Phase::ProbingSender,
        ensures
            (r.0@, r.1@) == self@.probed(code@),
    {
        proof {
            use_type_invariant(&self);
        }
        if !is_eoa(code) {
            return self.pass_on();
        }
        let txs = match transactions_of(&self.block) {
            Some(txs) => txs,
            None => {
                proof {
                    assert(false);
                }
                vstd::pervasive::unreached()
            },
        };
        let tx = &txs[self.cursor];
        match self.phase {
            Phase::ProbingRecipient => {
                let call = code_call(text_field_of(tx, "from").as_str());
                (
                    Indexer {
                        api_key: self.api_key,
                        database_url: self.database_url,
                        poll_interval: self.poll_interval,
                        phase: Phase::ProbingSender,
                        block: self.block,
                        timestamp: self.timestamp,
                        cursor: self.cursor,
                    },
                    Action::Call(call),
                )
            },
            _ => match parse_transaction(tx, self.timestamp) {
                Ok(row) => (
                    Indexer {
                        api_key: self.api_key,
                        database_url: self.database_url,
                        poll_interval: self.poll_interval,
                        phase: Phase::Writing,
                        block: self.block,
                        timestamp: self.timestamp,
                        cursor: self.cursor,
                    },
                    Action::Insert(row),
                ),
                Err(_) => self.pass_on(),
            },
        }
    }

    /// What the event says of the last call.
    fn reply_of(event: Event) -> (r: Result<Json, TickError>)
        ensures
            match r {
                Ok(doc) => replied(event@) == Ok::<JsonValue, TickErrorView>(doc@),
                Err(f) => replied(event@) == Err::<JsonValue, TickErrorView>(f@),
            },
    {
        match event {
            Event::Unreachable => Err(TickError::Transport { status: None }),
            Event::Reply { status, body } => interpret_response(status, body),
            _ => Err(TickError::Protocol),
        }
    }

    /// Runs the machine one step: takes what has just happened and says
    /// what is to be done next. The loop around it, which performs each
    /// action and comes back with its event, belongs to the driver.
    pub fn run(self, event: Event) -> (r: (Indexer<'a>, Action))
        ensures
            (r.0@, r.1@) == self@.step(event@),
    {
        proof {
            use_type_invariant(&self);
        }
        match self.phase {
            Phase::Idle | Phase::Sleeping => match event {
                Event::Wake => self.fetch_new_block(),
                _ => self.rest(Some(TickError::Protocol)),
            },
            Phase::Fetching => match Self::reply_of(event) {
                Ok(block) => self.extract_transfers(block),
                Err(f) => self.rest(Some(f)),
            },
            Phase::ProbingRecipient | Phase::ProbingSender => match Self::reply_of(event) {
                Ok(answer) => match code_of(&answer) {
                    Ok(code) => self.probed(code.as_str()),
                    Err(f) => self.rest(Some(f)),
                },
                Err(f) => self.rest(Some(f)),
            },
            Phase::Writing => match event {
                Event::Stored { ok } => self.pass_on(),
                _ => self.rest(Some(TickError::Protocol)),
            },
        }
    }
}

} // verus!
