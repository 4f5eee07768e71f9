//! The payout batcher: a list of payees cut into batches of bounded size,
//! each with the total of its amounts, and the run that submits them in
//! order.

use vstd::arithmetic::div_mod::{lemma_fundamental_div_mod_converse, lemma_mod_multiples_basic};
use vstd::prelude::*;

use crate::address::{decode, decode_spec, Address, AddressError, AddressView};
use crate::dispatch::{DispatchError, TransactionOutcome};
use crate::u256::{limit, U256};

verus! {

/// The most payees that one payout holds.
pub const MAX_PAYEES_PER_PAYOUT: usize = 700;

/// An amount of the token in atto, its smallest unit.
pub type Amount = U256;

/// One payee and the amount that is paid to it.
#[derive(Debug, PartialEq, Eq)]
pub struct PayoutEntry {
    pub address: Address,
    pub amount: Amount,
}

impl Clone for PayoutEntry {
    fn clone(&self) -> (res: PayoutEntry)
        ensures
            entry_view(res) == entry_view(*self),
    {
        PayoutEntry { address: self.address.clone(), amount: self.amount }
    }
}

/// A run of consecutive entries of a payout list, submitted as one
/// transaction, with the place of its first entry in the list and the total
/// of its amounts. A batch is made by `split_and_aggregate` and is not
/// changed after that: it is never empty, and its total is the sum of the
/// amounts of its entries.
#[derive(Debug, PartialEq, Eq)]
pub struct PayoutBatch {
    start: usize,
    entries: Vec<PayoutEntry>,
    total: U256,
}

/// A batch as a mathematical value.
pub struct BatchView {
    pub start: nat,
    pub entries: Seq<PayoutEntry>,
    pub total: nat,
}

impl View for PayoutBatch {
    type V = BatchView;

    closed spec fn view(&self) -> BatchView {
        BatchView {
            start: self.start as nat,
            entries: self.entries@,
            total: self.total.value(),
        }
    }
}

impl PayoutBatch {
    #[verifier::type_invariant]
    closed spec fn wf(self) -> bool {
        &&& self.entries@.len() >= 1
        &&& self.start + self.entries@.len() <= usize::MAX
        &&& self.total.value() == amounts_sum(self.entries@)
    }

    /// The place of the first entry of the batch in the payout list.
    pub fn start(&self) -> (res: usize)
        ensures
            res == self@.start,
    {
        self.start
    }

    /// The place after the last entry of the batch in the payout list.
    pub fn end(&self) -> (res: usize)
        ensures
            res == self@.start + self@.entries.len(),
    {
        proof {
            use_type_invariant(self);
        }
        self.start + self.entries.len()
    }

    /// The entries of the batch: there is at least one.
    pub fn entries(&self) -> (res: &Vec<PayoutEntry>)
        ensures
            res@ == self@.entries,
            res@.len() >= 1,
    {
        proof {
            use_type_invariant(self);
        }
        &self.entries
    }

    /// The sum of the amounts of the entries.
    pub fn total(&self) -> (res: U256)
        ensures
            res.value() == self@.total,
            self@.total == amounts_sum(self@.entries),
    {
        proof {
            use_type_invariant(self);
        }
        self.total
    }
}

/// What went wrong with a batch.
#[derive(Debug, Clone, Copy, PartialEq, Eq, Structural)]
pub enum BatchFailure {
    /// A payee's address was refused.
    Address(AddressError),
    /// The batch was not dispatched, or its final state is unknown.
    Dispatch(DispatchError),
    /// The node refused the transaction of the batch: nothing was sent.
    Rejected,
    /// The amounts of the batch do not add up within 256 bits.
    Overflow,
}

/// A failure and the entries of the payout list that it concerns, from
/// `start` up to `end`.
#[derive(Debug, Clone, Copy, PartialEq, Eq, Structural)]
pub struct BatchError {
    pub cause: BatchFailure,
    pub start: usize,
    pub end: usize,
}

impl BatchError {
    /// Whether the error leaves the final state of the batch unknown: the
    /// batch was sent, and no receipt was seen.
    pub fn is_ambiguous(&self) -> (res: bool)
        ensures
            res == (self.cause matches BatchFailure::Dispatch(DispatchError::NoReceipt(_))),
    {
        match self.cause {
            BatchFailure::Dispatch(reason) => reason.is_ambiguous(),
            _ => false,
        }
    }
}

/// An entry as a mathematical value.
pub open spec fn entry_view(entry: PayoutEntry) -> (AddressView, U256) {
    (entry.address@, entry.amount)
}

/// The entries of a list as mathematical values.
pub open spec fn entry_views(entries: Seq<PayoutEntry>) -> Seq<(AddressView, U256)> {
    entries.map_values(|e: PayoutEntry| entry_view(e))
}

/// The sum of the amounts of `entries`.
pub open spec fn amounts_sum(entries: Seq<PayoutEntry>) -> nat
    decreases entries.len(),
{
    if entries.len() == 0 {
        0
    } else {
        amounts_sum(entries.drop_last()) + entries.last().amount.value()
    }
}

/// The entries of `batches`, one batch after the other.
pub open spec fn concat_entries(batches: Seq<PayoutBatch>) -> Seq<PayoutEntry>
    decreases batches.len(),
{
    if batches.len() == 0 {
        Seq::empty()
    } else {
        concat_entries(batches.drop_last()) + batches.last()@.entries
    }
}

/// The sum of the totals of `batches`.
pub open spec fn totals_sum(batches: Seq<PayoutBatch>) -> nat
    decreases batches.len(),
{
    if batches.len() == 0 {
        0
    } else {
        totals_sum(batches.drop_last()) + batches.last()@.total
    }
}

/// The number of batches that `n` entries are cut into under a cap of `cap`:
/// `n / cap`, rounded up.
pub open spec fn batch_count(n: nat, cap: nat) -> nat {
    ((n + cap - 1) / cap as int) as nat
}

/// Where the window that starts at `start` ends in a list of `n` entries.
pub open spec fn window_end(n: nat, cap: nat, start: nat) -> nat {
    if start + cap <= n {
        start + cap
    } else {
        n
    }
}

/// The `k`-th window of `entries` under a cap of `cap`.
pub open spec fn window(entries: Seq<PayoutEntry>, cap: nat, k: int) -> Seq<PayoutEntry> {
    entries.subrange(k * cap, window_end(entries.len(), cap, (k * cap) as nat) as int)
}

/// Whether `batch` is the `k`-th window of `entries`, with its total.
pub open spec fn is_window(batch: PayoutBatch, entries: Seq<PayoutEntry>, cap: nat, k: int) -> bool {
    &&& batch@.start == k * cap
    &&& batch@.entries == window(entries, cap, k)
    &&& 1 <= batch@.entries.len() <= cap
    &&& batch@.total == amounts_sum(batch@.entries)
}

/// The sum of a list in two parts is the sum of the sums of the parts.
pub proof fn lemma_amounts_sum_concat(a: Seq<PayoutEntry>, b: Seq<PayoutEntry>)
    ensures
        amounts_sum(a + b) == amounts_sum(a) + amounts_sum(b),
    decreases b.len(),
{
    if b.len() == 0 {
        assert(a + b =~= a);
    } else {
        assert((a + b).drop_last() =~= a + b.drop_last());
        lemma_amounts_sum_concat(a, b.drop_last());
    }
}

/// `k` windows cover `n` entries exactly when `k` is `n / cap` rounded up.
pub proof fn lemma_batch_count(n: nat, cap: nat, k: nat)
    requires
        cap > 0,
        k == 0 ==> n == 0,
        k >= 1 ==> (k - 1) * cap < n && n <= k * cap,
    ensures
        batch_count(n, cap) == k,
{
    if k == 0 {
        lemma_fundamental_div_mod_converse(cap - 1, cap as int, 0, cap - 1);
    } else {
        let r = n + cap - 1 - k * cap;
        assert((k - 1) * cap == k * cap - cap) by (nonlinear_arith);
        assert(n + cap - 1 == k * cap + r);
        lemma_fundamental_div_mod_converse(n + cap - 1, cap as int, k as int, r);
    }
}

/// The sum of the amounts of `entries`, `None` where it does not fit in 256
/// bits.
pub fn sum_amounts(entries: &Vec<PayoutEntry>) -> (res: Option<U256>)
    ensures
        match res {
            Some(total) => total.value() == amounts_sum(entries@),
            None => amounts_sum(entries@) >= limit(),
        },
{
    let mut total: U256 = U256::zero();
    let mut i: usize = 0;
    while i < entries.len()
        invariant
            i <= entries@.len(),
            total.value() == amounts_sum(entries@.take(i as int)),
        decreases entries@.len() - i,
    {
        proof {
            assert(entries@.take(i + 1).drop_last() =~= entries@.take(i as int));
            assert(entries@.take(i + 1).last() == entries@[i as int]);
        }
        match total.checked_add(entries[i].amount) {
            Some(next) => {
                total = next;
            },
            None => {
                proof {
                    assert(entries@ =~= entries@.take(i + 1) + entries@.skip(i + 1));
                    lemma_amounts_sum_concat(entries@.take(i + 1), entries@.skip(i + 1));
                }
                return None;
            },
        }
        i = i + 1;
    }
    proof {
        assert(entries@.take(entries@.len() as int) =~= entries@);
    }
    Some(total)
}

/// Cuts `entries` into consecutive batches of at most `cap` entries, in
/// their order, the last one possibly smaller, and adds up the amounts of
/// each.
///
/// There are `n / cap` batches, rounded up; the batches one after the other
/// are the list again, and their totals add up to the sum of all amounts.
/// The cut fails exactly when the amounts of some window do not add up
/// within 256 bits, and names the first such window.
pub fn split_and_aggregate(entries: Vec<PayoutEntry>, cap: usize) -> (res: Result<
    Vec<PayoutBatch>,
    BatchError,
>)
    requires
        cap > 0,
    ensures
        match res {
            Ok(batches) => {
                &&& batches@.len() == batch_count(entries@.len(), cap as nat)
                &&& forall|k: int|
                    0 <= k < batches@.len() ==> is_window(
                        #[trigger] batches@[k],
                        entries@,
                        cap as nat,
                        k,
                    )
                &&& concat_entries(batches@) == entries@
                &&& totals_sum(batches@) == amounts_sum(entries@)
            },
            Err(e) => {
                &&& e.cause == BatchFailure::Overflow
                &&& e.start < entries@.len()
                &&& e.start % cap == 0
                &&& e.end == window_end(entries@.len(), cap as nat, e.start as nat)
                &&& amounts_sum(entries@.subrange(e.start as int, e.end as int)) >= limit()
                &&& forall|j: int|
                    0 <= j && j * cap < e.start ==> amounts_sum(
                        #[trigger] window(entries@, cap as nat, j),
                    ) < limit()
            },
        },
{
    let ghost list = entries@;
    let n: usize = entries.len();
    let mut batches: Vec<PayoutBatch> = Vec::new();
    let mut rest: Vec<PayoutEntry> = entries;
    let mut start: usize = 0;
    proof {
        assert(batches@.len() * cap == 0) by (nonlinear_arith)
            requires
                batches@.len() == 0,
        ;
        assert(list.take(0) =~= Seq::<PayoutEntry>::empty());
    }
    while rest.len() > 0
        invariant
            cap > 0,
            list == entries@,
            n == list.len(),
            start <= n,
            rest@ == list.skip(start as int),
            start == (if batches@.len() * cap <= n {
                batches@.len() * cap
            } else {
                n as int
            }),
            batches@.len() >= 1 ==> (batches@.len() - 1) * cap < n,
            forall|k: int|
                0 <= k < batches@.len() ==> is_window(
                    #[trigger] batches@[k],
                    list,
                    cap as nat,
                    k,
                ),
            concat_entries(batches@) == list.take(start as int),
            totals_sum(batches@) == amounts_sum(list.take(start as int)),
        decreases rest@.len(),
    {
        let ghost k = batches@.len() as int;
        let ghost done = batches@;
        let len: usize = rest.len();
        let size: usize = if len > cap {
            cap
        } else {
            len
        };
        proof {
            assert((k + 1) * cap == k * cap + cap) by (nonlinear_arith);
            assert(start == k * cap);
        }
        let tail: Vec<PayoutEntry> = rest.split_off(size);
        proof {
            assert(rest@ =~= list.subrange(start as int, start + size));
            assert(tail@ =~= list.skip(start + size));
            assert(rest@ == window(list, cap as nat, k));
        }
        let total: U256 = match sum_amounts(&rest) {
            Some(total) => total,
            None => {
                proof {
                    lemma_mod_multiples_basic(k, cap as int);
                    assert forall|j: int| 0 <= j && j * cap < start implies amounts_sum(
                        #[trigger] window(list, cap as nat, j),
                    ) < limit() by {
                        assert(j < k) by (nonlinear_arith)
                            requires
                                j * cap < k * cap,
                                cap > 0,
                        ;
                        assert(is_window(done[j], list, cap as nat, j));
                        done[j].total.lemma_value_bound();
                        assert(done[j]@.total == done[j].total.value());
                    }
                }
                return Err(
                    BatchError { cause: BatchFailure::Overflow, start, end: start + size },
                );
            },
        };
        let batch = PayoutBatch { start, entries: rest, total };
        batches.push(batch);
        proof {
            assert(batches@.drop_last() =~= done);
            assert(list.take(start + size) =~= list.take(start as int) + batch@.entries);
            lemma_amounts_sum_concat(list.take(start as int), batch@.entries);
            assert forall|j: int| 0 <= j < batches@.len() implies is_window(
                #[trigger] batches@[j],
                list,
                cap as nat,
                j,
            ) by {
                if j < k {
                    assert(batches@[j] == done[j]);
                }
            }
        }
        rest = tail;
        start = start + size;
    }
    proof {
        assert(list.take(n as int) =~= list);
        lemma_batch_count(n as nat, cap as nat, batches@.len());
    }
    Ok(batches)
}

/// One row of a payout list: the payee's address text and the amount in
/// atto.
pub struct PayoutRow {
    pub payee: String,
    pub atto: u128,
}

/// Whether `entry` is what `row` stands for.
pub open spec fn is_entry_of(entry: PayoutEntry, row: PayoutRow) -> bool {
    &&& decode_spec(row.payee@) == Ok::<AddressView, AddressError>(entry.address@)
    &&& entry.amount.value() == row.atto
}

/// Decodes the payees of a payout list, in their order. The first payee
/// whose address is refused fails the list: the error holds the reason and
/// the place of that row.
pub fn parse_payouts(rows: &Vec<PayoutRow>) -> (res: Result<Vec<PayoutEntry>, BatchError>)
    ensures
        match res {
            Ok(entries) => {
                &&& entries@.len() == rows@.len()
                &&& forall|i: int|
                    0 <= i < rows@.len() ==> is_entry_of(#[trigger] entries@[i], rows@[i])
            },
            Err(e) => {
                &&& e.start < rows@.len()
                &&& e.end == e.start + 1
                &&& match e.cause {
                    BatchFailure::Address(reason) => decode_spec(rows@[e.start as int].payee@)
                        == Err::<AddressView, AddressError>(reason),
                    _ => false,
                }
                &&& forall|j: int| 0 <= j < e.start ==> decode_spec(#[trigger] rows@[j].payee@) is Ok
            },
        },
{
    let mut entries: Vec<PayoutEntry> = Vec::new();
    let mut i: usize = 0;
    while i < rows.len()
        invariant
            i <= rows@.len(),
            entries@.len() == i,
            forall|j: int| 0 <= j < i ==> is_entry_of(#[trigger] entries@[j], rows@[j]),
            forall|j: int| 0 <= j < i ==> decode_spec(#[trigger] rows@[j].payee@) is Ok,
        decreases rows@.len() - i,
    {
        let row: &PayoutRow = &rows[i];
        match decode(row.payee.as_str()) {
            Ok(address) => {
                entries.push(PayoutEntry { address, amount: U256::from_u128(row.atto) });
            },
            Err(reason) => {
                return Err(
                    BatchError { cause: BatchFailure::Address(reason), start: i, end: i + 1 },
                );
            },
        }
        i = i + 1;
    }
    Ok(entries)
}

/// What a run of batches does next.
#[derive(Debug, Clone, Copy, PartialEq, Eq, Structural)]
pub enum RunAction {
    /// Submit the batch at this place.
    Submit(usize),
    /// Every batch is confirmed.
    Finish,
    /// Stop: write the entries of the batches from `first_unsent` on to the
    /// recovery list, then report `error`.
    Abort { error: BatchError, first_unsent: usize },
}

/// The error that stops a run at the batch `batch`.
pub open spec fn stop_error(batch: BatchView, cause: BatchFailure) -> BatchError {
    BatchError {
        cause,
        start: batch.start as usize,
        end: (batch.start + batch.entries.len()) as usize,
    }
}

/// What a run does first: the first batch, if there is one.
pub open spec fn first_action_spec(count: nat) -> RunAction {
    if count == 0 {
        RunAction::Finish
    } else {
        RunAction::Submit(0)
    }
}

/// What a run does after the batch at `index` was dispatched and `outcome`
/// came back.
///
/// A confirmed batch is followed by the next one. An unconfirmed batch
/// stops the run: it was sent, its state is unknown, and it is neither
/// submitted again nor written to the recovery list, which starts at the
/// batch after it. A batch that failed before it was sent stops the run
/// too, and the recovery list starts with it.
pub open spec fn after_outcome_spec(
    batches: Seq<PayoutBatch>,
    index: usize,
    outcome: Result<TransactionOutcome, BatchFailure>,
) -> RunAction {
    if index >= batches.len() {
        RunAction::Finish
    } else {
        match outcome {
            Ok(TransactionOutcome::Confirmed(receipt)) => if index + 1 < batches.len() {
                RunAction::Submit((index + 1) as usize)
            } else {
                RunAction::Finish
            },
            Ok(TransactionOutcome::Unconfirmed(hash)) => RunAction::Abort {
                error: stop_error(
                    batches[index as int]@,
                    BatchFailure::Dispatch(DispatchError::NoReceipt(hash)),
                ),
                first_unsent: (index + 1) as usize,
            },
            Err(BatchFailure::Dispatch(DispatchError::NoReceipt(hash))) => RunAction::Abort {
                error: stop_error(
                    batches[index as int]@,
                    BatchFailure::Dispatch(DispatchError::NoReceipt(hash)),
                ),
                first_unsent: (index + 1) as usize,
            },
            Err(cause) => RunAction::Abort {
                error: stop_error(batches[index as int]@, cause),
                first_unsent: index,
            },
        }
    }
}

/// What a run of `batches` does first.
pub fn first_action(batches: &Vec<PayoutBatch>) -> (action: RunAction)
    ensures
        action == first_action_spec(batches@.len()),
{
    if batches.len() == 0 {
        RunAction::Finish
    } else {
        RunAction::Submit(0)
    }
}

/// What a run of `batches` does after the batch at `index` was dispatched
/// and `outcome` came back. No outcome has the same batch submitted again:
/// the only batch that is ever submitted next is the one after it.
pub fn after_outcome(
    batches: &Vec<PayoutBatch>,
    index: usize,
    outcome: Result<TransactionOutcome, BatchFailure>,
) -> (action: RunAction)
    ensures
        action == after_outcome_spec(batches@, index, outcome),
        match action {
            RunAction::Submit(next) => next == index + 1 && next < batches@.len(),
            RunAction::Finish => true,
            RunAction::Abort { error, first_unsent } => index <= first_unsent <= index + 1,
        },
{
    if index >= batches.len() {
        return RunAction::Finish;
    }
    let batch: &PayoutBatch = &batches[index];
    match outcome {
        Ok(TransactionOutcome::Confirmed(_)) => {
            if index + 1 < batches.len() {
                RunAction::Submit(index + 1)
            } else {
                RunAction::Finish
            }
        },
        Ok(TransactionOutcome::Unconfirmed(hash)) => RunAction::Abort {
            error: BatchError {
                cause: BatchFailure::Dispatch(DispatchError::NoReceipt(hash)),
                start: batch.start(),
                end: batch.end(),
            },
            first_unsent: index + 1,
        },
        Err(BatchFailure::Dispatch(DispatchError::NoReceipt(hash))) => RunAction::Abort {
            error: BatchError {
                cause: BatchFailure::Dispatch(DispatchError::NoReceipt(hash)),
                start: batch.start(),
                end: batch.end(),
            },
            first_unsent: index + 1,
        },
        Err(cause) => RunAction::Abort {
            error: BatchError { cause, start: batch.start(), end: batch.end() },
            first_unsent: index,
        },
    }
}

/// The entries of the batches from `first_unsent` on, in their order: what
/// the recovery list holds when a run stops.
pub fn unsent_entries(batches: &Vec<PayoutBatch>, first_unsent: usize) -> (unsent: Vec<
    PayoutEntry,
>)
    ensures
        entry_views(unsent@) == entry_views(
            concat_entries(
                batches@.subrange(
                    (if first_unsent <= batches@.len() {
                        first_unsent as int
                    } else {
                        batches@.len() as int
                    }),
                    batches@.len() as int,
                ),
            ),
        ),
{
    let count: usize = batches.len();
    let from: usize = if first_unsent <= count {
        first_unsent
    } else {
        count
    };
    let mut unsent: Vec<PayoutEntry> = Vec::new();
    let mut i: usize = from;
    proof {
        assert(batches@.subrange(from as int, from as int) =~= Seq::<PayoutBatch>::empty());
        assert(entry_views(unsent@) =~= entry_views(Seq::<PayoutEntry>::empty()));
    }
    while i < count
        invariant
            from <= i <= count,
            count == batches@.len(),
            entry_views(unsent@) == entry_views(
                concat_entries(batches@.subrange(from as int, i as int)),
            ),
        decreases count - i,
    {
        let entries: &Vec<PayoutEntry> = batches[i].entries();
        let ghost before = concat_entries(batches@.subrange(from as int, i as int));
        let mut j: usize = 0;
        while j < entries.len()
            invariant
                j <= entries@.len(),
                entry_views(unsent@) == entry_views(before + entries@.take(j as int)),
            decreases entries@.len() - j,
        {
            let ghost sofar = unsent@;
            unsent.push(entries[j].clone());
            proof {
                assert(entries@.take(j + 1) =~= entries@.take(j as int).push(entries@[j as int]));
                assert(before + entries@.take(j + 1) =~= (before + entries@.take(j as int)).push(
                    entries@[j as int],
                ));
                assert(entry_views(unsent@) =~= entry_views(sofar).push(
                    entry_view(entries@[j as int]),
                ));
                assert(entry_views(before + entries@.take(j + 1)) =~= entry_views(
                    before + entries@.take(j as int),
                ).push(entry_view(entries@[j as int])));
            }
            j = j + 1;
        }
        proof {
            assert(entries@.take(entries@.len() as int) =~= entries@);
            assert(batches@.subrange(from as int, i + 1).drop_last() =~= batches@.subrange(
                from as int,
                i as int,
            ));
            assert(batches@.subrange(from as int, i + 1).last() == batches@[i as int]);
        }
        i = i + 1;
    }
    unsent
}

/// The number of batches that `n` entries are cut into under a cap of
/// `cap`.
pub fn count_batches(n: usize, cap: usize) -> (count: usize)
    requires
        cap > 0,
    ensures
        count == batch_count(n as nat, cap as nat),
{
    let full: usize = n / cap;
    let over: usize = n % cap;
    proof {
        vstd::arithmetic::div_mod::lemma_fundamental_div_mod(n as int, cap as int);
        vstd::arithmetic::div_mod::lemma_mod_bound(n as int, cap as int);
        assert(cap * full + over == n);
        assert(cap * full == full * cap) by (nonlinear_arith);
        if over == 0 {
            if full > 0 {
                assert((full - 1) * cap == full * cap - cap) by (nonlinear_arith);
            }
            lemma_batch_count(n as nat, cap as nat, full as nat);
        } else {
            assert((full + 1) * cap == full * cap + cap) by (nonlinear_arith);
            lemma_batch_count(n as nat, cap as nat, (full + 1) as nat);
        }
    }
    if over == 0 {
        full
    } else {
        assert(full < usize::MAX) by (nonlinear_arith)
            requires
                cap * full + over == n,
                over > 0,
                cap > 0,
                n <= usize::MAX,
        ;
        full + 1
    }
}

/// The place in the payout list of the first row that was not sent when a
/// run stopped with the batches from `first_unsent` on unsent: the rows from
/// there on are what the recovery list holds. Where every batch was sent,
/// this is the place after the last row.
pub fn first_unsent_row(batches: &Vec<PayoutBatch>, first_unsent: usize) -> (row: usize)
    ensures
        row == (if first_unsent < batches@.len() {
            batches@[first_unsent as int]@.start
        } else if batches@.len() == 0 {
            0
        } else {
            batches@.last()@.start + batches@.last()@.entries.len()
        }),
{
    if first_unsent < batches.len() {
        batches[first_unsent].start()
    } else if batches.len() == 0 {
        0
    } else {
        batches[batches.len() - 1].end()
    }
}

} // verus!
