//! Which of the transactions that arrive are to be executed: all but messages seen before.
use crate::executor::{ExecutorError, ExecutorThreadState};
use crate::transaction::{message_number, AdditionalTxInfo, BatchToExecute, Transaction};
use vstd::prelude::*;

verus! {

broadcast use vstd::std_specs::hash::group_hash_axioms;

/// A transaction and what came with it.
pub type Arrival = (Transaction, AdditionalTxInfo);

/// The number of the message that a transaction is, if it is one and its nonce is a number.
pub open spec fn number_of(tx: Transaction) -> Option<u64> {
    match tx.message_nonce() {
        Some(nonce) => if nonce.0.value() <= u64::MAX {
            Some(nonce.0.value() as u64)
        } else {
            None
        },
        None => None,
    }
}

/// Whether a transaction is a message whose nonce is no number.
pub open spec fn has_bad_nonce(tx: Transaction) -> bool {
    tx.message_nonce() matches Some(nonce) && nonce.0.value() > u64::MAX
}

/// Why the arrivals cannot all be gone through, if they cannot: the first of them with a bad
/// nonce, or for which it could not be looked up whether it was consumed.
pub open spec fn admission_failure(
    arrivals: Seq<Arrival>,
    consumed: Seq<Result<bool, String>>,
) -> Option<ExecutorError>
    decreases arrivals.len(),
{
    if arrivals.len() == 0 {
        None
    } else {
        let earlier = admission_failure(arrivals.drop_last(), consumed.drop_last());
        let tx = arrivals.last().0;
        if earlier is Some {
            earlier
        } else if has_bad_nonce(tx) {
            Some(ExecutorError::NonceConversion)
        } else {
            match (number_of(tx), consumed.last()) {
                (Some(_), Err(err)) => Some(ExecutorError::CheckNonce(err)),
                _ => None,
            }
        }
    }
}

/// How many of the arrivals are gone through: those before the first failure, or all.
pub open spec fn n_gone_through(arrivals: Seq<Arrival>, consumed: Seq<Result<bool, String>>) -> nat
    decreases arrivals.len(),
{
    if arrivals.len() == 0 {
        0
    } else if admission_failure(arrivals.drop_last(), consumed.drop_last()) is Some {
        n_gone_through(arrivals.drop_last(), consumed.drop_last())
    } else if admission_failure(arrivals, consumed) is Some {
        (arrivals.len() - 1) as nat
    } else {
        arrivals.len()
    }
}

/// Whether the last of the arrivals is admitted, where the messages of `seen` were admitted before.
pub open spec fn admits(tx: Transaction, consumed: Result<bool, String>, seen: Set<u64>) -> bool {
    number_of(tx) matches Some(number) ==> consumed == Ok::<bool, String>(false) && !seen.contains(number)
}

/// The messages that were admitted before and among the arrivals.
pub open spec fn seen_after(
    seen: Set<u64>,
    arrivals: Seq<Arrival>,
    consumed: Seq<Result<bool, String>>,
) -> Set<u64>
    decreases arrivals.len(),
{
    if arrivals.len() == 0 {
        seen
    } else {
        let before = seen_after(seen, arrivals.drop_last(), consumed.drop_last());
        match number_of(arrivals.last().0) {
            Some(number) if admits(arrivals.last().0, consumed.last(), before) => before.insert(number),
            _ => before,
        }
    }
}

/// The arrivals that are admitted, in their order: all but messages that were consumed in an
/// earlier block or admitted before.
pub open spec fn admitted(
    seen: Set<u64>,
    arrivals: Seq<Arrival>,
    consumed: Seq<Result<bool, String>>,
) -> Seq<Arrival>
    decreases arrivals.len(),
{
    if arrivals.len() == 0 {
        Seq::empty()
    } else {
        let before = admitted(seen, arrivals.drop_last(), consumed.drop_last());
        if admits(
            arrivals.last().0,
            consumed.last(),
            seen_after(seen, arrivals.drop_last(), consumed.drop_last()),
        ) {
            before.push(arrivals.last())
        } else {
            before
        }
    }
}

/// For each arrival, the number of the message that it is, so that it can be looked up whether
/// the message was consumed in an earlier block.
pub fn messages_to_check(arrivals: &BatchToExecute) -> (numbers: Vec<Option<u64>>)
    ensures
        numbers@ == arrivals@.map_values(|arrival: Arrival| number_of(arrival.0)),
{
    let mut numbers: Vec<Option<u64>> = Vec::with_capacity(arrivals.len());
    let mut i: usize = 0;
    while i < arrivals.txs.len()
        invariant
            i <= arrivals@.len(),
            numbers@ == arrivals@.take(i as int).map_values(|arrival: Arrival| number_of(arrival.0)),
        decreases arrivals@.len() - i,
    {
        let number = match arrivals.txs[i].0.l1_handler_tx_nonce() {
            Some(nonce) => message_number(nonce),
            None => None,
        };
        numbers.push(number);
        i += 1;
        assert(numbers@ =~= arrivals@.take(i as int).map_values(
            |arrival: Arrival| number_of(arrival.0),
        ));
    }
    assert(arrivals@.take(arrivals@.len() as int) =~= arrivals@);
    numbers
}

/// Adds those arrivals to the transactions to execute that are no duplicates of messages, up to the
/// first one that cannot be gone through.
///
/// `consumed` tells for each arrival that is a message whether it was consumed in an earlier
/// block. The state keeps record of the messages that are admitted.
pub fn take_in(
    state: &mut ExecutorThreadState,
    to_exec: &mut BatchToExecute,
    arrivals: BatchToExecute,
    consumed: Vec<Result<bool, String>>,
) -> (outcome: Result<(), ExecutorError>)
    requires
        consumed@.len() == arrivals@.len(),
    ensures
        outcome == match admission_failure(arrivals@, consumed@) {
            Some(err) => Err::<(), ExecutorError>(err),
            None => Ok(()),
        },
        ({
            let n = n_gone_through(arrivals@, consumed@) as int;
            let seen = old(state)@.consumed();
            &&& final(state)@ == old(state)@.with_consumed(
                seen_after(seen, arrivals@.take(n), consumed@.take(n)),
            )
            &&& final(to_exec)@ == old(to_exec)@ + admitted(seen, arrivals@.take(n), consumed@.take(n))
        }),
{
    let ghost seen = state@.consumed();
    let ghost answers = consumed@;
    let mut remaining = consumed;
    let mut i: usize = 0;
    while i < arrivals.txs.len()
        invariant
            i <= arrivals@.len() == answers.len(),
            answers == consumed@,
            remaining@ == answers,
            seen == old(state)@.consumed(),
            admission_failure(arrivals@.take(i as int), answers.take(i as int)) is None,
            state@ == old(state)@.with_consumed(
                seen_after(seen, arrivals@.take(i as int), answers.take(i as int)),
            ),
            to_exec@ == old(to_exec)@ + admitted(
                seen,
                arrivals@.take(i as int),
                answers.take(i as int),
            ),
        decreases arrivals@.len() - i,
    {
        let (tx, additional_info) = arrivals.txs[i];
        proof {
            assert(arrivals@.take(i + 1).drop_last() =~= arrivals@.take(i as int));
            assert(answers.take(i + 1).drop_last() =~= answers.take(i as int));
        }
        let mut duplicate = false;
        if let Some(nonce) = tx.l1_handler_tx_nonce() {
            let number: u64 = match message_number(nonce) {
                Some(number) => number,
                None => {
                    proof {
                        lemma_first_failure_counts(arrivals@, answers, i + 1);
                    }
                    return Err(ExecutorError::NonceConversion);
                },
            };
            let consumed_earlier = match &remaining[i] {
                Ok(consumed_earlier) => *consumed_earlier,
                Err(_) => {
                    proof {
                        lemma_first_failure_counts(arrivals@, answers, i + 1);
                    }
                    let answer = remaining.swap_remove(i);
                    return match answer {
                        Err(err) => Err(ExecutorError::CheckNonce(err)),
                        Ok(_) => Ok(()),
                    };
                },
            };
            duplicate = consumed_earlier || !state.consumed_l1_to_l2_nonces().insert(number);
        }
        if !duplicate {
            to_exec.push(tx, additional_info);
        }
        i += 1;
        assert(to_exec@ =~= old(to_exec)@ + admitted(
            seen,
            arrivals@.take(i as int),
            answers.take(i as int),
        ));
    }
    proof {
        assert(arrivals@.take(arrivals@.len() as int) =~= arrivals@);
        assert(answers.take(arrivals@.len() as int) =~= answers);
        lemma_all_gone_through(arrivals@, answers);
    }
    Ok(())
}

/// Without a failure all arrivals are gone through.
pub proof fn lemma_all_gone_through(arrivals: Seq<Arrival>, consumed: Seq<Result<bool, String>>)
    requires
        admission_failure(arrivals, consumed) is None,
    ensures
        n_gone_through(arrivals, consumed) == arrivals.len(),
{
}

/// The first failure is the one that counts.
proof fn lemma_first_failure_counts(
    arrivals: Seq<Arrival>,
    consumed: Seq<Result<bool, String>>,
    n: int,
)
    requires
        0 <= n <= arrivals.len() == consumed.len(),
        admission_failure(arrivals.take(n), consumed.take(n)) is Some,
    ensures
        admission_failure(arrivals, consumed) == admission_failure(arrivals.take(n), consumed.take(n)),
        n_gone_through(arrivals, consumed) == n_gone_through(arrivals.take(n), consumed.take(n)),
    decreases arrivals.len() - n,
{
    if n == arrivals.len() {
        assert(arrivals.take(n) =~= arrivals);
        assert(consumed.take(n) =~= consumed);
    } else {
        assert(arrivals.take(n + 1).drop_last() =~= arrivals.take(n));
        assert(consumed.take(n + 1).drop_last() =~= consumed.take(n));
        lemma_first_failure_counts(arrivals, consumed, n + 1);
    }
}

/// The numbers of the messages among transactions.
pub open spec fn numbers_in(txs: Seq<Arrival>) -> Set<u64> {
    Set::new(|number: u64| exists|i: int| 0 <= i < txs.len() && number_of((#[trigger] txs[i]).0) == Some(number))
}

/// No message occurs twice among transactions.
pub open spec fn distinct_messages(txs: Seq<Arrival>) -> bool {
    forall|i: int, j: int|
        #![trigger txs[i], txs[j]]
        0 <= i < j < txs.len() && number_of(txs[i].0) is Some ==> number_of(txs[i].0) != number_of(
            txs[j].0,
        )
}

/// The transactions that are no messages, in their order.
pub open spec fn other_transactions(txs: Seq<Arrival>) -> Seq<Arrival>
    decreases txs.len(),
{
    if txs.len() == 0 {
        Seq::empty()
    } else if txs.last().0.message_nonce() is None {
        other_transactions(txs.drop_last()).push(txs.last())
    } else {
        other_transactions(txs.drop_last())
    }
}

/// No message is admitted twice between the ends of two blocks: the messages that are admitted
/// differ from each other and from those admitted before, and are on record afterwards.
pub proof fn no_message_is_admitted_twice(
    seen: Set<u64>,
    arrivals: Seq<Arrival>,
    consumed: Seq<Result<bool, String>>,
)
    requires
        consumed.len() == arrivals.len(),
    ensures
        distinct_messages(admitted(seen, arrivals, consumed)),
        numbers_in(admitted(seen, arrivals, consumed)).disjoint(seen),
        seen_after(seen, arrivals, consumed) == seen.union(
            numbers_in(admitted(seen, arrivals, consumed)),
        ),
    decreases arrivals.len(),
{
    let now = admitted(seen, arrivals, consumed);
    let after = seen_after(seen, arrivals, consumed);
    if arrivals.len() == 0 {
        assert(after =~= seen.union(numbers_in(now)));
    } else {
        no_message_is_admitted_twice(seen, arrivals.drop_last(), consumed.drop_last());
        let before = admitted(seen, arrivals.drop_last(), consumed.drop_last());
        let seen_before = seen_after(seen, arrivals.drop_last(), consumed.drop_last());
        let tx = arrivals.last().0;
        if admits(tx, consumed.last(), seen_before) {
            assert(now == before.push(arrivals.last()));
            assert forall|number: u64| numbers_in(now).contains(number) <==> (numbers_in(before).contains(
                number,
            ) || number_of(tx) == Some(number)) by {
                if numbers_in(before).contains(number) {
                    let i = choose|i: int|
                        0 <= i < before.len() && number_of((#[trigger] before[i]).0) == Some(number);
                    assert(number_of(now[i].0) == Some(number));
                }
                if number_of(tx) == Some(number) {
                    assert(number_of(now[before.len() as int].0) == Some(number));
                }
                if numbers_in(now).contains(number) {
                    let i = choose|i: int|
                        0 <= i < now.len() && number_of((#[trigger] now[i]).0) == Some(number);
                    if i < before.len() {
                        assert(number_of(before[i].0) == Some(number));
                    }
                }
            }
            assert forall|i: int, j: int|
                #![trigger now[i], now[j]]
                0 <= i < j < now.len() && number_of(now[i].0) is Some implies number_of(now[i].0)
                != number_of(now[j].0) by {
                assert(now[i] == before[i]);
                if j < before.len() {
                    assert(now[j] == before[j]);
                } else {
                    assert(numbers_in(before).contains(number_of(before[i].0)->0));
                }
            }
        }
        assert(after =~= seen.union(numbers_in(now)));
    }
}

/// A message that was admitted for an earlier block is not admitted again, as long as the state
/// reports the messages that ended blocks handed over to it as consumed.
///
/// `history` are all messages admitted so far: those handed over and those seen since.
pub proof fn messages_of_earlier_blocks_stay_out(
    history: Set<u64>,
    handed_over: Set<u64>,
    seen: Set<u64>,
    arrivals: Seq<Arrival>,
    consumed: Seq<Result<bool, String>>,
)
    requires
        consumed.len() == arrivals.len(),
        history.subset_of(handed_over.union(seen)),
        forall|i: int|
            0 <= i < arrivals.len() && (number_of((#[trigger] arrivals[i]).0) matches Some(number)
                && handed_over.contains(number)) ==> consumed[i] != Ok::<bool, String>(false),
    ensures
        numbers_in(admitted(seen, arrivals, consumed)).disjoint(history),
        history.union(numbers_in(admitted(seen, arrivals, consumed))).subset_of(
            handed_over.union(seen_after(seen, arrivals, consumed)),
        ),
{
    no_message_is_admitted_twice(seen, arrivals, consumed);
    lemma_admitted_were_not_consumed(seen, arrivals, consumed);
    let now = admitted(seen, arrivals, consumed);
    assert forall|number: u64| numbers_in(now).contains(number) implies !handed_over.contains(number) by {
        let k = choose|k: int| 0 <= k < now.len() && number_of((#[trigger] now[k]).0) == Some(number);
        let i = choose|i: int|
            0 <= i < arrivals.len() && #[trigger] arrivals[i] == now[k] && consumed[i] == Ok::<
                bool,
                String,
            >(false);
        assert(number_of(arrivals[i].0) == Some(number));
    }
}

/// Each message that is admitted arrived, and was not consumed in an earlier block.
proof fn lemma_admitted_were_not_consumed(
    seen: Set<u64>,
    arrivals: Seq<Arrival>,
    consumed: Seq<Result<bool, String>>,
)
    requires
        consumed.len() == arrivals.len(),
    ensures
        forall|k: int|
            0 <= k < admitted(seen, arrivals, consumed).len() && number_of(
                (#[trigger] admitted(seen, arrivals, consumed)[k]).0,
            ) is Some ==> exists|i: int|
                0 <= i < arrivals.len() && #[trigger] arrivals[i] == admitted(seen, arrivals, consumed)[k]
                    && consumed[i] == Ok::<bool, String>(false),
    decreases arrivals.len(),
{
    if arrivals.len() > 0 {
        lemma_admitted_were_not_consumed(seen, arrivals.drop_last(), consumed.drop_last());
        let now = admitted(seen, arrivals, consumed);
        let before = admitted(seen, arrivals.drop_last(), consumed.drop_last());
        assert forall|k: int| 0 <= k < now.len() && number_of((#[trigger] now[k]).0) is Some implies exists|
            i: int,
        |
            0 <= i < arrivals.len() && #[trigger] arrivals[i] == now[k] && consumed[i] == Ok::<
                bool,
                String,
            >(false) by {
            if k < before.len() {
                assert(now[k] == before[k]);
                let i = choose|i: int|
                    0 <= i < arrivals.len() - 1 && #[trigger] arrivals.drop_last()[i] == before[k]
                        && consumed.drop_last()[i] == Ok::<bool, String>(false);
                assert(arrivals[i] == now[k]);
            } else {
                assert(arrivals[arrivals.len() - 1] == now[k]);
            }
        }
    }
}

/// Transactions that are no messages are all admitted, in the order in which they arrived.
pub proof fn other_transactions_are_all_admitted(
    seen: Set<u64>,
    arrivals: Seq<Arrival>,
    consumed: Seq<Result<bool, String>>,
)
    ensures
        other_transactions(admitted(seen, arrivals, consumed)) == other_transactions(arrivals),
    decreases arrivals.len(),
{
    if arrivals.len() > 0 {
        other_transactions_are_all_admitted(seen, arrivals.drop_last(), consumed.drop_last());
        let before = admitted(seen, arrivals.drop_last(), consumed.drop_last());
        assert(before.push(arrivals.last()).drop_last() =~= before);
    }
}

/// A message is left out only if it was consumed in an earlier block or admitted before: each one that
/// arrives and was not consumed is on record afterwards.
pub proof fn every_unconsumed_message_is_on_record(
    seen: Set<u64>,
    arrivals: Seq<Arrival>,
    consumed: Seq<Result<bool, String>>,
    i: int,
)
    requires
        consumed.len() == arrivals.len(),
        0 <= i < arrivals.len(),
        number_of(arrivals[i].0) is Some,
        consumed[i] == Ok::<bool, String>(false),
    ensures
        seen_after(seen, arrivals, consumed).contains(number_of(arrivals[i].0)->0),
    decreases arrivals.len(),
{
    if i < arrivals.len() - 1 {
        every_unconsumed_message_is_on_record(seen, arrivals.drop_last(), consumed.drop_last(), i);
    }
}

/// A transaction has the number `number` exactly if it is a message whose nonce is that number, and a
/// bad nonce exactly if it is a message whose nonce is above all numbers.
pub proof fn numbers_are_nonces(tx: Transaction, number: u64)
    ensures
        number_of(tx) == Some(number) <==> (tx matches Transaction::L1Handler { nonce, .. }
            && nonce.0.value() == number),
        has_bad_nonce(tx) <==> (tx matches Transaction::L1Handler { nonce, .. } && nonce.0.value()
            > u64::MAX),
        number_of(tx) is None && !has_bad_nonce(tx) <==> tx is Account,
{
}

/// Whether the arrival cannot be gone through: its nonce is no number, or it could not be looked up
/// whether the message was consumed.
pub open spec fn is_failing(arrival: Arrival, consumed: Result<bool, String>) -> bool {
    arrival.0 matches Transaction::L1Handler { nonce, .. } && (nonce.0.value() > u64::MAX
        || consumed is Err)
}

/// Arrivals are gone through up to the first one that fails, and no further; that one is what is
/// reported.
pub proof fn the_first_failing_arrival_is_reported(
    arrivals: Seq<Arrival>,
    consumed: Seq<Result<bool, String>>,
)
    requires
        consumed.len() == arrivals.len(),
    ensures
        ({
            let n = n_gone_through(arrivals, consumed) as int;
            &&& n <= arrivals.len()
            &&& forall|i: int| 0 <= i < n ==> !is_failing(#[trigger] arrivals[i], consumed[i])
            &&& match admission_failure(arrivals, consumed) {
                None => n == arrivals.len(),
                Some(err) => {
                    &&& n < arrivals.len()
                    &&& is_failing(arrivals[n], consumed[n])
                    &&& err == if has_bad_nonce(arrivals[n].0) {
                        ExecutorError::NonceConversion
                    } else {
                        ExecutorError::CheckNonce(consumed[n]->Err_0)
                    }
                },
            }
        }),
    decreases arrivals.len(),
{
    if arrivals.len() > 0 {
        let before = arrivals.drop_last();
        the_first_failing_arrival_is_reported(before, consumed.drop_last());
        assert(forall|i: int| 0 <= i < before.len() ==> #[trigger] arrivals[i] == before[i]);
    }
}

/// Whether the arrival at `i` is to be executed: it is no message, or the first arrival of a message
/// that was neither seen before nor consumed in an earlier block.
pub open spec fn is_first_of_its_kind(
    seen: Set<u64>,
    arrivals: Seq<Arrival>,
    consumed: Seq<Result<bool, String>>,
    i: int,
) -> bool {
    number_of(arrivals[i].0) matches Some(number) ==> {
        &&& consumed[i] == Ok::<bool, String>(false)
        &&& !seen.contains(number)
        &&& forall|j: int|
            0 <= j < i && number_of((#[trigger] arrivals[j]).0) == Some(number) ==> consumed[j] != Ok::<
                bool,
                String,
            >(false)
    }
}

/// Whether `chosen` are the arrivals at the positions `at`, in the order in which they arrived.
pub open spec fn are_chosen_in_order(chosen: Seq<Arrival>, arrivals: Seq<Arrival>, at: Seq<int>) -> bool {
    &&& at.len() == chosen.len()
    &&& forall|j: int|
        0 <= j < at.len() ==> 0 <= #[trigger] at[j] < arrivals.len() && chosen[j] == arrivals[at[j]]
    &&& forall|j: int, k: int| 0 <= j < k < at.len() ==> #[trigger] at[j] < #[trigger] at[k]
}

/// The arrivals that are admitted are those that are no messages and each message at its first
/// arrival, unless it was seen before or consumed; all of them, and in the order in which they
/// arrived.
pub proof fn the_first_of_each_kind_is_admitted_in_order(
    seen: Set<u64>,
    arrivals: Seq<Arrival>,
    consumed: Seq<Result<bool, String>>,
)
    requires
        consumed.len() == arrivals.len(),
    ensures
        exists|at: Seq<int>|
            #![trigger are_chosen_in_order(admitted(seen, arrivals, consumed), arrivals, at)]
            are_chosen_in_order(admitted(seen, arrivals, consumed), arrivals, at) && forall|i: int|
                0 <= i < arrivals.len() ==> (#[trigger] at.contains(i) <==> is_first_of_its_kind(
                    seen,
                    arrivals,
                    consumed,
                    i,
                )),
    decreases arrivals.len(),
{
    let now = admitted(seen, arrivals, consumed);
    if arrivals.len() == 0 {
        assert(are_chosen_in_order(now, arrivals, Seq::<int>::empty()));
    } else {
        let last = arrivals.len() - 1;
        let before = arrivals.drop_last();
        let answers = consumed.drop_last();
        the_first_of_each_kind_is_admitted_in_order(seen, before, answers);
        let earlier = admitted(seen, before, answers);
        let at = choose|at: Seq<int>|
            #![trigger are_chosen_in_order(earlier, before, at)]
            are_chosen_in_order(earlier, before, at) && forall|i: int|
                0 <= i < before.len() ==> (#[trigger] at.contains(i) <==> is_first_of_its_kind(
                    seen,
                    before,
                    answers,
                    i,
                ));
        assert(forall|i: int| 0 <= i < before.len() ==> #[trigger] arrivals[i] == before[i]);
        assert forall|i: int| 0 <= i < before.len() implies is_first_of_its_kind(
            seen,
            arrivals,
            consumed,
            i,
        ) == #[trigger] is_first_of_its_kind(seen, before, answers, i) by {
            assert(forall|j: int| 0 <= j < i ==> #[trigger] before[j] == arrivals[j]);
        }
        if number_of(arrivals[last].0) is Some {
            lemma_seen_after(seen, before, answers, number_of(arrivals[last].0)->0);
        }
        let admits_last = is_first_of_its_kind(seen, arrivals, consumed, last);
        assert(admits_last == admits(
            arrivals.last().0,
            consumed.last(),
            seen_after(seen, before, answers),
        )) by {
            if let Some(number) = number_of(arrivals[last].0) {
                if !admits_last && consumed[last] == Ok::<bool, String>(false) && !seen.contains(number) {
                    let j = choose|j: int|
                        0 <= j < last && number_of((#[trigger] arrivals[j]).0) == Some(number)
                            && consumed[j] == Ok::<bool, String>(false);
                    assert(number_of(before[j].0) == Some(number));
                }
            }
        }
        let all = if admits_last {
            at.push(last)
        } else {
            at
        };
        assert(are_chosen_in_order(now, arrivals, all));
        assert forall|i: int| 0 <= i < arrivals.len() implies (#[trigger] all.contains(i)
            <==> is_first_of_its_kind(seen, arrivals, consumed, i)) by {
            if at.contains(i) {
                let k = choose|k: int| 0 <= k < at.len() && at[k] == i;
                assert(all[k] == i);
            }
            if i < last {
                assert(is_first_of_its_kind(seen, arrivals, consumed, i) == is_first_of_its_kind(
                    seen,
                    before,
                    answers,
                    i,
                ));
                if all.contains(i) {
                    let k = choose|k: int| 0 <= k < all.len() && all[k] == i;
                    assert(k < at.len());
                    assert(at[k] == i);
                }
            } else if admits_last {
                assert(all[at.len() as int] == last);
            } else if all.contains(last) {
                let k = choose|k: int| 0 <= k < at.len() && at[k] == last;
                assert(at[k] < before.len());
            }
        }
    }
}

/// A message is on record exactly if it was before or arrived unconsumed.
proof fn lemma_seen_after(
    seen: Set<u64>,
    arrivals: Seq<Arrival>,
    consumed: Seq<Result<bool, String>>,
    number: u64,
)
    requires
        consumed.len() == arrivals.len(),
    ensures
        seen_after(seen, arrivals, consumed).contains(number) <==> seen.contains(number) || exists|j: int|
            0 <= j < arrivals.len() && number_of((#[trigger] arrivals[j]).0) == Some(number)
                && consumed[j] == Ok::<bool, String>(false),
    decreases arrivals.len(),
{
    if arrivals.len() > 0 {
        let before = arrivals.drop_last();
        let answers = consumed.drop_last();
        let last = arrivals.len() - 1;
        lemma_seen_after(seen, before, answers, number);
        assert(forall|i: int| 0 <= i < before.len() ==> #[trigger] arrivals[i] == before[i]);
        if seen_after(seen, before, answers).contains(number) && !seen.contains(number) {
            let j = choose|j: int|
                0 <= j < before.len() && number_of((#[trigger] before[j]).0) == Some(number)
                    && answers[j] == Ok::<bool, String>(false);
            assert(number_of(arrivals[j].0) == Some(number));
        }
        if exists|j: int|
            0 <= j < arrivals.len() && number_of((#[trigger] arrivals[j]).0) == Some(number)
                && consumed[j] == Ok::<bool, String>(false) {
            let j = choose|j: int|
                0 <= j < arrivals.len() && number_of((#[trigger] arrivals[j]).0) == Some(number)
                    && consumed[j] == Ok::<bool, String>(false);
            if j < last {
                assert(number_of(before[j].0) == Some(number));
            } else {
                every_unconsumed_message_is_on_record(seen, arrivals, consumed, j);
            }
        }
        if seen_after(seen, arrivals, consumed).contains(number) && !seen_after(
            seen,
            before,
            answers,
        ).contains(number) {
            assert(number_of(arrivals[last].0) == Some(number));
        }
    }
}

} // verus!
