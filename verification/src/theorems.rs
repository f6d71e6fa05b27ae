//! What holds of the ledger across several operations.
//!
//! The operations are taken as the functions on [`BitsaveView`] that the
//! contracts of [`crate::Bitsave`] are stated with. A history of the ledger is
//! a sequence of calls, applied one after the other.

use crate::address::Address;
use crate::errors::BitsaveErrors;
use crate::uint::modulus;
use crate::user_data::{
    balance_from_penalty, lemma_balance_from_penalty, new_interest, SavingDataView,
};
use crate::BitsaveView;
use vstd::prelude::*;

verus! {

/// An operation that may change the ledger, with its arguments.
pub enum Operation {
    Join { user_name: Seq<char> },
    Fund { value: nat },
    CreateSaving {
        name: Seq<char>,
        maturity_time: nat,
        penalty_perc: u8,
        use_safe_mode: bool,
        value: nat,
    },
    IncrementSaving { name: Seq<char>, value: nat },
    WithdrawSavings { name: Seq<char> },
}

/// The terms of a `create_saving`: what it is given besides the caller and
/// the name.
pub struct Terms {
    pub maturity_time: nat,
    pub penalty_perc: u8,
    pub use_safe_mode: bool,
    pub value: nat,
    pub now: nat,
}

impl Terms {
    /// What `create_saving` on these terms makes of the ledger `s`, and what
    /// it returns.
    pub open spec fn create(self, s: BitsaveView, caller: Address, name: Seq<char>) -> (
        BitsaveView,
        Result<(), BitsaveErrors>,
    ) {
        s.create_saving(
            caller,
            name,
            self.maturity_time,
            self.penalty_perc,
            self.use_safe_mode,
            self.value,
            self.now,
        )
    }
}

/// A call: who makes it, at which block time, and what it asks for.
pub struct Call {
    pub caller: Address,
    pub now: nat,
    pub operation: Operation,
}

impl Call {
    /// The ledger after this call.
    pub open spec fn apply(self, s: BitsaveView) -> BitsaveView {
        match self.operation {
            Operation::Join { user_name } => s.join_bitsave(self.caller, user_name).0,
            Operation::Fund { value } => s.fund(value).0,
            Operation::CreateSaving { name, maturity_time, penalty_perc, use_safe_mode, value } => {
                s.create_saving(
                    self.caller,
                    name,
                    maturity_time,
                    penalty_perc,
                    use_safe_mode,
                    value,
                    self.now,
                ).0
            },
            Operation::IncrementSaving { name, value } => {
                s.increment_saving(self.caller, name, value).0
            },
            Operation::WithdrawSavings { name } => s.withdraw_savings(self.caller, name, self.now).0,
        }
    }

    /// Whether this call is a join that succeeds on the ledger `s`.
    pub open spec fn joins(self, s: BitsaveView) -> bool {
        self.operation is Join && !s.is_member(self.caller)
    }
}

/// The ledger after the calls, made in their order on the ledger `s`.
pub open spec fn run(s: BitsaveView, calls: Seq<Call>) -> BitsaveView
    decreases calls.len(),
{
    if calls.len() == 0 {
        s
    } else {
        calls.last().apply(run(s, calls.drop_last()))
    }
}

/// How many of the calls, made in their order on the ledger `s`, are joins
/// that succeed.
pub open spec fn successful_joins(s: BitsaveView, calls: Seq<Call>) -> nat
    decreases calls.len(),
{
    if calls.len() == 0 {
        0
    } else {
        let before = successful_joins(s, calls.drop_last());
        if calls.last().joins(run(s, calls.drop_last())) {
            before + 1
        } else {
            before
        }
    }
}

/// The empty ledger is valid.
pub proof fn theorem_empty_is_valid()
    ensures
        BitsaveView::empty().valid(),
{
    assert(BitsaveView::empty().users_mapping.dom() =~= Set::empty());
}

/// Every call keeps a valid ledger valid.
pub proof fn theorem_call_keeps_valid(s: BitsaveView, call: Call)
    requires
        s.valid(),
    ensures
        call.apply(s).valid(),
{
    let after = call.apply(s);
    if call.joins(s) {
        assert(after.users_mapping.dom() =~= s.users_mapping.dom().insert(call.caller));
    } else {
        assert(after.users_mapping.dom() =~= s.users_mapping.dom());
    }
}

/// A call changes the user count only where it is a join that succeeds, and
/// then by one. It never changes the token pool or the accumulated pool, and
/// the general fund only where it is a funding.
pub proof fn theorem_call_totals(s: BitsaveView, call: Call)
    ensures
        call.apply(s).user_count == s.user_count + (if call.joins(s) {
            1nat
        } else {
            0nat
        }),
        call.apply(s).token_pool_balance == s.token_pool_balance,
        call.apply(s).accumulated_pool_balance == s.accumulated_pool_balance,
        !(call.operation is Fund) ==> call.apply(s).general_fund == s.general_fund,
{
}

/// A call leaves every member a member, with the same id, address and name.
/// It removes no saving, and touches no savings but the caller's.
pub proof fn theorem_call_keeps_members(s: BitsaveView, call: Call, who: Address)
    requires
        s.is_member(who),
    ensures
        call.apply(s).is_member(who),
        call.apply(s).users_mapping[who].user_exists == s.users_mapping[who].user_exists,
        call.apply(s).users_mapping[who].user_id == s.users_mapping[who].user_id,
        call.apply(s).users_mapping[who].user_address == s.users_mapping[who].user_address,
        call.apply(s).users_mapping[who].user_name == s.users_mapping[who].user_name,
        forall|name: Seq<char>| #[trigger]
            s.users_mapping[who].savings_map.contains_key(name) ==> call.apply(
                s,
            ).users_mapping[who].savings_map.contains_key(name),
        who != call.caller ==> call.apply(s).users_mapping[who] == s.users_mapping[who],
{
}

/// Every history keeps a valid ledger valid.
pub proof fn theorem_run_keeps_valid(s: BitsaveView, calls: Seq<Call>)
    requires
        s.valid(),
    ensures
        run(s, calls).valid(),
    decreases calls.len(),
{
    if calls.len() > 0 {
        theorem_run_keeps_valid(s, calls.drop_last());
        theorem_call_keeps_valid(run(s, calls.drop_last()), calls.last());
    }
}

/// Membership is for good: through every history a member stays a member,
/// with the same id, address and name, and keeps an entry for every name a
/// saving was ever created under.
pub proof fn theorem_run_keeps_members(s: BitsaveView, calls: Seq<Call>, who: Address)
    requires
        s.is_member(who),
    ensures
        run(s, calls).is_member(who),
        run(s, calls).users_mapping[who].user_exists == s.users_mapping[who].user_exists,
        run(s, calls).users_mapping[who].user_id == s.users_mapping[who].user_id,
        run(s, calls).users_mapping[who].user_address == s.users_mapping[who].user_address,
        run(s, calls).users_mapping[who].user_name == s.users_mapping[who].user_name,
        forall|name: Seq<char>| #[trigger]
            s.users_mapping[who].savings_map.contains_key(name) ==> run(
                s,
                calls,
            ).users_mapping[who].savings_map.contains_key(name),
    decreases calls.len(),
{
    if calls.len() > 0 {
        theorem_run_keeps_members(s, calls.drop_last(), who);
        theorem_call_keeps_members(run(s, calls.drop_last()), calls.last(), who);
    }
}

/// A join succeeds at most once for an address: after one join by `who`,
/// whatever it returned and whatever calls were made since, another join by
/// `who` fails with `AlreadyJoined` and changes nothing.
pub proof fn theorem_join_succeeds_once(
    s: BitsaveView,
    who: Address,
    first_name: Seq<char>,
    calls: Seq<Call>,
    second_name: Seq<char>,
)
    requires
        s.valid(),
    ensures
        ({
            let later = run(s.join_bitsave(who, first_name).0, calls);
            later.join_bitsave(who, second_name) == (
                later,
                Err::<Address, BitsaveErrors>(BitsaveErrors::AlreadyJoined(who)),
            )
        }),
{
    let joined = s.join_bitsave(who, first_name).0;
    let first = Call { caller: who, now: 0, operation: Operation::Join { user_name: first_name } };
    assert(first.apply(s) == joined);
    theorem_call_keeps_valid(s, first);
    theorem_run_keeps_members(joined, calls, who);
}

/// The user count counts the joins that succeeded: after a history it has
/// grown by their number.
pub proof fn theorem_user_count_counts_joins(s: BitsaveView, calls: Seq<Call>)
    ensures
        run(s, calls).user_count == s.user_count + successful_joins(s, calls),
    decreases calls.len(),
{
    if calls.len() > 0 {
        theorem_user_count_counts_joins(s, calls.drop_last());
        theorem_call_totals(run(s, calls.drop_last()), calls.last());
    }
}

/// Ids follow the order of joining. Where call number `k` of a history of
/// the empty ledger is a join that succeeds, its caller has, after the whole
/// history, the id one more than the number of joins that succeeded before
/// it.
pub proof fn theorem_ids_follow_join_order(calls: Seq<Call>, k: int)
    requires
        0 <= k < calls.len(),
        calls[k].joins(run(BitsaveView::empty(), calls.take(k))),
    ensures
        run(BitsaveView::empty(), calls).is_member(calls[k].caller),
        run(BitsaveView::empty(), calls).users_mapping[calls[k].caller].user_id
            == successful_joins(BitsaveView::empty(), calls.take(k)) + 1,
    decreases calls.len(),
{
    let empty = BitsaveView::empty();
    let front = calls.drop_last();
    if k == calls.len() - 1 {
        assert(calls.take(k) =~= front);
        theorem_user_count_counts_joins(empty, front);
    } else {
        assert(front.take(k) =~= calls.take(k));
        theorem_ids_follow_join_order(front, k);
        theorem_call_keeps_members(run(empty, front), calls.last(), calls[k].caller);
    }
}

/// Creating a saving twice under one name fails the second time: whatever
/// the first call of a member returned, a second one for the same name, made
/// right after it on whatever terms, fails with `SavingAlreadyExists` and
/// changes nothing.
pub proof fn theorem_second_create_fails(
    s: BitsaveView,
    caller: Address,
    name: Seq<char>,
    first: Terms,
    second: Terms,
)
    requires
        s.is_member(caller),
    ensures
        ({
            let after = first.create(s, caller, name).0;
            second.create(after, caller, name) == (
                after,
                Err::<(), BitsaveErrors>(BitsaveErrors::SavingAlreadyExists),
            )
        }),
{
}

/// A top-up needs an active saving: for a member without an active saving of
/// that name, be it that the name was never used or that the saving was
/// withdrawn, `increment_saving` fails with `SavingNotFound` and changes
/// nothing.
pub proof fn theorem_increment_needs_active_saving(
    s: BitsaveView,
    caller: Address,
    name: Seq<char>,
    value: nat,
)
    requires
        s.is_member(caller),
        !s.users_mapping[caller].has_active_saving(name),
    ensures
        s.increment_saving(caller, name, value) == (
            s,
            Err::<(), BitsaveErrors>(BitsaveErrors::SavingNotFound),
        ),
{
}

/// A top-up that succeeds adds `value` to the amount and a hundredth of
/// `value`, rounded down, to the interest, each reduced modulo two to the
/// power 256; where the sums stay below that bound, the amount grows by
/// exactly `value` and the interest by exactly `value / 100`. Nothing else
/// of the saving changes.
pub proof fn theorem_increment_accrues(s: BitsaveView, caller: Address, name: Seq<char>, value: nat)
    requires
        s.increment_saving(caller, name, value).1 is Ok,
    ensures
        ({
            let before = s.users_mapping[caller].savings_map[name];
            let after = s.increment_saving(caller, name, value).0.users_mapping[caller].savings_map[name];
            &&& after.amount == (before.amount + value) % modulus()
            &&& after.interest_accumulated == (before.interest_accumulated + new_interest(value))
                % modulus()
            &&& new_interest(value) == value / 100
            &&& before.amount + value < modulus() ==> after.amount == before.amount + value
            &&& before.interest_accumulated + value / 100 < modulus() ==> after.interest_accumulated
                == before.interest_accumulated + value / 100
            &&& after == (SavingDataView {
                amount: after.amount,
                interest_accumulated: after.interest_accumulated,
                ..before
            })
        }),
{
}

/// A withdrawal that succeeds leaves the saving inert: it is no longer valid,
/// its amount, interest and penalty are zero, and a top-up made right after
/// fails with `SavingNotFound`.
pub proof fn theorem_withdrawal_ends_saving(
    s: BitsaveView,
    caller: Address,
    name: Seq<char>,
    now: nat,
    value: nat,
)
    requires
        s.withdraw_savings(caller, name, now).1 is Ok,
    ensures
        ({
            let after = s.withdraw_savings(caller, name, now).0;
            let saving = after.users_mapping[caller].savings_map[name];
            &&& !saving.is_valid
            &&& saving.amount == 0
            &&& saving.interest_accumulated == 0
            &&& saving.penalty_perc == 0
            &&& after.increment_saving(caller, name, value) == (
                after,
                Err::<(), BitsaveErrors>(BitsaveErrors::SavingNotFound),
            )
        }),
{
}

/// The penalty in plain arithmetic: for a 256-bit amount, where the product
/// of the amount and the percentage stays below two to the power 256 and the
/// percentage is at most a hundred, what is left is
/// `amount - amount * penalty_perc / 100`.
pub proof fn theorem_penalty_arithmetic(amount: nat, penalty_perc: u8)
    requires
        amount < modulus(),
        amount * penalty_perc < modulus(),
        penalty_perc <= 100,
    ensures
        balance_from_penalty(amount, penalty_perc) == amount - amount * penalty_perc / 100,
        balance_from_penalty(amount, penalty_perc) <= amount,
{
    lemma_balance_from_penalty(amount, penalty_perc);
}

/// What a withdrawal pays out: where the maturity time of the saving lies
/// before the block time, the amount less the penalty; otherwise the whole
/// amount.
pub proof fn theorem_withdrawal_payout(s: BitsaveView, caller: Address, name: Seq<char>, now: nat)
    requires
        s.withdraw_savings(caller, name, now).1 is Ok,
    ensures
        ({
            let saving = s.users_mapping[caller].savings_map[name];
            let payout = s.withdraw_savings(caller, name, now).1->Ok_0;
            &&& saving.maturity_time < now ==> payout == balance_from_penalty(
                saving.amount,
                saving.penalty_perc,
            )
            &&& saving.maturity_time >= now ==> payout == saving.amount
        }),
{
}

/// A call of someone who has not joined, other than a join or a funding,
/// fails with `UserNotExist` and changes nothing: no saving is created.
pub proof fn theorem_strangers_are_refused(
    s: BitsaveView,
    caller: Address,
    name: Seq<char>,
    terms: Terms,
)
    requires
        !s.is_member(caller),
    ensures
        s.get_user_details(caller) == Err::<(Seq<char>, nat, Address), BitsaveErrors>(
            BitsaveErrors::UserNotExist,
        ),
        terms.create(s, caller, name) == (
            s,
            Err::<(), BitsaveErrors>(BitsaveErrors::UserNotExist),
        ),
        s.increment_saving(caller, name, terms.value) == (
            s,
            Err::<(), BitsaveErrors>(BitsaveErrors::UserNotExist),
        ),
        s.withdraw_savings(caller, name, terms.now) == (
            s,
            Err::<nat, BitsaveErrors>(BitsaveErrors::UserNotExist),
        ),
{
}

} // verus!
