//! A member's record and the savings it holds.

use crate::address::Address;
use crate::errors::BitsaveErrors;
use crate::keyed::{
    distinct_keys, entries_map, has_key, lemma_entries_map_domain, lemma_entries_map_index,
    lemma_entries_map_push, lemma_entries_map_update,
};
use crate::uint::{div, less_than, modulus, wrapping_add, wrapping_mul, wrapping_sub, U256};
use vstd::prelude::*;

verus! {

/// One named, time-locked deposit.
#[derive(Clone, Copy, Debug, PartialEq, Eq)]
pub struct SavingData {
    /// Set when the saving is created, cleared when it is withdrawn.
    pub is_valid: bool,
    /// The deposit: what was attached at creation plus every top-up.
    pub amount: U256,
    /// The time after which the saving counts as matured.
    pub maturity_time: U256,
    /// The time of creation.
    pub start_time: U256,
    /// The token that the saving holds.
    pub token_id: Address,
    /// Chosen by the owner at creation; stored only.
    pub is_safe_mode: bool,
    /// The interest credited so far.
    pub interest_accumulated: U256,
    /// The share of the deposit, in percent, that the penalty takes.
    pub penalty_perc: u8,
}

/// A saving, with its amounts as natural numbers.
pub struct SavingDataView {
    pub is_valid: bool,
    pub amount: nat,
    pub maturity_time: nat,
    pub start_time: nat,
    pub token_id: Address,
    pub is_safe_mode: bool,
    pub interest_accumulated: nat,
    pub penalty_perc: u8,
}

impl View for SavingData {
    type V = SavingDataView;

    open spec fn view(&self) -> SavingDataView {
        SavingDataView {
            is_valid: self.is_valid,
            amount: self.amount@,
            maturity_time: self.maturity_time@,
            start_time: self.start_time@,
            token_id: self.token_id,
            is_safe_mode: self.is_safe_mode,
            interest_accumulated: self.interest_accumulated@,
            penalty_perc: self.penalty_perc,
        }
    }
}

/// The interest credited for a top-up of `amount`: one percent, rounded down.
pub open spec fn new_interest(amount: nat) -> nat {
    amount / 100
}

/// What is left of `amount` once the penalty of `penalty_perc` percent is taken.
/// The product and the difference are those of 256-bit integers: each wraps
/// around at two to the power 256.
pub open spec fn balance_from_penalty(amount: nat, penalty_perc: u8) -> nat {
    let perc_value = ((amount * (penalty_perc as nat)) % modulus()) / 100;
    ((amount - perc_value) % (modulus() as int)) as nat
}

/// The penalty in plain arithmetic: for an amount below two to the power
/// 256, where the percentage is at most a hundred and its product with the
/// amount stays below two to the power 256, nothing wraps around, and what is
/// left is `amount - amount * penalty_perc / 100`.
pub proof fn lemma_balance_from_penalty(amount: nat, penalty_perc: u8)
    requires
        amount < modulus(),
    ensures
        penalty_perc <= 100 && amount * penalty_perc < modulus() ==> balance_from_penalty(
            amount,
            penalty_perc,
        ) == amount - amount * penalty_perc / 100 && balance_from_penalty(amount, penalty_perc)
            <= amount,
{
    if penalty_perc <= 100 {
        let product = amount * (penalty_perc as nat);
        assert(product <= amount * 100) by (nonlinear_arith)
            requires
                product == amount * (penalty_perc as nat),
                penalty_perc <= 100,
        ;
    }
}

impl SavingDataView {
    /// The saving that `create_saving_data` opens.
    pub open spec fn opened(
        amount: nat,
        token_id: Address,
        maturity_time: nat,
        penalty_perc: u8,
        use_safe_mode: bool,
        now: nat,
    ) -> SavingDataView {
        SavingDataView {
            is_valid: true,
            amount,
            maturity_time,
            start_time: now,
            token_id,
            is_safe_mode: use_safe_mode,
            interest_accumulated: 0,
            penalty_perc,
        }
    }

    /// This saving after a top-up of `added`. Both sums wrap around at two to
    /// the power 256.
    pub open spec fn incremented(self, added: nat) -> SavingDataView {
        SavingDataView {
            amount: (self.amount + added) % modulus(),
            interest_accumulated: (self.interest_accumulated + new_interest(added)) % modulus(),
            ..self
        }
    }

    /// What a withdrawal at time `now` pays out: the deposit less the penalty
    /// where the maturity time lies before `now`, the whole deposit otherwise.
    /// Mind the direction: the penalty is taken once the maturity time has
    /// passed, not before it.
    pub open spec fn payout(self, now: nat) -> nat {
        if self.maturity_time < now {
            balance_from_penalty(self.amount, self.penalty_perc)
        } else {
            self.amount
        }
    }

    /// This saving once withdrawn. The times, the token and the safe-mode
    /// flag keep their last values.
    pub open spec fn withdrawn(self) -> SavingDataView {
        SavingDataView {
            is_valid: false,
            amount: 0,
            interest_accumulated: 0,
            penalty_perc: 0,
            ..self
        }
    }
}

/// A saving under its name.
struct Saving {
    name: String,
    data: SavingData,
}

/// The record of one member.
pub struct UserData {
    user_exists: bool,
    user_address: Address,
    user_id: U256,
    user_name: String,
    savings: Vec<Saving>,
}

/// A member's record, with its savings as a map from name to saving.
pub struct UserDataView {
    pub user_exists: bool,
    pub user_address: Address,
    pub user_id: nat,
    pub user_name: Seq<char>,
    pub savings_map: Map<Seq<char>, SavingDataView>,
}

impl View for UserData {
    type V = UserDataView;

    closed spec fn view(&self) -> UserDataView {
        UserDataView {
            user_exists: self.user_exists,
            user_address: self.user_address,
            user_id: self.user_id@,
            user_name: self.user_name@,
            savings_map: entries_map(self.entries()),
        }
    }
}

/// A payout or a failure, the payout as a natural number.
pub open spec fn payout_view(r: Result<U256, BitsaveErrors>) -> Result<nat, BitsaveErrors> {
    match r {
        Ok(amount) => Ok(amount@),
        Err(e) => Err(e),
    }
}

impl UserDataView {
    /// Whether the member has a saving of that name that was created and not
    /// withdrawn since.
    pub open spec fn has_active_saving(self, name: Seq<char>) -> bool {
        self.savings_map.contains_key(name) && self.savings_map[name].is_valid
    }

    /// This record with `saving` under `name`.
    pub open spec fn with_saving(self, name: Seq<char>, saving: SavingDataView) -> UserDataView {
        UserDataView { savings_map: self.savings_map.insert(name, saving), ..self }
    }

    /// What `create_user` makes of this record.
    pub open spec fn create_user(
        self,
        address: Address,
        user_id: nat,
        user_name: Seq<char>,
    ) -> UserDataView {
        UserDataView { user_exists: true, user_address: address, user_id, user_name, ..self }
    }

    /// What `create_saving_data` makes of this record, and what it returns.
    /// It fails where an active saving has the name; a withdrawn one is
    /// replaced.
    pub open spec fn create_saving_data(
        self,
        name: Seq<char>,
        amount: nat,
        token_id: Address,
        maturity_time: nat,
        penalty_perc: u8,
        use_safe_mode: bool,
        now: nat,
    ) -> (UserDataView, Result<(), BitsaveErrors>) {
        if self.has_active_saving(name) {
            (self, Err(BitsaveErrors::SavingAlreadyExists))
        } else {
            (
                self.with_saving(
                    name,
                    SavingDataView::opened(
                        amount,
                        token_id,
                        maturity_time,
                        penalty_perc,
                        use_safe_mode,
                        now,
                    ),
                ),
                Ok(()),
            )
        }
    }

    /// What `increment_saving_data` makes of this record, and what it returns.
    pub open spec fn increment_saving_data(
        self,
        name: Seq<char>,
        new_amount: nat,
        token_id: Address,
    ) -> (UserDataView, Result<(), BitsaveErrors>) {
        if !self.has_active_saving(name) {
            (self, Err(BitsaveErrors::SavingNotFound))
        } else if self.savings_map[name].token_id != token_id {
            (self, Err(BitsaveErrors::TokenMismatch))
        } else {
            (self.with_saving(name, self.savings_map[name].incremented(new_amount)), Ok(()))
        }
    }

    /// What `withdraw_saving_data` makes of this record, and what it returns.
    pub open spec fn withdraw_saving_data(self, name: Seq<char>, now: nat) -> (
        UserDataView,
        Result<nat, BitsaveErrors>,
    ) {
        if !self.has_active_saving(name) {
            (self, Err(BitsaveErrors::SavingNotFound))
        } else {
            (
                self.with_saving(name, self.savings_map[name].withdrawn()),
                Ok(self.savings_map[name].payout(now)),
            )
        }
    }
}

impl UserData {
    /// The savings in the order in which their names were first used.
    spec fn entries(self) -> Seq<(Seq<char>, SavingDataView)> {
        Seq::new(self.savings.len() as nat, |i: int| (self.savings[i].name@, self.savings[i].data@))
    }

    /// No two savings of the record have the same name.
    pub closed spec fn wf(self) -> bool {
        distinct_keys(self.entries())
    }

    /// The record of an address that has not joined: nothing set, no savings.
    pub fn new() -> (r: UserData)
        ensures
            r.wf(),
            r@ == (UserDataView {
                user_exists: false,
                user_address: Address::spec_zero(),
                user_id: 0,
                user_name: Seq::<char>::empty(),
                savings_map: Map::<Seq<char>, SavingDataView>::empty(),
            }),
    {
        UserData {
            user_exists: false,
            user_address: Address::zero(),
            user_id: U256::zero(),
            user_name: String::new(),
            savings: Vec::new(),
        }
    }

    /// Whether the owner has joined.
    pub fn user_exists(&self) -> (r: bool)
        ensures
            r == self@.user_exists,
    {
        self.user_exists
    }

    /// The owner's address.
    pub fn user_address(&self) -> (r: Address)
        ensures
            r == self@.user_address,
    {
        self.user_address
    }

    /// The owner's display name.
    pub fn user_name(&self) -> (r: &String)
        ensures
            r@ == self@.user_name,
    {
        &self.user_name
    }

    /// The owner's id.
    pub fn get_user_id(&self) -> (r: U256)
        ensures
            r@ == self@.user_id,
    {
        self.user_id
    }

    /// The saving under `name`, if the name was ever used.
    pub fn saving(&self, name: &String) -> (r: Option<SavingData>)
        requires
            self.wf(),
        ensures
            match r {
                Some(data) => self@.savings_map.contains_key(name@) && self@.savings_map[name@]
                    == data@,
                None => !self@.savings_map.contains_key(name@),
            },
    {
        proof {
            lemma_entries_map_domain(self.entries(), name@);
        }
        match self.find_saving(name) {
            Some(i) => {
                proof {
                    lemma_entries_map_index(self.entries(), i as int);
                }
                Some(self.savings[i].data)
            },
            None => None,
        }
    }

    /// The place of the saving under `name`, if the name was ever used.
    fn find_saving(&self, name: &String) -> (r: Option<usize>)
        ensures
            match r {
                Some(i) => i < self.savings.len() && self.entries()[i as int].0 == name@,
                None => !has_key(self.entries(), name@),
            },
    {
        let mut i: usize = 0;
        while i < self.savings.len()
            invariant
                i <= self.savings.len(),
                forall|j: int| 0 <= j < i ==> self.entries()[j].0 != name@,
            decreases self.savings.len() - i,
        {
            if self.savings[i].name == *name {
                return Some(i);
            }
            i += 1;
        }
        None
    }

    /// Puts `data` under `name`, in place of what was there. A record that
    /// is read back from where it was kept gets its savings this way.
    pub fn put_saving(&mut self, name: String, data: SavingData)
        requires
            old(self).wf(),
        ensures
            final(self).wf(),
            final(self)@ == old(self)@.with_saving(name@, data@),
    {
        match self.find_saving(&name) {
            Some(i) => {
                self.savings[i].data = data;
                proof {
                    lemma_entries_map_update(old(self).entries(), i as int, data@);
                    assert(self.entries() =~= old(self).entries().update(i as int, (name@, data@)));
                }
            },
            None => {
                self.savings.push(Saving { name, data });
                proof {
                    lemma_entries_map_push(old(self).entries(), name@, data@);
                    assert(self.entries() =~= old(self).entries().push((name@, data@)));
                }
            },
        }
    }

    /// The interest credited for a top-up of `amount`: a hundredth of it,
    /// rounded down, whatever the record holds.
    pub fn calculate_new_interest(&self, amount: U256) -> (r: U256)
        ensures
            r@ == new_interest(amount@),
            r@ == amount@ / 100,
            r@ * 100 <= amount@ < (r@ + 1) * 100,
    {
        div(wrapping_mul(amount, U256::from_u64(1)), U256::from_u64(100))
    }

    /// Marks the record as joined under the given address, id and name.
    /// Returns the joined flag, which is then set.
    pub fn create_user(&mut self, address: Address, user_id: U256, user_name: String) -> (r: bool)
        requires
            old(self).wf(),
        ensures
            final(self).wf(),
            final(self)@ == old(self)@.create_user(address, user_id@, user_name@),
            r,
    {
        self.user_address = address;
        self.user_exists = true;
        self.user_id = user_id;
        self.user_name = user_name;
        self.user_exists
    }

    /// What is left of `amount` once the penalty of `penalty_perc` percent is
    /// taken. Where the percentage is at most a hundred and its product with
    /// the amount stays below two to the power 256, that is
    /// `amount - amount * penalty_perc / 100`; otherwise the product or the
    /// difference wraps around.
    pub fn calculate_balance_from_penalty(amount: U256, penalty_perc: u8) -> (r: U256)
        ensures
            r@ == balance_from_penalty(amount@, penalty_perc),
            penalty_perc <= 100 && amount@ * penalty_perc < modulus() ==> r@ == amount@ - amount@
                * penalty_perc / 100 && r@ <= amount@,
    {
        proof {
            lemma_balance_from_penalty(amount@, penalty_perc);
        }
        let perc_value = div(
            wrapping_mul(amount, U256::from_u64(penalty_perc as u64)),
            U256::from_u64(100),
        );
        wrapping_sub(amount, perc_value)
    }

    /// Opens a saving under `name_of_saving` at time `now`, unless an active
    /// one has that name.
    pub fn create_saving_data(
        &mut self,
        name_of_saving: String,
        amount_of_saving: U256,
        token_id: Address,
        maturity_time: U256,
        penalty_perc: u8,
        use_safe_mode: bool,
        now: u64,
    ) -> (r: Result<(), BitsaveErrors>)
        requires
            old(self).wf(),
        ensures
            final(self).wf(),
            (final(self)@, r) == old(self)@.create_saving_data(
                name_of_saving@,
                amount_of_saving@,
                token_id,
                maturity_time@,
                penalty_perc,
                use_safe_mode,
                now as nat,
            ),
    {
        let fetched_saving = self.saving(&name_of_saving);
        if let Some(existing) = fetched_saving {
            if existing.is_valid {
                return Err(BitsaveErrors::SavingAlreadyExists);
            }
        }
        let new_saving = SavingData {
            is_valid: true,
            amount: amount_of_saving,
            maturity_time,
            start_time: U256::from_u64(now),
            token_id,
            is_safe_mode: use_safe_mode,
            interest_accumulated: U256::from_u64(0),
            penalty_perc,
        };
        self.put_saving(name_of_saving, new_saving);
        Ok(())
    }

    /// Adds `new_amount` to the active saving under `name_of_saving`, and
    /// credits the interest on it.
    pub fn increment_saving_data(
        &mut self,
        name_of_saving: String,
        new_amount: U256,
        token_id: Address,
    ) -> (r: Result<(), BitsaveErrors>)
        requires
            old(self).wf(),
        ensures
            final(self).wf(),
            (final(self)@, r) == old(self)@.increment_saving_data(
                name_of_saving@,
                new_amount@,
                token_id,
            ),
    {
        let saving_data = match self.saving(&name_of_saving) {
            Some(data) => data,
            None => {
                return Err(BitsaveErrors::SavingNotFound);
            },
        };
        if !saving_data.is_valid {
            return Err(BitsaveErrors::SavingNotFound);
        }
        if saving_data.token_id != token_id {
            return Err(BitsaveErrors::TokenMismatch);
        }
        let old_interest = saving_data.interest_accumulated;
        let old_amount = saving_data.amount;
        let new_interest = self.calculate_new_interest(new_amount);
        let updated = SavingData {
            interest_accumulated: wrapping_add(old_interest, new_interest),
            amount: wrapping_add(old_amount, new_amount),
            ..saving_data
        };
        self.put_saving(name_of_saving, updated);
        Ok(())
    }

    /// Closes the active saving under `name_of_saving` at time `now` and
    /// returns what it pays out.
    pub fn withdraw_saving_data(&mut self, name_of_saving: String, now: u64) -> (r: Result<
        U256,
        BitsaveErrors,
    >)
        requires
            old(self).wf(),
        ensures
            final(self).wf(),
            (final(self)@, payout_view(r)) == old(self)@.withdraw_saving_data(
                name_of_saving@,
                now as nat,
            ),
    {
        let saving_data = match self.saving(&name_of_saving) {
            Some(data) => data,
            None => {
                return Err(BitsaveErrors::SavingNotFound);
            },
        };
        if !saving_data.is_valid {
            return Err(BitsaveErrors::SavingNotFound);
        }
        let saving_amount = saving_data.amount;
        let withdraw_amount = if less_than(saving_data.maturity_time, U256::from_u64(now)) {
            Self::calculate_balance_from_penalty(saving_amount, saving_data.penalty_perc)
        } else {
            saving_amount
        };
        let cleared = SavingData {
            is_valid: false,
            amount: U256::from_u64(0),
            interest_accumulated: U256::from_u64(0),
            penalty_perc: 0,
            ..saving_data
        };
        self.put_saving(name_of_saving, cleared);
        Ok(withdraw_amount)
    }
}

impl Clone for UserData {
    /// A copy of the record.
    fn clone(&self) -> (r: UserData)
        ensures
            r@ == self@,
            self.wf() ==> r.wf(),
    {
        let mut savings: Vec<Saving> = Vec::new();
        let mut i: usize = 0;
        while i < self.savings.len()
            invariant
                i <= self.savings.len(),
                savings.len() == i,
                forall|j: int|
                    0 <= j < i ==> savings[j].name@ == self.savings[j].name@ && savings[j].data
                        == self.savings[j].data,
            decreases self.savings.len() - i,
        {
            savings.push(Saving { name: self.savings[i].name.clone(), data: self.savings[i].data });
            i += 1;
        }
        let r = UserData {
            user_exists: self.user_exists,
            user_address: self.user_address,
            user_id: self.user_id,
            user_name: self.user_name.clone(),
            savings,
        };
        assert(r.entries() =~= self.entries());
        r
    }
}

} // verus!
