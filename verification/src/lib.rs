//! A time-locked savings ledger.
//!
//! Each address that has joined may open named savings, top them up, which
//! earns a flat interest credit, and withdraw them. Every operation takes the
//! caller, the value attached to the call and the current block time as
//! explicit arguments; none of them reaches outside the ledger. A failed
//! operation leaves the ledger as it was.

pub mod address;
pub mod errors;
pub mod keyed;
pub mod theorems;
pub mod uint;
pub mod user_data;

use crate::address::Address;
use crate::errors::BitsaveErrors;
use crate::keyed::{
    distinct_keys, entries_map, has_key, lemma_entries_map_domain, lemma_entries_map_index,
    lemma_entries_map_len, lemma_entries_map_push, lemma_entries_map_update,
};
use crate::uint::{modulus, wrapping_add, U256};
use crate::user_data::{payout_view, UserData, UserDataView};
use vstd::prelude::*;

verus! {

/// The ledger: the members' records and four running totals.
pub struct Bitsave {
    user_count: U256,
    token_pool_balance: U256,
    accumulated_pool_balance: U256,
    general_fund: U256,
    users: Vec<UserData>,
}

/// The ledger, with its totals as natural numbers and its records as a map
/// from address to record.
pub struct BitsaveView {
    pub user_count: nat,
    pub token_pool_balance: nat,
    pub accumulated_pool_balance: nat,
    pub general_fund: nat,
    pub users_mapping: Map<Address, UserDataView>,
}

impl View for Bitsave {
    type V = BitsaveView;

    closed spec fn view(&self) -> BitsaveView {
        BitsaveView {
            user_count: self.user_count@,
            token_pool_balance: self.token_pool_balance@,
            accumulated_pool_balance: self.accumulated_pool_balance@,
            general_fund: self.general_fund@,
            users_mapping: entries_map(self.records()),
        }
    }
}

/// A member's details or a failure, the details as plain values.
pub open spec fn details_view(r: Result<(String, U256, Address), BitsaveErrors>) -> Result<
    (Seq<char>, nat, Address),
    BitsaveErrors,
> {
    match r {
        Ok((name, id, address)) => Ok((name@, id@, address)),
        Err(e) => Err(e),
    }
}

impl BitsaveView {
    /// The ledger before anyone has joined or paid in.
    pub open spec fn empty() -> BitsaveView {
        BitsaveView {
            user_count: 0,
            token_pool_balance: 0,
            accumulated_pool_balance: 0,
            general_fund: 0,
            users_mapping: Map::empty(),
        }
    }

    /// Whether `who` has joined.
    pub open spec fn is_member(self, who: Address) -> bool {
        self.users_mapping.contains_key(who)
    }

    /// What holds of every ledger: the user count is the number of records;
    /// each record is marked as joined, carries the address it is kept under,
    /// and has an id between one and the user count; no two records share an
    /// id.
    pub open spec fn valid(self) -> bool {
        &&& self.users_mapping.dom().finite()
        &&& self.user_count == self.users_mapping.dom().len()
        &&& forall|a: Address| #[trigger]
            self.users_mapping.contains_key(a) ==> {
                &&& self.users_mapping[a].user_exists
                &&& self.users_mapping[a].user_address == a
                &&& 1 <= self.users_mapping[a].user_id <= self.user_count
            }
        &&& forall|a: Address, b: Address|
            #![trigger self.users_mapping[a], self.users_mapping[b]]
            self.users_mapping.contains_key(a) && self.users_mapping.contains_key(b) && a != b
                ==> self.users_mapping[a].user_id != self.users_mapping[b].user_id
    }

    /// This ledger with `user` as the record of `who`.
    pub open spec fn with_user(self, who: Address, user: UserDataView) -> BitsaveView {
        BitsaveView { users_mapping: self.users_mapping.insert(who, user), ..self }
    }

    /// What `get_user_details` returns.
    pub open spec fn get_user_details(self, caller: Address) -> Result<
        (Seq<char>, nat, Address),
        BitsaveErrors,
    > {
        if self.is_member(caller) {
            let user = self.users_mapping[caller];
            Ok((user.user_name, user.user_id, user.user_address))
        } else {
            Err(BitsaveErrors::UserNotExist)
        }
    }

    /// What `fund` makes of this ledger, and what it returns: the general
    /// fund grows by `value`, wrapping around at two to the power 256.
    pub open spec fn fund(self, value: nat) -> (BitsaveView, nat) {
        let total = (self.general_fund + value) % modulus();
        (BitsaveView { general_fund: total, ..self }, total)
    }

    /// What `join_bitsave` makes of this ledger, and what it returns.
    pub open spec fn join_bitsave(self, caller: Address, user_name: Seq<char>) -> (
        BitsaveView,
        Result<Address, BitsaveErrors>,
    ) {
        if self.is_member(caller) {
            (self, Err(BitsaveErrors::AlreadyJoined(self.users_mapping[caller].user_address)))
        } else {
            let user = UserDataView {
                user_exists: true,
                user_address: caller,
                user_id: self.user_count + 1,
                user_name,
                savings_map: Map::empty(),
            };
            (
                BitsaveView {
                    user_count: self.user_count + 1,
                    users_mapping: self.users_mapping.insert(caller, user),
                    ..self
                },
                Ok(caller),
            )
        }
    }

    /// What `create_saving` makes of this ledger, and what it returns. The
    /// saving is opened for the token of the zero address.
    pub open spec fn create_saving(
        self,
        caller: Address,
        name: Seq<char>,
        maturity_time: nat,
        penalty_perc: u8,
        use_safe_mode: bool,
        value: nat,
        now: nat,
    ) -> (BitsaveView, Result<(), BitsaveErrors>) {
        if !self.is_member(caller) {
            (self, Err(BitsaveErrors::UserNotExist))
        } else {
            let (user, outcome) = self.users_mapping[caller].create_saving_data(
                name,
                value,
                Address::spec_zero(),
                maturity_time,
                penalty_perc,
                use_safe_mode,
                now,
            );
            match outcome {
                Ok(_) => (self.with_user(caller, user), outcome),
                Err(_) => (self, outcome),
            }
        }
    }

    /// What `increment_saving` makes of this ledger, and what it returns. The
    /// top-up is in the token of the zero address.
    pub open spec fn increment_saving(self, caller: Address, name: Seq<char>, value: nat) -> (
        BitsaveView,
        Result<(), BitsaveErrors>,
    ) {
        if !self.is_member(caller) {
            (self, Err(BitsaveErrors::UserNotExist))
        } else {
            let (user, outcome) = self.users_mapping[caller].increment_saving_data(
                name,
                value,
                Address::spec_zero(),
            );
            match outcome {
                Ok(_) => (self.with_user(caller, user), outcome),
                Err(_) => (self, outcome),
            }
        }
    }

    /// What `withdraw_savings` makes of this ledger, and what it returns.
    pub open spec fn withdraw_savings(self, caller: Address, name: Seq<char>, now: nat) -> (
        BitsaveView,
        Result<nat, BitsaveErrors>,
    ) {
        if !self.is_member(caller) {
            (self, Err(BitsaveErrors::UserNotExist))
        } else {
            let (user, outcome) = self.users_mapping[caller].withdraw_saving_data(name, now);
            match outcome {
                Ok(_) => (self.with_user(caller, user), outcome),
                Err(_) => (self, outcome),
            }
        }
    }
}

/// The entries that a sequence of records stands for: each record under the
/// address it carries.
pub open spec fn records_of(users: Seq<UserData>) -> Seq<(Address, UserDataView)> {
    Seq::new(users.len(), |i: int| (users[i]@.user_address, users[i]@))
}

/// Whether the records, in the order in which their owners joined, and the
/// user count make a ledger: the user count is the number of records, no two
/// records have the same address, and each record is marked as joined and
/// has its place in the order as its id.
pub open spec fn restorable(user_count: nat, users: Seq<UserData>) -> bool {
    &&& user_count == users.len()
    &&& distinct_keys(records_of(users))
    &&& forall|i: int|
        0 <= i < users.len() ==> (#[trigger] users[i])@.user_exists && users[i]@.user_id == i + 1
}

impl Bitsave {
    /// The records in the order in which their owners joined.
    spec fn records(self) -> Seq<(Address, UserDataView)> {
        records_of(self.users@)
    }

    /// The records and the user count make a ledger, as [`restorable`] has
    /// it, and each record is well formed.
    pub closed spec fn wf(self) -> bool {
        &&& restorable(self.user_count@, self.users@)
        &&& forall|i: int| 0 <= i < self.users.len() ==> (#[trigger] self.users[i]).wf()
    }

    /// A well-formed ledger is valid.
    pub proof fn lemma_valid(self)
        requires
            self.wf(),
        ensures
            self@.valid(),
    {
        let records = self.records();
        let users = self@.users_mapping;
        lemma_entries_map_len(records);
        assert forall|a: Address| #[trigger] users.contains_key(a) implies {
            &&& users[a].user_exists
            &&& users[a].user_address == a
            &&& 1 <= users[a].user_id <= self@.user_count
        } by {
            lemma_entries_map_domain(records, a);
            let i = choose|i: int| 0 <= i < records.len() && records[i].0 == a;
            lemma_entries_map_index(records, i);
        }
        assert forall|a: Address, b: Address|
            #![trigger users[a], users[b]]
            users.contains_key(a) && users.contains_key(b) && a != b implies users[a].user_id
            != users[b].user_id by {
            lemma_entries_map_domain(records, a);
            lemma_entries_map_domain(records, b);
            let i = choose|i: int| 0 <= i < records.len() && records[i].0 == a;
            let j = choose|j: int| 0 <= j < records.len() && records[j].0 == b;
            lemma_entries_map_index(records, i);
            lemma_entries_map_index(records, j);
        }
    }

    /// What replacing the record in place `i` by one with the same address
    /// and id does to the ledger.
    proof fn lemma_record_replaced(self, after: Bitsave, i: int)
        requires
            self.wf(),
            0 <= i < self.users.len(),
            after.users.len() == self.users.len(),
            forall|j: int| 0 <= j < self.users.len() && j != i ==> after.users[j] == self.users[j],
            after.users[i].wf(),
            after.users[i]@.user_exists,
            after.users[i]@.user_address == self.users[i]@.user_address,
            after.users[i]@.user_id == self.users[i]@.user_id,
            after.user_count == self.user_count,
            after.token_pool_balance == self.token_pool_balance,
            after.accumulated_pool_balance == self.accumulated_pool_balance,
            after.general_fund == self.general_fund,
        ensures
            after.wf(),
            self@.is_member(self.users[i]@.user_address),
            self@.users_mapping[self.users[i]@.user_address] == self.users[i]@,
            after@ == self@.with_user(self.users[i]@.user_address, after.users[i]@),
            after.users[i]@ == self.users[i]@ ==> after@ == self@,
    {
        let records = self.records();
        lemma_entries_map_index(records, i);
        lemma_entries_map_update(records, i, after.users[i]@);
        assert(after.records() =~= records.update(i, (records[i].0, after.users[i]@)));
        if after.users[i]@ == self.users[i]@ {
            assert(after.records() =~= records);
        }

    }

    /// The place of the record of `who`, if `who` has joined.
    fn find_user(&self, who: Address) -> (r: Option<usize>)
        ensures
            match r {
                Some(i) => i < self.users.len() && self.records()[i as int].0 == who,
                None => !has_key(self.records(), who),
            },
    {
        let mut i: usize = 0;
        while i < self.users.len()
            invariant
                i <= self.users.len(),
                forall|j: int| 0 <= j < i ==> self.records()[j].0 != who,
            decreases self.users.len() - i,
        {
            if self.users[i].user_address() == who {
                return Some(i);
            }
            i += 1;
        }
        None
    }

    /// A ledger without members, with all totals at zero.
    pub fn new() -> (r: Bitsave)
        ensures
            r.wf(),
            r@ == BitsaveView::empty(),
    {
        Bitsave {
            user_count: U256::zero(),
            token_pool_balance: U256::zero(),
            accumulated_pool_balance: U256::zero(),
            general_fund: U256::zero(),
            users: Vec::new(),
        }
    }

    /// The ledger with the given totals and records, the records in the order
    /// in which their owners joined; none where they do not make a ledger. A
    /// ledger that is read back from where it was kept is built this way.
    pub fn restore(
        user_count: U256,
        token_pool_balance: U256,
        accumulated_pool_balance: U256,
        general_fund: U256,
        users: Vec<UserData>,
    ) -> (r: Option<Bitsave>)
        requires
            forall|i: int| 0 <= i < users.len() ==> (#[trigger] users[i]).wf(),
        ensures
            r is Some <==> restorable(user_count@, users@),
            r matches Some(ledger) ==> ledger.wf() && ledger@ == (BitsaveView {
                user_count: user_count@,
                token_pool_balance: token_pool_balance@,
                accumulated_pool_balance: accumulated_pool_balance@,
                general_fund: general_fund@,
                users_mapping: entries_map(records_of(users@)),
            }),
    {
        let ghost records = records_of(users@);
        let len = users.len();
        match user_count.as_u64() {
            Some(count) => {
                if count != len as u64 {
                    return None;
                }
            },
            None => {
                return None;
            },
        }
        let mut i: usize = 0;
        while i < users.len()
            invariant
                i <= users.len(),
                records == records_of(users@),
                forall|k: int| 0 <= k < i ==> (#[trigger] users[k])@.user_exists && users[k]@.user_id == k + 1,
                forall|a: int, b: int| 0 <= a < b < i ==> records[a].0 != records[b].0,
            decreases users.len() - i,
        {
            if !users[i].user_exists() {
                return None;
            }
            match users[i].get_user_id().as_u64() {
                Some(id) => {
                    if id != i as u64 + 1 {
                        return None;
                    }
                },
                None => {
                    return None;
                },
            }
            let mut j: usize = 0;
            while j < i
                invariant
                    j <= i < users.len(),
                    records == records_of(users@),
                    forall|a: int| 0 <= a < j ==> records[a].0 != records[i as int].0,
                decreases i - j,
            {
                if users[j].user_address() == users[i].user_address() {
                    assert(records[j as int].0 == records[i as int].0);
                    return None;
                }
                j += 1;
            }
            i += 1;
        }
        Some(
            Bitsave { user_count, token_pool_balance, accumulated_pool_balance, general_fund, users },
        )
    }

    /// The record of `who`, if `who` has joined.
    pub fn user(&self, who: Address) -> (r: Option<&UserData>)
        requires
            self.wf(),
        ensures
            match r {
                Some(record) => self@.is_member(who) && self@.users_mapping[who] == record@
                    && record.wf(),
                None => !self@.is_member(who),
            },
    {
        proof {
            lemma_entries_map_domain(self.records(), who);
        }
        match self.find_user(who) {
            Some(i) => {
                proof {
                    lemma_entries_map_index(self.records(), i as int);
                }
                Some(&self.users[i])
            },
            None => None,
        }
    }

    /// The number of members.
    pub fn get_bitsave_user_count(&self) -> (r: U256)
        ensures
            r@ == self@.user_count,
    {
        self.user_count
    }

    /// The caller's display name, id and address.
    pub fn get_user_details(&self, caller: Address) -> (r: Result<
        (String, U256, Address),
        BitsaveErrors,
    >)
        requires
            self.wf(),
        ensures
            details_view(r) == self@.get_user_details(caller),
    {
        match self.user(caller) {
            Some(user) => Ok((user.user_name().clone(), user.get_user_id(), user.user_address())),
            None => Err(BitsaveErrors::UserNotExist),
        }
    }

    /// The general fund.
    pub fn get_bitsave_balance(&self) -> (r: U256)
        ensures
            r@ == self@.general_fund,
    {
        self.general_fund
    }

    /// The accumulated interest pool.
    pub fn get_accumulated_pool(&self) -> (r: U256)
        ensures
            r@ == self@.accumulated_pool_balance,
    {
        self.accumulated_pool_balance
    }

    /// The token pool.
    pub fn get_tokens_balance(&self) -> (r: U256)
        ensures
            r@ == self@.token_pool_balance,
    {
        self.token_pool_balance
    }

    /// Adds the attached `value` to the general fund and returns the new
    /// total. Any caller may pay in, member or not.
    pub fn fund(&mut self, _caller: Address, value: U256) -> (r: U256)
        requires
            old(self).wf(),
        ensures
            final(self).wf(),
            (final(self)@, r@) == old(self)@.fund(value@),
    {
        let new_balance = wrapping_add(self.general_fund, value);
        self.general_fund = new_balance;
        self.general_fund
    }

    /// Registers the caller under `user_name` and returns the caller's
    /// address. A caller who has joined before is refused.
    pub fn join_bitsave(&mut self, caller: Address, user_name: String) -> (r: Result<
        Address,
        BitsaveErrors,
    >)
        requires
            old(self).wf(),
        ensures
            final(self).wf(),
            (final(self)@, r) == old(self)@.join_bitsave(caller, user_name@),
    {
        proof {
            lemma_entries_map_domain(self.records(), caller);
        }
        match self.find_user(caller) {
            Some(i) => {
                proof {
                    lemma_entries_map_index(self.records(), i as int);
                }
                Err(BitsaveErrors::AlreadyJoined(self.users[i].user_address()))
            },
            None => {
                let new_user_count = wrapping_add(self.user_count, U256::from_u64(1));
                self.user_count = new_user_count;
                let mut fetched_user = UserData::new();
                fetched_user.create_user(caller, new_user_count, user_name);
                let address = fetched_user.user_address();
                self.users.push(fetched_user);
                proof {
                    lemma_entries_map_push(old(self).records(), caller, fetched_user@);
                    assert(self.records() =~= old(self).records().push((caller, fetched_user@)));
                    assert forall|i: int| 0 <= i < self.users.len() implies {
                        &&& (#[trigger] self.users[i]).wf()
                        &&& self.users[i]@.user_exists
                        &&& self.users[i]@.user_id == i + 1
                    } by {
                        if i < old(self).users.len() {
                            assert(self.users[i] == old(self).users[i]);
                        }
                    }
                }
                Ok(address)
            },
        }
    }

    /// Opens a saving of the caller under `name_of_saving`, holding the
    /// attached `value`, at block time `now`.
    pub fn create_saving(
        &mut self,
        caller: Address,
        name_of_saving: String,
        maturity_time: U256,
        penalty_perc: u8,
        use_safe_mode: bool,
        value: U256,
        now: u64,
    ) -> (r: Result<(), BitsaveErrors>)
        requires
            old(self).wf(),
        ensures
            final(self).wf(),
            (final(self)@, r) == old(self)@.create_saving(
                caller,
                name_of_saving@,
                maturity_time@,
                penalty_perc,
                use_safe_mode,
                value@,
                now as nat,
            ),
    {
        proof {
            lemma_entries_map_domain(self.records(), caller);
        }
        let i = match self.find_user(caller) {
            Some(i) => i,
            None => {
                return Err(BitsaveErrors::UserNotExist);
            },
        };
        let amount_of_saving = value;
        let token_id = Address::zero();
        let res = self.users[i].create_saving_data(
            name_of_saving,
            amount_of_saving,
            token_id,
            maturity_time,
            penalty_perc,
            use_safe_mode,
            now,
        );
        proof {
            old(self).lemma_record_replaced(*self, i as int);
        }
        res
    }

    /// Adds the attached `value` to the caller's saving under
    /// `name_of_saving`, and credits the interest on it.
    pub fn increment_saving(&mut self, caller: Address, name_of_saving: String, value: U256) -> (r:
        Result<(), BitsaveErrors>)
        requires
            old(self).wf(),
        ensures
            final(self).wf(),
            (final(self)@, r) == old(self)@.increment_saving(caller, name_of_saving@, value@),
    {
        proof {
            lemma_entries_map_domain(self.records(), caller);
        }
        let i = match self.find_user(caller) {
            Some(i) => i,
            None => {
                return Err(BitsaveErrors::UserNotExist);
            },
        };
        let amount_to_add = value;
        let token_id = Address::zero();
        let res = self.users[i].increment_saving_data(name_of_saving, amount_to_add, token_id);
        proof {
            old(self).lemma_record_replaced(*self, i as int);
        }
        res
    }

    /// Closes the caller's saving under `name_of_saving` at block time `now`
    /// and returns the payout, which is then owed to the caller: see
    /// [`Bitsave::settle_withdrawal`].
    pub fn withdraw_savings(&mut self, caller: Address, name_of_saving: String, now: u64) -> (r:
        Result<U256, BitsaveErrors>)
        requires
            old(self).wf(),
        ensures
            final(self).wf(),
            (final(self)@, payout_view(r)) == old(self)@.withdraw_savings(
                caller,
                name_of_saving@,
                now as nat,
            ),
    {
        proof {
            lemma_entries_map_domain(self.records(), caller);
        }
        let i = match self.find_user(caller) {
            Some(i) => i,
            None => {
                return Err(BitsaveErrors::UserNotExist);
            },
        };
        let res = self.users[i].withdraw_saving_data(name_of_saving, now);
        proof {
            old(self).lemma_record_replaced(*self, i as int);
        }
        res
    }

    /// Ends a withdrawal once the transfer of the payout has been tried.
    /// `checkpoint` is the ledger as it was before the withdrawal. Where the
    /// payout was delivered, the withdrawal stands; where it was not, the
    /// ledger goes back to the checkpoint and the withdrawal fails.
    pub fn settle_withdrawal(&mut self, checkpoint: Bitsave, payout: U256, delivered: bool) -> (r:
        Result<U256, BitsaveErrors>)
        requires
            old(self).wf(),
            checkpoint.wf(),
        ensures
            final(self).wf(),
            delivered ==> r == Ok::<U256, BitsaveErrors>(payout) && *final(self) == *old(self),
            !delivered ==> r == Err::<U256, BitsaveErrors>(BitsaveErrors::TransferFailure)
                && *final(self) == checkpoint,
    {
        if delivered {
            Ok(payout)
        } else {
            *self = checkpoint;
            Err(BitsaveErrors::TransferFailure)
        }
    }
}

impl Clone for Bitsave {
    /// A copy of the ledger, to go back to.
    fn clone(&self) -> (r: Bitsave)
        ensures
            r@ == self@,
            self.wf() ==> r.wf(),
    {
        let mut users: Vec<UserData> = Vec::new();
        let mut i: usize = 0;
        while i < self.users.len()
            invariant
                i <= self.users.len(),
                users.len() == i,
                forall|j: int| 0 <= j < i ==> (#[trigger] users[j])@ == self.users[j]@,
                forall|j: int| 0 <= j < i && self.users[j].wf() ==> (#[trigger] users[j]).wf(),
            decreases self.users.len() - i,
        {
            let record = self.users[i].clone();
            users.push(record);
            i += 1;
        }
        let r = Bitsave {
            user_count: self.user_count,
            token_pool_balance: self.token_pool_balance,
            accumulated_pool_balance: self.accumulated_pool_balance,
            general_fund: self.general_fund,
            users,
        };
        assert(r.records() =~= self.records());
        r
    }
}

} // verus!
