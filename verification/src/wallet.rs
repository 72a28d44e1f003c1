#![verifier::loop_isolation(false)]

use vstd::prelude::*;

use crate::address::Address;
use crate::errors::WalletError;

verus! {

/// Most owners a wallet may ever have.
pub const MAX_OWNER_COUNT: usize = 50;

/// A proposed outbound call: destination, value, payload, and whether it
/// has already run.
struct Transaction {
    destination: Address,
    value: u128,
    data: Vec<u8>,
    executed: bool,
    pending_call: bool,
}

/// The mathematical image of one stored transaction.
#[verifier::ext_equal]
pub struct TransactionModel {
    pub destination: Address,
    pub value: u128,
    pub data: Seq<u8>,
    /// Whether the transaction has run: its outbound call succeeded.
    pub executed: bool,
    /// Whether an outbound call was dispatched for it — the quorum was
    /// met at that moment — and its outcome has not been settled yet.
    pub pending_call: bool,
}

impl Transaction {
    spec fn model(self) -> TransactionModel {
        TransactionModel {
            destination: self.destination,
            value: self.value,
            data: self.data@,
            executed: self.executed,
            pending_call: self.pending_call,
        }
    }
}

/// The mathematical image of a whole wallet: its own address, the owner
/// sequence, the quorum requirement, the transactions by id, and for each
/// transaction the sequence of owners who currently confirm it, in the
/// order the confirmations arrived.
#[verifier::ext_equal]
pub struct WalletModel {
    pub wallet: Address,
    pub owners: Seq<Address>,
    pub required: int,
    pub transactions: Seq<TransactionModel>,
    pub confirmations: Seq<Seq<Address>>,
}

/// No address appears twice.
pub open spec fn unique_addresses(s: Seq<Address>) -> bool {
    forall|i: int, j: int| 0 <= i < j < s.len() ==> s[i] != s[j]
}

/// No address is the null address.
pub open spec fn all_non_zero(s: Seq<Address>) -> bool {
    forall|i: int| 0 <= i < s.len() ==> !(#[trigger] s[i]).is_zero()
}

/// The bounds a wallet's owner count and requirement must keep:
/// 1 <= requirement <= owner count <= the fixed maximum.
pub open spec fn valid_requirement(owner_count: int, required: int) -> bool {
    1 <= required <= owner_count <= MAX_OWNER_COUNT
}

impl WalletModel {
    /// The wallet's internal invariant.  Every constructor establishes it
    /// and every operation preserves it.
    pub open spec fn inv(self) -> bool {
        &&& valid_requirement(self.owners.len() as int, self.required)
        &&& unique_addresses(self.owners)
        &&& self.confirmations.len() == self.transactions.len()
        &&& forall|t: int|
            0 <= t < self.transactions.len() ==> !(#[trigger] self.transactions[t]).destination.is_zero()
        &&& forall|t: int|
            0 <= t < self.confirmations.len() ==> unique_addresses(#[trigger] self.confirmations[t])
        &&& forall|t: int|
            0 <= t < self.transactions.len() && (#[trigger] self.transactions[t]).pending_call
                ==> !self.transactions[t].executed
    }

    /// Whether an address is a current owner.
    pub open spec fn is_owner(self, a: Address) -> bool {
        self.owners.contains(a)
    }

    /// Whether a transaction with this id has been created.
    pub open spec fn transaction_exists(self, id: u128) -> bool {
        id < self.transactions.len()
    }

    /// Whether this owner currently confirms this transaction.
    pub open spec fn confirmed_by(self, id: u128, a: Address) -> bool {
        id < self.confirmations.len() && self.confirmations[id as int].contains(a)
    }

    /// How many owners currently confirm this transaction; zero for an
    /// unknown id.
    pub open spec fn confirmation_count(self, id: u128) -> int {
        if id < self.confirmations.len() {
            self.confirmations[id as int].len() as int
        } else {
            0
        }
    }

    /// Whether the transaction has gathered the required quorum.
    pub open spec fn quorum_met(self, id: u128) -> bool {
        self.confirmation_count(id) >= self.required
    }

    /// The two wallets carry the same identity, transactions and
    /// confirmations: only the owner sequence or the requirement may
    /// differ.  The frame of the administrative operations.
    pub open spec fn same_ledger(self, other: WalletModel) -> bool {
        &&& self.wallet == other.wallet
        &&& self.transactions == other.transactions
        &&& self.confirmations == other.confirmations
    }

    /// The two wallets carry the same identity, owner sequence and
    /// requirement: only transactions or confirmations may differ.  The
    /// frame of the transactional operations.
    pub open spec fn same_governance(self, other: WalletModel) -> bool {
        &&& self.wallet == other.wallet
        &&& self.owners == other.owners
        &&& self.required == other.required
    }
}

/// What an execution attempt asks of the transport layer.
///
/// `NoOp`: the quorum is not yet met, nothing is sent (outcome code 0).
/// `Call`: the quorum is met; the embedding program must send `value` and
/// `data` to `destination`, await success or failure, and report it back
/// through `finish_execution`, which turns success into outcome code 1
/// and failure into `ExternalCallFailed` (outcome code 2).
#[derive(Debug)]
pub enum ExecutionStep {
    NoOp,
    Call { destination: Address, value: u128, data: Vec<u8> },
}

/// Whether a transaction passes the pending/executed filter of the
/// counting and listing queries.
pub open spec fn selected(t: TransactionModel, pending: bool, executed: bool) -> bool {
    (pending && !t.executed) || (executed && t.executed)
}

/// How many transactions pass the pending/executed filter.
pub open spec fn count_selected(s: Seq<TransactionModel>, pending: bool, executed: bool) -> int
    decreases s.len(),
{
    if s.len() == 0 {
        0
    } else {
        count_selected(s.drop_last(), pending, executed) + if selected(s.last(), pending, executed) {
            1int
        } else {
            0int
        }
    }
}

/// However a wallet was initialized and however it was driven since,
/// a well-formed wallet holds between one and the maximum number of
/// owners, and its requirement lies between one and the owner count.
pub proof fn lemma_owner_bounds(m: WalletModel)
    requires
        m.inv(),
    ensures
        1 <= m.owners.len() <= MAX_OWNER_COUNT,
        1 <= m.required <= m.owners.len(),
{
}

/// The wallet state machine.  All mutation goes through its methods; each
/// states over the wallet's model exactly what it changes, when it
/// succeeds, and which error each refused input produces.
pub struct MultiSigWallet {
    wallet_id: Address,
    owners: Vec<Address>,
    required: u128,
    transactions: Vec<Transaction>,
    confirmations: Vec<Vec<Address>>,
}

impl View for MultiSigWallet {
    type V = WalletModel;

    closed spec fn view(&self) -> WalletModel {
        WalletModel {
            wallet: self.wallet_id,
            owners: self.owners@,
            required: self.required as int,
            transactions: self.transactions@.map_values(|t: Transaction| t.model()),
            confirmations: self.confirmations@.map_values(|v: Vec<Address>| v@),
        }
    }
}

/// Whether the vector holds this address.
fn contains_address(v: &Vec<Address>, a: Address) -> (r: bool)
    ensures
        r == v@.contains(a),
{
    let mut i: usize = 0;
    while i < v.len()
        invariant
            i <= v@.len(),
            forall|j: int| 0 <= j < i ==> v@[j] != a,
        decreases v@.len() - i,
    {
        if v[i] == a {
            assert(v@.contains(a));
            return true;
        }
        i += 1;
    }
    assert(!v@.contains(a));
    false
}

/// Where this address stands in the vector, if anywhere.
fn find_address(v: &Vec<Address>, a: Address) -> (r: Option<usize>)
    ensures
        r matches Some(i) ==> i < v@.len() && v@[i as int] == a,
        r is None ==> !v@.contains(a),
{
    let mut i: usize = 0;
    while i < v.len()
        invariant
            i <= v@.len(),
            forall|j: int| 0 <= j < i ==> v@[j] != a,
        decreases v@.len() - i,
    {
        if v[i] == a {
            return Some(i);
        }
        i += 1;
    }
    assert(!v@.contains(a));
    None
}

/// A fresh vector with the same elements.
fn copy_vec<T: Copy>(v: &Vec<T>) -> (r: Vec<T>)
    ensures
        r@ == v@,
{
    let mut r: Vec<T> = Vec::new();
    let mut i: usize = 0;
    while i < v.len()
        invariant
            i <= v@.len(),
            r@ == v@.take(i as int),
        decreases v@.len() - i,
    {
        r.push(v[i]);
        assert(r@ =~= v@.take(i + 1));
        i += 1;
    }
    assert(r@ =~= v@);
    r
}

/// In a duplicate-free sequence, `index_of` names the one position an
/// address stands at.
proof fn lemma_unique_index_of(s: Seq<Address>, a: Address, i: int)
    requires
        unique_addresses(s),
        0 <= i < s.len(),
        s[i] == a,
    ensures
        s.index_of(a) == i,
{
    assert(0 <= s.index_of(a) < s.len() && s[s.index_of(a)] == a) by {
        assert(exists|j: int| 0 <= j < s.len() && s[j] == a);
    }
}

impl MultiSigWallet {
    /// Creates a wallet with its own address, its initial owners and the
    /// number of confirmations a transaction needs.  Succeeds exactly when
    /// the owner list respects the size bounds, holds no duplicate and no
    /// null address; on any refusal no wallet comes up.
    pub fn new(wallet: Address, owners: &Vec<Address>, required: u128) -> (r: Result<
        MultiSigWallet,
        WalletError,
    >)
        ensures
            r is Ok <==> valid_requirement(owners@.len() as int, required as int)
                && unique_addresses(owners@) && all_non_zero(owners@),
            r matches Ok(w) ==> {
                &&& w@.wallet == wallet
                &&& w@.owners == owners@
                &&& w@.required == required as int
                &&& w@.transactions == Seq::<TransactionModel>::empty()
                &&& w@.confirmations == Seq::<Seq<Address>>::empty()
                &&& w@.inv()
            },
            !valid_requirement(owners@.len() as int, required as int) ==> r == Err::<
                MultiSigWallet,
                WalletError,
            >(WalletError::InvalidRequirement),
            r is Err && valid_requirement(owners@.len() as int, required as int) ==> (r == Err::<
                MultiSigWallet,
                WalletError,
            >(WalletError::NullAddress) && !all_non_zero(owners@)) || (r == Err::<
                MultiSigWallet,
                WalletError,
            >(WalletError::OwnerAlreadyExists) && !unique_addresses(owners@)),
    {
        if !(owners.len() <= MAX_OWNER_COUNT && required <= owners.len() as u128 && required != 0
            && owners.len() != 0) {
            return Err(WalletError::InvalidRequirement);
        }
        let mut seen: Vec<Address> = Vec::new();
        let mut k: usize = 0;
        while k < owners.len()
            invariant
                k <= owners@.len(),
                seen@ == owners@.take(k as int),
                all_non_zero(owners@.take(k as int)),
                unique_addresses(owners@.take(k as int)),
            decreases owners@.len() - k,
        {
            let owner = owners[k];
            if owner.id == 0 {
                assert(!all_non_zero(owners@)) by {
                    assert(owners@[k as int].is_zero());
                }
                return Err(WalletError::NullAddress);
            }
            if contains_address(&seen, owner) {
                assert(!unique_addresses(owners@)) by {
                    let j = choose|j: int| 0 <= j < seen@.len() && seen@[j] == owner;
                    assert(owners@[j] == owners@[k as int]);
                }
                return Err(WalletError::OwnerAlreadyExists);
            }
            seen.push(owner);
            assert(seen@ =~= owners@.take(k + 1));
            k += 1;
        }
        assert(owners@.take(owners@.len() as int) =~= owners@);
        let w = MultiSigWallet {
            wallet_id: wallet,
            owners: seen,
            required,
            transactions: Vec::new(),
            confirmations: Vec::new(),
        };
        assert(w@.transactions =~= Seq::<TransactionModel>::empty());
        assert(w@.confirmations =~= Seq::<Seq<Address>>::empty());
        Ok(w)
    }

    /// The current quorum requirement.
    pub fn get_required(&self) -> (r: u128)
        ensures
            r as int == self@.required,
    {
        self.required
    }

    /// Appends a new owner.  Only the wallet itself may call; the address
    /// must not already be an owner, must not be null, and the grown owner
    /// count must stay within the maximum.
    pub fn add_owner(&mut self, caller: Address, owner: Address) -> (r: Result<(), WalletError>)
        requires
            old(self)@.inv(),
        ensures
            final(self)@.inv(),
            r is Err ==> final(self)@ == old(self)@,
            caller != old(self)@.wallet ==> r == Err::<(), WalletError>(WalletError::Unauthorized),
            caller == old(self)@.wallet && old(self)@.is_owner(owner) ==> r == Err::<(), WalletError>(
                WalletError::OwnerAlreadyExists,
            ),
            caller == old(self)@.wallet && !old(self)@.is_owner(owner) && owner.is_zero() ==> r
                == Err::<(), WalletError>(WalletError::NullAddress),
            caller == old(self)@.wallet && !old(self)@.is_owner(owner) && !owner.is_zero() && old(
                self,
            )@.owners.len() >= MAX_OWNER_COUNT ==> r == Err::<(), WalletError>(
                WalletError::InvalidRequirement,
            ),
            r is Ok <==> caller == old(self)@.wallet && !old(self)@.is_owner(owner)
                && !owner.is_zero() && old(self)@.owners.len() < MAX_OWNER_COUNT,
            r is Ok ==> final(self)@.owners == old(self)@.owners.push(owner) && final(self)@.required
                == old(self)@.required && final(self)@.same_ledger(old(self)@),
    {
        if caller != self.wallet_id {
            return Err(WalletError::Unauthorized);
        }
        if contains_address(&self.owners, owner) {
            return Err(WalletError::OwnerAlreadyExists);
        }
        if owner.id == 0 {
            return Err(WalletError::NullAddress);
        }
        if !(self.owners.len() + 1 <= MAX_OWNER_COUNT && self.required <= self.owners.len() as u128
            + 1 && self.required != 0 && self.owners.len() + 1 != 0) {
            return Err(WalletError::InvalidRequirement);
        }
        self.owners.push(owner);
        Ok(())
    }

    /// Removes a current owner.  Only the wallet itself may call.  The
    /// vacated slot is filled by the last owner, so the order of the
    /// remaining owners is not preserved.  When the requirement would
    /// exceed the shrunk owner count it is lowered to that count; removing
    /// the only owner is refused outright.
    pub fn remove_owner(&mut self, caller: Address, owner: Address) -> (r: Result<(), WalletError>)
        requires
            old(self)@.inv(),
        ensures
            final(self)@.inv(),
            r is Err ==> final(self)@ == old(self)@,
            caller != old(self)@.wallet ==> r == Err::<(), WalletError>(WalletError::Unauthorized),
            caller == old(self)@.wallet && !old(self)@.is_owner(owner) ==> r == Err::<(), WalletError>(
                WalletError::OwnerNotFound,
            ),
            caller == old(self)@.wallet && old(self)@.is_owner(owner) && old(self)@.owners.len() == 1
                ==> r == Err::<(), WalletError>(WalletError::InvalidRequirement),
            r is Ok <==> caller == old(self)@.wallet && old(self)@.is_owner(owner) && old(
                self,
            )@.owners.len() > 1,
            r is Ok ==> final(self)@.owners == old(self)@.owners.update(
                old(self)@.owners.index_of(owner),
                old(self)@.owners.last(),
            ).drop_last(),
            r is Ok ==> final(self)@.required == (if old(self)@.required > old(self)@.owners.len()
                - 1 {
                old(self)@.owners.len() - 1
            } else {
                old(self)@.required
            }),
            r is Ok ==> final(self)@.same_ledger(old(self)@),
    {
        if caller != self.wallet_id {
            return Err(WalletError::Unauthorized);
        }
        let found = find_address(&self.owners, owner);
        match found {
            None => Err(WalletError::OwnerNotFound),
            Some(idx) => {
                if self.owners.len() == 1 {
                    return Err(WalletError::InvalidRequirement);
                }
                proof {
                    lemma_unique_index_of(self.owners@, owner, idx as int);
                }
                self.owners.swap_remove(idx);
                if self.required > self.owners.len() as u128 {
                    self.required = self.owners.len() as u128;
                }
                Ok(())
            },
        }
    }

    /// Puts a new owner in the place of a current one, keeping its
    /// position.  Only the wallet itself may call; the outgoing address
    /// must be a current owner and the incoming one must not be.  The
    /// requirement is untouched.
    pub fn replace_owner(&mut self, caller: Address, owner: Address, new_owner: Address) -> (r:
        Result<(), WalletError>)
        requires
            old(self)@.inv(),
        ensures
            final(self)@.inv(),
            r is Err ==> final(self)@ == old(self)@,
            caller != old(self)@.wallet ==> r == Err::<(), WalletError>(WalletError::Unauthorized),
            caller == old(self)@.wallet && !old(self)@.is_owner(owner) ==> r == Err::<(), WalletError>(
                WalletError::OwnerNotFound,
            ),
            caller == old(self)@.wallet && old(self)@.is_owner(owner) && old(self)@.is_owner(
                new_owner,
            ) ==> r == Err::<(), WalletError>(WalletError::OwnerAlreadyExists),
            r is Ok <==> caller == old(self)@.wallet && old(self)@.is_owner(owner) && !old(
                self,
            )@.is_owner(new_owner),
            r is Ok ==> final(self)@.owners == old(self)@.owners.update(
                old(self)@.owners.index_of(owner),
                new_owner,
            ),
            r is Ok ==> final(self)@.required == old(self)@.required && final(self)@.same_ledger(
                old(self)@,
            ),
    {
        if caller != self.wallet_id {
            return Err(WalletError::Unauthorized);
        }
        let found = find_address(&self.owners, owner);
        match found {
            None => Err(WalletError::OwnerNotFound),
            Some(idx) => {
                if contains_address(&self.owners, new_owner) {
                    return Err(WalletError::OwnerAlreadyExists);
                }
                proof {
                    lemma_unique_index_of(self.owners@, owner, idx as int);
                }
                self.owners[idx] = new_owner;
                Ok(())
            },
        }
    }

    /// Replaces the stored quorum requirement.  Only the wallet itself may
    /// call, and the new value must respect the bounds for the current
    /// owner count.
    pub fn change_requirement(&mut self, caller: Address, required: u128) -> (r: Result<
        (),
        WalletError,
    >)
        requires
            old(self)@.inv(),
        ensures
            final(self)@.inv(),
            r is Err ==> final(self)@ == old(self)@,
            caller != old(self)@.wallet ==> r == Err::<(), WalletError>(WalletError::Unauthorized),
            caller == old(self)@.wallet && !valid_requirement(
                old(self)@.owners.len() as int,
                required as int,
            ) ==> r == Err::<(), WalletError>(WalletError::InvalidRequirement),
            r is Ok <==> caller == old(self)@.wallet && valid_requirement(
                old(self)@.owners.len() as int,
                required as int,
            ),
            r is Ok ==> final(self)@.required == required as int && final(self)@.owners == old(
                self,
            )@.owners && final(self)@.same_ledger(old(self)@),
    {
        if caller != self.wallet_id {
            return Err(WalletError::Unauthorized);
        }
        if !(self.owners.len() <= MAX_OWNER_COUNT && required <= self.owners.len() as u128
            && required != 0 && self.owners.len() != 0) {
            return Err(WalletError::InvalidRequirement);
        }
        self.required = required;
        Ok(())
    }

    /// Stores a new transaction under the next sequential id, with no
    /// confirmation yet, and returns that id.
    fn add_transaction(&mut self, destination: Address, value: u128, data: Vec<u8>) -> (r: u128)
        requires
            old(self)@.inv(),
            !destination.is_zero(),
        ensures
            final(self)@.inv(),
            r == old(self)@.transactions.len(),
            final(self)@.transactions == old(self)@.transactions.push(
                (TransactionModel {
                    destination,
                    value,
                    data: data@,
                    executed: false,
                    pending_call: false,
                }),
            ),
            final(self)@.confirmations == old(self)@.confirmations.push(Seq::<Address>::empty()),
            final(self)@.same_governance(old(self)@),
    {
        let transaction_id = self.transactions.len() as u128;
        self.transactions.push(
            Transaction { destination, value, data, executed: false, pending_call: false },
        );
        self.confirmations.push(Vec::new());
        proof {
            assert(self@.transactions =~~= old(self)@.transactions.push(
                (TransactionModel {
                    destination,
                    value,
                    data: data@,
                    executed: false,
                    pending_call: false,
                }),
            ));
            assert(self@.confirmations =~~= old(self)@.confirmations.push(Seq::<Address>::empty()));
        }
        transaction_id
    }

    /// Proposes a transaction and immediately confirms it on the
    /// sender's behalf.  The sender must be a current owner and the
    /// destination must not be null.  Returns the fresh id — one larger
    /// than every id handed out before, never reused — together with the
    /// execution step the built-in first confirmation produced: with a
    /// requirement of one the quorum is already met and the outbound call
    /// is due at once.
    pub fn submit_transaction(&mut self, sender: Address, destination: Address, value: u128, data:
        Vec<u8>) -> (r: Result<(u128, ExecutionStep), WalletError>)
        requires
            old(self)@.inv(),
        ensures
            final(self)@.inv(),
            r is Err ==> final(self)@ == old(self)@,
            destination.is_zero() ==> r == Err::<(u128, ExecutionStep), WalletError>(
                WalletError::NullAddress,
            ),
            !destination.is_zero() && !old(self)@.is_owner(sender) ==> r == Err::<
                (u128, ExecutionStep),
                WalletError,
            >(WalletError::Unauthorized),
            r is Ok <==> !destination.is_zero() && old(self)@.is_owner(sender),
            r matches Ok(p) ==> p.0 == old(self)@.transactions.len(),
            r matches Ok(p) ==> !old(self)@.transaction_exists(p.0) && final(self)@.transaction_exists(p.0),
            r matches Ok(p) ==> final(self)@.confirmed_by(p.0, sender) && final(self)@.confirmation_count(p.0) == 1,
            r is Ok ==> final(self)@.transactions == old(self)@.transactions.push(
                (TransactionModel {
                    destination,
                    value,
                    data: data@,
                    executed: false,
                    pending_call: old(self)@.required == 1,
                }),
            ),
            r is Ok ==> final(self)@.confirmations == old(self)@.confirmations.push(seq![sender]),
            r is Ok ==> final(self)@.same_governance(old(self)@),
            r matches Ok(p) ==> (p.1 is Call <==> old(self)@.required == 1),
            r matches Ok(p) ==> (p.1 matches ExecutionStep::Call { destination: d, value: v, data: b }
                ==> d == destination && v == value && b@ == data@),
    {
        if destination.id == 0 {
            return Err(WalletError::NullAddress);
        }
        if !contains_address(&self.owners, sender) {
            return Err(WalletError::Unauthorized);
        }
        let ghost pre = self@;
        let transaction_id = self.add_transaction(destination, value, data);
        proof {
            assert(self@.confirmations[transaction_id as int] == Seq::<Address>::empty());
            assert(!self@.confirmed_by(transaction_id, sender));
            assert(!self@.transactions[transaction_id as int].executed);
            assert(self@.is_owner(sender));
        }
        let step = match self.confirm_transaction(sender, transaction_id) {
            Ok(step) => step,
            Err(e) => {
                proof {
                    assert(false);
                }
                return Err(e);
            },
        };
        proof {
            assert(self@.confirmations =~~= pre.confirmations.push(seq![sender]));
            assert(self@.transactions =~~= pre.transactions.push(
                (TransactionModel {
                    destination,
                    value,
                    data: data@,
                    executed: false,
                    pending_call: pre.required == 1,
                }),
            ));
            assert(self@.quorum_met(transaction_id) <==> pre.required == 1);
            assert(self@.confirmations[transaction_id as int][0] == sender);
            assert(self@.confirmed_by(transaction_id, sender));
            assert(self@.confirmation_count(transaction_id) == 1);
        }
        Ok((transaction_id, step))
    }

    /// Records the caller's confirmation of a transaction, then attempts
    /// execution.  The caller must be a current owner, the transaction
    /// must exist, the caller must not already confirm it, and it must not
    /// have executed.  `Ok(step)` tells the embedding program whether the
    /// quorum is now met and an outbound call must be made.
    pub fn confirm_transaction(&mut self, caller: Address, transaction_id: u128) -> (r: Result<
        ExecutionStep,
        WalletError,
    >)
        requires
            old(self)@.inv(),
        ensures
            final(self)@.inv(),
            r is Err ==> final(self)@ == old(self)@,
            !old(self)@.is_owner(caller) ==> r == Err::<ExecutionStep, WalletError>(
                WalletError::Unauthorized,
            ),
            old(self)@.is_owner(caller) && !old(self)@.transaction_exists(transaction_id) ==> r
                == Err::<ExecutionStep, WalletError>(WalletError::TransactionNotFound),
            old(self)@.is_owner(caller) && old(self)@.transaction_exists(transaction_id) && old(
                self,
            )@.confirmed_by(transaction_id, caller) ==> r == Err::<ExecutionStep, WalletError>(
                WalletError::AlreadyConfirmed,
            ),
            old(self)@.is_owner(caller) && old(self)@.transaction_exists(transaction_id) && !old(
                self,
            )@.confirmed_by(transaction_id, caller) && old(self)@.transactions[transaction_id as int].executed
                ==> r == Err::<ExecutionStep, WalletError>(WalletError::AlreadyExecuted),
            r is Ok <==> old(self)@.is_owner(caller) && old(self)@.transaction_exists(transaction_id)
                && !old(self)@.confirmed_by(transaction_id, caller) && !old(
                self,
            )@.transactions[transaction_id as int].executed,
            r is Ok ==> final(self)@.confirmations == old(self)@.confirmations.update(
                transaction_id as int,
                old(self)@.confirmations[transaction_id as int].push(caller),
            ),
            r is Ok ==> final(self)@.same_governance(old(self)@),
            r matches Ok(step) ==> (step is Call <==> final(self)@.quorum_met(transaction_id)),
            r matches Ok(step) ==> (step is NoOp ==> final(self)@.transactions == old(self)@.transactions),
            r matches Ok(step) ==> (step is Call ==> final(self)@.transactions == old(self)@.transactions.update(
                transaction_id as int,
                (TransactionModel {
                    destination: old(self)@.transactions[transaction_id as int].destination,
                    value: old(self)@.transactions[transaction_id as int].value,
                    data: old(self)@.transactions[transaction_id as int].data,
                    executed: false,
                    pending_call: true,
                }),
            )),
            r matches Ok(step) ==> (step matches ExecutionStep::Call { destination, value, data }
                ==> destination == old(self)@.transactions[transaction_id as int].destination
                && value == old(self)@.transactions[transaction_id as int].value && data@ == old(
                self,
            )@.transactions[transaction_id as int].data),
    {
        if !contains_address(&self.owners, caller) {
            return Err(WalletError::Unauthorized);
        }
        if transaction_id >= self.transactions.len() as u128 {
            return Err(WalletError::TransactionNotFound);
        }
        let idx = transaction_id as usize;
        if contains_address(&self.confirmations[idx], caller) {
            return Err(WalletError::AlreadyConfirmed);
        }
        if self.transactions[idx].executed {
            return Err(WalletError::AlreadyExecuted);
        }
        let mut entry = self.confirmations.remove(idx);
        entry.push(caller);
        self.confirmations.insert(idx, entry);
        proof {
            assert(self@.confirmations =~~= old(self)@.confirmations.update(
                transaction_id as int,
                old(self)@.confirmations[transaction_id as int].push(caller),
            ));
        }
        if self.confirmations[idx].len() as u128 >= self.required {
            let ghost mid = self@;
            let mut t = self.transactions.remove(idx);
            t.pending_call = true;
            let destination = t.destination;
            let value = t.value;
            let data = copy_vec(&t.data);
            self.transactions.insert(idx, t);
            proof {
                assert(self@.transactions =~~= old(self)@.transactions.update(
                    transaction_id as int,
                    (TransactionModel {
                        destination: old(self)@.transactions[transaction_id as int].destination,
                        value: old(self)@.transactions[transaction_id as int].value,
                        data: old(self)@.transactions[transaction_id as int].data,
                        executed: false,
                        pending_call: true,
                    }),
                ));
                assert(self@.confirmations =~~= mid.confirmations);
            }
            Ok(ExecutionStep::Call { destination, value, data })
        } else {
            Ok(ExecutionStep::NoOp)
        }
    }

    /// Withdraws the caller's confirmation of a transaction that has not
    /// yet executed.  Once a transaction has run, its confirmations are
    /// immutable history and revocation is refused.
    pub fn revoke_confirmation(&mut self, caller: Address, transaction_id: u128) -> (r: Result<
        (),
        WalletError,
    >)
        requires
            old(self)@.inv(),
        ensures
            final(self)@.inv(),
            r is Err ==> final(self)@ == old(self)@,
            !old(self)@.is_owner(caller) ==> r == Err::<(), WalletError>(WalletError::Unauthorized),
            old(self)@.is_owner(caller) && !old(self)@.confirmed_by(transaction_id, caller) ==> r
                == Err::<(), WalletError>(WalletError::NotConfirmed),
            old(self)@.is_owner(caller) && old(self)@.confirmed_by(transaction_id, caller) && old(
                self,
            )@.transactions[transaction_id as int].executed ==> r == Err::<(), WalletError>(
                WalletError::AlreadyExecuted,
            ),
            r is Ok <==> old(self)@.is_owner(caller) && old(self)@.confirmed_by(
                transaction_id,
                caller,
            ) && !old(self)@.transactions[transaction_id as int].executed,
            r is Ok ==> final(self)@.confirmations == old(self)@.confirmations.update(
                transaction_id as int,
                old(self)@.confirmations[transaction_id as int].remove(
                    old(self)@.confirmations[transaction_id as int].index_of(caller),
                ),
            ),
            r is Ok ==> final(self)@.transactions == old(self)@.transactions && final(self)@.same_governance(old(self)@),
            r is Ok ==> !final(self)@.confirmed_by(transaction_id, caller),
    {
        if !contains_address(&self.owners, caller) {
            return Err(WalletError::Unauthorized);
        }
        if transaction_id >= self.confirmations.len() as u128 {
            return Err(WalletError::NotConfirmed);
        }
        let idx = transaction_id as usize;
        if !contains_address(&self.confirmations[idx], caller) {
            return Err(WalletError::NotConfirmed);
        }
        if self.transactions[idx].executed {
            return Err(WalletError::AlreadyExecuted);
        }
        let mut entry = self.confirmations.remove(idx);
        let found = find_address(&entry, caller);
        match found {
            None => {
                proof {
                    assert(false);
                }
                Err(WalletError::NotConfirmed)
            },
            Some(k) => {
                proof {
                    assert(entry@ == old(self)@.confirmations[transaction_id as int]);
                    assert(unique_addresses(old(self)@.confirmations[transaction_id as int]));
                    lemma_unique_index_of(entry@, caller, k as int);
                }
                entry.remove(k);
                self.confirmations.insert(idx, entry);
                proof {
                    assert(self@.confirmations =~~= old(self)@.confirmations.update(
                        transaction_id as int,
                        old(self)@.confirmations[transaction_id as int].remove(
                            old(self)@.confirmations[transaction_id as int].index_of(caller),
                        ),
                    ));
                }
                Ok(())
            },
        }
    }

    /// Decides whether a confirmed, unexecuted transaction may run.  The
    /// caller must be an owner who currently confirms it.  When the
    /// quorum is met the transaction is marked as awaiting its outbound
    /// call and `Call` is returned — the embedding program then sends it
    /// and reports through `finish_execution` — and with the quorum
    /// unmet nothing changes and `NoOp` is returned.  The executed flag
    /// itself moves only in `finish_execution`, after a successful call.
    pub fn execute_transaction(&mut self, caller: Address, transaction_id: u128) -> (r: Result<
        ExecutionStep,
        WalletError,
    >)
        requires
            old(self)@.inv(),
        ensures
            final(self)@.inv(),
            r is Err ==> final(self)@ == old(self)@,
            !old(self)@.is_owner(caller) ==> r == Err::<ExecutionStep, WalletError>(
                WalletError::Unauthorized,
            ),
            old(self)@.is_owner(caller) && !old(self)@.confirmed_by(transaction_id, caller) ==> r
                == Err::<ExecutionStep, WalletError>(WalletError::NotConfirmed),
            old(self)@.is_owner(caller) && old(self)@.confirmed_by(transaction_id, caller) && old(
                self,
            )@.transactions[transaction_id as int].executed ==> r == Err::<
                ExecutionStep,
                WalletError,
            >(WalletError::AlreadyExecuted),
            r is Ok <==> old(self)@.is_owner(caller) && old(self)@.confirmed_by(
                transaction_id,
                caller,
            ) && !old(self)@.transactions[transaction_id as int].executed,
            r matches Ok(step) ==> (step is Call <==> old(self)@.quorum_met(transaction_id)),
            r matches Ok(step) ==> (step is NoOp ==> final(self)@ == old(self)@),
            r matches Ok(step) ==> (step is Call ==> final(self)@.transactions == old(self)@.transactions.update(
                transaction_id as int,
                (TransactionModel {
                    destination: old(self)@.transactions[transaction_id as int].destination,
                    value: old(self)@.transactions[transaction_id as int].value,
                    data: old(self)@.transactions[transaction_id as int].data,
                    executed: false,
                    pending_call: true,
                }),
            )),
            r is Ok ==> final(self)@.confirmations == old(self)@.confirmations && final(self)@.same_governance(old(self)@),
            r matches Ok(step) ==> (step matches ExecutionStep::Call { destination, value, data }
                ==> destination == old(self)@.transactions[transaction_id as int].destination
                && value == old(self)@.transactions[transaction_id as int].value && data@ == old(
                self,
            )@.transactions[transaction_id as int].data),
    {
        if !contains_address(&self.owners, caller) {
            return Err(WalletError::Unauthorized);
        }
        if transaction_id >= self.confirmations.len() as u128 {
            return Err(WalletError::NotConfirmed);
        }
        let idx = transaction_id as usize;
        if !contains_address(&self.confirmations[idx], caller) {
            return Err(WalletError::NotConfirmed);
        }
        if self.transactions[idx].executed {
            return Err(WalletError::AlreadyExecuted);
        }
        if self.confirmations[idx].len() as u128 >= self.required {
            let ghost mid = self@;
            let mut t = self.transactions.remove(idx);
            t.pending_call = true;
            let destination = t.destination;
            let value = t.value;
            let data = copy_vec(&t.data);
            self.transactions.insert(idx, t);
            proof {
                assert(self@.transactions =~~= old(self)@.transactions.update(
                    transaction_id as int,
                    (TransactionModel {
                        destination: old(self)@.transactions[transaction_id as int].destination,
                        value: old(self)@.transactions[transaction_id as int].value,
                        data: old(self)@.transactions[transaction_id as int].data,
                        executed: false,
                        pending_call: true,
                    }),
                ));
                assert(self@.confirmations =~~= mid.confirmations);
            }
            Ok(ExecutionStep::Call { destination, value, data })
        } else {
            Ok(ExecutionStep::NoOp)
        }
    }

    /// Settles an execution after the transport layer reported the
    /// outbound call's outcome.  The transaction must be awaiting that
    /// outcome: the quorum was met when the call was dispatched.  On
    /// success the transaction is marked executed, once and forever.  On
    /// failure only the awaiting mark is cleared: the transaction stays
    /// unexecuted, its confirmations stand, and any confirmed owner may
    /// retry through `execute_transaction`.
    pub fn finish_execution(&mut self, transaction_id: u128, success: bool) -> (r: Result<
        (),
        WalletError,
    >)
        requires
            old(self)@.inv(),
        ensures
            final(self)@.inv(),
            r is Err && r != Err::<(), WalletError>(WalletError::ExternalCallFailed) ==> final(self)@ == old(self)@,
            !old(self)@.transaction_exists(transaction_id) ==> r == Err::<(), WalletError>(
                WalletError::TransactionNotFound,
            ),
            old(self)@.transaction_exists(transaction_id) && old(
                self,
            )@.transactions[transaction_id as int].executed ==> r == Err::<(), WalletError>(
                WalletError::AlreadyExecuted,
            ),
            old(self)@.transaction_exists(transaction_id) && !old(
                self,
            )@.transactions[transaction_id as int].executed && !old(
                self,
            )@.transactions[transaction_id as int].pending_call ==> r == Err::<(), WalletError>(
                WalletError::NotConfirmed,
            ),
            old(self)@.transaction_exists(transaction_id) && !old(
                self,
            )@.transactions[transaction_id as int].executed && old(
                self,
            )@.transactions[transaction_id as int].pending_call && !success ==> r == Err::<
                (),
                WalletError,
            >(WalletError::ExternalCallFailed),
            r is Ok <==> old(self)@.transaction_exists(transaction_id) && !old(
                self,
            )@.transactions[transaction_id as int].executed && old(
                self,
            )@.transactions[transaction_id as int].pending_call && success,
            r is Ok ==> final(self)@.transactions == old(self)@.transactions.update(
                transaction_id as int,
                (TransactionModel {
                    destination: old(self)@.transactions[transaction_id as int].destination,
                    value: old(self)@.transactions[transaction_id as int].value,
                    data: old(self)@.transactions[transaction_id as int].data,
                    executed: true,
                    pending_call: false,
                }),
            ),
            r == Err::<(), WalletError>(WalletError::ExternalCallFailed) ==> final(self)@.transactions
                == old(self)@.transactions.update(
                transaction_id as int,
                (TransactionModel {
                    destination: old(self)@.transactions[transaction_id as int].destination,
                    value: old(self)@.transactions[transaction_id as int].value,
                    data: old(self)@.transactions[transaction_id as int].data,
                    executed: false,
                    pending_call: false,
                }),
            ),
            r is Ok ==> final(self)@.transactions[transaction_id as int].executed,
            r == Err::<(), WalletError>(WalletError::ExternalCallFailed) ==> !final(self)@.transactions[transaction_id as int].executed,
            final(self)@.confirmations == old(self)@.confirmations && final(self)@.same_governance(
                old(self)@,
            ),
    {
        if transaction_id >= self.transactions.len() as u128 {
            return Err(WalletError::TransactionNotFound);
        }
        let idx = transaction_id as usize;
        if self.transactions[idx].executed {
            return Err(WalletError::AlreadyExecuted);
        }
        if !self.transactions[idx].pending_call {
            return Err(WalletError::NotConfirmed);
        }
        let mut t = self.transactions.remove(idx);
        t.pending_call = false;
        t.executed = success;
        self.transactions.insert(idx, t);
        proof {
            assert(self@.transactions =~~= old(self)@.transactions.update(
                transaction_id as int,
                (TransactionModel {
                    destination: old(self)@.transactions[transaction_id as int].destination,
                    value: old(self)@.transactions[transaction_id as int].value,
                    data: old(self)@.transactions[transaction_id as int].data,
                    executed: success,
                    pending_call: false,
                }),
            ));
        }
        if success {
            Ok(())
        } else {
            Err(WalletError::ExternalCallFailed)
        }
    }

    /// Whether the transaction has gathered the required quorum.  Open to
    /// any caller; a transaction nobody ever confirmed, or an unknown id,
    /// counts as zero confirmations rather than an error.
    pub fn is_confirmed(&self, transaction_id: u128) -> (r: bool)
        requires
            self@.inv(),
        ensures
            r == self@.quorum_met(transaction_id),
    {
        if transaction_id >= self.confirmations.len() as u128 {
            return false;
        }
        let idx = transaction_id as usize;
        self.confirmations[idx].len() as u128 >= self.required
    }

    /// How many owners currently confirm the transaction; zero for an
    /// unknown id.
    pub fn get_confirmation_count(&self, transaction_id: u128) -> (r: u128)
        ensures
            r == self@.confirmation_count(transaction_id),
    {
        if transaction_id >= self.confirmations.len() as u128 {
            return 0;
        }
        let idx = transaction_id as usize;
        self.confirmations[idx].len() as u128
    }

    /// How many transactions pass the pending/executed filter: both
    /// filters true counts everything, both false counts nothing.
    pub fn get_transaction_count(&self, pending: bool, executed: bool) -> (r: u128)
        ensures
            r == count_selected(self@.transactions, pending, executed),
    {
        let mut n: u128 = 0;
        let mut i: usize = 0;
        while i < self.transactions.len()
            invariant
                i <= self@.transactions.len(),
                n == count_selected(self@.transactions.take(i as int), pending, executed),
                n <= i,
            decreases self@.transactions.len() - i,
        {
            proof {
                assert(self@.transactions.take(i + 1).drop_last() =~= self@.transactions.take(
                    i as int,
                ));
                assert(self@.transactions.take(i + 1).last() == self@.transactions[i as int]);
            }
            let t = &self.transactions[i];
            if (pending && !t.executed) || (executed && t.executed) {
                n = n + 1;
            }
            i += 1;
        }
        proof {
            assert(self@.transactions.take(self@.transactions.len() as int) =~= self@.transactions);
        }
        n
    }

    /// The current owner sequence, in its internal order.  After a
    /// removal that order need not be the insertion order.
    pub fn get_owners(&self) -> (r: Vec<Address>)
        ensures
            r@ == self@.owners,
    {
        copy_vec(&self.owners)
    }

    /// The owners confirming a transaction, scanning the owner sequence
    /// only while consecutive owners from the front are confirmed: the
    /// first unconfirmed owner stops the scan, and later confirmed owners
    /// are left out.  Empty for an unknown id.
    pub fn get_confirmations(&self, transaction_id: u128) -> (r: Vec<Address>)
        requires
            self@.inv(),
        ensures
            !self@.transaction_exists(transaction_id) ==> r@ == Seq::<Address>::empty(),
            self@.transaction_exists(transaction_id) ==> r@.len() <= self@.owners.len() && r@
                == self@.owners.take(r@.len() as int),
            self@.transaction_exists(transaction_id) ==> forall|j: int|
                0 <= j < r@.len() ==> self@.confirmed_by(transaction_id, #[trigger] self@.owners[j]),
            self@.transaction_exists(transaction_id) && r@.len() < self@.owners.len()
                ==> !self@.confirmed_by(transaction_id, self@.owners[r@.len() as int]),
    {
        if transaction_id >= self.confirmations.len() as u128 {
            return Vec::new();
        }
        let idx = transaction_id as usize;
        let entry = &self.confirmations[idx];
        let mut r: Vec<Address> = Vec::new();
        let mut i: usize = 0;
        while i < self.owners.len()
            invariant
                i <= self@.owners.len(),
                r@ == self@.owners.take(i as int),
                forall|j: int|
                    0 <= j < i ==> self@.confirmed_by(transaction_id, #[trigger] self@.owners[j]),
            decreases self@.owners.len() - i,
        {
            let owner = self.owners[i];
            if !contains_address(entry, owner) {
                return r;
            }
            r.push(owner);
            assert(r@ =~= self@.owners.take(i + 1));
            i += 1;
        }
        proof {
            assert(self@.owners.take(self@.owners.len() as int) =~= self@.owners);
        }
        r
    }

    /// The ids in `[from, to)` whose transactions pass the
    /// pending/executed filter, walking ids upward from zero and stopping
    /// at the first id that leaves the range or fails the filter.  A
    /// `from` above zero therefore yields nothing: the very first id
    /// already falls outside the range and ends the scan.
    pub fn get_transaction_ids(&self, from: u128, to: u128, pending: bool, executed: bool) -> (r:
        Vec<u128>)
        ensures
            r@.len() <= self@.transactions.len(),
            forall|j: int| #![trigger r@[j]] 0 <= j < r@.len() ==> r@[j] == j,
            forall|j: int|
                #![trigger r@[j]]
                0 <= j < r@.len() ==> from <= r@[j] < to && selected(
                    self@.transactions[r@[j] as int],
                    pending,
                    executed,
                ),
            r@.len() < self@.transactions.len() ==> !((from as int) <= r@.len() && r@.len() < (
            to as int) && selected(self@.transactions[r@.len() as int], pending, executed)),
    {
        let mut r: Vec<u128> = Vec::new();
        let mut i: usize = 0;
        while i < self.transactions.len()
            invariant
                i <= self@.transactions.len(),
                r@.len() == i,
                forall|j: int| #![trigger r@[j]] 0 <= j < i ==> r@[j] == j,
                forall|j: int|
                    #![trigger r@[j]]
                    0 <= j < i ==> from <= r@[j] < to && selected(
                        self@.transactions[r@[j] as int],
                        pending,
                        executed,
                    ),
            decreases self@.transactions.len() - i,
        {
            let id = i as u128;
            let t = &self.transactions[i];
            if !(from <= id && id < to && ((pending && !t.executed) || (executed && t.executed))) {
                return r;
            }
            r.push(id);
            i += 1;
        }
        r
    }
}

} // verus!
