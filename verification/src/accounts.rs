//! The accounts of a device: which accounts exist, which of them have an
//! open handler, and what the account manager decides on each request.
//!
//! The registry keeps the accounts in ascending order of their identifiers.
//! It decides; whoever runs it talks to the handlers, persists the list of
//! accounts and publishes the events.

use vstd::prelude::*;

verus! {

/// The status that the account manager reports to its client.
#[derive(Debug, Clone, Copy, PartialEq, Eq, Structural)]
pub enum Status {
    /// The request succeeded.
    Okay,
    InternalError,
    InvalidRequest,
    IoError,
    NotFound,
    UnknownError,
}

/// What is known of whether an account is authenticated.
#[derive(Debug, Clone, Copy, PartialEq, Eq, Structural)]
pub enum AuthStateSummary {
    Unknown,
}

/// The authentication state that every account has until authenticators
/// exist.
pub const DEFAULT_AUTH_STATE: AuthStateSummary = AuthStateSummary::Unknown;

/// An account and its authentication state.
#[derive(Debug, Clone, Copy, PartialEq, Eq, Structural)]
pub struct AccountAuthState {
    pub account_id: u64,
    pub auth_state: AuthStateSummary,
}

/// One account of the device, and whether a handler is open for it.
#[derive(Debug, Clone, Copy, PartialEq, Eq, Structural)]
pub struct AccountEntry {
    pub id: u64,
    pub connected: bool,
}

/// What the registry knows of the handler of an account.
#[derive(Debug, Clone, Copy, PartialEq, Eq, Structural)]
pub enum HandlerState {
    /// There is no such account.
    NotFound,
    /// The account exists and a handler is open for it.
    Connected,
    /// The account exists, and its handler has yet to be loaded.
    Unconnected,
}

/// What has to happen to remove an account: whether its handler must be
/// terminated, and the accounts to persist once it is gone.
#[derive(Debug, Clone, PartialEq, Eq)]
pub struct Removal {
    pub terminate_handler: bool,
    pub remaining: Vec<u64>,
}

/// Whether the identifiers of the entries strictly ascend.
pub open spec fn ascending(s: Seq<AccountEntry>) -> bool {
    forall|i: int, j: int| 0 <= i < j < s.len() ==> s[i].id < s[j].id
}

/// Whether `i` is the position of the account `id`.
pub open spec fn account_at(s: Seq<AccountEntry>, id: u64, i: int) -> bool {
    0 <= i < s.len() && s[i].id == id
}

/// Whether the account `id` exists.
pub open spec fn has_account(s: Seq<AccountEntry>, id: u64) -> bool {
    exists|i: int| account_at(s, id, i)
}

/// The position of the account `id`, which exists.
pub open spec fn position_of(s: Seq<AccountEntry>, id: u64) -> int {
    choose|i: int| account_at(s, id, i)
}

/// Whether `k` is where the account `id` belongs: behind all smaller
/// identifiers and before all others.
pub open spec fn is_rank(s: Seq<AccountEntry>, id: u64, k: int) -> bool {
    &&& 0 <= k <= s.len()
    &&& forall|i: int| 0 <= i < k ==> s[i].id < id
    &&& forall|i: int| k <= i < s.len() ==> s[i].id >= id
}

/// The identifiers of the entries, in order.
pub open spec fn ids_of(s: Seq<AccountEntry>) -> Seq<u64> {
    Seq::new(s.len(), |i: int| s[i].id)
}

/// The state of the handler of the account `id`.
pub open spec fn spec_lookup(s: Seq<AccountEntry>, id: u64) -> HandlerState {
    if !has_account(s, id) {
        HandlerState::NotFound
    } else if s[position_of(s, id)].connected {
        HandlerState::Connected
    } else {
        HandlerState::Unconnected
    }
}

/// The entries without the account `id`.
pub open spec fn spec_without(s: Seq<AccountEntry>, id: u64) -> Seq<AccountEntry> {
    if has_account(s, id) {
        s.remove(position_of(s, id))
    } else {
        s
    }
}

/// The entries with `entry` in its place: in place of the entry of the same
/// account if there is one, else where its identifier belongs.
pub open spec fn spec_with(s: Seq<AccountEntry>, entry: AccountEntry) -> Seq<AccountEntry> {
    if has_account(s, entry.id) {
        s.update(position_of(s, entry.id), entry)
    } else {
        s.insert(choose|k: int| is_rank(s, entry.id, k), entry)
    }
}

/// In an ascending list an account has one position only.
pub proof fn lemma_position_is_unique(s: Seq<AccountEntry>, id: u64, i: int)
    requires
        ascending(s),
        account_at(s, id, i),
    ensures
        has_account(s, id),
        position_of(s, id) == i,
{
    let p = position_of(s, id);
    assert(account_at(s, id, p));
    if p < i {
        assert(s[p].id < s[i].id);
    }
    if i < p {
        assert(s[i].id < s[p].id);
    }
}

/// In an ascending list an account belongs in one place only.
pub proof fn lemma_rank_is_unique(s: Seq<AccountEntry>, id: u64, k: int)
    requires
        is_rank(s, id, k),
    ensures
        (choose|r: int| is_rank(s, id, r)) == k,
{
    let r = choose|r: int| is_rank(s, id, r);
    assert(is_rank(s, id, r));
    if r < k {
        assert(s[r].id < id);
    }
    if k < r {
        assert(s[k].id < id);
    }
}

/// The accounts of a device.
pub struct AccountRegistry {
    entries: Vec<AccountEntry>,
}

impl View for AccountRegistry {
    type V = Seq<AccountEntry>;

    closed spec fn view(&self) -> Seq<AccountEntry> {
        self.entries@
    }
}

impl AccountRegistry {
    /// A registry without accounts.
    pub fn new() -> (r: AccountRegistry)
        ensures
            r@ == Seq::<AccountEntry>::empty(),
            ascending(r@),
    {
        AccountRegistry { entries: Vec::new() }
    }

    /// The registry of the accounts with the given identifiers, none of them
    /// with an open handler. An identifier that occurs twice counts once.
    pub fn load(stored: &Vec<u64>) -> (r: AccountRegistry)
        ensures
            ascending(r@),
            forall|id: u64| has_account(r@, id) <==> stored@.contains(id),
            forall|i: int| 0 <= i < r@.len() ==> !(#[trigger] r@[i]).connected,
    {
        let mut r = AccountRegistry::new();
        let mut n: usize = 0;
        while n < stored.len()
            invariant
                n <= stored@.len(),
                ascending(r@),
                forall|id: u64| has_account(r@, id) <==> stored@.subrange(0, n as int).contains(id),
                forall|i: int| 0 <= i < r@.len() ==> !(#[trigger] r@[i]).connected,
            decreases stored@.len() - n,
        {
            let ghost before = r@;
            let id = stored[n];
            r.insert(AccountEntry { id, connected: false });
            proof {
                let entry = AccountEntry { id, connected: false };
                assert forall|other: u64| has_account(r@, other) <==> stored@.subrange(
                    0,
                    n + 1,
                ).contains(other) by {
                    let now = stored@.subrange(0, n + 1);
                    let earlier = stored@.subrange(0, n as int);
                    if has_account(r@, other) && other != id {
                        assert(has_account(before, other));
                        let k = choose|k: int| 0 <= k < earlier.len() && earlier[k] == other;
                        assert(now[k] == other);
                    }
                    if other == id {
                        assert(now[n as int] == other);
                    }
                    if now.contains(other) && other != id {
                        let k = choose|k: int| 0 <= k < now.len() && now[k] == other;
                        assert(earlier[k] == other);
                        assert(has_account(before, other));
                    }
                }
            }
            n += 1;
        }
        assert(stored@.subrange(0, n as int) =~= stored@);
        r
    }

    /// Where the account `id` is, or where it belongs.
    fn search(&self, id: u64) -> (r: (bool, usize))
        requires
            ascending(self@),
        ensures
            is_rank(self@, id, r.1 as int),
            r.0 == has_account(self@, id),
            r.0 ==> account_at(self@, id, r.1 as int) && position_of(self@, id) == r.1,
    {
        let mut k: usize = 0;
        while k < self.entries.len() && self.entries[k].id < id
            invariant
                k <= self.entries@.len(),
                forall|i: int| 0 <= i < k ==> self.entries@[i].id < id,
            decreases self.entries@.len() - k,
        {
            k += 1;
        }
        let found = k < self.entries.len() && self.entries[k].id == id;
        proof {
            assert forall|i: int| k <= i < self@.len() implies self@[i].id >= id by {
                if i > k {
                    assert(self@[k as int].id < self@[i].id);
                }
            }
            if found {
                lemma_position_is_unique(self@, id, k as int);
            } else {
                assert forall|i: int| !account_at(self@, id, i) by {
                    if 0 <= i < k {
                        assert(self@[i].id < id);
                    }
                }
            }
        }
        (found, k)
    }

    /// The identifiers of all accounts, in ascending order.
    pub fn account_ids(&self) -> (ids: Vec<u64>)
        ensures
            ids@ == ids_of(self@),
    {
        let mut ids: Vec<u64> = Vec::new();
        let mut i: usize = 0;
        while i < self.entries.len()
            invariant
                i <= self.entries@.len(),
                ids@ == ids_of(self@.subrange(0, i as int)),
            decreases self.entries@.len() - i,
        {
            ids.push(self.entries[i].id);
            assert(ids@ =~= ids_of(self@.subrange(0, i + 1)));
            i += 1;
        }
        assert(self@.subrange(0, i as int) =~= self@);
        ids
    }

    /// The authentication state of every account, in ascending order of the
    /// identifiers: the default state for each, along with success.
    pub fn account_auth_states(&self) -> (r: (Status, Vec<AccountAuthState>))
        ensures
            r.0 == Status::Okay,
            r.1@.len() == self@.len(),
            forall|i: int|
                0 <= i < self@.len() ==> #[trigger] r.1@[i] == (AccountAuthState {
                    account_id: self@[i].id,
                    auth_state: DEFAULT_AUTH_STATE,
                }),
    {
        let mut states: Vec<AccountAuthState> = Vec::new();
        let mut i: usize = 0;
        while i < self.entries.len()
            invariant
                i <= self.entries@.len(),
                states@.len() == i,
                forall|k: int|
                    0 <= k < i ==> #[trigger] states@[k] == (AccountAuthState {
                        account_id: self@[k].id,
                        auth_state: DEFAULT_AUTH_STATE,
                    }),
            decreases self.entries@.len() - i,
        {
            states.push(
                AccountAuthState { account_id: self.entries[i].id, auth_state: DEFAULT_AUTH_STATE },
            );
            i += 1;
        }
        (Status::Okay, states)
    }

    /// What is known of the handler of the account `id`.
    pub fn lookup(&self, id: u64) -> (state: HandlerState)
        requires
            ascending(self@),
        ensures
            state == spec_lookup(self@, id),
    {
        let (found, k) = self.search(id);
        if !found {
            HandlerState::NotFound
        } else if self.entries[k].connected {
            HandlerState::Connected
        } else {
            HandlerState::Unconnected
        }
    }

    /// Puts `entry` in its place: in place of the entry of the same account
    /// if there is one, else where its identifier belongs.
    pub fn insert(&mut self, entry: AccountEntry)
        requires
            ascending(old(self)@),
        ensures
            final(self)@ == spec_with(old(self)@, entry),
            ascending(final(self)@),
            forall|id: u64|
                has_account(final(self)@, id) <==> (id == entry.id || has_account(old(self)@, id)),
            forall|i: int|
                0 <= i < final(self)@.len() ==> #[trigger] final(self)@[i] == entry || exists|j: int|
                    0 <= j < old(self)@.len() && old(self)@[j] == final(self)@[i],
    {
        let ghost before = self@;
        let (found, k) = self.search(entry.id);
        if found {
            self.entries.set(k, entry);
            proof {
                assert(self@ =~= before.update(k as int, entry));
                assert forall|id: u64| has_account(self@, id) <==> (id == entry.id || has_account(
                    before,
                    id,
                )) by {
                    if has_account(self@, id) {
                        let i = choose|i: int| account_at(self@, id, i);
                        assert(account_at(before, id, i));
                    }
                    if has_account(before, id) {
                        let i = choose|i: int| account_at(before, id, i);
                        assert(account_at(self@, id, i));
                    }
                    assert(account_at(self@, entry.id, k as int));
                }
                assert forall|i: int| 0 <= i < self@.len() implies #[trigger] self@[i] == entry
                    || exists|j: int| 0 <= j < before.len() && before[j] == self@[i] by {
                    if i != k {
                        assert(before[i] == self@[i]);
                    }
                }
            }
        } else {
            proof {
                lemma_rank_is_unique(before, entry.id, k as int);
            }
            self.entries.insert(k, entry);
            proof {
                assert(self@ == before.insert(k as int, entry));
                assert forall|i: int, j: int| 0 <= i < j < self@.len() implies self@[i].id
                    < self@[j].id by {
                    if i < k && j > k {
                        assert(before[i].id < entry.id);
                        assert(before[j - 1].id >= entry.id);
                        assert(!account_at(before, entry.id, j - 1));
                    } else if i == k {
                        assert(before[j - 1].id >= entry.id);
                        assert(!account_at(before, entry.id, j - 1));
                    } else if j == k {
                        assert(before[i].id < entry.id);
                    } else if j < k {
                        assert(before[i].id < before[j].id);
                    } else {
                        assert(before[i - 1].id < before[j - 1].id);
                    }
                }
                assert forall|id: u64| has_account(self@, id) <==> (id == entry.id || has_account(
                    before,
                    id,
                )) by {
                    if has_account(self@, id) && id != entry.id {
                        let i = choose|i: int| account_at(self@, id, i);
                        if i < k {
                            assert(account_at(before, id, i));
                        } else {
                            assert(account_at(before, id, i - 1));
                        }
                    }
                    if has_account(before, id) {
                        let i = choose|i: int| account_at(before, id, i);
                        if i < k {
                            assert(account_at(self@, id, i));
                        } else {
                            assert(account_at(self@, id, i + 1));
                        }
                    }
                    assert(account_at(self@, entry.id, k as int));
                }
                assert forall|i: int| 0 <= i < self@.len() implies #[trigger] self@[i] == entry
                    || exists|j: int| 0 <= j < before.len() && before[j] == self@[i] by {
                    if i < k {
                        assert(before[i] == self@[i]);
                    } else if i > k {
                        assert(before[i - 1] == self@[i]);
                    }
                }
            }
        }
    }

    /// Records that a handler is open for the account `id`, which comes to
    /// exist if it did not.
    pub fn mark_connected(&mut self, id: u64)
        requires
            ascending(old(self)@),
        ensures
            final(self)@ == spec_with(old(self)@, AccountEntry { id, connected: true }),
            ascending(final(self)@),
    {
        self.insert(AccountEntry { id, connected: true });
    }

    /// What has to happen to remove the account `id`: nothing if there is no
    /// such account; else its handler is terminated if one is open, and the
    /// other accounts are persisted, in ascending order.
    pub fn plan_removal(&self, id: u64) -> (plan: Option<Removal>)
        requires
            ascending(self@),
        ensures
            plan is None <==> !has_account(self@, id),
            plan is Some ==> plan->0.terminate_handler == self@[position_of(self@, id)].connected
                && plan->0.remaining@ == ids_of(spec_without(self@, id)),
    {
        let (found, k) = self.search(id);
        if !found {
            return None;
        }
        let mut remaining: Vec<u64> = Vec::new();
        let mut i: usize = 0;
        while i < self.entries.len()
            invariant
                i <= self.entries@.len(),
                k < self.entries@.len(),
                i <= k ==> remaining@ == ids_of(self@.subrange(0, i as int)),
                i > k ==> remaining@ == ids_of(self@.subrange(0, i as int).remove(k as int)),
            decreases self.entries@.len() - i,
        {
            if i != k {
                remaining.push(self.entries[i].id);
            }
            proof {
                if i < k {
                    assert(remaining@ =~= ids_of(self@.subrange(0, i + 1)));
                } else {
                    assert(remaining@ =~= ids_of(self@.subrange(0, i + 1).remove(k as int)));
                }
            }
            i += 1;
        }
        assert(self@.subrange(0, i as int) =~= self@);
        Some(Removal { terminate_handler: self.entries[k].connected, remaining })
    }

    /// Removes the account `id`. Returns whether there was such an account.
    pub fn remove(&mut self, id: u64) -> (removed: bool)
        requires
            ascending(old(self)@),
        ensures
            removed == has_account(old(self)@, id),
            final(self)@ == spec_without(old(self)@, id),
            ascending(final(self)@),
            !has_account(final(self)@, id),
    {
        let ghost before = self@;
        let (found, k) = self.search(id);
        if found {
            self.entries.remove(k);
            proof {
                assert(self@ == before.remove(k as int));
                assert forall|i: int, j: int| 0 <= i < j < self@.len() implies self@[i].id
                    < self@[j].id by {
                    let a = if i < k { i } else { i + 1 };
                    let b = if j < k { j } else { j + 1 };
                    assert(before[a].id < before[b].id);
                }
                assert forall|i: int| !account_at(self@, id, i) by {
                    if 0 <= i < self@.len() {
                        let a = if i < k { i } else { i + 1 };
                        assert(self@[i] == before[a]);
                        if before[a].id == id {
                            lemma_position_is_unique(before, id, a);
                        }
                    }
                }
            }
        }
        found
    }

    /// The accounts to persist when the account `id` is added: those that
    /// exist, in ascending order, and then the new one. An account that
    /// exists already cannot be added.
    pub fn plan_addition(&self, id: u64) -> (plan: Result<Vec<u64>, Status>)
        requires
            ascending(self@),
        ensures
            has_account(self@, id) ==> plan == Err::<Vec<u64>, Status>(Status::UnknownError),
            !has_account(self@, id) ==> plan is Ok && plan->Ok_0@ == ids_of(self@).push(id),
    {
        let (found, _k) = self.search(id);
        if found {
            return Err(Status::UnknownError);
        }
        let mut ids = self.account_ids();
        ids.push(id);
        Ok(ids)
    }
}

/// What the answer of a collaborator means for a sequence of steps: success
/// lets it go on, any other status ends it with that status, and an answer
/// that never came ends it with an I/O error.
pub fn step_outcome(answer: Option<Status>) -> (r: Result<(), Status>)
    ensures
        r == (match answer {
            Some(Status::Okay) => Ok::<(), Status>(()),
            Some(status) => Err(status),
            None => Err(Status::IoError),
        }),
{
    match answer {
        Some(Status::Okay) => Ok(()),
        Some(status) => Err(status),
        None => Err(Status::IoError),
    }
}

} // verus!
