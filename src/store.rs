use crate::address::{default_rent_minimum, derive_address, derived, rent_exempt, same_key, utf8_bytes, StoreError, MAX_TITLE_LEN};
use vstd::prelude::*;

verus! {

/// Largest encoded length of a description.
pub const MAX_DESCRIPTION_LEN: usize = 280;

/// Bytes reserved for every record, whatever its content: an 8-byte header,
/// the id, the owner key, both strings at their bound with their 4-byte length
/// prefixes, and the creation time.
pub const ENTRY_SPACE: usize = 376;

/// A journal record.
pub struct JournalEntry {
    pub id: u64,
    pub owner: [u8; 32],
    pub title: String,
    pub description: String,
    pub created_at: u64,
}

/// What a create request carries besides the content: the owner, whether the
/// host verified the owner's signature, the payer, the payer's funds and the
/// host's clock reading.
pub struct CreateJournalEntry {
    pub owner: [u8; 32],
    pub owner_signed: bool,
    pub payer: [u8; 32],
    pub payer_funds: u64,
    pub now: u64,
}

/// What an update request carries besides the content.
pub struct UpdateJournalEntry {
    pub owner: [u8; 32],
    pub owner_signed: bool,
}

/// What a delete request carries besides the title.
pub struct DeleteJournalEntry {
    pub owner: [u8; 32],
    pub owner_signed: bool,
}

/// The deposit handed back when a record is deleted, and to whom.
#[derive(Debug, Clone, Copy)]
pub struct Refund {
    pub payer: [u8; 32],
    pub lamports: u64,
}

/// A record resident at a derived address, with the salt that derived it and
/// the deposit that pays for its storage.
pub struct Slot {
    pub address: [u8; 32],
    pub bump: u8,
    pub entry: JournalEntry,
    pub payer: [u8; 32],
    pub lamports: u64,
}

/// The records of one program, each at the address derived from its title
/// and owner.
pub struct JournalStore {
    pub program_id: [u8; 32],
    pub slots: Vec<Slot>,
}

/// The mathematical model of a store.
pub struct StoreModel {
    pub program: Seq<u8>,
    pub slots: Seq<Slot>,
}

/// The deposit that each record costs.
pub open spec fn deposit() -> nat {
    rent_exempt(ENTRY_SPACE as nat)
}

impl StoreModel {
    /// Some record resides at `a`.
    pub open spec fn holds(self, a: Seq<u8>) -> bool {
        exists|i: int| 0 <= i < self.slots.len() && self.slots[i].address@ == a
    }

    /// The position of the record at `a`, when one resides there.
    pub open spec fn index_of(self, a: Seq<u8>) -> int {
        choose|i: int| 0 <= i < self.slots.len() && self.slots[i].address@ == a
    }

    /// Addresses are distinct, every record keeps its bounds, and every
    /// record sits at the address derived from its title and owner.
    pub open spec fn wf(self) -> bool {
        &&& forall|i: int, j: int|
            0 <= i < self.slots.len() && 0 <= j < self.slots.len() && i != j
                ==> self.slots[i].address@ != self.slots[j].address@
        &&& forall|i: int| 0 <= i < self.slots.len() ==> #[trigger] slot_wf(self.slots[i], self.program)
    }

    /// Why a create request fails, if it does.
    pub open spec fn create_error(self, ctx: CreateJournalEntry, title: Seq<char>, description: Seq<char>) -> Option<StoreError> {
        if !ctx.owner_signed {
            Some(StoreError::Unauthorized)
        } else if utf8_bytes(title).len() > MAX_TITLE_LEN || utf8_bytes(description).len() > MAX_DESCRIPTION_LEN {
            Some(StoreError::LengthExceeded)
        } else {
            match derived(title, ctx.owner@, self.program) {
                None => Some(StoreError::DerivationExhausted),
                Some((a, _)) => if self.holds(a) {
                    Some(StoreError::AlreadyExists)
                } else if ctx.payer_funds < deposit() {
                    Some(StoreError::InsufficientFunds)
                } else {
                    None
                },
            }
        }
    }

    /// Why an update or delete request fails, if it does, given whether a
    /// description comes with it and whether that one is within bounds.
    pub open spec fn access_error(self, owner: Seq<u8>, signed: bool, title: Seq<char>, description_ok: bool) -> Option<StoreError> {
        if !signed {
            Some(StoreError::Unauthorized)
        } else if utf8_bytes(title).len() > MAX_TITLE_LEN || !description_ok {
            Some(StoreError::LengthExceeded)
        } else {
            match derived(title, owner, self.program) {
                None => Some(StoreError::DerivationExhausted),
                Some((a, _)) => if !self.holds(a) {
                    Some(StoreError::NotFound)
                } else if self.slots[self.index_of(a)].entry.owner@ != owner {
                    Some(StoreError::Unauthorized)
                } else {
                    None
                },
            }
        }
    }

    /// `next` is this store with the record of a successful create request
    /// added: the address and salt derived from the title and owner, the
    /// clock reading as both id and creation time, and the deposit.
    pub open spec fn create_step(self, next: StoreModel, ctx: CreateJournalEntry, title: String, description: String) -> bool {
        let s = next.slots.last();
        &&& next.program == self.program
        &&& next.slots.len() == self.slots.len() + 1
        &&& next.slots.drop_last() == self.slots
        &&& Some((s.address@, s.bump)) == derived(title@, ctx.owner@, self.program)
        &&& s.entry == (JournalEntry {
            id: ctx.now,
            owner: ctx.owner,
            title,
            description,
            created_at: ctx.now,
        })
        &&& s.payer == ctx.payer
        &&& s.lamports as nat == deposit()
    }

    /// `next` is this store with the description of the record named by
    /// `title` and `owner` replaced; its title, owner, id and creation time
    /// stay as they were.
    pub open spec fn update_step(self, next: StoreModel, title: Seq<char>, owner: Seq<u8>, description: String) -> bool {
        let i = self.index_of(self.address_of(title, owner));
        let s = self.slots[i];
        &&& next.program == self.program
        &&& next.slots == self.slots.update(i, Slot {
            address: s.address,
            bump: s.bump,
            entry: JournalEntry {
                id: s.entry.id,
                owner: s.entry.owner,
                title: s.entry.title,
                description,
                created_at: s.entry.created_at,
            },
            payer: s.payer,
            lamports: s.lamports,
        })
    }

    /// `next` is this store without the record named by `title` and `owner`.
    pub open spec fn delete_step(self, next: StoreModel, title: Seq<char>, owner: Seq<u8>) -> bool {
        &&& next.program == self.program
        &&& next.slots == self.slots.remove(self.index_of(self.address_of(title, owner)))
    }

    /// The address that a request for `title` by `owner` names.
    pub open spec fn address_of(self, title: Seq<char>, owner: Seq<u8>) -> Seq<u8> {
        derived(title, owner, self.program).unwrap().0
    }
}

/// In a well-formed store the record at `a` is the one whose address is `a`.
pub proof fn lemma_index_of(m: StoreModel, a: Seq<u8>, i: int)
    requires
        m.wf(),
        0 <= i < m.slots.len(),
        m.slots[i].address@ == a,
    ensures
        m.holds(a),
        m.index_of(a) == i,
{
    assert(m.holds(a));
    let k = m.index_of(a);
    if k != i {
        assert(m.slots[k].address@ != m.slots[i].address@);
    }
}

/// A successful create keeps the store well formed.
pub proof fn lemma_create_wf(m: StoreModel, next: StoreModel, ctx: CreateJournalEntry, title: String, description: String)
    requires
        m.wf(),
        m.create_error(ctx, title@, description@) is None,
        m.create_step(next, ctx, title, description),
    ensures
        next.wf(),
{
    let n = m.slots.len() as int;
    assert forall|i: int| 0 <= i < n implies next.slots[i] == m.slots[i] by {
        assert(next.slots[i] == next.slots.drop_last()[i]);
    }
    let a = next.slots[n].address@;
    assert forall|i: int| 0 <= i < n implies next.slots[i].address@ != a by {
        if next.slots[i].address@ == a {
            assert(m.slots[i].address@ == a);
            assert(m.holds(a));
        }
    }
    assert(slot_wf(next.slots[n], next.program));
}

/// A successful update keeps the store well formed.
pub proof fn lemma_update_wf(m: StoreModel, next: StoreModel, title: Seq<char>, owner: Seq<u8>, description: String)
    requires
        m.wf(),
        m.access_error(owner, true, title, utf8_bytes(description@).len() <= MAX_DESCRIPTION_LEN) is None,
        m.update_step(next, title, owner, description),
    ensures
        next.wf(),
{
    let i = m.index_of(m.address_of(title, owner));
    assert(slot_wf(m.slots[i], m.program));
    assert(slot_wf(next.slots[i], next.program));
}

/// Removing a record keeps the store well formed.
pub proof fn lemma_remove_wf(m: StoreModel, next: StoreModel, i: int)
    requires
        m.wf(),
        0 <= i < m.slots.len(),
        next.program == m.program,
        next.slots == m.slots.remove(i),
    ensures
        next.wf(),
{
    assert forall|j: int| 0 <= j < next.slots.len() implies next.slots[j] == m.slots[if j < i { j } else { j + 1 }] by {}
    assert forall|j: int, k: int|
        0 <= j < next.slots.len() && 0 <= k < next.slots.len() && j != k
        implies next.slots[j].address@ != next.slots[k].address@ by {
        let jj = if j < i { j } else { j + 1 };
        let kk = if k < i { k } else { k + 1 };
        assert(m.slots[jj].address@ != m.slots[kk].address@);
    }
    assert forall|j: int| 0 <= j < next.slots.len() implies #[trigger] slot_wf(next.slots[j], next.program) by {
        let jj = if j < i { j } else { j + 1 };
        assert(slot_wf(m.slots[jj], m.program));
    }
}

/// A slot keeps its bounds and sits at the address derived from its title
/// and owner with its salt.
pub open spec fn slot_wf(s: Slot, program: Seq<u8>) -> bool {
    &&& utf8_bytes(s.entry.title@).len() <= MAX_TITLE_LEN
    &&& utf8_bytes(s.entry.description@).len() <= MAX_DESCRIPTION_LEN
    &&& derived(s.entry.title@, s.entry.owner@, program) == Some((s.address@, s.bump))
}

impl View for JournalStore {
    type V = StoreModel;

    open spec fn view(&self) -> StoreModel {
        StoreModel { program: self.program_id@, slots: self.slots@ }
    }
}

impl JournalStore {
    /// An empty store for the program whose key is `program_id`.
    pub fn new(program_id: [u8; 32]) -> (r: Self)
        ensures
            r@.program == program_id@,
            r@.slots.len() == 0,
            r@.wf(),
    {
        JournalStore { program_id, slots: Vec::new() }
    }

    /// The number of resident records.
    pub fn len(&self) -> (r: usize)
        ensures
            r == self@.slots.len(),
    {
        self.slots.len()
    }

    /// The position of the record at `a`, if one resides there.
    fn position(&self, a: &[u8; 32]) -> (r: Option<usize>)
        requires
            self@.wf(),
        ensures
            match r {
                Some(i) => i < self@.slots.len() && self@.slots[i as int].address@ == a@ && self@.holds(a@)
                    && self@.index_of(a@) == i,
                None => !self@.holds(a@),
            },
    {
        let mut i: usize = 0;
        while i < self.slots.len()
            invariant
                i <= self.slots@.len(),
                self@.wf(),
                forall|j: int| 0 <= j < i ==> self.slots@[j].address@ != a@,
            decreases self.slots@.len() - i,
        {
            if same_key(&self.slots[i].address, a) {
                proof {
                    lemma_index_of(self@, a@, i as int);
                }
                return Some(i);
            }
            i = i + 1;
        }
        None
    }

    /// The record titled `title` owned by `owner`, if one resides here.
    pub fn lookup(&self, title: &str, owner: &[u8; 32]) -> (r: Option<&JournalEntry>)
        requires
            self@.wf(),
        ensures
            match r {
                Some(e) => derived(title@, owner@, self@.program) is Some
                    && self@.holds(self@.address_of(title@, owner@))
                    && *e == self@.slots[self@.index_of(self@.address_of(title@, owner@))].entry,
                None => utf8_bytes(title@).len() > MAX_TITLE_LEN || derived(title@, owner@, self@.program) is None
                    || !self@.holds(self@.address_of(title@, owner@)),
            },
    {
        match derive_address(title, owner, &self.program_id) {
            Err(_) => None,
            Ok((a, _)) => match self.position(&a) {
                Some(i) => Some(&self.slots[i].entry),
                None => None,
            },
        }
    }
}

/// Creates the record titled `title` for the owner of `ctx`, at the address
/// derived from the title and the owner, and takes its storage deposit from
/// the payer's funds. Fails, changing nothing, when the owner did not sign,
/// a string is over its bound, derivation finds no address, a record already
/// resides there, or the payer cannot cover the deposit.
pub fn journal_entry_create(
    store: &mut JournalStore,
    ctx: &mut CreateJournalEntry,
    title: String,
    description: String,
) -> (r: Result<(), StoreError>)
    requires
        old(store)@.wf(),
    ensures
        final(store)@.wf(),
        match old(store)@.create_error(*old(ctx), title@, description@) {
            Some(e) => r == Err::<(), StoreError>(e) && final(store)@ == old(store)@ && *final(ctx) == *old(ctx),
            None => r is Ok && old(store)@.create_step(final(store)@, *old(ctx), title, description)
                && final(ctx).payer_funds == old(ctx).payer_funds - deposit()
                && final(ctx).owner == old(ctx).owner && final(ctx).owner_signed == old(ctx).owner_signed
                && final(ctx).payer == old(ctx).payer && final(ctx).now == old(ctx).now,
        },
{
    if !ctx.owner_signed {
        return Err(StoreError::Unauthorized);
    }
    if title.as_str().as_bytes().len() > MAX_TITLE_LEN || description.as_str().as_bytes().len() > MAX_DESCRIPTION_LEN {
        return Err(StoreError::LengthExceeded);
    }
    let (address, bump) = match derive_address(title.as_str(), &ctx.owner, &store.program_id) {
        Ok(p) => p,
        Err(e) => return Err(e),
    };
    if store.position(&address).is_some() {
        return Err(StoreError::AlreadyExists);
    }
    let lamports = default_rent_minimum(ENTRY_SPACE);
    if ctx.payer_funds < lamports {
        return Err(StoreError::InsufficientFunds);
    }
    ctx.payer_funds = ctx.payer_funds - lamports;
    let entry = JournalEntry {
        id: ctx.now,
        owner: ctx.owner,
        title,
        description,
        created_at: ctx.now,
    };
    let ghost m0 = store@;
    store.slots.push(Slot { address, bump, entry, payer: ctx.payer, lamports });
    proof {
        assert(store@.slots.drop_last() =~= m0.slots);
        lemma_create_wf(m0, store@, *old(ctx), title, description);
    }
    Ok(())
}

/// The position of the record that a signed request for `title` by `owner`
/// may reach, or why it may not.
fn reach(store: &JournalStore, owner: &[u8; 32], signed: bool, title: &str, description_ok: bool) -> (r: Result<usize, StoreError>)
    requires
        store@.wf(),
    ensures
        match store@.access_error(owner@, signed, title@, description_ok) {
            Some(e) => r == Err::<usize, StoreError>(e),
            None => r is Ok && r->Ok_0 == store@.index_of(store@.address_of(title@, owner@))
                && r->Ok_0 < store@.slots.len(),
        },
{
    if !signed {
        return Err(StoreError::Unauthorized);
    }
    if title.as_bytes().len() > MAX_TITLE_LEN || !description_ok {
        return Err(StoreError::LengthExceeded);
    }
    let (address, _bump) = match derive_address(title, owner, &store.program_id) {
        Ok(p) => p,
        Err(e) => return Err(e),
    };
    match store.position(&address) {
        None => Err(StoreError::NotFound),
        Some(i) => {
            if !same_key(&store.slots[i].entry.owner, owner) {
                Err(StoreError::Unauthorized)
            } else {
                Ok(i)
            }
        },
    }
}

/// Replaces the description of the record titled `title` owned by the owner
/// of `ctx`. The title names the record and is never rewritten: the record's
/// title, owner, id and creation time stay as they were. Fails, changing
/// nothing, when the owner did not sign, a string is over its bound,
/// derivation finds no address, no record resides there, or the resident
/// record has another owner.
pub fn journal_entry_update(
    store: &mut JournalStore,
    ctx: &UpdateJournalEntry,
    title: String,
    description: String,
) -> (r: Result<(), StoreError>)
    requires
        old(store)@.wf(),
    ensures
        final(store)@.wf(),
        match old(store)@.access_error(ctx.owner@, ctx.owner_signed, title@, utf8_bytes(description@).len() <= MAX_DESCRIPTION_LEN) {
            Some(e) => r == Err::<(), StoreError>(e) && final(store)@ == old(store)@,
            None => r is Ok && old(store)@.update_step(final(store)@, title@, ctx.owner@, description),
        },
{
    let description_ok = description.as_str().as_bytes().len() <= MAX_DESCRIPTION_LEN;
    let i = match reach(store, &ctx.owner, ctx.owner_signed, title.as_str(), description_ok) {
        Ok(i) => i,
        Err(e) => return Err(e),
    };
    let ghost m0 = store@;
    let old_slot = store.slots.remove(i);
    let Slot { address, bump, entry, payer, lamports } = old_slot;
    let JournalEntry { id, owner, title: kept_title, description: _, created_at } = entry;
    let slot = Slot {
        address,
        bump,
        entry: JournalEntry { id, owner, title: kept_title, description, created_at },
        payer,
        lamports,
    };
    store.slots.insert(i, slot);
    proof {
        let ghost s = m0.slots[i as int];
        assert(store@.slots =~= m0.slots.update(i as int, Slot {
            address: s.address,
            bump: s.bump,
            entry: JournalEntry {
                id: s.entry.id,
                owner: s.entry.owner,
                title: s.entry.title,
                description,
                created_at: s.entry.created_at,
            },
            payer: s.payer,
            lamports: s.lamports,
        }));
        lemma_update_wf(m0, store@, title@, ctx.owner@, description);
    }
    Ok(())
}

/// Deletes the record titled `title` owned by the owner of `ctx`, and hands
/// back its deposit to the payer that funded it. Fails, changing nothing,
/// when the owner did not sign, the title is over its bound, derivation finds
/// no address, no record resides there, or the resident record has another
/// owner.
pub fn journal_entry_delete(store: &mut JournalStore, ctx: &DeleteJournalEntry, title: String) -> (r: Result<Refund, StoreError>)
    requires
        old(store)@.wf(),
    ensures
        final(store)@.wf(),
        match old(store)@.access_error(ctx.owner@, ctx.owner_signed, title@, true) {
            Some(e) => r is Err && r->Err_0 == e && final(store)@ == old(store)@,
            None => r is Ok && old(store)@.delete_step(final(store)@, title@, ctx.owner@)
                && r->Ok_0.payer == old(store)@.slots[old(store)@.index_of(old(store)@.address_of(title@, ctx.owner@))].payer
                && r->Ok_0.lamports == old(store)@.slots[old(store)@.index_of(old(store)@.address_of(title@, ctx.owner@))].lamports,
        },
{
    let i = match reach(store, &ctx.owner, ctx.owner_signed, title.as_str(), true) {
        Ok(i) => i,
        Err(e) => return Err(e),
    };
    let ghost m0 = store@;
    let slot = store.slots.remove(i);
    proof {
        lemma_remove_wf(m0, store@, i as int);
    }
    Ok(Refund { payer: slot.payer, lamports: slot.lamports })
}

} // verus!
