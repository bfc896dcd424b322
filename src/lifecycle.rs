use crate::address::{derived, utf8_bytes, StoreError, MAX_TITLE_LEN};
use crate::store::{deposit, lemma_create_wf, lemma_index_of, CreateJournalEntry, Refund, StoreModel, MAX_DESCRIPTION_LEN};
use vstd::prelude::*;

verus! {

/// After a successful create, the new record is the one that a request for
/// the same title and owner reaches, and such a request by the signed owner
/// passes every check.
pub proof fn lemma_created_is_reachable(m0: StoreModel, m1: StoreModel, ctx: CreateJournalEntry, title: String, description: String)
    requires
        m0.wf(),
        m0.create_error(ctx, title@, description@) is None,
        m0.create_step(m1, ctx, title, description),
    ensures
        m1.wf(),
        m1.holds(m1.address_of(title@, ctx.owner@)),
        m1.index_of(m1.address_of(title@, ctx.owner@)) == m0.slots.len(),
        m1.access_error(ctx.owner@, true, title@, true) is None,
{
    lemma_create_wf(m0, m1, ctx, title, description);
    let n = m0.slots.len() as int;
    let a = m1.address_of(title@, ctx.owner@);
    assert(m1.slots[n] == m1.slots.last());
    lemma_index_of(m1, a, n);
}

/// Creating a record twice under the same title and owner, with no delete
/// between, fails the second time because the address is occupied.
pub proof fn create_twice_already_exists(
    m0: StoreModel,
    m1: StoreModel,
    ctx1: CreateJournalEntry,
    ctx2: CreateJournalEntry,
    title: String,
    description1: String,
    description2: String,
)
    requires
        m0.wf(),
        m0.create_error(ctx1, title@, description1@) is None,
        m0.create_step(m1, ctx1, title, description1),
        ctx2.owner == ctx1.owner,
        ctx2.owner_signed,
        utf8_bytes(description2@).len() <= MAX_DESCRIPTION_LEN,
    ensures
        m1.create_error(ctx2, title@, description2@) == Some(StoreError::AlreadyExists),
{
    lemma_created_is_reachable(m0, m1, ctx1, title, description1);
}

/// Create, delete and create again under the same title and owner: the
/// delete succeeds and leaves the store as it was before the first create,
/// the second create succeeds, and when the clock has moved on the two
/// records carry different ids and creation times.
pub proof fn create_delete_create(
    m0: StoreModel,
    m1: StoreModel,
    m2: StoreModel,
    m3: StoreModel,
    ctx1: CreateJournalEntry,
    ctx2: CreateJournalEntry,
    title: String,
    description1: String,
    description2: String,
)
    requires
        m0.wf(),
        m0.create_error(ctx1, title@, description1@) is None,
        m0.create_step(m1, ctx1, title, description1),
        m1.delete_step(m2, title@, ctx1.owner@),
        ctx2.owner == ctx1.owner,
        ctx2.owner_signed,
        ctx2.payer_funds >= deposit(),
        utf8_bytes(description2@).len() <= MAX_DESCRIPTION_LEN,
        m2.create_step(m3, ctx2, title, description2),
        ctx2.now != ctx1.now,
    ensures
        m1.access_error(ctx1.owner@, true, title@, true) is None,
        m2 == m0,
        m2.create_error(ctx2, title@, description2@) is None,
        m3.slots.last().entry.id != m1.slots.last().entry.id,
        m3.slots.last().entry.created_at != m1.slots.last().entry.created_at,
{
    lemma_created_is_reachable(m0, m1, ctx1, title, description1);
    assert(m2.slots =~= m0.slots);
}

/// An update of a title and owner under which no record resides fails with
/// `NotFound` (and, by the contract of the update, changes nothing).
pub proof fn update_missing_is_not_found(m: StoreModel, owner: Seq<u8>, title: Seq<char>, description: String)
    requires
        m.wf(),
        utf8_bytes(title).len() <= MAX_TITLE_LEN,
        utf8_bytes(description@).len() <= MAX_DESCRIPTION_LEN,
        derived(title, owner, m.program) is Some,
        !m.holds(m.address_of(title, owner)),
    ensures
        m.access_error(owner, true, title, utf8_bytes(description@).len() <= MAX_DESCRIPTION_LEN) == Some(StoreError::NotFound),
{
}

/// Deleting a record hands back to its payer exactly what its create took
/// from the payer's funds.
pub proof fn delete_refunds_deposit(
    m0: StoreModel,
    m1: StoreModel,
    ctx: CreateJournalEntry,
    ctx_after: CreateJournalEntry,
    title: String,
    description: String,
    refund: Refund,
)
    requires
        m0.wf(),
        m0.create_error(ctx, title@, description@) is None,
        m0.create_step(m1, ctx, title, description),
        ctx_after.payer_funds == ctx.payer_funds - deposit(),
        refund.payer == m1.slots[m1.index_of(m1.address_of(title@, ctx.owner@))].payer,
        refund.lamports == m1.slots[m1.index_of(m1.address_of(title@, ctx.owner@))].lamports,
    ensures
        m1.access_error(ctx.owner@, true, title@, true) is None,
        refund.payer == ctx.payer,
        refund.lamports as nat == deposit(),
        ctx_after.payer_funds + refund.lamports == ctx.payer_funds,
{
    lemma_created_is_reachable(m0, m1, ctx, title, description);
}

} // verus!
