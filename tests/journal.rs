use crudapp::address::{derive_address, same_key, StoreError};
use crudapp::store::{
    journal_entry_create, journal_entry_delete, journal_entry_update, CreateJournalEntry,
    DeleteJournalEntry, JournalStore, UpdateJournalEntry, ENTRY_SPACE,
};

const PROGRAM: [u8; 32] = [7u8; 32];
const ALICE: [u8; 32] = [1u8; 32];
const BOB: [u8; 32] = [2u8; 32];
const DEPOSIT: u64 = 3_507_840;

fn create_ctx(owner: [u8; 32], funds: u64, now: u64) -> CreateJournalEntry {
    CreateJournalEntry { owner, owner_signed: true, payer: owner, payer_funds: funds, now }
}

fn update_ctx(owner: [u8; 32]) -> UpdateJournalEntry {
    UpdateJournalEntry { owner, owner_signed: true }
}

fn delete_ctx(owner: [u8; 32]) -> DeleteJournalEntry {
    DeleteJournalEntry { owner, owner_signed: true }
}

#[test]
fn notes_lifecycle() {
    let mut store = JournalStore::new(PROGRAM);
    let mut ctx = create_ctx(ALICE, 10_000_000, 1_700_000_000);
    assert_eq!(journal_entry_create(&mut store, &mut ctx, "notes".to_string(), "hi".to_string()), Ok(()));
    let e = store.lookup("notes", &ALICE).unwrap();
    assert_eq!(e.title, "notes");
    assert_eq!(e.description, "hi");
    assert_eq!(e.owner, ALICE);
    assert_eq!(e.id, 1_700_000_000);
    assert_eq!(e.created_at, 1_700_000_000);

    assert_eq!(journal_entry_update(&mut store, &update_ctx(ALICE), "notes".to_string(), "bye".to_string()), Ok(()));
    let e = store.lookup("notes", &ALICE).unwrap();
    assert_eq!(e.description, "bye");
    assert_eq!(e.title, "notes");
    assert_eq!(e.id, 1_700_000_000);
    assert_eq!(e.created_at, 1_700_000_000);

    let refund = journal_entry_delete(&mut store, &delete_ctx(ALICE), "notes".to_string()).unwrap();
    assert_eq!(refund.payer, ALICE);
    assert!(store.lookup("notes", &ALICE).is_none());
    assert_eq!(
        journal_entry_update(&mut store, &update_ctx(ALICE), "notes".to_string(), "again".to_string()),
        Err(StoreError::NotFound)
    );
}

#[test]
fn derivation_is_deterministic() {
    let a = derive_address("notes", &ALICE, &PROGRAM).unwrap();
    let b = derive_address("notes", &ALICE, &PROGRAM).unwrap();
    assert_eq!(a, b);
    assert!(!same_key(&a.0, &ALICE));
    assert!(!same_key(&a.0, &PROGRAM));
    let c = derive_address("notes", &BOB, &PROGRAM).unwrap();
    assert_ne!(a.0, c.0);
    let d = derive_address("todo", &ALICE, &PROGRAM).unwrap();
    assert_ne!(a.0, d.0);
}

#[test]
fn derivation_rejects_long_title() {
    let title = "t".repeat(33);
    assert_eq!(derive_address(&title, &ALICE, &PROGRAM), Err(StoreError::LengthExceeded));
    assert!(derive_address(&"t".repeat(32), &ALICE, &PROGRAM).is_ok());
}

#[test]
fn create_twice_fails() {
    let mut store = JournalStore::new(PROGRAM);
    let mut ctx = create_ctx(ALICE, 10_000_000, 5);
    assert_eq!(journal_entry_create(&mut store, &mut ctx, "notes".to_string(), "hi".to_string()), Ok(()));
    let funds = ctx.payer_funds;
    assert_eq!(
        journal_entry_create(&mut store, &mut ctx, "notes".to_string(), "other".to_string()),
        Err(StoreError::AlreadyExists)
    );
    assert_eq!(ctx.payer_funds, funds);
    assert_eq!(store.len(), 1);
    assert_eq!(store.lookup("notes", &ALICE).unwrap().description, "hi");
}

#[test]
fn same_title_other_owner_is_separate() {
    let mut store = JournalStore::new(PROGRAM);
    let mut a = create_ctx(ALICE, 10_000_000, 5);
    let mut b = create_ctx(BOB, 10_000_000, 6);
    assert_eq!(journal_entry_create(&mut store, &mut a, "notes".to_string(), "alice".to_string()), Ok(()));
    assert_eq!(journal_entry_create(&mut store, &mut b, "notes".to_string(), "bob".to_string()), Ok(()));
    assert_eq!(store.len(), 2);
    assert_eq!(
        journal_entry_delete(&mut store, &delete_ctx(BOB), "other".to_string()).unwrap_err(),
        StoreError::NotFound
    );
    assert_eq!(store.lookup("notes", &ALICE).unwrap().description, "alice");
    assert_eq!(store.lookup("notes", &BOB).unwrap().description, "bob");
}

#[test]
fn create_delete_create_gives_fresh_record() {
    let mut store = JournalStore::new(PROGRAM);
    let mut ctx = create_ctx(ALICE, 10_000_000, 100);
    assert_eq!(journal_entry_create(&mut store, &mut ctx, "notes".to_string(), "hi".to_string()), Ok(()));
    let first = store.lookup("notes", &ALICE).unwrap().id;
    assert!(journal_entry_delete(&mut store, &delete_ctx(ALICE), "notes".to_string()).is_ok());
    assert_eq!(store.len(), 0);
    ctx.now = 200;
    assert_eq!(journal_entry_create(&mut store, &mut ctx, "notes".to_string(), "hi".to_string()), Ok(()));
    let e = store.lookup("notes", &ALICE).unwrap();
    assert_ne!(e.id, first);
    assert_eq!(e.id, 200);
    assert_eq!(e.created_at, 200);
}

#[test]
fn update_missing_is_not_found() {
    let mut store = JournalStore::new(PROGRAM);
    assert_eq!(
        journal_entry_update(&mut store, &update_ctx(ALICE), "notes".to_string(), "bye".to_string()),
        Err(StoreError::NotFound)
    );
    assert_eq!(store.len(), 0);
    assert!(store.lookup("notes", &ALICE).is_none());
}

#[test]
fn description_bound_on_create_and_update() {
    let mut store = JournalStore::new(PROGRAM);
    let mut ctx = create_ctx(ALICE, 10_000_000, 1);
    let long = "d".repeat(281);
    let exact = "d".repeat(280);
    assert_eq!(
        journal_entry_create(&mut store, &mut ctx, "notes".to_string(), long.clone()),
        Err(StoreError::LengthExceeded)
    );
    assert_eq!(store.len(), 0);
    assert_eq!(journal_entry_create(&mut store, &mut ctx, "notes".to_string(), exact.clone()), Ok(()));
    assert_eq!(
        journal_entry_update(&mut store, &update_ctx(ALICE), "notes".to_string(), long),
        Err(StoreError::LengthExceeded)
    );
    assert_eq!(store.lookup("notes", &ALICE).unwrap().description, exact);
    assert_eq!(journal_entry_update(&mut store, &update_ctx(ALICE), "notes".to_string(), "e".repeat(280)), Ok(()));
    assert_eq!(store.lookup("notes", &ALICE).unwrap().description, "e".repeat(280));
}

#[test]
fn title_bound_on_create() {
    let mut store = JournalStore::new(PROGRAM);
    let mut ctx = create_ctx(ALICE, 10_000_000, 1);
    assert_eq!(
        journal_entry_create(&mut store, &mut ctx, "t".repeat(33), "hi".to_string()),
        Err(StoreError::LengthExceeded)
    );
    assert_eq!(journal_entry_create(&mut store, &mut ctx, "t".repeat(32), "hi".to_string()), Ok(()));
}

#[test]
fn unsigned_requests_are_unauthorized() {
    let mut store = JournalStore::new(PROGRAM);
    let mut ctx = create_ctx(ALICE, 10_000_000, 1);
    ctx.owner_signed = false;
    assert_eq!(
        journal_entry_create(&mut store, &mut ctx, "notes".to_string(), "hi".to_string()),
        Err(StoreError::Unauthorized)
    );
    ctx.owner_signed = true;
    assert_eq!(journal_entry_create(&mut store, &mut ctx, "notes".to_string(), "hi".to_string()), Ok(()));
    let unsigned_update = UpdateJournalEntry { owner: ALICE, owner_signed: false };
    assert_eq!(
        journal_entry_update(&mut store, &unsigned_update, "notes".to_string(), "x".to_string()),
        Err(StoreError::Unauthorized)
    );
    let unsigned_delete = DeleteJournalEntry { owner: ALICE, owner_signed: false };
    assert_eq!(
        journal_entry_delete(&mut store, &unsigned_delete, "notes".to_string()).unwrap_err(),
        StoreError::Unauthorized
    );
    assert_eq!(store.len(), 1);
}

#[test]
fn deposit_is_returned_to_payer() {
    assert_eq!(ENTRY_SPACE, 376);
    let mut store = JournalStore::new(PROGRAM);
    let mut ctx = CreateJournalEntry { owner: ALICE, owner_signed: true, payer: BOB, payer_funds: 5_000_000, now: 9 };
    assert_eq!(journal_entry_create(&mut store, &mut ctx, "notes".to_string(), "hi".to_string()), Ok(()));
    assert_eq!(ctx.payer_funds, 5_000_000 - DEPOSIT);
    let refund = journal_entry_delete(&mut store, &delete_ctx(ALICE), "notes".to_string()).unwrap();
    assert_eq!(refund.payer, BOB);
    assert_eq!(refund.lamports, DEPOSIT);
    assert_eq!(ctx.payer_funds + refund.lamports, 5_000_000);
}

#[test]
fn insufficient_funds_changes_nothing() {
    let mut store = JournalStore::new(PROGRAM);
    let mut ctx = create_ctx(ALICE, DEPOSIT - 1, 1);
    assert_eq!(
        journal_entry_create(&mut store, &mut ctx, "notes".to_string(), "hi".to_string()),
        Err(StoreError::InsufficientFunds)
    );
    assert_eq!(ctx.payer_funds, DEPOSIT - 1);
    assert_eq!(store.len(), 0);
    ctx.payer_funds = DEPOSIT;
    assert_eq!(journal_entry_create(&mut store, &mut ctx, "notes".to_string(), "hi".to_string()), Ok(()));
    assert_eq!(ctx.payer_funds, 0);
}

#[test]
fn same_key_compares_bytes() {
    let mut k = ALICE;
    assert!(same_key(&k, &ALICE));
    k[31] = 9;
    assert!(!same_key(&k, &ALICE));
}
