use anchor_lang::prelude::Pubkey;
use anchor_lang::prelude::Rent;
use vstd::prelude::*;
use vstd::utf8::encode_utf8;

verus! {

/// Largest encoded length of a title, which is also the largest seed length.
pub const MAX_TITLE_LEN: usize = 32;

/// What address derivation yields for the seeds `[title, owner]` under the
/// program key `program`: the address and its salt, or `None` when no salt
/// gives an address off the curve.
pub uninterp spec fn program_address(title: Seq<u8>, owner: Seq<u8>, program: Seq<u8>) -> Option<(Seq<u8>, u8)>;

/// The UTF-8 bytes of a string.
pub open spec fn utf8_bytes(s: Seq<char>) -> Seq<u8> {
    encode_utf8(s)
}

/// Derivation on a title given as characters.
pub open spec fn derived(title: Seq<char>, owner: Seq<u8>, program: Seq<u8>) -> Option<(Seq<u8>, u8)> {
    program_address(utf8_bytes(title), owner, program)
}

/// Relies on `Pubkey::try_find_program_address` (solana-program, re-exported by
/// anchor-lang): for seeds of at most 32 bytes it searches the salts and returns
/// the first address off the curve with its salt, depending on its arguments alone.
#[verifier::external_body]
fn try_find_address(title: &str, owner: &[u8; 32], program: &[u8; 32]) -> (r: Option<([u8; 32], u8)>)
    requires
        utf8_bytes(title@).len() <= MAX_TITLE_LEN,
    ensures
        match r {
            Some((a, b)) => program_address(utf8_bytes(title@), owner@, program@) == Some((a@, b)),
            None => program_address(utf8_bytes(title@), owner@, program@) is None,
        },
{
    let seeds: [&[u8]; 2] = [title.as_bytes(), &owner[..]];
    Pubkey::try_find_program_address(&seeds, &Pubkey::new_from_array(*program)).map(
        |(k, b)| (k.to_bytes(), b),
    )
}

/// The lamports that keep an account of `data_len` bytes rent exempt under the
/// default rent: two years of 3480 lamports per byte, counting 128 bytes of
/// account overhead.
pub open spec fn rent_exempt(data_len: nat) -> nat {
    (128 + data_len) * 3480 * 2
}

/// Relies on `Rent::minimum_balance` of the default `Rent` (solana-program,
/// re-exported by anchor-lang): `((128 + len) * 3480) as f64 * 2.0`, exact at
/// these sizes.
#[verifier::external_body]
pub(crate) fn default_rent_minimum(data_len: usize) -> (r: u64)
    requires
        data_len <= 1_000_000,
    ensures
        r as nat == rent_exempt(data_len as nat),
{
    Rent::default().minimum_balance(data_len)
}

/// Errors of the store's operations.
#[derive(Debug, Clone, Copy, PartialEq, Eq, Structural)]
pub enum StoreError {
    /// The caller did not prove control of the owner's key, or the key does
    /// not match the resident record's owner.
    Unauthorized,
    /// A record already resides at the derived address.
    AlreadyExists,
    /// No record resides at the derived address.
    NotFound,
    /// A title or description is longer than its bound.
    LengthExceeded,
    /// No salt gives an address off the curve.
    DerivationExhausted,
    /// The payer cannot cover the storage deposit.
    InsufficientFunds,
}

/// What `derive_address` returns for a title given as characters.
pub open spec fn derive_result(title: Seq<char>, owner: Seq<u8>, program: Seq<u8>) -> Result<(Seq<u8>, u8), StoreError> {
    if utf8_bytes(title).len() > MAX_TITLE_LEN {
        Err(StoreError::LengthExceeded)
    } else {
        match derived(title, owner, program) {
            Some(p) => Ok(p),
            None => Err(StoreError::DerivationExhausted),
        }
    }
}

/// Derives the address and salt of the record titled `title` owned by `owner`
/// under the program key `program`.
pub fn derive_address(title: &str, owner: &[u8; 32], program: &[u8; 32]) -> (r: Result<([u8; 32], u8), StoreError>)
    ensures
        match r {
            Ok((a, b)) => derive_result(title@, owner@, program@) == Ok::<(Seq<u8>, u8), StoreError>((a@, b)),
            Err(e) => derive_result(title@, owner@, program@) == Err::<(Seq<u8>, u8), StoreError>(e),
        },
{
    if title.as_bytes().len() > MAX_TITLE_LEN {
        return Err(StoreError::LengthExceeded);
    }
    match try_find_address(title, owner, program) {
        Some(p) => Ok(p),
        None => Err(StoreError::DerivationExhausted),
    }
}

/// Derivation is deterministic: two results of `derive_address` on the same title,
/// owner and program key are the same.
pub proof fn derive_is_deterministic(
    title: Seq<char>,
    owner: Seq<u8>,
    program: Seq<u8>,
    r1: Result<(Seq<u8>, u8), StoreError>,
    r2: Result<(Seq<u8>, u8), StoreError>,
)
    requires
        r1 == derive_result(title, owner, program),
        r2 == derive_result(title, owner, program),
    ensures
        r1 == r2,
{
}

/// Tells whether two keys hold the same bytes.
pub fn same_key(a: &[u8; 32], b: &[u8; 32]) -> (r: bool)
    ensures
        r == (a@ == b@),
{
    let mut i: usize = 0;
    while i < 32
        invariant
            i <= 32,
            a@.len() == 32,
            b@.len() == 32,
            forall|j: int| 0 <= j < i ==> a@[j] == b@[j],
        decreases 32 - i,
    {
        if a[i] != b[i] {
            return false;
        }
        i = i + 1;
    }
    assert(a@ =~= b@);
    true
}

} // verus!
