//! The address deriver: a deterministic search for the first counter whose
//! hash of seed label, counter and program identity falls outside the
//! signable key space.

use vstd::prelude::*;

use crate::error::TokenError;

verus! {

/// Number of bytes in an address.
pub const ADDRESS_LEN: usize = 32;

/// A 32-byte account address.
#[derive(Debug)]
pub struct Address {
    pub bytes: Vec<u8>,
}

impl View for Address {
    type V = Seq<u8>;

    open spec fn view(&self) -> Seq<u8> {
        self.bytes@
    }
}

impl Address {
    /// A well-formed address holds exactly 32 bytes.
    pub open spec fn wf(&self) -> bool {
        self@.len() == ADDRESS_LEN
    }

    /// Builds an address from its bytes.
    pub fn from_bytes(bytes: Vec<u8>) -> (r: Address)
        ensures
            r@ == bytes@,
    {
        Address { bytes }
    }

    /// An exact copy of the address.
    pub fn dup(&self) -> (r: Address)
        ensures
            r@ == self@,
    {
        let mut copy: Vec<u8> = Vec::new();
        let mut i: usize = 0;
        while i < self.bytes.len()
            invariant
                i <= self.bytes@.len(),
                copy@ == self.bytes@.subrange(0, i as int),
            decreases self.bytes@.len() - i,
        {
            copy.push(self.bytes[i]);
            i += 1;
        }
        proof {
            assert(copy@ =~= self.bytes@);
        }
        Address { bytes: copy }
    }
}

/// True when the two addresses hold the same bytes.
pub fn address_eq(a: &Address, b: &Address) -> (r: bool)
    ensures
        r == (a@ == b@),
{
    if a.bytes.len() != b.bytes.len() {
        return false;
    }
    let mut i: usize = 0;
    while i < a.bytes.len()
        invariant
            i <= a.bytes@.len(),
            a.bytes@.len() == b.bytes@.len(),
            forall|k: int| 0 <= k < i ==> a.bytes@[k] == b.bytes@[k],
        decreases a.bytes@.len() - i,
    {
        if a.bytes[i] != b.bytes[i] {
            return false;
        }
        i += 1;
    }
    proof {
        assert(a@ =~= b@);
    }
    true
}

/// The address that the counter search yields for a seed label, an optional
/// discriminator and a program identity.  The outside search is a pure
/// function of these inputs alone.
pub uninterp spec fn derived_address(
    label: Seq<u8>,
    discriminator: Option<Seq<u8>>,
    program_id: Seq<u8>,
) -> Seq<u8>;

/// The canonical counter ("bump") that the search yields, the first counter
/// from 255 downward whose hash is off the signing curve.
pub uninterp spec fn derived_bump(
    label: Seq<u8>,
    discriminator: Option<Seq<u8>>,
    program_id: Seq<u8>,
) -> u8;

/// Whether the counter search succeeds at all for these inputs; it fails
/// only when every counter hashes onto the signing curve or a seed
/// oversteps the hasher's limits.
pub uninterp spec fn derivation_exists(
    label: Seq<u8>,
    discriminator: Option<Seq<u8>>,
    program_id: Seq<u8>,
) -> bool;

/// Whether 32 bytes decompress to a valid point on the Ed25519 signing
/// curve, i.e. whether a private key could exist for the address.
pub uninterp spec fn on_curve(address: Seq<u8>) -> bool;

/// The view of an optional discriminator.
pub open spec fn disc_view(discriminator: Option<Vec<u8>>) -> Option<Seq<u8>> {
    match discriminator {
        Some(d) => Some(d@),
        None => None,
    }
}

/// Relies on `Pubkey::try_find_program_address` (solana-pubkey, re-exported
/// by anchor_lang): a pure search that hashes the seeds, a counter from 255
/// downward and the program id, and returns the first counter whose hash is
/// not a point on the Ed25519 curve; it returns `None` exactly when no
/// counter qualifies or a seed oversteps the crate's seed limits, which
/// depends on the arguments alone.
#[verifier::external_body]
fn find_derived_address(
    label: &Vec<u8>,
    discriminator: &Option<Vec<u8>>,
    program_id: &Address,
) -> (r: Option<(Vec<u8>, u8)>)
    requires
        program_id.wf(),
    ensures
        r is Some <==> derivation_exists(label@, disc_view(*discriminator), program_id@),
        r matches Some(p) ==> ({
            &&& p.0@ == derived_address(label@, disc_view(*discriminator), program_id@)
            &&& p.1 == derived_bump(label@, disc_view(*discriminator), program_id@)
            &&& p.0@.len() == ADDRESS_LEN
            &&& !on_curve(p.0@)
        }),
{
    let pid =
        anchor_lang::prelude::Pubkey::new_from_array(program_id.bytes.as_slice().try_into().unwrap());
    let found = match discriminator {
        Some(d) => anchor_lang::prelude::Pubkey::try_find_program_address(
            &[label.as_slice(), d.as_slice()],
            &pid,
        ),
        None => anchor_lang::prelude::Pubkey::try_find_program_address(&[label.as_slice()], &pid),
    };
    found.map(|(address, bump)| (address.to_bytes().to_vec(), bump))
}

/// Relies on `Pubkey::is_on_curve` (solana-pubkey, re-exported by
/// anchor_lang): true exactly when the 32 bytes decompress to a valid
/// Ed25519 curve point; the same predicate the counter search tests against.
#[verifier::external_body]
fn address_is_on_curve(address: &Address) -> (r: bool)
    requires
        address.wf(),
    ensures
        r == on_curve(address@),
{
    let pk =
        anchor_lang::prelude::Pubkey::new_from_array(address.bytes.as_slice().try_into().unwrap());
    pk.is_on_curve()
}

/// Derives the deterministic address and canonical counter for a seed label.
///
/// Same inputs always yield the same pair, and the address is never a point
/// on the signing curve, so no private key can exist for it.
pub fn derive(
    label: &Vec<u8>,
    discriminator: &Option<Vec<u8>>,
    program_id: &Address,
) -> (r: Result<(Address, u8), TokenError>)
    requires
        program_id.wf(),
    ensures
        r is Ok <==> derivation_exists(label@, disc_view(*discriminator), program_id@),
        r matches Ok(p) ==> ({
            &&& p.0@ == derived_address(label@, disc_view(*discriminator), program_id@)
            &&& p.1 == derived_bump(label@, disc_view(*discriminator), program_id@)
            &&& p.0.wf()
            &&& !on_curve(p.0@)
        }),
        r is Err ==> r == Err::<(Address, u8), TokenError>(TokenError::DerivationFailed),
{
    match find_derived_address(label, discriminator, program_id) {
        Some((bytes, bump)) => Ok((Address { bytes }, bump)),
        None => Err(TokenError::DerivationFailed),
    }
}

/// True when a private key could exist for the address: derived addresses
/// are never signable.
pub fn signable(address: &Address) -> (r: bool)
    requires
        address.wf(),
    ensures
        r == on_curve(address@),
{
    address_is_on_curve(address)
}

/// Determinism law: two derivations from the same seed label, discriminator
/// and program identity yield the same address and the same counter.
pub proof fn lemma_derive_deterministic(
    label: Seq<u8>,
    discriminator: Option<Seq<u8>>,
    program_id: Seq<u8>,
    address1: Seq<u8>,
    counter1: u8,
    address2: Seq<u8>,
    counter2: u8,
)
    requires
        address1 == derived_address(label, discriminator, program_id),
        counter1 == derived_bump(label, discriminator, program_id),
        address2 == derived_address(label, discriminator, program_id),
        counter2 == derived_bump(label, discriminator, program_id),
    ensures
        address1 == address2,
        counter1 == counter2,
{
}

} // verus!
