use vstd::prelude::*;
use rand::Rng;

verus! {

/// Length of the seed that a host identity records.
pub const SEEDBYTES: usize = 48;

/// What the signature primitive reported as failed.
#[derive(Clone, Copy, Debug, PartialEq, Eq, Structural)]
pub enum CryptoError {
    Keygen,
    Sign,
    Verify,
}

/// This host's key material.
pub struct NistCryptography {
    pub seed: Vec<u8>,
    pub private_key: Vec<u8>,
    pub public_key: Vec<u8>,
}

/// Relies on rand 0.7's `thread_rng().gen_range(low, high)`: a value in
/// `low .. high`; it panics when `low >= high`, which `requires` rules out.
#[verifier::external_body]
fn random_below(high: usize) -> (r: usize)
    requires
        0 < high,
    ensures
        r < high,
{
    rand::thread_rng().gen_range(0, high)
}

impl NistCryptography {
    /// The two keys are both absent or both present.
    pub open spec fn wf(&self) -> bool {
        (self.private_key@.len() == 0) == (self.public_key@.len() == 0)
    }

    /// An identity with a zero seed and no keys.
    pub fn new() -> (r: NistCryptography)
        ensures
            r.seed@ == Seq::new(SEEDBYTES as nat, |i: int| 0u8),
            r.private_key@.len() == 0,
            r.public_key@.len() == 0,
            r.wf(),
    {
        let mut seed: Vec<u8> = Vec::new();
        let mut i: usize = 0;
        while i < SEEDBYTES
            invariant
                i <= SEEDBYTES,
                seed@ == Seq::new(i as nat, |k: int| 0u8),
            decreases SEEDBYTES - i,
        {
            seed.push(0);
            i = i + 1;
            assert(seed@ =~= Seq::new(i as nat, |k: int| 0u8));
        }
        NistCryptography { seed, private_key: Vec::new(), public_key: Vec::new() }
    }

    /// Entropy to seed the signature primitive's generator with: `SEEDBYTES`
    /// values, each drawn at random below `SEEDBYTES`.
    pub fn entropy_input() -> (r: Vec<u8>)
        ensures
            r@.len() == SEEDBYTES,
            forall|i: int| 0 <= i < r@.len() ==> (#[trigger] r@[i]) < SEEDBYTES,
    {
        let mut entropy: Vec<u8> = Vec::new();
        let mut i: usize = 0;
        while i < SEEDBYTES
            invariant
                i <= SEEDBYTES,
                entropy@.len() == i,
                forall|k: int| 0 <= k < i ==> (#[trigger] entropy@[k]) < SEEDBYTES,
            decreases SEEDBYTES - i,
        {
            let v = random_below(SEEDBYTES);
            entropy.push(v as u8);
            i = i + 1;
        }
        entropy
    }

    /// Records the seed that the seeded generator produced.
    pub fn init(&mut self, seed: Vec<u8>)
        requires
            seed@.len() == SEEDBYTES,
        ensures
            final(self).seed@ == seed@,
            final(self).private_key@ == old(self).private_key@,
            final(self).public_key@ == old(self).public_key@,
    {
        self.seed = seed;
    }

    /// Takes the outcome of key generation: on status 0 with both keys present
    /// they replace the old ones together; otherwise the keys stay as they were
    /// and the failure is reported.
    pub fn generate_keypair(&mut self, status: i32, public_key: Vec<u8>, private_key: Vec<u8>) -> (r:
        Result<(), CryptoError>)
        ensures
            r is Ok <==> (status == 0 && public_key@.len() > 0 && private_key@.len() > 0),
            r is Err ==> r == Err::<(), CryptoError>(CryptoError::Keygen),
            r is Ok ==> final(self).public_key@ == public_key@,
            r is Ok ==> final(self).private_key@ == private_key@,
            r is Err ==> final(self).public_key@ == old(self).public_key@,
            r is Err ==> final(self).private_key@ == old(self).private_key@,
            final(self).seed@ == old(self).seed@,
            old(self).wf() ==> final(self).wf(),
    {
        if status == 0 && public_key.len() > 0 && private_key.len() > 0 {
            self.public_key = public_key;
            self.private_key = private_key;
            Ok(())
        } else {
            Err(CryptoError::Keygen)
        }
    }
}

/// The outcome of signing: the signed message where the primitive reported
/// status 0 and produced bytes, else a signing failure.
pub fn sign_outcome(status: i32, signed: Vec<u8>) -> (r: Result<Vec<u8>, CryptoError>)
    ensures
        (status == 0 && signed@.len() > 0) ==> (r matches Ok(m) && m@ == signed@),
        !(status == 0 && signed@.len() > 0) ==> r == Err::<Vec<u8>, CryptoError>(
            CryptoError::Sign,
        ),
{
    if status == 0 && signed.len() > 0 {
        Ok(signed)
    } else {
        Err(CryptoError::Sign)
    }
}

/// The outcome of verification: the recovered message, empty or not, where the
/// primitive reported status 0; else a verification failure (the signature is
/// invalid or corrupted). Whether an empty message is kept is for the receiver
/// to decide.
pub fn verify_outcome(status: i32, recovered: Vec<u8>) -> (r: Result<Vec<u8>, CryptoError>)
    ensures
        status == 0 ==> (r matches Ok(m) && m@ == recovered@),
        status != 0 ==> r == Err::<Vec<u8>, CryptoError>(CryptoError::Verify),
{
    if status == 0 {
        Ok(recovered)
    } else {
        Err(CryptoError::Verify)
    }
}

} // verus!
