use vstd::prelude::*;
use vstd::arithmetic::power2::lemma2_to64;
use vstd::arithmetic::power2::lemma_pow2_strictly_increases;
use vstd::arithmetic::power2::lemma_pow2_unfold;
use vstd::arithmetic::power2::pow2;
use crate::models::opt_text;

verus! {

/// Number of characters of a fresh salt: sixteen bytes in B64 text without
/// padding.
pub const SALT_LEN: usize = 22;

/// A character of B64 text: an ASCII letter or digit, `+` or `/`.
pub open spec fn is_b64(c: char) -> bool {
    let n = c as u32;
    ||| 48 <= n <= 57
    ||| 65 <= n <= 90
    ||| 97 <= n <= 122
    ||| n == 43
    ||| n == 47
}

/// The shape of a fresh salt: [`SALT_LEN`] characters of B64 text.
pub open spec fn is_salt(salt: Seq<char>) -> bool {
    &&& salt.len() == SALT_LEN
    &&& forall|i: int| 0 <= i < salt.len() ==> is_b64(#[trigger] salt[i])
}

/// The PHC text that scrypt with its recommended parameters makes of a
/// password under a salt in B64 text, or nothing where it refuses the salt
/// or fails.
pub uninterp spec fn scrypt_hash(password: Seq<char>, salt: Seq<char>) -> Option<Seq<char>>;

/// The cost, the block size and the parallelism that scrypt reads from a
/// PHC text, or nothing where the text is no PHC text or scrypt refuses its
/// parameters.
pub uninterp spec fn scrypt_params(hash: Seq<char>) -> Option<(u8, u32, u32)>;

/// Whether scrypt, with the parameters and the salt that the PHC text
/// `hash` names, makes of `password` the output that `hash` holds. A text
/// that is no PHC text matches nothing.
pub uninterp spec fn password_matches(password: Seq<char>, hash: Seq<char>) -> bool;

/// `SaltString::generate` of password-hash on the operating system's
/// generator: sixteen random bytes in B64 text without padding. Which ones
/// is not known.
#[verifier::external_body]
pub(crate) fn fresh_salt() -> (salt: String)
    ensures
        is_salt(salt@),
{
    scrypt::password_hash::SaltString::generate(&mut scrypt::password_hash::rand_core::OsRng)
        .as_str()
        .to_owned()
}

/// The cost that scrypt recommends and hashes with: the logarithm of its
/// work factor.
pub const RECOMMENDED_LOG_N: u8 = 17;

/// The block size that scrypt recommends and hashes with.
pub const RECOMMENDED_R: u32 = 8;

/// The parallelism that scrypt recommends and hashes with.
pub const RECOMMENDED_P: u32 = 1;

/// `PasswordHasher::hash_password` of `scrypt::Scrypt`, on the salt parsed
/// by `SaltString::from_b64`: the PHC text of the hash, or nothing where
/// either refuses. The result is a function of the two texts alone. A hash
/// that is made names the parameters that scrypt recommends, and the
/// password that it was made of matches it.
#[verifier::external_body]
pub(crate) fn hash_password(password: &str, salt: &str) -> (hash: Option<String>)
    ensures
        opt_text(hash) == scrypt_hash(password@, salt@),
        hash is Some ==> scrypt_params(hash.unwrap()@) == Some(
            (RECOMMENDED_LOG_N, RECOMMENDED_R, RECOMMENDED_P),
        ),
        hash is Some ==> password_matches(password@, hash.unwrap()@),
{
    match scrypt::password_hash::SaltString::from_b64(salt) {
        Ok(salt) => match scrypt::password_hash::PasswordHasher::hash_password(
            &scrypt::Scrypt,
            password.as_bytes(),
            &salt,
        ) {
            Ok(hash) => Some(hash.to_string()),
            Err(_) => None,
        },
        Err(_) => None,
    }
}

/// `scrypt::Params::try_from` on the hash parsed by `PasswordHash::new`:
/// the cost, the block size and the parallelism that a check of the hash
/// would run with, or nothing where either refuses. The result is a
/// function of the text alone.
#[verifier::external_body]
pub(crate) fn read_params(hash: &str) -> (params: Option<(u8, u32, u32)>)
    ensures
        params == scrypt_params(hash@),
{
    match scrypt::password_hash::PasswordHash::new(hash) {
        Ok(parsed) => match scrypt::Params::try_from(&parsed) {
            Ok(params) => Some((params.log_n(), params.r(), params.p())),
            Err(_) => None,
        },
        Err(_) => None,
    }
}

/// Whether this machine can address the two buffers that scrypt allocates
/// for the cost `log_n`, the block size `r` and the parallelism `p`: one of
/// 128 · r · 2^log_n bytes and one of 128 · r · p bytes.
pub open spec fn addressable(log_n: u8, r: u32, p: u32) -> bool {
    &&& pow2(log_n as nat) * (r * 128) <= isize::MAX
    &&& p * (r * 128) <= isize::MAX
}

/// Whether a stored hash can be checked on this machine: the buffers for
/// its parameters can be addressed. A text from which scrypt reads no
/// parameters is refused before anything is allocated.
pub open spec fn checkable(hash: Seq<char>) -> bool {
    match scrypt_params(hash) {
        Some((log_n, r, p)) => addressable(log_n, r, p),
        None => true,
    }
}

/// Every machine can address the buffers for the parameters that scrypt
/// recommends.
pub proof fn lemma_recommended_is_addressable()
    ensures
        addressable(RECOMMENDED_LOG_N, RECOMMENDED_R, RECOMMENDED_P),
{
    lemma2_to64();
}

/// Decides [`addressable`].
pub fn fits_in_memory(log_n: u8, r: u32, p: u32) -> (fits: bool)
    ensures
        fits == addressable(log_n, r, p),
{
    let block: u128 = r as u128 * 128;
    let limit: u128 = isize::MAX as u128;
    assert(p * block < 0x1_0000_0000 * 0x80_0000_0000) by (nonlinear_arith)
        requires
            p < 0x1_0000_0000,
            block < 0x80_0000_0000,
    ;
    if p as u128 * block > limit {
        return false;
    }
    if r == 0 {
        assert(pow2(log_n as nat) * (r * 128) == 0) by (nonlinear_arith)
            requires
                r == 0,
        ;
        return true;
    }
    if log_n >= 64 {
        proof {
            lemma2_to64();
            if log_n > 64 {
                lemma_pow2_strictly_increases(64, log_n as nat);
            }
            assert(pow2(log_n as nat) * (r * 128) >= pow2(log_n as nat)) by (nonlinear_arith)
                requires
                    r >= 1,
            ;
        }
        return false;
    }
    let mut n: u128 = 1;
    let mut i: u8 = 0;
    proof {
        lemma2_to64();
    }
    while i < log_n
        invariant
            i <= log_n < 64,
            n == pow2(i as nat),
        decreases log_n - i,
    {
        proof {
            lemma2_to64();
            lemma_pow2_strictly_increases(i as nat, 64);
            lemma_pow2_unfold((i + 1) as nat);
        }
        n = n * 2;
        i += 1;
    }
    proof {
        lemma2_to64();
        lemma_pow2_strictly_increases(log_n as nat, 64);
        assert(n * block < 0x1_0000_0000_0000_0000 * 0x80_0000_0000) by (nonlinear_arith)
            requires
                n < 0x1_0000_0000_0000_0000,
                block < 0x80_0000_0000,
        ;
    }
    n * block <= limit
}

/// Decides [`checkable`] for a stored hash.
pub fn can_check(hash: &str) -> (ok: bool)
    ensures
        ok == checkable(hash@),
{
    match read_params(hash) {
        Some((log_n, r, p)) => fits_in_memory(log_n, r, p),
        None => true,
    }
}

/// `PasswordVerifier::verify_password` of `scrypt::Scrypt`, on the hash
/// parsed by `PasswordHash::new`: whether the password gives the stored
/// output. A text that does not parse matches nothing. The result is a
/// function of the two texts alone. The call allocates the buffers that
/// the parameters of the hash ask for, so they must be addressable; memory
/// that can be addressed but is not there ends the process, as with any
/// allocation.
#[verifier::external_body]
pub(crate) fn verify_password(password: &str, hash: &str) -> (ok: bool)
    requires
        checkable(hash@),
    ensures
        ok == password_matches(password@, hash@),
{
    match scrypt::password_hash::PasswordHash::new(hash) {
        Ok(parsed) => scrypt::password_hash::PasswordVerifier::verify_password(
            &scrypt::Scrypt,
            password.as_bytes(),
            &parsed,
        ).is_ok(),
        Err(_) => false,
    }
}

} // verus!
