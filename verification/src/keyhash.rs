//! Credential hashing: key derivation and verification, delegated to the
//! bcrypt primitive, plus the hex codec used for stored digests, salts and
//! account handles.

use vstd::prelude::*;
use vstd::string::StrSliceExecFns;
use vstd::string::StringSliceAdditionalSpecFns;

verus! {

/// bcrypt reads at most this many bytes of a key.
pub const MAX_KEY_BYTES: usize = 72;

/// Why a stored credential could not be checked at all.
#[derive(Debug, PartialEq, Eq, Structural)]
pub enum VerifyError {
    InvalidHash,
    InvalidSalt,
}

/// Relies on String::push: appends exactly the given character.
pub assume_specification[ String::push ](s: &mut String, ch: char)
    ensures
        final(s)@ == old(s)@.push(ch),
;

/// Relies on rand::random: a value from the thread-local generator, of
/// which nothing can be promised.
pub assume_specification<T>[ rand::random::<T> ]() -> (r: T)
    where
        rand::distr::StandardUniform: rand::distr::Distribution<T>,
;

/// `n` bytes drawn from the thread-local random generator.
pub(crate) fn random_bytes(n: usize) -> (r: Vec<u8>)
    ensures
        r@.len() == n,
{
    let mut out: Vec<u8> = Vec::new();
    for i in 0..n
        invariant
            out@.len() == i,
    {
        out.push(rand::random::<u8>());
    }
    out
}

/// The low hex digit for a nibble.
pub open spec fn hex_digit(n: u8) -> char {
    if n == 0 {
        '0'
    } else if n == 1 {
        '1'
    } else if n == 2 {
        '2'
    } else if n == 3 {
        '3'
    } else if n == 4 {
        '4'
    } else if n == 5 {
        '5'
    } else if n == 6 {
        '6'
    } else if n == 7 {
        '7'
    } else if n == 8 {
        '8'
    } else if n == 9 {
        '9'
    } else if n == 10 {
        'a'
    } else if n == 11 {
        'b'
    } else if n == 12 {
        'c'
    } else if n == 13 {
        'd'
    } else if n == 14 {
        'e'
    } else {
        'f'
    }
}

/// Two digits for one byte, high nibble first.
pub open spec fn hex_pair(b: u8) -> Seq<char> {
    seq![hex_digit(b / 16), hex_digit(b % 16)]
}

/// Lower-case hex encoding of a byte string, two digits per byte.
pub open spec fn hex_of(bytes: Seq<u8>) -> Seq<char>
    decreases bytes.len(),
{
    if bytes.len() == 0 {
        Seq::empty()
    } else {
        hex_pair(bytes.first()) + hex_of(bytes.drop_first())
    }
}

pub proof fn lemma_hex_of_push(s: Seq<u8>, b: u8)
    ensures
        hex_of(s.push(b)) == hex_of(s) + hex_pair(b),
    decreases s.len(),
{
    if s.len() == 0 {
        assert(s.push(b).drop_first() =~= Seq::<u8>::empty());
        assert(s.push(b).first() == b);
        assert(hex_of(Seq::<u8>::empty()) == Seq::<char>::empty());
        assert(s =~= Seq::<u8>::empty());
        assert(hex_of(s.push(b)) =~= hex_of(s) + hex_pair(b));
    } else {
        assert(s.push(b).drop_first() =~= s.drop_first().push(b));
        lemma_hex_of_push(s.drop_first(), b);
        assert(hex_of(s.push(b)) =~= hex_of(s) + hex_pair(b));
    }
}

pub proof fn lemma_hex_of_len(s: Seq<u8>)
    ensures
        hex_of(s).len() == 2 * s.len(),
    decreases s.len(),
{
    if s.len() > 0 {
        lemma_hex_of_len(s.drop_first());
    }
}

fn hex_char(n: u8) -> (c: char)
    requires
        n < 16,
    ensures
        c == hex_digit(n),
{
    if n == 0 {
        '0'
    } else if n == 1 {
        '1'
    } else if n == 2 {
        '2'
    } else if n == 3 {
        '3'
    } else if n == 4 {
        '4'
    } else if n == 5 {
        '5'
    } else if n == 6 {
        '6'
    } else if n == 7 {
        '7'
    } else if n == 8 {
        '8'
    } else if n == 9 {
        '9'
    } else if n == 10 {
        'a'
    } else if n == 11 {
        'b'
    } else if n == 12 {
        'c'
    } else if n == 13 {
        'd'
    } else if n == 14 {
        'e'
    } else {
        'f'
    }
}

/// Encode a byte string as lower-case hex.
pub fn to_hex(bytes: &Vec<u8>) -> (r: String)
    ensures
        r@ == hex_of(bytes@),
        r@.len() == 2 * bytes@.len(),
{
    let n = bytes.len();
    let mut r = String::new();
    for i in 0..n
        invariant
            n == bytes@.len(),
            r@ == hex_of(bytes@.take(i as int)),
    {
        let b = bytes[i];
        r.push(hex_char(b / 16));
        r.push(hex_char(b % 16));
        proof {
            assert(bytes@.take(i + 1) =~= bytes@.take(i as int).push(b));
            lemma_hex_of_push(bytes@.take(i as int), b);
            assert(r@ =~= hex_of(bytes@.take(i + 1)));
        }
    }
    proof {
        assert(bytes@.take(n as int) =~= bytes@);
        lemma_hex_of_len(bytes@);
    }
    r
}

/// The value of one hex digit, upper or lower case, if it is one.
pub open spec fn hex_val_of(c: char) -> Option<u8> {
    if c == '0' {
        Some(0)
    } else if c == '1' {
        Some(1)
    } else if c == '2' {
        Some(2)
    } else if c == '3' {
        Some(3)
    } else if c == '4' {
        Some(4)
    } else if c == '5' {
        Some(5)
    } else if c == '6' {
        Some(6)
    } else if c == '7' {
        Some(7)
    } else if c == '8' {
        Some(8)
    } else if c == '9' {
        Some(9)
    } else if c == 'a' || c == 'A' {
        Some(10)
    } else if c == 'b' || c == 'B' {
        Some(11)
    } else if c == 'c' || c == 'C' {
        Some(12)
    } else if c == 'd' || c == 'D' {
        Some(13)
    } else if c == 'e' || c == 'E' {
        Some(14)
    } else if c == 'f' || c == 'F' {
        Some(15)
    } else {
        None
    }
}

/// The bytes a hex string denotes, read in pairs of digits from the front;
/// an odd trailing digit counts as one byte on its own, and anything that
/// is not a hex digit fails the whole parse.
pub open spec fn hex_parse(s: Seq<char>) -> Option<Seq<u8>>
    decreases s.len(),
{
    if s.len() == 0 {
        Some(Seq::empty())
    } else if s.len() == 1 {
        match hex_val_of(s[0]) {
            Some(v) => Some(seq![v]),
            None => None,
        }
    } else {
        match (hex_val_of(s[0]), hex_val_of(s[1])) {
            (Some(hi), Some(lo)) => match hex_parse(s.skip(2)) {
                Some(rest) => Some(seq![(hi * 16 + lo) as u8] + rest),
                None => None,
            },
            _ => None,
        }
    }
}

fn hex_char_val(c: char) -> (r: Option<u8>)
    ensures
        r == hex_val_of(c),
{
    if c == '0' {
        Some(0)
    } else if c == '1' {
        Some(1)
    } else if c == '2' {
        Some(2)
    } else if c == '3' {
        Some(3)
    } else if c == '4' {
        Some(4)
    } else if c == '5' {
        Some(5)
    } else if c == '6' {
        Some(6)
    } else if c == '7' {
        Some(7)
    } else if c == '8' {
        Some(8)
    } else if c == '9' {
        Some(9)
    } else if c == 'a' || c == 'A' {
        Some(10)
    } else if c == 'b' || c == 'B' {
        Some(11)
    } else if c == 'c' || c == 'C' {
        Some(12)
    } else if c == 'd' || c == 'D' {
        Some(13)
    } else if c == 'e' || c == 'E' {
        Some(14)
    } else if c == 'f' || c == 'F' {
        Some(15)
    } else {
        None
    }
}

/// Decode a hex string into its bytes, or fail on the first character that
/// is not a hex digit.
pub fn _from_hex(val: &str) -> (r: Result<Vec<u8>, ()>)
    ensures
        match r {
            Ok(bytes) => hex_parse(val@) == Some(bytes@),
            Err(_) => hex_parse(val@) is None,
        },
{
    let n = val.unicode_len();
    let mut out: Vec<u8> = Vec::new();
    let mut i: usize = 0;
    proof {
        assert(val@.skip(0) =~= val@);
        match hex_parse(val@) {
            Some(rest) => {
                assert(out@ + rest =~= rest);
            },
            None => {},
        }
    }
    while i < n
        invariant
            n == val@.len(),
            i <= n,
            hex_parse(val@) == (match hex_parse(val@.skip(i as int)) {
                Some(rest) => Some(out@ + rest),
                None => None::<Seq<u8>>,
            }),
        decreases n - i,
    {
        proof {
            assert(val@.skip(i as int)[0] == val@[i as int]);
        }
        let c0 = val.get_char(i);
        let v0 = match hex_char_val(c0) {
            Some(v) => v,
            None => {
                return Err(());
            },
        };
        assert(v0 < 16);
        if i + 1 < n {
            proof {
                assert(val@.skip(i as int)[1] == val@[i + 1]);
            }
            let c1 = val.get_char(i + 1);
            let v1 = match hex_char_val(c1) {
                Some(v) => v,
                None => {
                    return Err(());
                },
            };
            assert(v1 < 16);
            let ghost prev = out@;
            out.push(v0 * 16 + v1);
            proof {
                assert(val@.skip(i as int).skip(2) =~= val@.skip(i + 2));
                match hex_parse(val@.skip(i + 2)) {
                    Some(rest) => {
                        assert(prev + (seq![((v0 * 16 + v1) as u8)] + rest) =~= out@ + rest);
                    },
                    None => {},
                }
            }
            i = i + 2;
        } else {
            let ghost prev = out@;
            out.push(v0);
            proof {
                assert(val@.skip(i as int).len() == 1);
                assert(prev + seq![v0] =~= out@);
            }
            i = i + 1;
        }
    }
    proof {
        assert(val@.skip(i as int) =~= Seq::<char>::empty());
        assert(out@ + Seq::<u8>::empty() =~= out@);
    }
    Ok(out)
}

pub proof fn lemma_hex_digit_val(n: u8)
    requires
        n < 16,
    ensures
        hex_val_of(hex_digit(n)) == Some(n),
{
}

/// Round trip of the hex codec: parsing an encoding returns the original
/// bytes.
pub proof fn lemma_hex_round_trip(s: Seq<u8>)
    ensures
        hex_parse(hex_of(s)) == Some(s),
    decreases s.len(),
{
    if s.len() == 0 {
        assert(hex_of(s) =~= Seq::<char>::empty());
    } else {
        let b = s.first();
        lemma_hex_digit_val(b / 16);
        lemma_hex_digit_val(b % 16);
        lemma_hex_round_trip(s.drop_first());
        lemma_hex_of_len(s.drop_first());
        assert(hex_of(s).skip(2) =~= hex_of(s.drop_first()));
        assert(hex_of(s)[0] == hex_digit(b / 16) && hex_of(s)[1] == hex_digit(b % 16));
        assert((b / 16) * 16 + (b % 16) == b) by (nonlinear_arith);
        assert(seq![b] + s.drop_first() =~= s);
    }
}

/// The named result of the bcrypt key-derivation primitive at the crate's
/// default cost: a function of the key and salt alone.
pub uninterp spec fn bcrypt_digest(pass: Seq<u8>, salt: Seq<u8>) -> Seq<u8>;

/// Relies on bcrypt::bcrypt at bcrypt::DEFAULT_COST: the 24-byte digest
/// depends on the key and the 16-byte salt alone; the key must hold between
/// one and 72 bytes, or the primitive panics.
#[verifier::external_body]
fn bcrypt_raw(pass: &Vec<u8>, salt: &Vec<u8>) -> (r: Vec<u8>)
    requires
        1 <= pass@.len() <= MAX_KEY_BYTES,
        salt@.len() == 16,
    ensures
        r@ == bcrypt_digest(pass@, salt@),
        r@.len() == 24,
{
    let mut salt_arr = [0u8; 16];
    salt_arr.copy_from_slice(&salt[..]);
    bcrypt::bcrypt(bcrypt::DEFAULT_COST, salt_arr, &pass[..]).to_vec()
}

/// The named result of bcrypt's verifier: whether `hash` is a well-formed
/// bcrypt hash string that matches the key (`None` when malformed). A
/// function of the key and the hash string alone.
pub uninterp spec fn bcrypt_verify_res(pass: Seq<u8>, hash: Seq<char>) -> Option<bool>;

/// Relies on bcrypt::verify: deterministic in the key and hash string, and
/// total (a malformed hash yields an error, never a panic).
#[verifier::external_body]
fn bcrypt_check(pass: &Vec<u8>, hash: &str) -> (r: Option<bool>)
    ensures
        r == bcrypt_verify_res(pass@, hash@),
{
    match bcrypt::verify(&pass[..], hash) {
        Ok(matched) => Some(matched),
        Err(_) => None,
    }
}

/// The byte prefix of a key that the hashing primitive actually reads.
pub open spec fn key_prefix(s: Seq<u8>) -> Seq<u8> {
    if s.len() <= MAX_KEY_BYTES {
        s
    } else {
        s.take(MAX_KEY_BYTES as int)
    }
}

/// Derive the stored credential pair from a key and a caller-chosen
/// 16-byte salt: the hex of the bcrypt digest and the hex of the salt.
pub fn generate_with_salt(key: &str, salt: &Vec<u8>) -> (r: (String, String))
    requires
        key.spec_bytes().len() > 0,
        salt@.len() == 16,
    ensures
        r.0@ == hex_of(bcrypt_digest(key_prefix(key.spec_bytes()), salt@)),
        r.1@ == hex_of(salt@),
{
    let mut pass = key.as_bytes_vec();
    pass.truncate(MAX_KEY_BYTES);
    proof {
        assert(pass@ =~= key_prefix(key.spec_bytes()));
    }
    let digest = bcrypt_raw(&pass, salt);
    (to_hex(&digest), to_hex(salt))
}

/// Derive the stored credential pair from a key and a fresh random salt.
pub fn generate(key: &str) -> (r: (String, String))
    requires
        key.spec_bytes().len() > 0,
    ensures
        exists|sb: Seq<u8>|
            sb.len() == 16 && r.1@ == hex_of(sb) && r.0@ == #[trigger] hex_of(
                bcrypt_digest(key_prefix(key.spec_bytes()), sb),
            ),
{
    let salt = random_bytes(16);
    generate_with_salt(key, &salt)
}

/// Check a submitted key against a stored hash string. An unreadable hash
/// is an error, never a match.
pub fn verify(key: &str, hash: &str, _salt: &str) -> (r: Result<bool, VerifyError>)
    ensures
        r == match bcrypt_verify_res(key_prefix(key.spec_bytes()), hash@) {
            Some(matched) => Ok::<bool, VerifyError>(matched),
            None => Err::<bool, VerifyError>(VerifyError::InvalidHash),
        },
{
    let mut pass = key.as_bytes_vec();
    pass.truncate(MAX_KEY_BYTES);
    proof {
        assert(pass@ =~= key_prefix(key.spec_bytes()));
    }
    match bcrypt_check(&pass, hash) {
        Some(matched) => Ok(matched),
        None => Err(VerifyError::InvalidHash),
    }
}

} // verus!
