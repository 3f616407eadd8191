//! The salted, iterated hashing scheme for stored pass phrases whose hash
//! strings carry the `$5$` prefix: parsing such a string and checking a
//! pass phrase against it.

use digest::Digest;
use sha2::Sha256;
use vstd::prelude::*;

use crate::b64::{b64_seq, w_of, B64CryptEncoder};

verus! {

/// What the digest of a byte sequence is. The construction below is stated
/// entirely in terms of this name.
pub uninterp spec fn sha256_of(data: Seq<u8>) -> Seq<u8>;

/// Relies on sha2::Sha256 through the Digest trait: the digest depends on
/// the input bytes alone and is exactly 32 bytes long.
#[verifier::external_body]
fn sha256(data: &Vec<u8>) -> (r: Vec<u8>)
    ensures
        r@ == sha256_of(data@),
        r@.len() == 32,
{
    Sha256::digest(data).to_vec()
}

/// Appends the whole slice to the buffer.
fn push_all(dst: &mut Vec<u8>, src: &[u8])
    ensures
        final(dst)@ == old(dst)@ + src@,
{
    let mut i: usize = 0;
    while i < src.len()
        invariant
            i <= src@.len(),
            dst@ == old(dst)@ + src@.take(i as int),
        decreases src@.len() - i,
    {
        let b = src[i];
        proof {
            Seq::lemma_take_succ_push(src@, i as int);
            assert((old(dst)@ + src@.take(i as int)).push(b)
                =~= old(dst)@ + src@.take(i as int + 1));
        }
        dst.push(b);
        i += 1;
    }
    proof {
        Seq::lemma_take_len(src@);
    }
}

/// A 32-byte block cut down or cycled to cover `n` bytes: whole copies of
/// the block while more than one block length remains, then its prefix.
pub open spec fn recycled(block: Seq<u8>, n: nat) -> Seq<u8>
    decreases n,
{
    if n > 32 {
        block + recycled(block, (n - 32) as nat)
    } else {
        block.take(n as int)
    }
}

/// Appends `recycled(block, n)` to the buffer.
fn push_recycled(dst: &mut Vec<u8>, block: &Vec<u8>, len: usize)
    requires
        block@.len() == 32,
    ensures
        final(dst)@ == old(dst)@ + recycled(block@, len as nat),
{
    let mut n: usize = len;
    while n > 32
        invariant
            old(dst)@ + recycled(block@, len as nat) == dst@ + recycled(block@, n as nat),
            block@.len() == 32,
        decreases n,
    {
        let ghost before = dst@;
        push_all(dst, block.as_slice());
        proof {
            assert(before + recycled(block@, n as nat)
                =~= dst@ + recycled(block@, (n - 32) as nat));
        }
        n -= 32;
    }
    let ghost before = dst@;
    let mut k: usize = 0;
    while k < n
        invariant
            k <= n,
            n <= 32,
            block@.len() == 32,
            dst@ == before + block@.take(k as int),
        decreases n - k,
    {
        let b = block[k];
        proof {
            Seq::lemma_take_succ_push(block@, k as int);
            assert((before + block@.take(k as int)).push(b)
                =~= before + block@.take(k as int + 1));
        }
        dst.push(b);
        k += 1;
    }
    proof {
        assert(recycled(block@, n as nat) == block@.take(n as int));
    }
}

/// The mix driven by the binary digits of the phrase length: one block per
/// digit, the alternate digest for a one, the phrase for a zero, least
/// significant digit first.
pub open spec fn plen_mix(phrase: Seq<u8>, alt: Seq<u8>, plen: nat) -> Seq<u8>
    decreases plen,
{
    if plen == 0 {
        Seq::empty()
    } else {
        (if plen % 2 == 0 {
            phrase
        } else {
            alt
        }) + plen_mix(phrase, alt, plen / 2)
    }
}

/// Appends `plen_mix(phrase, alt, plen)` to the buffer.
fn push_plen_mix(dst: &mut Vec<u8>, phrase: &[u8], alt: &Vec<u8>, plen: usize)
    ensures
        final(dst)@ == old(dst)@ + plen_mix(phrase@, alt@, plen as nat),
{
    let mut n: usize = plen;
    while n > 0
        invariant
            old(dst)@ + plen_mix(phrase@, alt@, plen as nat) == dst@ + plen_mix(phrase@, alt@, n as nat),
        decreases n,
    {
        let ghost before = dst@;
        if n % 2 == 0 {
            push_all(dst, phrase);
        } else {
            push_all(dst, alt.as_slice());
        }
        proof {
            assert(before + plen_mix(phrase@, alt@, n as nat)
                =~= dst@ + plen_mix(phrase@, alt@, (n / 2) as nat));
        }
        n = n / 2;
    }
    proof {
        assert(plen_mix(phrase@, alt@, 0) == Seq::<u8>::empty());
        assert(dst@ + Seq::<u8>::empty() =~= dst@);
    }
}

/// A byte sequence repeated `n` times.
pub open spec fn repeated(s: Seq<u8>, n: nat) -> Seq<u8>
    decreases n,
{
    if n == 0 {
        Seq::empty()
    } else {
        s + repeated(s, (n - 1) as nat)
    }
}

/// Appends `repeated(s, n)` to the buffer.
fn push_repeated(dst: &mut Vec<u8>, s: &[u8], n: usize)
    ensures
        final(dst)@ == old(dst)@ + repeated(s@, n as nat),
{
    let mut i: usize = n;
    while i > 0
        invariant
            old(dst)@ + repeated(s@, n as nat) == dst@ + repeated(s@, i as nat),
        decreases i,
    {
        let ghost before = dst@;
        push_all(dst, s);
        proof {
            assert(before + repeated(s@, i as nat) =~= dst@ + repeated(s@, (i - 1) as nat));
        }
        i -= 1;
    }
    proof {
        assert(repeated(s@, 0) == Seq::<u8>::empty());
        assert(dst@ + Seq::<u8>::empty() =~= dst@);
    }
}


/// The alternate digest: phrase, salt, phrase.
pub open spec fn alt_digest(phrase: Seq<u8>, salt: Seq<u8>) -> Seq<u8> {
    sha256_of(phrase + salt + phrase)
}

/// The digest the round iteration starts from: phrase, salt, the alternate
/// digest cycled to the phrase length, then the binary-length mix.
pub open spec fn base_digest(phrase: Seq<u8>, salt: Seq<u8>) -> Seq<u8> {
    sha256_of(
        phrase + salt + recycled(alt_digest(phrase, salt), phrase.len())
            + plen_mix(phrase, alt_digest(phrase, salt), phrase.len()),
    )
}

/// The P sequence: the digest of the phrase repeated once per phrase byte.
pub open spec fn p_digest(phrase: Seq<u8>) -> Seq<u8> {
    sha256_of(repeated(phrase, phrase.len()))
}

/// The S sequence: the digest of the salt repeated 16 times plus once per
/// unit in the base digest's first byte.
pub open spec fn s_digest(phrase: Seq<u8>, salt: Seq<u8>) -> Seq<u8> {
    sha256_of(repeated(salt, 16 + base_digest(phrase, salt).first() as nat))
}

/// What round `r` feeds to the digest, given the previous round's result.
pub open spec fn round_piece(phrase: Seq<u8>, salt: Seq<u8>, prev: Seq<u8>, r: nat) -> Seq<u8> {
    let p = recycled(p_digest(phrase), phrase.len());
    let s = recycled(s_digest(phrase, salt), salt.len());
    (if r % 2 == 0 {
        prev
    } else {
        p
    }) + (if r % 3 != 0 {
        s
    } else {
        Seq::empty()
    }) + (if r % 7 != 0 {
        p
    } else {
        Seq::empty()
    }) + (if r % 2 == 0 {
        p
    } else {
        prev
    })
}

/// The digest after `n` rounds of strengthening.
pub open spec fn rounds_digest(phrase: Seq<u8>, salt: Seq<u8>, n: nat) -> Seq<u8>
    decreases n,
{
    if n == 0 {
        base_digest(phrase, salt)
    } else {
        sha256_of(round_piece(phrase, salt, rounds_digest(phrase, salt, (n - 1) as nat), (n - 1) as nat))
    }
}

/// The base64 text of a final digest, in the scheme's fixed byte order.
pub open spec fn crypt_encode(h: Seq<u8>) -> Seq<u8> {
    b64_seq(w_of(h[0], h[10], h[20]), 4) + b64_seq(w_of(h[21], h[1], h[11]), 4)
        + b64_seq(w_of(h[12], h[22], h[2]), 4) + b64_seq(w_of(h[3], h[13], h[23]), 4)
        + b64_seq(w_of(h[24], h[4], h[14]), 4) + b64_seq(w_of(h[15], h[25], h[5]), 4)
        + b64_seq(w_of(h[6], h[16], h[26]), 4) + b64_seq(w_of(h[27], h[7], h[17]), 4)
        + b64_seq(w_of(h[18], h[28], h[8]), 4) + b64_seq(w_of(h[9], h[19], h[29]), 4)
        + b64_seq(w_of(0, h[31], h[30]), 3)
}

/// The whole scheme: the base64 text of the digest after the given number
/// of rounds over the phrase and the salt.
pub open spec fn sha256_crypt(phrase: Seq<u8>, salt: Seq<u8>, rounds: nat) -> Seq<u8> {
    crypt_encode(rounds_digest(phrase, salt, rounds))
}

/// Computes the hash text for a pass phrase, a salt, and a round count.
pub fn do_sha256_hash(phrase: &[u8], salt: &[u8], rounds: usize) -> (r: Vec<u8>)
    ensures
        r@ == sha256_crypt(phrase@, salt@, rounds as nat),
{
    let mut buf: Vec<u8> = Vec::new();
    push_all(&mut buf, phrase);
    push_all(&mut buf, salt);
    push_all(&mut buf, phrase);
    proof {
        assert(buf@ =~= phrase@ + salt@ + phrase@);
    }
    let alt = sha256(&buf);

    let mut buf: Vec<u8> = Vec::new();
    push_all(&mut buf, phrase);
    push_all(&mut buf, salt);
    push_recycled(&mut buf, &alt, phrase.len());
    push_plen_mix(&mut buf, phrase, &alt, phrase.len());
    proof {
        assert(buf@ =~= phrase@ + salt@ + recycled(alt_digest(phrase@, salt@), phrase@.len())
            + plen_mix(phrase@, alt_digest(phrase@, salt@), phrase@.len()));
    }
    let mut hash = sha256(&buf);
    proof {
        assert(hash@ == base_digest(phrase@, salt@));
    }

    let mut buf: Vec<u8> = Vec::new();
    push_repeated(&mut buf, phrase, phrase.len());
    proof {
        assert(buf@ =~= repeated(phrase@, phrase@.len()));
    }
    let p_bytes = sha256(&buf);

    let mut buf: Vec<u8> = Vec::new();
    push_repeated(&mut buf, salt, 16 + hash[0] as usize);
    proof {
        assert(hash@.first() == hash@[0]);
        assert(buf@ =~= repeated(salt@, 16 + base_digest(phrase@, salt@).first() as nat));
    }
    let s_bytes = sha256(&buf);

    let mut r: usize = 0;
    while r < rounds
        invariant
            r <= rounds,
            hash@ == rounds_digest(phrase@, salt@, r as nat),
            hash@.len() == 32,
            alt@.len() == 32,
            p_bytes@ == p_digest(phrase@),
            p_bytes@.len() == 32,
            s_bytes@ == s_digest(phrase@, salt@),
            s_bytes@.len() == 32,
        decreases rounds - r,
    {
        let mut buf: Vec<u8> = Vec::new();
        if r % 2 == 0 {
            push_all(&mut buf, hash.as_slice());
        } else {
            push_recycled(&mut buf, &p_bytes, phrase.len());
        }
        if r % 3 != 0 {
            push_recycled(&mut buf, &s_bytes, salt.len());
        }
        if r % 7 != 0 {
            push_recycled(&mut buf, &p_bytes, phrase.len());
        }
        if r % 2 == 0 {
            push_recycled(&mut buf, &p_bytes, phrase.len());
        } else {
            push_all(&mut buf, hash.as_slice());
        }
        proof {
            assert(buf@ =~= round_piece(phrase@, salt@, rounds_digest(phrase@, salt@, r as nat), r as nat));
        }
        hash = sha256(&buf);
        r += 1;
    }

    let mut encoder = B64CryptEncoder::new(43);
    encoder.push(hash[0], hash[10], hash[20], 4);
    encoder.push(hash[21], hash[1], hash[11], 4);
    encoder.push(hash[12], hash[22], hash[2], 4);
    encoder.push(hash[3], hash[13], hash[23], 4);
    encoder.push(hash[24], hash[4], hash[14], 4);
    encoder.push(hash[15], hash[25], hash[5], 4);
    encoder.push(hash[6], hash[16], hash[26], 4);
    encoder.push(hash[27], hash[7], hash[17], 4);
    encoder.push(hash[18], hash[28], hash[8], 4);
    encoder.push(hash[9], hash[19], hash[29], 4);
    encoder.push(0, hash[31], hash[30], 3);
    proof {
        assert(encoder@ =~= crypt_encode(hash@));
    }
    encoder.into_bytes()
}


/// Relies on memchr::memchr: the position of the first occurrence of the
/// needle in the haystack, or nothing when it does not occur.
#[verifier::external_body]
fn find_byte(haystack: &[u8], needle: u8) -> (r: Option<usize>)
    ensures
        (match r {
            Some(i) => i < haystack@.len() && haystack@[i as int] == needle && (forall|j: int|
                0 <= j < i ==> haystack@[j] != needle),
            None => forall|j: int| 0 <= j < haystack@.len() ==> haystack@[j] != needle,
        }),
{
    memchr::memchr(needle, haystack)
}

/// The position of the first occurrence of a byte, if any.
pub open spec fn find_byte_spec(s: Seq<u8>, b: u8) -> Option<int>
    decreases s.len(),
{
    if s.len() == 0 {
        None
    } else if s.first() == b {
        Some(0)
    } else {
        match find_byte_spec(s.drop_first(), b) {
            None => None,
            Some(i) => Some(i + 1),
        }
    }
}

/// The first occurrence is an occurrence, and nothing before it is one.
proof fn lemma_find_byte_spec(s: Seq<u8>, b: u8)
    ensures
        (match find_byte_spec(s, b) {
            Some(i) => 0 <= i < s.len() && s[i] == b && (forall|j: int| 0 <= j < i ==> s[j] != b),
            None => forall|j: int| 0 <= j < s.len() ==> s[j] != b,
        }),
    decreases s.len(),
{
    if s.len() > 0 && s.first() != b {
        lemma_find_byte_spec(s.drop_first(), b);
        assert(forall|j: int| 0 < j < s.len() ==> s[j] == s.drop_first()[j - 1]);
    }
}

/// The value of a sequence of decimal digit characters.
pub open spec fn digits_value(s: Seq<u8>) -> nat
    decreases s.len(),
{
    if s.len() == 0 {
        0
    } else {
        digits_value(s.drop_last()) * 10 + (s.last() - 48) as nat
    }
}

/// Whether every byte is a decimal digit character.
pub open spec fn all_digits(s: Seq<u8>) -> bool {
    forall|i: int| 0 <= i < s.len() ==> 48 <= #[trigger] s[i] <= 57
}

/// The digits of a decimal numeral, with one optional leading plus sign
/// allowed.
pub open spec fn numeral_body(s: Seq<u8>) -> Seq<u8> {
    if s.len() > 0 && s.first() == 43 {
        s.drop_first()
    } else {
        s
    }
}

/// The number a decimal numeral denotes, when it is well formed and fits.
pub open spec fn parse_usize_spec(s: Seq<u8>) -> Option<nat> {
    let b = numeral_body(s);
    if b.len() > 0 && all_digits(b) && digits_value(b) <= usize::MAX {
        Some(digits_value(b))
    } else {
        None
    }
}

/// Appending one digit multiplies the value by ten and adds the digit.
proof fn lemma_digits_value_push(s: Seq<u8>, d: u8)
    requires
        48 <= d <= 57,
    ensures
        digits_value(s.push(d)) == digits_value(s) * 10 + (d - 48),
{
    assert(s.push(d).drop_last() =~= s);
    assert(s.push(d).last() == d);
}

/// A longer numeral never denotes a smaller number.
proof fn lemma_digits_value_monotone(s: Seq<u8>, i: int)
    requires
        0 <= i <= s.len(),
        all_digits(s),
    ensures
        digits_value(s.take(i)) <= digits_value(s),
    decreases s.len() - i,
{
    if i < s.len() {
        Seq::lemma_take_succ_push(s, i);
        lemma_digits_value_push(s.take(i), s[i]);
        lemma_digits_value_monotone(s, i + 1);
    } else {
        Seq::lemma_take_len(s);
    }
}

/// Reads a decimal numeral, exactly as far as the numeral's own rules
/// allow: one optional plus sign, then at least one digit, and a value
/// that fits.
fn parse_decimal(s: &[u8]) -> (r: Option<usize>)
    ensures
        (match r {
            Some(n) => parse_usize_spec(s@) == Some(n as nat),
            None => parse_usize_spec(s@) is None,
        }),
{
    let body: &[u8] = if s.len() > 0 && s[0] == 43 {
        vstd::slice::slice_subrange(s, 1, s.len())
    } else {
        s
    };
    proof {
        assert(body@ =~= numeral_body(s@));
    }
    if body.len() == 0 {
        return None;
    }
    let mut value: usize = 0;
    let mut i: usize = 0;
    while i < body.len()
        invariant
            i <= body@.len(),
            body@.len() > 0,
            body@ == numeral_body(s@),
            all_digits(body@.take(i as int)),
            value == digits_value(body@.take(i as int)),
        decreases body@.len() - i,
    {
        let d = body[i];
        if d < 48 || d > 57 {
            return None;
        }
        proof {
            Seq::lemma_take_succ_push(body@, i as int);
            lemma_digits_value_push(body@.take(i as int), d);
        }
        if value > usize::MAX / 10 {
            proof {
                if all_digits(body@) {
                    lemma_digits_value_monotone(body@, i as int + 1);
                }
            }
            return None;
        }
        let scaled = value * 10;
        if scaled > usize::MAX - (d - 48) as usize {
            proof {
                if all_digits(body@) {
                    lemma_digits_value_monotone(body@, i as int + 1);
                }
            }
            return None;
        }
        value = scaled + (d - 48) as usize;
        i += 1;
    }
    proof {
        Seq::lemma_take_len(body@);
    }
    Some(value)
}


/// Why a hash string under this scheme cannot be read.
#[derive(Clone, Copy, Debug, PartialEq, Eq, Structural)]
pub enum XCryptParseError {
    /// The round count is not a well-formed number.
    InvalidRounds,
    /// The round count lies in the rejected range.
    OutOfRangeRounds,
    /// No salt section terminated by a separator was found.
    NoSaltFound,
    /// The salt section exceeds the accepted length.
    SaltTooLong,
    /// The hash section has the wrong length.
    InvalidHashSize,
}

/// The tag that announces an explicit round count: `rounds=`.
pub open spec fn rounds_tag() -> Seq<u8> {
    seq![114u8, 111u8, 117u8, 110u8, 100u8, 115u8, 61u8]
}

/// Splits `salt$hash` at the first separator and checks the two sections'
/// lengths, keeping the round count as given.
pub open spec fn parse_salt_hash(s: Seq<u8>, rounds: nat) -> Result<
    (nat, Seq<u8>, Seq<u8>),
    XCryptParseError,
> {
    match find_byte_spec(s, 36) {
        None => Err(XCryptParseError::NoSaltFound),
        Some(d) => if d == 0 {
            Err(XCryptParseError::NoSaltFound)
        } else if d > 16 {
            Err(XCryptParseError::SaltTooLong)
        } else if d + 1 + 43 != s.len() {
            Err(XCryptParseError::InvalidHashSize)
        } else {
            Ok((rounds, s.take(d), s.skip(d + 1)))
        },
    }
}

/// What parsing a hash string body yields: the round count (5000 when none
/// is spelled out), the salt, and the hash text.
pub open spec fn spec_parse(v: Seq<u8>) -> Result<(nat, Seq<u8>, Seq<u8>), XCryptParseError> {
    if v.len() >= 7 && v.take(7) == rounds_tag() {
        let rest = v.skip(7);
        match find_byte_spec(rest, 36) {
            None => Err(XCryptParseError::InvalidRounds),
            Some(d) => if d == 0 {
                Err(XCryptParseError::InvalidRounds)
            } else {
                match parse_usize_spec(rest.take(d)) {
                    None => Err(XCryptParseError::InvalidRounds),
                    Some(rounds) => if 1000 <= rounds && rounds <= 999999999 {
                        Err(XCryptParseError::OutOfRangeRounds)
                    } else {
                        parse_salt_hash(rest.skip(d + 1), rounds)
                    },
                }
            },
        }
    } else {
        parse_salt_hash(v, 5000)
    }
}

/// A position that holds the byte, with no occurrence before it, is the
/// first occurrence.
proof fn lemma_find_byte_unique(s: Seq<u8>, b: u8, i: int)
    requires
        0 <= i < s.len(),
        s[i] == b,
        forall|j: int| 0 <= j < i ==> s[j] != b,
    ensures
        find_byte_spec(s, b) == Some(i),
{
    lemma_find_byte_spec(s, b);
    match find_byte_spec(s, b) {
        None => {
            assert(false);
        },
        Some(k) => {
            if k < i {
                assert(s[k] != b);
            } else if i < k {
                assert(s[i] != b);
            }
        },
    }
}

/// Where the byte occurs nowhere, there is no first occurrence.
proof fn lemma_find_byte_none(s: Seq<u8>, b: u8)
    requires
        forall|j: int| 0 <= j < s.len() ==> s[j] != b,
    ensures
        find_byte_spec(s, b) == None::<int>,
{
    lemma_find_byte_spec(s, b);
    match find_byte_spec(s, b) {
        None => {},
        Some(k) => {
            assert(s[k] != b);
        },
    }
}

/// Whether two byte vectors hold the same bytes.
fn vec_eq(a: &Vec<u8>, b: &Vec<u8>) -> (r: bool)
    ensures
        r == (a@ == b@),
{
    if a.len() != b.len() {
        proof {
            if a@ == b@ {
                assert(a@.len() == b@.len());
            }
        }
        return false;
    }
    let mut i: usize = 0;
    while i < a.len()
        invariant
            i <= a@.len(),
            a@.len() == b@.len(),
            forall|j: int| 0 <= j < i ==> a@[j] == #[trigger] b@[j],
        decreases a@.len() - i,
    {
        if a[i] != b[i] {
            proof {
                if a@ == b@ {
                    assert(a@[i as int] == b@[i as int]);
                }
            }
            return false;
        }
        i += 1;
    }
    proof {
        assert(a@ =~= b@);
    }
    true
}

/// A stored pass-phrase hash under this scheme: the round count, the salt,
/// and the base64 hash text.
#[derive(Clone, Debug, Eq)]
pub struct Sha256Crypt {
    /// How many strengthening rounds the hash was computed with.
    pub rounds: usize,
    /// The salt bytes.
    pub salt: Vec<u8>,
    /// The base64 text of the final digest.
    pub hash: Vec<u8>,
}

impl PartialEq for Sha256Crypt {
    fn eq(&self, other: &Sha256Crypt) -> (r: bool) {
        self.rounds == other.rounds && vec_eq(&self.salt, &other.salt) && vec_eq(
            &self.hash,
            &other.hash,
        )
    }
}

impl vstd::std_specs::cmp::PartialEqSpecImpl for Sha256Crypt {
    open spec fn obeys_eq_spec() -> bool {
        true
    }

    open spec fn eq_spec(&self, other: &Sha256Crypt) -> bool {
        self.rounds == other.rounds && self.salt@ == other.salt@ && self.hash@ == other.hash@
    }
}

impl Sha256Crypt {
    /// Reads the body of a hash string (what follows the scheme prefix):
    /// an optional spelled-out round count, then `salt$hash`.
    pub fn parse(v: &[u8]) -> (r: Result<Sha256Crypt, XCryptParseError>)
        ensures
            (match (r, spec_parse(v@)) {
                (Ok(c), Ok(m)) => c.rounds as nat == m.0 && c.salt@ == m.1 && c.hash@ == m.2,
                (Err(e1), Err(e2)) => e1 == e2,
                _ => false,
            }),
    {
        let has_tag = v.len() >= 7 && v[0] == 114 && v[1] == 111 && v[2] == 117 && v[3] == 110
            && v[4] == 100 && v[5] == 115 && v[6] == 61;
        proof {
            if has_tag {
                assert(v@.take(7) =~= rounds_tag());
            } else if v@.len() >= 7 && v@.take(7) == rounds_tag() {
                assert(v@[0] == v@.take(7)[0]);
                assert(v@[1] == v@.take(7)[1]);
                assert(v@[2] == v@.take(7)[2]);
                assert(v@[3] == v@.take(7)[3]);
                assert(v@[4] == v@.take(7)[4]);
                assert(v@[5] == v@.take(7)[5]);
                assert(v@[6] == v@.take(7)[6]);
                assert(false);
            }
        }
        let mut rounds: usize = 5000;
        let mut s: &[u8] = v;
        if has_tag {
            let rest = vstd::slice::slice_subrange(v, 7, v.len());
            proof {
                assert(rest@ =~= v@.skip(7));
            }
            match find_byte(rest, 36) {
                None => {
                    proof {
                        lemma_find_byte_none(rest@, 36);
                    }
                    return Err(XCryptParseError::InvalidRounds);
                },
                Some(d) => {
                    proof {
                        lemma_find_byte_unique(rest@, 36, d as int);
                    }
                    if d == 0 {
                        return Err(XCryptParseError::InvalidRounds);
                    }
                    let digits = vstd::slice::slice_subrange(rest, 0, d);
                    proof {
                        assert(digits@ =~= rest@.take(d as int));
                    }
                    match parse_decimal(digits) {
                        None => {
                            return Err(XCryptParseError::InvalidRounds);
                        },
                        Some(n) => {
                            if 1000 <= n && n <= 999999999 {
                                return Err(XCryptParseError::OutOfRangeRounds);
                            }
                            rounds = n;
                        },
                    }
                    s = vstd::slice::slice_subrange(rest, d + 1, rest.len());
                    proof {
                        assert(s@ =~= v@.skip(7).skip(d as int + 1));
                    }
                },
            }
        }
        match find_byte(s, 36) {
            None => {
                proof {
                    lemma_find_byte_none(s@, 36);
                }
                Err(XCryptParseError::NoSaltFound)
            },
            Some(d) => {
                proof {
                    lemma_find_byte_unique(s@, 36, d as int);
                }
                if d == 0 {
                    return Err(XCryptParseError::NoSaltFound);
                }
                if d > 16 {
                    return Err(XCryptParseError::SaltTooLong);
                }
                if d + 1 + 43 != s.len() {
                    return Err(XCryptParseError::InvalidHashSize);
                }
                let salt = vstd::slice::slice_to_vec(vstd::slice::slice_subrange(s, 0, d));
                let hash = vstd::slice::slice_to_vec(
                    vstd::slice::slice_subrange(s, d + 1, s.len()),
                );
                proof {
                    assert(salt@ =~= s@.take(d as int));
                    assert(hash@ =~= s@.skip(d as int + 1));
                }
                Ok(Sha256Crypt { rounds, salt, hash })
            },
        }
    }

    /// Checks a pass phrase against the stored hash: the phrase matches
    /// exactly when hashing it with the stored salt and round count yields
    /// the stored hash text.
    pub fn verify(&self, phrase: &[u8]) -> (ok: bool)
        ensures
            ok == (self.hash@ == sha256_crypt(phrase@, self.salt@, self.rounds as nat)),
    {
        let hash = do_sha256_hash(phrase, self.salt.as_slice(), self.rounds);
        vec_eq(&self.hash, &hash)
    }
}

} // verus!
