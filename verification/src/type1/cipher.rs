//! The eexec / CharString stream cipher.
//!
//! Both layers of a Type 1 font use the same cipher with different seeds:
//! `55665` for the eexec body and `4330` for each CharString. Every
//! ciphertext byte `b` decrypts to `b XOR (r >> 8)`, after which the 16-bit
//! state advances to `(b + r) * 52845 + 22719 mod 2^16`. The first bytes of
//! each plaintext are random filler and are discarded: 4 for eexec, `lenIV`
//! for CharStrings.
use vstd::prelude::*;

verus! {

use crate::Error;
use crate::type1::scanner::spec_is_whitespace;
use crate::type1::scanner::is_whitespace;

/// The cipher's multiplier.
pub const CIPHER_C1: u16 = 52845;

/// The cipher's addend.
pub const CIPHER_C2: u16 = 22719;

/// The cipher state seeding the eexec body.
pub const EEXEC_KEY: u16 = 55665;

/// The cipher state seeding each CharString.
pub const CHARSTRING_KEY: u16 = 4330;

/// How many leading plaintext bytes of the eexec body are random filler.
pub const EEXEC_IV_LEN: usize = 4;

/// The cipher state after one ciphertext byte `b` passes a state `r`.
pub open spec fn spec_cipher_step(r: u16, b: u8) -> u16 {
    (((b as int + r as int) * CIPHER_C1 + CIPHER_C2) % 0x10000) as u16
}

/// What one ciphertext byte decrypts to under state `r`.
pub open spec fn spec_decrypt_byte(r: u16, b: u8) -> u8 {
    b ^ ((r >> 8) as u8)
}

/// What one plaintext byte encrypts to under state `r`.
pub open spec fn spec_encrypt_byte(r: u16, p: u8) -> u8 {
    p ^ ((r >> 8) as u8)
}

/// The whole plaintext of a ciphertext stream, random prefix included.
pub open spec fn spec_decrypt_seq(data: Seq<u8>, r: u16) -> Seq<u8>
    decreases data.len(),
{
    if data.len() == 0 {
        Seq::empty()
    } else {
        seq![spec_decrypt_byte(r, data[0])] + spec_decrypt_seq(
            data.skip(1),
            spec_cipher_step(r, data[0]),
        )
    }
}

/// The whole ciphertext of a plaintext stream.
pub open spec fn spec_encrypt_seq(plain: Seq<u8>, r: u16) -> Seq<u8>
    decreases plain.len(),
{
    if plain.len() == 0 {
        Seq::empty()
    } else {
        let c = spec_encrypt_byte(r, plain[0]);
        seq![c] + spec_encrypt_seq(plain.skip(1), spec_cipher_step(r, c))
    }
}

/// The cipher state after a whole stream passes it.
pub open spec fn spec_cipher_state(data: Seq<u8>, r: u16) -> u16
    decreases data.len(),
{
    if data.len() == 0 {
        r
    } else {
        spec_cipher_state(data.skip(1), spec_cipher_step(r, data[0]))
    }
}

/// Cipher round trip: encrypting a decrypted stream with the same seed
/// reproduces the ciphertext byte for byte.
pub proof fn lemma_cipher_round_trip(data: Seq<u8>, r: u16)
    ensures
        spec_encrypt_seq(spec_decrypt_seq(data, r), r) == data,
    decreases data.len(),
{
    reveal_with_fuel(spec_decrypt_seq, 2);
    reveal_with_fuel(spec_encrypt_seq, 2);
    if data.len() > 0 {
        let b = data[0];
        let x = (r >> 8) as u8;
        assert((b ^ x) ^ x == b) by (bit_vector);
        lemma_cipher_round_trip(data.skip(1), spec_cipher_step(r, b));
        assert(spec_decrypt_seq(data, r).skip(1) =~= spec_decrypt_seq(
            data.skip(1),
            spec_cipher_step(r, b),
        ));
        assert(spec_encrypt_seq(spec_decrypt_seq(data, r), r) =~= data);
    } else {
        assert(spec_encrypt_seq(spec_decrypt_seq(data, r), r) =~= data);
    }
}

/// Appending one ciphertext byte extends the plaintext by one byte and
/// advances the final state by one step.
pub proof fn lemma_decrypt_snoc(data: Seq<u8>, r: u16, b: u8)
    ensures
        spec_decrypt_seq(data.push(b), r) == spec_decrypt_seq(data, r).push(
            spec_decrypt_byte(spec_cipher_state(data, r), b),
        ),
        spec_cipher_state(data.push(b), r) == spec_cipher_step(spec_cipher_state(data, r), b),
    decreases data.len(),
{
    reveal_with_fuel(spec_decrypt_seq, 2);
    reveal_with_fuel(spec_cipher_state, 2);
    if data.len() == 0 {
        assert(data.push(b).skip(1) =~= Seq::<u8>::empty());
        assert(spec_decrypt_seq(data.push(b), r) =~= spec_decrypt_seq(data, r).push(
            spec_decrypt_byte(spec_cipher_state(data, r), b),
        ));
    } else {
        lemma_decrypt_snoc(data.skip(1), spec_cipher_step(r, data[0]), b);
        assert(data.push(b).skip(1) =~= data.skip(1).push(b));
        assert(spec_decrypt_seq(data.push(b), r) =~= spec_decrypt_seq(data, r).push(
            spec_decrypt_byte(spec_cipher_state(data, r), b),
        ));
    }
}

/// Decrypts one ciphertext byte, advancing the cipher state.
pub fn decrypt_byte(b: u8, r: &mut u16) -> (p: u8)
    ensures
        p == spec_decrypt_byte(*old(r), b),
        *final(r) == spec_cipher_step(*old(r), b),
{
    let hi = *r >> 8;
    proof {
        let rr = *r;
        assert(rr >> 8 <= 0xFF) by (bit_vector);
        assert(CIPHER_C1 == 52845u16);
    }
    let p = b ^ (hi as u8);
    *r = ((((b as u32) + (*r as u32)) * 52845 + 22719) % 0x10000) as u16;
    p
}

/// Encrypts one plaintext byte, advancing the cipher state by the produced
/// ciphertext byte.
pub fn encrypt_byte(p: u8, r: &mut u16) -> (c: u8)
    ensures
        c == spec_encrypt_byte(*old(r), p),
        *final(r) == spec_cipher_step(*old(r), c),
{
    let hi = *r >> 8;
    proof {
        let rr = *r;
        assert(rr >> 8 <= 0xFF) by (bit_vector);
        assert(CIPHER_C1 == 52845u16);
    }
    let c = p ^ (hi as u8);
    *r = ((((c as u32) + (*r as u32)) * 52845 + 22719) % 0x10000) as u16;
    c
}

/// Decrypts a whole stream under seed `key`, discarding the first `skip`
/// plaintext bytes.
pub fn decrypt_stream(data: &[u8], key: u16, skip: usize) -> (r: Vec<u8>)
    requires
        skip <= data@.len(),
    ensures
        r@ == spec_decrypt_seq(data@, key).skip(skip as int),
{
    let mut out: Vec<u8> = Vec::new();
    let mut state = key;
    let mut i: usize = 0;
    while i < data.len()
        invariant
            i <= data@.len(),
            skip <= data@.len(),
            state == spec_cipher_state(data@.take(i as int), key),
            i >= skip ==> out@ == spec_decrypt_seq(data@.take(i as int), key).skip(skip as int),
            i < skip ==> out@.len() == 0,
        decreases data@.len() - i,
    {
        let b = data[i];
        proof {
            lemma_decrypt_snoc(data@.take(i as int), key, b);
            lemma_decrypt_len(data@.take(i as int), key);
            lemma_decrypt_len(data@.take(i + 1), key);
            assert(data@.take(i + 1) =~= data@.take(i as int).push(b));
        }
        let p = decrypt_byte(b, &mut state);
        if i >= skip {
            out.push(p);
            proof {
                assert(spec_decrypt_seq(data@.take(i + 1), key).skip(skip as int)
                    =~= spec_decrypt_seq(data@.take(i as int), key).skip(skip as int).push(p));
            }
        } else {
            proof {
                if i + 1 == skip {
                    assert(spec_decrypt_seq(data@.take(i + 1), key).skip(skip as int)
                        =~= Seq::<u8>::empty());
                }
            }
        }
        i = i + 1;
    }
    proof {
        assert(data@.take(i as int) =~= data@);
    }
    out
}

/// The plaintext is exactly as long as the ciphertext.
pub proof fn lemma_decrypt_len(data: Seq<u8>, r: u16)
    ensures
        spec_decrypt_seq(data, r).len() == data.len(),
    decreases data.len(),
{
    if data.len() > 0 {
        lemma_decrypt_len(data.skip(1), spec_cipher_step(r, data[0]));
    }
}

/// Encrypts a whole stream under seed `key`.
pub fn encrypt_stream(plain: &[u8], key: u16) -> (r: Vec<u8>)
    ensures
        r@ == spec_encrypt_seq(plain@, key),
{
    let mut out: Vec<u8> = Vec::new();
    let mut state = key;
    let mut i: usize = 0;
    proof {
        assert(plain@.skip(0) =~= plain@);
    }
    while i < plain.len()
        invariant
            i <= plain@.len(),
            out@.len() == i,
            spec_encrypt_seq(plain@, key) == out@ + spec_encrypt_seq(
                plain@.skip(i as int),
                state,
            ),
        decreases plain@.len() - i,
    {
        let ghost old_out = out@;
        let ghost old_state = state;
        let p = plain[i];
        let c = encrypt_byte(p, &mut state);
        out.push(c);
        proof {
            assert(plain@.skip(i as int)[0] == plain@[i as int]);
            assert(plain@.skip(i as int).skip(1) =~= plain@.skip(i + 1));
            assert(old_out + spec_encrypt_seq(plain@.skip(i as int), old_state) =~= out@
                + spec_encrypt_seq(plain@.skip(i + 1), state));
        }
        i = i + 1;
    }
    proof {
        assert(plain@.skip(i as int) =~= Seq::<u8>::empty());
        assert(out@ =~= spec_encrypt_seq(plain@, key));
    }
    out
}

/// Decrypts one CharString: seed 4330, the first `len_iv` plaintext bytes
/// are random filler and are dropped. A payload shorter than `len_iv` is
/// all filler and decrypts to nothing.
pub fn decrypt_charstring(data: &[u8], len_iv: usize) -> (r: Vec<u8>)
    ensures
        r@ == if len_iv <= data@.len() {
            spec_decrypt_seq(data@, CHARSTRING_KEY).skip(len_iv as int)
        } else {
            Seq::<u8>::empty()
        },
{
    if len_iv <= data.len() {
        decrypt_stream(data, CHARSTRING_KEY, len_iv)
    } else {
        Vec::new()
    }
}

/// Whether the byte is an ASCII hexadecimal digit.
pub open spec fn spec_is_hex_digit(c: u8) -> bool {
    0x30 <= c <= 0x39 || 0x41 <= c <= 0x46 || 0x61 <= c <= 0x66
}

/// The value of an ASCII hexadecimal digit.
pub open spec fn spec_hex_val(c: u8) -> u8
    recommends
        spec_is_hex_digit(c),
{
    if 0x30 <= c <= 0x39 {
        (c - 0x30) as u8
    } else if 0x41 <= c <= 0x46 {
        (c - 0x41 + 10) as u8
    } else {
        (c - 0x61 + 10) as u8
    }
}

/// The stream with its whitespace bytes removed.
pub open spec fn spec_strip_whitespace(d: Seq<u8>) -> Seq<u8>
    decreases d.len(),
{
    if d.len() == 0 {
        Seq::empty()
    } else if spec_is_whitespace(d[0]) {
        spec_strip_whitespace(d.skip(1))
    } else {
        seq![d[0]] + spec_strip_whitespace(d.skip(1))
    }
}

/// Appending one byte appends its stripped form.
pub proof fn lemma_strip_snoc(d: Seq<u8>, b: u8)
    ensures
        spec_strip_whitespace(d.push(b)) == spec_strip_whitespace(d) + (if spec_is_whitespace(b) {
            Seq::<u8>::empty()
        } else {
            seq![b]
        }),
    decreases d.len(),
{
    reveal_with_fuel(spec_strip_whitespace, 2);
    let tail: Seq<u8> = if spec_is_whitespace(b) {
        Seq::empty()
    } else {
        seq![b]
    };
    if d.len() == 0 {
        assert(d.push(b).skip(1) =~= Seq::<u8>::empty());
        assert(spec_strip_whitespace(d.push(b)) =~= spec_strip_whitespace(d) + tail);
    } else {
        lemma_strip_snoc(d.skip(1), b);
        assert(d.push(b).skip(1) =~= d.skip(1).push(b));
        assert(spec_strip_whitespace(d.push(b)) =~= spec_strip_whitespace(d) + tail);
    }
}

/// The bytes named by a run of hexadecimal digits, two digits each.
pub open spec fn spec_hex_pairs(digits: Seq<u8>) -> Seq<u8> {
    Seq::new(
        (digits.len() / 2) as nat,
        |i: int| ((spec_hex_val(digits[2 * i]) as int) * 16 + spec_hex_val(digits[2 * i + 1]) as int) as u8,
    )
}

/// What decrypting an eexec body yields, or `None` when it is malformed.
///
/// When the first four non-whitespace bytes are all hexadecimal digits the
/// body is ASCII-hex and is collapsed to binary first; a stray byte or an
/// odd digit count is malformed. Either way the ciphertext must be at least
/// four bytes long, and the four leading random plaintext bytes are dropped.
#[verifier::opaque]
pub open spec fn spec_eexec_plain(data: Seq<u8>) -> Option<Seq<u8>> {
    let stripped = spec_strip_whitespace(data);
    if stripped.len() >= 4 && (forall|i: int| 0 <= i < 4 ==> spec_is_hex_digit(#[trigger] stripped[i])) {
        if (forall|i: int| 0 <= i < stripped.len() ==> spec_is_hex_digit(#[trigger] stripped[i]))
            && stripped.len() % 2 == 0 {
            let bytes = spec_hex_pairs(stripped);
            if bytes.len() >= 4 {
                Some(spec_decrypt_seq(bytes, EEXEC_KEY).skip(4))
            } else {
                None
            }
        } else {
            None
        }
    } else {
        if data.len() >= 4 {
            Some(spec_decrypt_seq(data, EEXEC_KEY).skip(4))
        } else {
            None
        }
    }
}

/// Whether the byte is an ASCII hexadecimal digit.
fn is_hex_digit(c: u8) -> (r: bool)
    ensures
        r == spec_is_hex_digit(c),
{
    (0x30 <= c && c <= 0x39) || (0x41 <= c && c <= 0x46) || (0x61 <= c && c <= 0x66)
}

/// The value of an ASCII hexadecimal digit.
fn hex_val(c: u8) -> (r: u8)
    requires
        spec_is_hex_digit(c),
    ensures
        r == spec_hex_val(c),
{
    if 0x30 <= c && c <= 0x39 {
        c - 0x30
    } else if 0x41 <= c && c <= 0x46 {
        c - 0x41 + 10
    } else {
        c - 0x61 + 10
    }
}

/// Removes the whitespace bytes of a stream.
fn strip_whitespace(data: &[u8]) -> (r: Vec<u8>)
    ensures
        r@ == spec_strip_whitespace(data@),
{
    let mut out: Vec<u8> = Vec::new();
    let mut i: usize = 0;
    while i < data.len()
        invariant
            i <= data@.len(),
            out@ == spec_strip_whitespace(data@.take(i as int)),
        decreases data@.len() - i,
    {
        let b = data[i];
        proof {
            lemma_strip_snoc(data@.take(i as int), b);
            assert(data@.take(i + 1) =~= data@.take(i as int).push(b));
        }
        if !is_whitespace(b) {
            out.push(b);
        }
        proof {
            if spec_is_whitespace(b) {
                assert(out@ =~= spec_strip_whitespace(data@.take(i + 1)));
            } else {
                assert(out@ =~= spec_strip_whitespace(data@.take(i + 1)));
            }
        }
        i = i + 1;
    }
    proof {
        assert(data@.take(i as int) =~= data@);
    }
    out
}

/// Decrypts the eexec body that follows the `eexec` keyword, yielding the
/// decrypted Private-dictionary region.
///
/// Fails with `DecryptFailed` when an ASCII-hex body holds a byte that is
/// neither a hexadecimal digit nor whitespace or an odd number of digits,
/// and when the ciphertext is shorter than its four random leading bytes.
pub fn decrypt(data: &[u8]) -> (r: Result<Vec<u8>, Error>)
    ensures
        match spec_eexec_plain(data@) {
            Some(p) => r matches Ok(v) && v@ == p,
            None => r == Err::<Vec<u8>, Error>(Error::DecryptFailed),
        },
{
    proof {
        reveal(crate::type1::cipher::spec_eexec_plain);
    }
    let stripped = strip_whitespace(data);
    let mut hex_form = false;
    if stripped.len() >= 4 {
        hex_form = is_hex_digit(stripped[0]) && is_hex_digit(stripped[1]) && is_hex_digit(
            stripped[2],
        ) && is_hex_digit(stripped[3]);
        proof {
            if hex_form {
                assert(forall|i: int|
                    0 <= i < 4 ==> spec_is_hex_digit(#[trigger] stripped@[i])) by {
                    assert(spec_is_hex_digit(stripped@[0]));
                    assert(spec_is_hex_digit(stripped@[1]));
                    assert(spec_is_hex_digit(stripped@[2]));
                    assert(spec_is_hex_digit(stripped@[3]));
                }
            }
        }
    }
    if hex_form {
        // ASCII-hex body: every non-whitespace byte must be a digit and the
        // digits must pair up.
        let mut i: usize = 0;
        while i < stripped.len()
            invariant
                i <= stripped@.len(),
                stripped@ == spec_strip_whitespace(data@),
                stripped@.len() >= 4,
                forall|j: int| 0 <= j < 4 ==> spec_is_hex_digit(#[trigger] stripped@[j]),
                forall|j: int| 0 <= j < i ==> spec_is_hex_digit(#[trigger] stripped@[j]),
            decreases stripped@.len() - i,
        {
            if !is_hex_digit(stripped[i]) {
                proof {
                    reveal(crate::type1::cipher::spec_eexec_plain);
                    assert(!spec_is_hex_digit(stripped@[i as int]));
                }
                return Err(Error::DecryptFailed);
            }
            i = i + 1;
        }
        if stripped.len() % 2 != 0 {
            return Err(Error::DecryptFailed);
        }
        let n = stripped.len() / 2;
        let mut bytes: Vec<u8> = Vec::new();
        let mut j: usize = 0;
        while j < n
            invariant
                j <= n,
                n <= usize::MAX / 2,
                n == stripped@.len() / 2,
                stripped@.len() % 2 == 0,
                forall|k: int| 0 <= k < stripped@.len() ==> spec_is_hex_digit(#[trigger] stripped@[k]),
                bytes@.len() == j,
                forall|k: int| 0 <= k < j ==> bytes@[k] == spec_hex_pairs(stripped@)[k],
            decreases n - j,
        {
            proof {
                assert(stripped@.len() == 2 * (n as int));
            }
            let hi = hex_val(stripped[2 * j]);
            let lo = hex_val(stripped[2 * j + 1]);
            bytes.push(hi * 16 + lo);
            j = j + 1;
        }
        proof {
            assert(bytes@ =~= spec_hex_pairs(stripped@));
        }
        if bytes.len() < 4 {
            return Err(Error::DecryptFailed);
        }
        Ok(decrypt_stream(bytes.as_slice(), EEXEC_KEY, EEXEC_IV_LEN))
    } else {
        if data.len() < 4 {
            return Err(Error::DecryptFailed);
        }
        Ok(decrypt_stream(data, EEXEC_KEY, EEXEC_IV_LEN))
    }
}

} // verus!
