//! API keys: masking for display, and their obfuscated storage format.

use vstd::prelude::*;
use vstd::utf8::{decode_utf8, encode_utf8, valid_utf8, encode_utf8_decode_utf8, encode_utf8_valid_utf8};
use vstd::string::StringSliceAdditionalSpecFns;
use crate::text::{chars_of, chars_slice, chars_start_with, concat, starts_with, string_of, trim_chars, trim_seq, find_chars, find_seq};

verus! {

/// The prefix of an encrypted key.
pub open spec fn enc_prefix() -> Seq<char> {
    "kacfenc:v1:"@
}

/// Whether a stored key is in the encrypted format.
pub fn is_encrypted_api_key(value: &str) -> (b: bool)
    ensures
        b == starts_with(value@, enc_prefix()),
{
    chars_start_with(&chars_of(value), &chars_of("kacfenc:v1:"))
}

/// `n` stars.
pub open spec fn stars(n: nat) -> Seq<char> {
    Seq::new(n, |i: int| '*')
}

/// A key as shown: blank stays empty, up to 8 characters become stars,
/// longer keys keep 4 characters at each end with at least 4 stars between.
pub open spec fn mask_spec(raw: Seq<char>) -> Seq<char> {
    let v = trim_seq(raw);
    let n = v.len();
    if n == 0 {
        Seq::empty()
    } else if n <= 8 {
        stars(n)
    } else {
        v.take(4) + stars(if n - 8 > 4 { (n - 8) as nat } else { 4 }) + v.skip(n - 4)
    }
}

fn push_stars(out: &mut Vec<char>, n: usize)
    ensures
        final(out)@ == old(out)@ + stars(n as nat),
{
    let mut i: usize = 0;
    while i < n
        invariant
            i <= n,
            out@ == old(out)@ + stars(i as nat),
        decreases n - i,
    {
        out.push('*');
        i += 1;
        assert(out@ =~= old(out)@ + stars(i as nat));
    }
}

/// Masks an API key for display.
pub fn mask_api_key_for_display(raw: &str) -> (r: String)
    ensures
        r@ == mask_spec(raw@),
{
    let v = trim_chars(&chars_of(raw));
    let n = v.len();
    let mut out: Vec<char> = Vec::new();
    if n == 0 {
        return String::new();
    }
    if n <= 8 {
        push_stars(&mut out, n);
        assert(out@ =~= stars(n as nat));
        return string_of(out.as_slice());
    }
    out = chars_slice(&v, 0, 4);
    let k: usize = if n - 8 > 4 {
        n - 8
    } else {
        4
    };
    push_stars(&mut out, k);
    let mut tail = chars_slice(&v, n - 4, n);
    out.append(&mut tail);
    assert(out@ =~= mask_spec(raw@));
    string_of(out.as_slice())
}

/// The lower-case hexadecimal digit for `d < 16`.
pub open spec fn hex_digit(d: u8) -> char {
    if d < 10 {
        (('0' as u8) + d) as char
    } else {
        (('a' as u8) + d - 10) as char
    }
}

/// Two lower-case hexadecimal digits per byte.
pub open spec fn hex_spec(b: Seq<u8>) -> Seq<char> {
    Seq::new(
        2 * b.len(),
        |i: int|
            if i % 2 == 0 {
                hex_digit(b[i / 2] >> 4)
            } else {
                hex_digit(b[i / 2] & 0xf)
            },
    )
}

fn hex_char(d: u8) -> (c: char)
    requires
        d < 16,
    ensures
        c == hex_digit(d),
{
    match d {
        0 => '0',
        1 => '1',
        2 => '2',
        3 => '3',
        4 => '4',
        5 => '5',
        6 => '6',
        7 => '7',
        8 => '8',
        9 => '9',
        10 => 'a',
        11 => 'b',
        12 => 'c',
        13 => 'd',
        14 => 'e',
        _ => 'f',
    }
}

/// Encodes bytes as lower-case hexadecimal.
pub fn hex_encode(bytes: &[u8]) -> (r: String)
    requires
        2 * bytes@.len() <= usize::MAX,
    ensures
        r@ == hex_spec(bytes@),
{
    let mut out: Vec<char> = Vec::new();
    let mut i: usize = 0;
    while i < bytes.len()
        invariant
            2 * bytes@.len() <= usize::MAX,
            i <= bytes.len(),
            out@ == hex_spec(bytes@).take(2 * i),
        decreases bytes.len() - i,
    {
        let b = bytes[i];
        assert(b >> 4 < 16) by (bit_vector);
        assert(b & 0xf < 16) by (bit_vector);
        out.push(hex_char(b >> 4));
        out.push(hex_char(b & 0xf));
        i += 1;
        assert(out@ =~= hex_spec(bytes@).take(2 * i));
    }
    assert(hex_spec(bytes@).take(2 * bytes.len()) =~= hex_spec(bytes@));
    string_of(out.as_slice())
}

/// The value of a hexadecimal digit (either case), if `c` is one.
pub open spec fn hex_value(c: char) -> Option<u8> {
    if '0' <= c && c <= '9' {
        Some(((c as u32) - ('0' as u32)) as u8)
    } else if 'a' <= c && c <= 'f' {
        Some(((c as u32) - ('a' as u32) + 10) as u8)
    } else if 'A' <= c && c <= 'F' {
        Some(((c as u32) - ('A' as u32) + 10) as u8)
    } else {
        None
    }
}

fn hex_value_exec(c: char) -> (r: Option<u8>)
    ensures
        r == hex_value(c),
{
    if '0' <= c && c <= '9' {
        Some((c as u32 - '0' as u32) as u8)
    } else if 'a' <= c && c <= 'f' {
        Some((c as u32 - 'a' as u32 + 10) as u8)
    } else if 'A' <= c && c <= 'F' {
        Some((c as u32 - 'A' as u32 + 10) as u8)
    } else {
        None
    }
}

/// Decoded hexadecimal text: all characters digits and an even count
/// (the byte length is then even too), pairs read high digit first.
pub open spec fn unhex_spec(s: Seq<char>) -> Option<Seq<u8>> {
    if (forall|i: int| 0 <= i < s.len() ==> (#[trigger] hex_value(s[i])) is Some) && s.len() % 2 == 0 {
        Some(Seq::new((s.len() / 2) as nat, |i: int| (hex_value(s[2 * i])->0 * 16 + hex_value(s[2 * i + 1])->0) as u8))
    } else {
        None
    }
}

/// Decodes hexadecimal text.
pub fn hex_decode(s: &str) -> (r: Option<Vec<u8>>)
    ensures
        match unhex_spec(s@) {
            Some(b) => r matches Some(v) && v@ == b,
            None => r is None,
        },
{
    let chars = chars_of(s);
    let mut i: usize = 0;
    while i < chars.len()
        invariant
            chars@ == s@,
            i <= chars.len(),
            forall|k: int| 0 <= k < i ==> (#[trigger] hex_value(chars@[k])) is Some,
        decreases chars.len() - i,
    {
        if hex_value_exec(chars[i]).is_none() {
            return None;
        }
        i += 1;
    }
    if chars.len() % 2 != 0 {
        return None;
    }
    let mut out: Vec<u8> = Vec::new();
    let mut j: usize = 0;
    while j < chars.len() / 2
        invariant
            chars@ == s@,
            chars.len() % 2 == 0,
            j <= chars.len() / 2,
            forall|k: int| 0 <= k < chars.len() ==> (#[trigger] hex_value(chars@[k])) is Some,
            out@ =~= unhex_spec(s@)->0.take(j as int),
        decreases chars.len() / 2 - j,
    {
        let h = hex_value_exec(chars[2 * j]).unwrap();
        let l = hex_value_exec(chars[2 * j + 1]).unwrap();
        assert(h < 16 && l < 16);
        out.push((h * 16 + l) as u8);
        j += 1;
        assert(out@ =~= unhex_spec(s@)->0.take(j as int));
    }
    assert(unhex_spec(s@)->0.take(j as int) =~= unhex_spec(s@)->0);
    Some(out)
}

/// Hexadecimal digits decode to what they encode.
proof fn lemma_hex_digit_value(d: u8)
    requires
        d < 16,
    ensures
        hex_value(hex_digit(d)) == Some(d),
{
}

/// Decoding hexadecimal text undoes encoding.
pub proof fn hex_roundtrip(b: Seq<u8>)
    ensures
        unhex_spec(hex_spec(b)) == Some(b),
{
    let s = hex_spec(b);
    assert forall|i: int| 0 <= i < s.len() implies (#[trigger] hex_value(s[i])) is Some by {
        let x = b[i / 2];
        assert(x >> 4 < 16) by (bit_vector);
        assert(x & 0xf < 16) by (bit_vector);
        lemma_hex_digit_value(x >> 4);
        lemma_hex_digit_value(x & 0xf);
    }
    assert(s.len() % 2 == 0);
    let d = unhex_spec(s)->0;
    assert forall|i: int| 0 <= i < b.len() implies d[i] == b[i] by {
        let x = b[i];
        assert(x >> 4 < 16) by (bit_vector);
        assert(x & 0xf < 16) by (bit_vector);
        lemma_hex_digit_value(x >> 4);
        lemma_hex_digit_value(x & 0xf);
        assert((2 * i) / 2 == i);
        assert((2 * i + 1) / 2 == i);
        assert(((x >> 4) * 16 + (x & 0xf)) as u8 == x) by (bit_vector);
    }
    assert(d =~= b);
}

/// One step of FNV-1a over a byte.
pub open spec fn fnv_step(h: u64, b: u8) -> u64 {
    (((h ^ (b as u64)) as nat * 0x100000001b3nat) % 0x1_0000_0000_0000_0000nat) as u64
}

/// The 64-bit FNV-1a hash.
pub open spec fn fnv_spec(data: Seq<u8>) -> u64
    decreases data.len(),
{
    if data.len() == 0 {
        0xcbf29ce484222325
    } else {
        fnv_step(fnv_spec(data.drop_last()), data.last())
    }
}

/// Hashes bytes with 64-bit FNV-1a.
pub fn fnv1a64(data: &[u8]) -> (h: u64)
    ensures
        h == fnv_spec(data@),
{
    let mut h: u64 = 0xcbf29ce484222325;
    let mut i: usize = 0;
    while i < data.len()
        invariant
            i <= data.len(),
            h == fnv_spec(data@.take(i as int)),
        decreases data.len() - i,
    {
        assert(data@.take(i + 1).drop_last() =~= data@.take(i as int));
        h = h ^ (data[i] as u64);
        h = h.wrapping_mul(0x100000001b3);
        i += 1;
    }
    assert(data@.take(data.len() as int) =~= data@);
    h
}

/// The seed material of one xorshift half: seed, nonce, then a tag.
pub open spec fn seed_material(seed: Seq<u8>, nonce: Seq<u8>, tag: u8) -> Seq<u8> {
    seed + nonce + seq![0x73u8, tag]
}

/// The initial state of the key stream.
pub open spec fn xs_init(seed: Seq<u8>, nonce: Seq<u8>) -> (u64, u64) {
    let s0 = fnv_spec(seed_material(seed, nonce, 0x30));
    let s1 = fnv_spec(seed_material(seed, nonce, 0x31));
    if s0 == 0 && s1 == 0 {
        (0x6a09e667f3bcc909, 0xbb67ae8584caa73b)
    } else {
        (s0, s1)
    }
}

/// One xorshift128+ step: the next state and the output.
pub open spec fn xs_step(st: (u64, u64)) -> ((u64, u64), u64) {
    let x0 = st.0;
    let y = st.1;
    let x = x0 ^ (x0 << 23u64);
    let s1 = x ^ y ^ (x >> 17u64) ^ (y >> 26u64);
    ((y, s1), (((s1 as nat) + (y as nat)) % 0x1_0000_0000_0000_0000nat) as u64)
}

/// The state after `k` steps.
pub open spec fn xs_state(seed: Seq<u8>, nonce: Seq<u8>, k: nat) -> (u64, u64)
    decreases k,
{
    if k == 0 {
        xs_init(seed, nonce)
    } else {
        xs_step(xs_state(seed, nonce, (k - 1) as nat)).0
    }
}

/// The `k`-th output word.
pub open spec fn xs_output(seed: Seq<u8>, nonce: Seq<u8>, k: nat) -> u64 {
    xs_step(xs_state(seed, nonce, k)).1
}

/// Byte `j` (little-endian) of `v`.
pub open spec fn le_byte(v: u64, j: nat) -> u8 {
    ((v >> (8 * j) as u64) & 0xff) as u8
}

/// Byte `i` of the key stream.
pub open spec fn ks_byte(seed: Seq<u8>, nonce: Seq<u8>, i: nat) -> u8 {
    le_byte(xs_output(seed, nonce, i / 8), i % 8)
}

/// The data combined with the key stream.
pub open spec fn crypt_spec(seed: Seq<u8>, nonce: Seq<u8>, data: Seq<u8>) -> Seq<u8> {
    Seq::new(data.len(), |i: int| data[i] ^ ks_byte(seed, nonce, i as nat))
}

/// A xorshift128+ generator.
#[derive(Clone)]
pub struct XorShift128Plus {
    s0: u64,
    s1: u64,
}

impl XorShift128Plus {
    /// The generator's state.
    pub closed spec fn state(&self) -> (u64, u64) {
        (self.s0, self.s1)
    }

    /// A generator seeded from FNV-1a hashes of the seed and nonce.
    pub fn new(seed: &[u8], nonce: &[u8]) -> (r: XorShift128Plus)
        ensures
            r.state() == xs_init(seed@, nonce@),
    {
        let mut b: Vec<u8> = Vec::new();
        b.extend_from_slice(seed);
        b.extend_from_slice(nonce);
        let base_len = b.len();
        b.push(0x73);
        b.push(0x30);
        assert(b@ =~= seed_material(seed@, nonce@, 0x30));
        let mut s0 = fnv1a64(b.as_slice());
        b.truncate(base_len);
        b.push(0x73);
        b.push(0x31);
        assert(b@ =~= seed_material(seed@, nonce@, 0x31));
        let mut s1 = fnv1a64(b.as_slice());
        if s0 == 0 && s1 == 0 {
            s0 = 0x6a09e667f3bcc909;
            s1 = 0xbb67ae8584caa73b;
        }
        XorShift128Plus { s0, s1 }
    }

    /// The next output word.
    pub fn next_u64(&mut self) -> (r: u64)
        ensures
            (final(self).state(), r) == xs_step(old(self).state()),
    {
        let mut x = self.s0;
        let y = self.s1;
        self.s0 = y;
        x = x ^ (x << 23u64);
        self.s1 = x ^ y ^ (x >> 17u64) ^ (y >> 26u64);
        self.s1.wrapping_add(y)
    }
}

fn le_byte_exec(v: u64, j: u64) -> (b: u8)
    requires
        j < 8,
    ensures
        b == le_byte(v, j as nat),
{
    ((v >> (8 * j)) & 0xff) as u8
}

/// Combines data with the key stream drawn from `seed` and `nonce`.
pub fn xor_stream_crypt(seed: &[u8], nonce: &[u8], data: &[u8]) -> (r: Vec<u8>)
    ensures
        r@ == crypt_spec(seed@, nonce@, data@),
{
    let mut rng = XorShift128Plus::new(seed, nonce);
    let mut out: Vec<u8> = Vec::new();
    let mut i: usize = 0;
    let ghost mut k: nat = 0;
    while i < data.len()
        invariant
            i <= data.len(),
            i == 8 * k || i == data.len(),
            rng.state() == xs_state(seed@, nonce@, k),
            out@ == crypt_spec(seed@, nonce@, data@).take(i as int),
        decreases data.len() - i,
    {
        let v = rng.next_u64();
        assert(v == xs_output(seed@, nonce@, k));
        let mut j: u64 = 0;
        while j < 8 && i < data.len()
            invariant
                j <= 8,
                i <= data.len(),
                i == 8 * k + j,
                v == xs_output(seed@, nonce@, k),
                out@ == crypt_spec(seed@, nonce@, data@).take(i as int),
            decreases 8 - j,
        {
            assert((8 * k + j) / 8 == k && (8 * k + j) % 8 == j) by (nonlinear_arith)
                requires
                    j < 8,
            ;
            out.push(data[i] ^ le_byte_exec(v, j));
            i += 1;
            j += 1;
            assert(out@ =~= crypt_spec(seed@, nonce@, data@).take(i as int));
        }
        proof {
            k = k + 1;
        }
    }
    assert(crypt_spec(seed@, nonce@, data@).take(data.len() as int) =~= crypt_spec(seed@, nonce@, data@));
    out
}

/// Applying the key stream twice gives the data back.
pub proof fn xor_stream_crypt_involution(seed: Seq<u8>, nonce: Seq<u8>, data: Seq<u8>)
    ensures
        crypt_spec(seed, nonce, crypt_spec(seed, nonce, data)) == data,
{
    let c = crypt_spec(seed, nonce, data);
    let d = crypt_spec(seed, nonce, c);
    assert forall|i: int| 0 <= i < data.len() implies d[i] == data[i] by {
        let a = data[i];
        let b = ks_byte(seed, nonce, i as nat);
        assert((a ^ b) ^ b == a) by (bit_vector);
    }
    assert(d =~= data);
}

/// The stored form of a key: blank keys stay empty; others become the
/// prefix, the hexadecimal nonce, `:`, and the hexadecimal cipher text.
pub open spec fn encrypt_spec(plain: Seq<char>, secret: Seq<u8>, nonce: Seq<u8>) -> Seq<char> {
    if trim_seq(plain).len() == 0 {
        Seq::empty()
    } else {
        enc_prefix() + hex_spec(nonce) + seq![':'] + hex_spec(
            crypt_spec(secret, nonce, encode_utf8(plain)),
        )
    }
}

/// Encrypts an API key for storage under `secret` with a fresh `nonce`.
pub fn encrypt_api_key(plain: &str, secret: &[u8], nonce: &[u8]) -> (r: String)
    requires
        2 * encode_utf8(plain@).len() <= usize::MAX,
        2 * nonce@.len() <= usize::MAX,
    ensures
        r@ == encrypt_spec(plain@, secret@, nonce@),
{
    if trim_chars(&chars_of(plain)).len() == 0 {
        return String::new();
    }
    let bytes = plain.as_bytes();
    let cipher = xor_stream_crypt(secret, nonce, bytes);
    let n = hex_encode(nonce);
    let c = hex_encode(cipher.as_slice());
    let a = concat("kacfenc:v1:", n.as_str());
    let b = concat(a.as_str(), ":");
    proof {
        reveal_strlit(":");
    }
    concat(b.as_str(), c.as_str())
}

/// Converts bytes to a string when they are valid UTF-8.
/// Trusted: `String::from_utf8` succeeds exactly on valid UTF-8 and then
/// holds the characters those bytes encode.
#[verifier::external_body]
fn string_from_utf8(bytes: Vec<u8>) -> (r: Option<String>)
    ensures
        r.is_some() == valid_utf8(bytes@),
        r matches Some(s) ==> s@ == decode_utf8(bytes@),
{
    String::from_utf8(bytes).ok()
}

/// The plain key recovered from its stored form under `secret`.
pub open spec fn decrypt_spec(enc: Seq<char>, secret: Seq<u8>) -> Option<Seq<char>> {
    if !starts_with(enc, enc_prefix()) {
        None
    } else {
        let tail = enc.skip(enc_prefix().len() as int);
        match find_seq(tail, ":"@) {
            None => None,
            Some(idx) => match unhex_spec(tail.take(idx)) {
                None => None,
                Some(nonce) => if nonce.len() == 0 {
                    None
                } else {
                    match unhex_spec(tail.skip(idx + 1)) {
                        None => None,
                        Some(cipher) => {
                            let plain = crypt_spec(secret, nonce, cipher);
                            if valid_utf8(plain) {
                                Some(decode_utf8(plain))
                            } else {
                                None
                            }
                        },
                    }
                },
            },
        }
    }
}

/// Recovers a stored API key under `secret`.
pub fn decrypt_api_key(enc: &str, secret: &[u8]) -> (r: Option<String>)
    ensures
        match decrypt_spec(enc@, secret@) {
            Some(p) => r matches Some(s) && s@ == p,
            None => r is None,
        },
{
    let e = chars_of(enc);
    let prefix = chars_of("kacfenc:v1:");
    if !chars_start_with(&e, &prefix) {
        return None;
    }
    let tail = chars_slice(&e, prefix.len(), e.len());
    assert(tail@ =~= e@.skip(enc_prefix().len() as int));
    let colon = chars_of(":");
    proof {
        reveal_strlit(":");
    }
    let idx = match find_chars(&tail, &colon) {
        None => {
            return None;
        },
        Some(i) => i,
    };
    let left = chars_slice(&tail, 0, idx);
    let right = chars_slice(&tail, idx + 1, tail.len());
    assert(left@ =~= tail@.take(idx as int));
    assert(right@ =~= tail@.skip(idx + 1));
    let nonce = match hex_decode(string_of(left.as_slice()).as_str()) {
        None => {
            return None;
        },
        Some(n) => n,
    };
    if nonce.len() == 0 {
        return None;
    }
    let cipher = match hex_decode(string_of(right.as_slice()).as_str()) {
        None => {
            return None;
        },
        Some(c) => c,
    };
    let plain = xor_stream_crypt(secret, nonce.as_slice(), cipher.as_slice());
    string_from_utf8(plain)
}

proof fn lemma_hex_has_no_colon(b: Seq<u8>, i: int)
    requires
        0 <= i < hex_spec(b).len(),
    ensures
        hex_spec(b)[i] != ':',
{
    let x = b[i / 2];
    assert(x >> 4 < 16) by (bit_vector);
    assert(x & 0xf < 16) by (bit_vector);
}

proof fn lemma_find_colon(h: Seq<char>, rest: Seq<char>, i: int)
    requires
        0 <= i <= h.len(),
        forall|k: int| 0 <= k < h.len() ==> h[k] != ':',
        ":"@ == seq![':'],
    ensures
        crate::text::find_from(h + seq![':'] + rest, ":"@, i) == Some(h.len() as int),
    decreases h.len() - i,
{
    let s = h + seq![':'] + rest;
    if i < h.len() {
        assert(s.subrange(i, i + 1)[0] == h[i]);
        assert(!crate::text::occurs_at(s, ":"@, i));
        lemma_find_colon(h, rest, i + 1);
    } else {
        assert(s.subrange(i, i + 1) =~= seq![':']);
    }
}

/// Decrypting an encrypted key under the same secret gives the key back.
pub proof fn api_key_roundtrip(plain: Seq<char>, secret: Seq<u8>, nonce: Seq<u8>)
    requires
        trim_seq(plain).len() > 0,
        nonce.len() > 0,
    ensures
        decrypt_spec(encrypt_spec(plain, secret, nonce), secret) == Some(plain),
{
    reveal_strlit(":");
    reveal_strlit("kacfenc:v1:");
    let bytes = encode_utf8(plain);
    let cipher = crypt_spec(secret, nonce, bytes);
    let hn = hex_spec(nonce);
    let hc = hex_spec(cipher);
    let enc = encrypt_spec(plain, secret, nonce);
    assert(enc =~= enc_prefix() + (hn + seq![':'] + hc));
    let tail = enc.skip(enc_prefix().len() as int);
    assert(tail =~= hn + seq![':'] + hc);
    assert(enc.take(enc_prefix().len() as int) =~= enc_prefix());
    assert forall|k: int| 0 <= k < hn.len() implies hn[k] != ':' by {
        lemma_hex_has_no_colon(nonce, k);
    }
    assert(":"@ =~= seq![':']);
    lemma_find_colon(hn, hc, 0);
    assert(tail.take(hn.len() as int) =~= hn);
    assert(tail.skip(hn.len() + 1int) =~= hc);
    hex_roundtrip(nonce);
    hex_roundtrip(cipher);
    xor_stream_crypt_involution(secret, nonce, bytes);
    encode_utf8_valid_utf8(plain);
    encode_utf8_decode_utf8(plain);
}

/// The fallback random bytes derived from `seed` when no system randomness is available.
pub open spec fn fallback_state(seed: u64, k: nat) -> u64
    decreases k,
{
    if k == 0 {
        seed ^ 0x9e37_79b9_7f4a_7c15u64
    } else {
        let x0 = fallback_state(seed, (k - 1) as nat);
        let x1 = x0 ^ (x0 << 7u64);
        let x2 = x1 ^ (x1 >> 9u64);
        x2 ^ (x2 << 8u64)
    }
}

/// Derives `len` bytes from `seed`: each byte is the low byte of the next
/// xorshift state.
pub fn fallback_random_bytes(len: usize, seed: u64) -> (r: Vec<u8>)
    ensures
        r@.len() == len,
        forall|i: int| 0 <= i < len ==> #[trigger] r@[i] == (fallback_state(seed, (i + 1) as nat) & 0xff) as u8,
{
    let mut out: Vec<u8> = Vec::new();
    let mut x: u64 = seed ^ 0x9e37_79b9_7f4a_7c15u64;
    let mut i: usize = 0;
    while i < len
        invariant
            i <= len,
            out@.len() == i,
            x == fallback_state(seed, i as nat),
            forall|k: int| 0 <= k < i ==> #[trigger] out@[k] == (fallback_state(seed, (k + 1) as nat) & 0xff) as u8,
        decreases len - i,
    {
        x = x ^ (x << 7u64);
        x = x ^ (x >> 9u64);
        x = x ^ (x << 8u64);
        out.push((x & 0xff) as u8);
        i += 1;
    }
    out
}

} // verus!
