//! Entry hashes and key material: the calls into the outside crates that
//! compute on plain values, and the verified code around them.
use vstd::prelude::*;
use base58::ToBase58;
use sha2::Digest;
use crate::json::{json_text, to_json_text, Json};
use crate::text::{text, to_string};

verus! {

broadcast use vstd::string::group_string_axioms;

/// The alphabet of base58 (the Bitcoin alphabet).
pub open spec fn is_base58_char(c: char) -> bool {
    ('1' <= c && c <= '9') || ('A' <= c && c <= 'H') || ('J' <= c && c <= 'N')
        || ('P' <= c && c <= 'Z') || ('a' <= c && c <= 'k') || ('m' <= c && c <= 'z')
}

/// Whether every character of `s` is in the base58 alphabet.
pub open spec fn is_base58_text(s: Seq<char>) -> bool {
    forall|i: int| 0 <= i < s.len() ==> is_base58_char(#[trigger] s[i])
}

/// A base58 text stands in a JSON string literal as it is.
pub proof fn lemma_base58_plain(s: Seq<char>)
    requires
        is_base58_text(s),
    ensures
        crate::json::plain_json_text(s),
{
    assert forall|i: int| 0 <= i < s.len() implies (#[trigger] s[i]) != '"' && s[i] != '\\' && (s[i] as u32) >= 0x20 by {
        assert(is_base58_char(s[i]));
    }
}

/// Every digit of the base58 alphabet is in the alphabet.
proof fn lemma_alphabet_digits()
    ensures
        base58_alphabet().len() == 58,
        forall|k: int| 0 <= k < 58 ==> is_base58_char(#[trigger] base58_alphabet()[k]),
{
    let a = base58_alphabet();
    assert forall|k: int| 0 <= k < 58 implies is_base58_char(#[trigger] a[k]) by {
        if k < 9 {
            assert(a[k] == a.take(9)[k]);
        }
    }
}

/// The base58 digits of a number are in the alphabet.
proof fn lemma_digits_base58(n: nat)
    ensures
        is_base58_text(base58_digits(n)),
    decreases n,
{
    if n > 0 {
        lemma_digits_base58(n / 58);
        lemma_alphabet_digits();
        let d = base58_digits(n / 58);
        let c = base58_alphabet()[(n % 58) as int];
        assert(is_base58_char(c));
        assert forall|i: int| 0 <= i < d.push(c).len() implies is_base58_char(#[trigger] d.push(c)[i]) by {
            if i < d.len() {
                assert(d.push(c)[i] == d[i]);
            }
        }
    }
}

/// The base58 text of a multihash is in the base58 alphabet.
pub proof fn lemma_base58_hash_text(s: Seq<char>)
    ensures
        is_base58_text(base58_hash(s)),
{
    let data = sha256_multihash(utf8(s));
    lemma_digits_base58(big_endian(data));
    let ones = Seq::new(leading_zero_bytes(data), |i: int| '1');
    let ds = base58_digits(big_endian(data));
    assert forall|i: int| 0 <= i < (ones + ds).len() implies is_base58_char(#[trigger] (ones + ds)[i]) by {
        if i >= ones.len() {
            assert((ones + ds)[i] == ds[i - ones.len()]);
        }
    }
}

/// The SHA-256 digest of some bytes.
pub uninterp spec fn sha256_digest(data: Seq<u8>) -> Seq<u8>;

/// The base58 alphabet (Bitcoin's), digit by digit.
pub open spec fn base58_alphabet() -> Seq<char> {
    seq!['1', '2', '3', '4', '5', '6', '7', '8', '9', 'A', 'B', 'C', 'D', 'E', 'F', 'G', 'H', 'J', 'K', 'L', 'M', 'N', 'P', 'Q', 'R', 'S', 'T', 'U', 'V', 'W', 'X', 'Y', 'Z', 'a', 'b', 'c', 'd', 'e', 'f', 'g', 'h', 'i', 'j', 'k', 'm', 'n', 'o', 'p', 'q', 'r', 's', 't', 'u', 'v', 'w', 'x', 'y', 'z']
}

/// The value of some bytes read as a big-endian number.
pub open spec fn big_endian(data: Seq<u8>) -> nat
    decreases data.len(),
{
    if data.len() == 0 {
        0
    } else {
        big_endian(data.drop_last()) * 256 + data.last() as nat
    }
}

/// The number of zero bytes some bytes start with.
pub open spec fn leading_zero_bytes(data: Seq<u8>) -> nat
    decreases data.len(),
{
    if data.len() == 0 || data[0] != 0 {
        0
    } else {
        1 + leading_zero_bytes(data.skip(1))
    }
}

/// The base58 digits of a number, most significant first (none for 0).
pub open spec fn base58_digits(n: nat) -> Seq<char>
    decreases n,
{
    if n == 0 {
        Seq::empty()
    } else {
        base58_digits(n / 58).push(base58_alphabet()[(n % 58) as int])
    }
}

/// The base58 encoding of some bytes: a `1` for each leading zero byte, then
/// the base58 digits of their big-endian value.
pub open spec fn base58_encode(data: Seq<u8>) -> Seq<char> {
    Seq::new(leading_zero_bytes(data), |i: int| '1') + base58_digits(big_endian(data))
}

/// What the JCS (RFC 8785) canonicaliser makes of a JSON text: its canonical
/// form, or nothing when it refuses the text.
pub uninterp spec fn jcs_canonical(json: Seq<char>) -> Option<Seq<char>>;

/// The JCS canonical form of a JSON text the canonicaliser accepts.
pub open spec fn jcs_text(json: Seq<char>) -> Seq<char> {
    match jcs_canonical(json) {
        Some(c) => c,
        None => Seq::empty(),
    }
}

/// The multibase (base58btc) public key of the ed25519 key pair derived from a seed.
pub uninterp spec fn ed25519_public_multibase(seed: Seq<u8>) -> Seq<char>;

/// The UTF-8 encoding of a text.
pub open spec fn utf8(s: Seq<char>) -> Seq<u8> {
    vstd::utf8::encode_utf8(s)
}

/// A SHA-256 multihash: the code 0x12, the length 32, then the digest.
pub open spec fn sha256_multihash(data: Seq<u8>) -> Seq<u8> {
    seq![0x12u8, 0x20u8] + sha256_digest(data)
}

/// The base58 text of the SHA-256 multihash of the UTF-8 bytes of a text.
pub open spec fn base58_hash(s: Seq<char>) -> Seq<char> {
    base58_encode(sha256_multihash(utf8(s)))
}

/// The hash of a log entry: the base58 multihash of its canonical JSON text.
pub open spec fn entry_hash(entry: crate::json::JsonV) -> Seq<char> {
    base58_hash(jcs_text(json_text(entry)))
}

/// `sha2::Sha256::digest`: the 32-byte SHA-256 digest of the input.
#[verifier::external_body]
fn sha256(data: &[u8]) -> (r: Vec<u8>)
    ensures
        r@ == sha256_digest(data@),
        r@.len() == 32,
{
    sha2::Sha256::digest(data).to_vec()
}

/// `base58::ToBase58::to_base58` on a byte slice: per its source, a `1` for
/// each leading zero byte, then the base58 digits of the bytes' big-endian
/// value; every character is in the Bitcoin alphabet. The crate documents its
/// encoder for inputs of up to 128 bytes.
#[verifier::external_body]
fn to_base58(data: &[u8]) -> (r: String)
    requires
        data@.len() <= 128,
    ensures
        r@ == base58_encode(data@),
        is_base58_text(r@),
{
    data.to_base58()
}

/// `serde_json_canonicalizer::pipe`: reads a JSON text and writes its JCS
/// canonical form; its outcome depends on the text alone. Which texts it
/// refuses (malformed JSON, numbers out of range, nesting deeper than its
/// parser takes) and the message of a refusal are the outside crate's and are
/// not stated.
#[verifier::external_body]
fn jcs_pipe(json: &str) -> (r: Result<String, String>)
    ensures
        match jcs_canonical(json@) {
            Some(c) => r matches Ok(x) && x@ == c,
            None => r is Err,
        },
{
    serde_json_canonicalizer::pipe(json).map_err(|e| e.to_string())
}

/// `Secret::base58_hash_string` of the did:webvh crate: per its source, the
/// base58 text of the SHA-256 multihash (code 0x12, length 0x20, digest) of
/// the UTF-8 bytes of the key; it always succeeds.
#[verifier::external_body]
fn secret_base58_hash_string(key: &str) -> (r: String)
    ensures
        r@ == base58_hash(key@),
{
    didwebvh_rs::prelude::Secret::base58_hash_string(key).unwrap()
}

/// `Secret::generate_ed25519(Some(""), Some(seed))` then `get_public_keymultibase`:
/// the public key of the ed25519 key pair derived from the seed, encoded as
/// multibase base58btc (`z` then base58); for an ed25519 key it always
/// succeeds. (The key identifier given keeps the call from drawing a random one.)
#[verifier::external_body]
fn ed25519_public_key(seed: &[u8; 32]) -> (r: String)
    ensures
        r@ == ed25519_public_multibase(seed@),
        is_base58_text(r@),
{
    didwebvh_rs::prelude::Secret::generate_ed25519(Some(""), Some(seed)).get_public_keymultibase().unwrap()
}

/// The value of a hexadecimal digit (either case).
pub open spec fn hex_value(c: char) -> Option<u8> {
    if '0' <= c && c <= '9' {
        Some(((c as u32) - ('0' as u32)) as u8)
    } else if 'a' <= c && c <= 'f' {
        Some(((c as u32) - ('a' as u32) + 10) as u8)
    } else if 'A' <= c && c <= 'F' {
        Some(((c as u32) - ('A' as u32) + 10) as u8)
    } else {
        None
    }
}

/// Whether every character of `s` is a hexadecimal digit.
pub open spec fn all_hex(s: Seq<char>) -> bool {
    forall|i: int| 0 <= i < s.len() ==> (#[trigger] hex_value(s[i])) is Some
}

/// The bytes of a hexadecimal text: `None` unless it has an even number of
/// characters, all hexadecimal digits.
pub open spec fn hex_decode_spec(s: Seq<char>) -> Option<Seq<u8>> {
    if s.len() % 2 == 0 && all_hex(s) {
        Some(Seq::new(s.len() / 2, |i: int| (hex_value(s[2 * i]).unwrap() * 16 + hex_value(s[2 * i + 1]).unwrap()) as u8))
    } else {
        None
    }
}

/// Whether `i` is the position of the first character of `s` that is not a
/// hexadecimal digit.
pub open spec fn first_non_hex(s: Seq<char>, i: int) -> bool {
    &&& 0 <= i < s.len()
    &&& hex_value(s[i]) is None
    &&& forall|j: int| 0 <= j < i ==> (#[trigger] hex_value(s[j])) is Some
}

/// Whether a character is printable ASCII that its debug form shows between
/// single quotes as it is (not `'`, `"` or `\`).
pub open spec fn debug_plain(c: char) -> bool {
    0x20 <= (c as u32) && (c as u32) < 0x7f && c != '\'' && c != '"' && c != '\\'
}

/// What the message of a refused hexadecimal text is known to be, for an
/// ASCII text: `Odd number of digits` for an odd length; for an even length,
/// `Invalid character 'c' at position i` for the first character `c` that is
/// not a hexadecimal digit, at `i`, when `c` is printed as it is.
pub open spec fn hex_error_message(s: Seq<char>, m: Seq<char>) -> bool {
    &&& is_ascii_text(s) && s.len() % 2 == 1 ==> m == "Odd number of digits"@
    &&& is_ascii_text(s) && s.len() % 2 == 0 ==> forall|i: int|
        #![trigger first_non_hex(s, i)]
        first_non_hex(s, i) && debug_plain(s[i]) ==> m == "Invalid character '"@ + seq![s[i]] + "' at position "@
            + crate::text::decimal(i as nat)
}

/// `hex::decode`: per its source, succeeds exactly on texts of an even number
/// of hexadecimal digits (either case), with each pair giving one byte. It
/// checks the length of the UTF-8 bytes first, then the bytes in order; on an
/// ASCII text the message of its error is `hex_error_message`. The message of
/// a refused text holding other characters, or whose first wrong character
/// is one that the debug form escapes, is not stated.
#[verifier::external_body]
fn hex_decode(s: &str) -> (r: Result<Vec<u8>, String>)
    ensures
        r matches Ok(b) ==> hex_decode_spec(s@) == Some(b@),
        r is Err ==> hex_decode_spec(s@) is None,
        r matches Err(m) ==> hex_error_message(s@, m@),
{
    hex::decode(s).map_err(|e| e.to_string())
}

/// `str::to_uppercase` of std: the Unicode upper case of a text.
pub uninterp spec fn unicode_upper(s: Seq<char>) -> Seq<char>;

/// Whether every character of a text is ASCII.
pub open spec fn is_ascii_text(s: Seq<char>) -> bool {
    forall|i: int| 0 <= i < s.len() ==> (#[trigger] s[i] as u32) < 128
}

/// The ASCII upper case of a character: `a` to `z` become `A` to `Z`, every
/// other character is kept.
pub open spec fn ascii_upper(c: char) -> char {
    if 'a' <= c && c <= 'z' {
        ((c as u32) - 32) as char
    } else {
        c
    }
}

/// The ASCII upper case of a text, character by character.
pub open spec fn ascii_upper_text(s: Seq<char>) -> Seq<char> {
    Seq::new(s.len(), |i: int| ascii_upper(s[i]))
}

/// `str::to_uppercase` of std: the Unicode upper case of the text. As std
/// documents, on an ASCII text it agrees with the ASCII upper case, `a` to
/// `z` made `A` to `Z` and every other character kept; what it does beyond
/// ASCII is left to the name `unicode_upper`.
#[verifier::external_body]
pub(crate) fn to_uppercase(s: &str) -> (r: String)
    ensures
        r@ == unicode_upper(s@),
        is_ascii_text(s@) ==> r@ == ascii_upper_text(s@),
{
    s.to_uppercase()
}

/// Bytes of the hexadecimal seed of a key, or the decoder's message.
pub fn decode_seed(seed: &[char]) -> (r: Result<Vec<u8>, Vec<char>>)
    ensures
        r matches Ok(b) ==> hex_decode_spec(seed@) == Some(b@),
        r is Err ==> hex_decode_spec(seed@) is None,
        r matches Err(m) ==> hex_error_message(seed@, m@),
{
    let s = to_string(seed);
    match hex_decode(s.as_str()) {
        Ok(b) => Ok(b),
        Err(m) => Err(text(m.as_str())),
    }
}

/// The public key multibase of the ed25519 key derived from a 32-byte seed.
pub fn public_multibase(seed: &[u8]) -> (r: Vec<char>)
    requires
        seed@.len() == 32,
    ensures
        r@ == ed25519_public_multibase(seed@),
        is_base58_text(r@),
{
    let mut arr: [u8; 32] = [0u8; 32];
    let mut i: usize = 0;
    while i < 32
        invariant
            seed@.len() == 32,
            0 <= i <= 32,
            forall|j: int| 0 <= j < i ==> arr@[j] == seed@[j],
        decreases 32 - i,
    {
        arr[i] = seed[i];
        i = i + 1;
    }
    assert(arr@ =~= seed@);
    let s = ed25519_public_key(&arr);
    text(s.as_str())
}

/// The base58 SHA-256 multihash of a text (the hash of a next key).
pub fn hash_text(s: &[char]) -> (r: Vec<char>)
    ensures
        r@ == base58_hash(s@),
{
    let st = to_string(s);
    let h = secret_base58_hash_string(st.as_str());
    text(h.as_str())
}

/// The base58 SHA-256 multihash of the UTF-8 bytes of a canonical entry text.
pub fn hash_canonical(canonical: &str) -> (r: Vec<char>)
    ensures
        r@ == base58_hash(canonical@),
        r@.len() == 46 && r@[0] == 'Q' && r@[1] == 'm',
        is_base58_text(r@),
{
    let bytes = canonical.as_bytes();
    let digest = sha256(bytes);
    let mut multihash: Vec<u8> = Vec::new();
    multihash.push(0x12u8);
    multihash.push(0x20u8);
    let mut i: usize = 0;
    while i < digest.len()
        invariant
            i <= digest.len(),
            digest@.len() == 32,
            multihash@ == seq![0x12u8, 0x20u8] + digest@.take(i as int),
        decreases digest.len() - i,
    {
        multihash.push(digest[i]);
        i = i + 1;
        assert(multihash@ =~= seq![0x12u8, 0x20u8] + digest@.take(i as int));
    }
    assert(digest@.take(32) =~= digest@);
    assert(bytes@ == utf8(canonical@));
    proof {
        lemma_multihash_text(digest@);
    }
    let s = to_base58(multihash.as_slice());
    text(s.as_str())
}

/// `b` to the power `e`.
pub open spec fn power(b: nat, e: nat) -> nat
    decreases e,
{
    if e == 0 {
        1
    } else {
        b * power(b, (e - 1) as nat)
    }
}

/// The big-endian value of two byte strings one after the other.
#[verifier::spinoff_prover]
proof fn lemma_big_endian_append(a: Seq<u8>, b: Seq<u8>)
    ensures
        big_endian(a + b) == big_endian(a) * power(256, b.len()) + big_endian(b),
        big_endian(b) < power(256, b.len()),
    decreases b.len(),
{
    if b.len() == 0 {
        assert(a + b =~= a);
        assert(power(256, 0) == 1);
        assert(big_endian(b) == 0);
        assert(big_endian(a) * 1 == big_endian(a));
    } else {
        let b0 = b.drop_last();
        lemma_big_endian_append(a, b0);
        assert((a + b).drop_last() =~= a + b0);
        assert((a + b).last() == b.last());
        let p0 = power(256, b0.len());
        let x = big_endian(a);
        let y = big_endian(b0);
        let l = b.last() as nat;
        assert(big_endian(a + b) == big_endian(a + b0) * 256 + l);
        assert(big_endian(b) == y * 256 + l);
        assert(power(256, b.len()) == 256 * p0);
        assert((x * p0 + y) * 256 + l == x * (256 * p0) + (y * 256 + l)) by (nonlinear_arith);
        assert(y * 256 + l < 256 * p0) by (nonlinear_arith)
            requires
                y < p0,
                l < 256,
        ;
    }
}

/// A number between `q * 58^k` and `(q + 1) * 58^k` has the base58 digits of
/// `q` followed by `k` more digits.
#[verifier::spinoff_prover]
proof fn lemma_digits_prefix(v: nat, q: nat, k: nat)
    requires
        q >= 1,
        q * power(58, k) <= v,
        v < (q + 1) * power(58, k),
    ensures
        base58_digits(v).len() == base58_digits(q).len() + k,
        base58_digits(v).take(base58_digits(q).len() as int) == base58_digits(q),
    decreases k,
{
    if k == 0 {
        assert(power(58, 0) == 1);
        assert(q * 1 == q && (q + 1) * 1 == q + 1);
        assert(v == q);
        assert(base58_digits(v).take(base58_digits(q).len() as int) =~= base58_digits(q));
    } else {
        let p = power(58, (k - 1) as nat);
        assert(power(58, k) == 58 * p);
        assert(p >= 1) by {
            lemma_power_positive(58, (k - 1) as nat);
        }
        assert(q * p <= v / 58 && v / 58 < (q + 1) * p) by (nonlinear_arith)
            requires
                q * (58 * p) <= v,
                v < (q + 1) * (58 * p),
        ;
        assert(v > 0) by (nonlinear_arith)
            requires
                q >= 1,
                p >= 1,
                q * (58 * p) <= v,
        ;
        lemma_digits_prefix(v / 58, q, (k - 1) as nat);
        let d = base58_digits(v / 58);
        assert(base58_digits(v) == d.push(base58_alphabet()[(v % 58) as int]));
        assert(base58_digits(v).take(base58_digits(q).len() as int) =~= d.take(base58_digits(q).len() as int));
    }
}

proof fn lemma_power_positive(b: nat, e: nat)
    requires
        b >= 1,
    ensures
        power(b, e) >= 1,
    decreases e,
{
    if e > 0 {
        lemma_power_positive(b, (e - 1) as nat);
        assert(b * power(b, (e - 1) as nat) >= 1) by (nonlinear_arith)
            requires
                b >= 1,
                power(b, (e - 1) as nat) >= 1,
        ;
    }
}

/// The base58 text of a SHA-256 multihash has 46 characters and starts with
/// `Qm`.
#[verifier::spinoff_prover]
proof fn lemma_multihash_text(digest: Seq<u8>)
    requires
        digest.len() == 32,
    ensures
        base58_encode(seq![0x12u8, 0x20u8] + digest).len() == 46,
        base58_encode(seq![0x12u8, 0x20u8] + digest)[0] == 'Q',
        base58_encode(seq![0x12u8, 0x20u8] + digest)[1] == 'm',
{
    let head = seq![0x12u8, 0x20u8];
    let data = head + digest;
    lemma_big_endian_append(head, digest);
    assert(head.drop_last() =~= seq![0x12u8]);
    assert(seq![0x12u8].drop_last() =~= Seq::<u8>::empty());
    assert(head.last() == 0x20u8);
    assert(seq![0x12u8].last() == 0x12u8);
    assert(big_endian(Seq::<u8>::empty()) == 0);
    assert(big_endian(seq![0x12u8]) == 18) by {
        assert(big_endian(seq![0x12u8]) == big_endian(seq![0x12u8].drop_last()) * 256 + 0x12u8 as nat);
    }
    assert(big_endian(head) == 4640) by {
        assert(big_endian(head) == big_endian(head.drop_last()) * 256 + 0x20u8 as nat);
    }
    assert(data[0] == 0x12u8);
    assert(leading_zero_bytes(data) == 0);
    let p = power(256, 32);
    let e = big_endian(digest);
    assert(p == 115792089237316195423570985008687907853269984665640564039457584007913129639936nat) by {
        reveal_with_fuel(power, 33);
    }
    assert(power(58, 44) == 389790918707373377135528568990913592653094657612049369038476873218241589149696nat) by {
        reveal_with_fuel(power, 45);
    }
    let v = big_endian(data);
    assert(v == 4640 * p + e);
    lemma_digits_prefix(v, 1378, 44);
    assert(base58_digits(1378) =~= seq!['Q', 'm']) by {
        reveal_with_fuel(base58_digits, 3);
        assert(1378nat / 58 == 23 && 1378nat % 58 == 44);
        assert(23nat / 58 == 0 && 23nat % 58 == 23);
    }
    assert(Seq::new(0, |i: int| '1') + base58_digits(v) =~= base58_digits(v));
    assert(base58_digits(v)[0] == base58_digits(v).take(2)[0]);
    assert(base58_digits(v)[1] == base58_digits(v).take(2)[1]);
}

/// `compute_entry_hash`: the base58 SHA-256 multihash of the JCS form of the
/// entry, a text of 46 characters starting with `Qm`. It fails exactly when the JCS canonicaliser refuses the entry's
/// JSON text, with the canonicaliser's message.
pub fn compute_entry_hash(entry: &Json) -> (r: Result<Vec<char>, Vec<char>>)
    ensures
        r is Ok <==> jcs_canonical(json_text(entry@)) is Some,
        r matches Ok(h) ==> h@ == entry_hash(entry@) && h@.len() == 46 && h@[0] == 'Q' && h@[1] == 'm',
        r matches Ok(h) ==> is_base58_text(h@),
{
    let t = to_json_text(entry);
    let ts = to_string(t.as_slice());
    match jcs_pipe(ts.as_str()) {
        Ok(c) => Ok(hash_canonical(c.as_str())),
        Err(m) => Err(text(m.as_str())),
    }
}

} // verus!
