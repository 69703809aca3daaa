use vstd::prelude::*;
use vstd::string::StringSliceAdditionalSpecFns;
use crate::text::{hex_of, bytes_to_hex, lemma_hex_of_len};
use base64::Engine;
use sha2::Digest;
use aes::cipher::{BlockCipherEncrypt, KeyInit};

verus! {

/// Whether the regex grammar admits `pattern`, as `regex::Regex::new`
/// decides it.
pub uninterp spec fn regex_compiles(pattern: Seq<char>) -> bool;

/// The text that replacing every match of `pattern` in `text` by `rep`
/// yields, as `regex::Regex::replace_all` computes it.
pub uninterp spec fn replaced_of(pattern: Seq<char>, text: Seq<char>, rep: Seq<char>) -> Seq<char>;

/// Whether `pattern` matches somewhere in `text`, as `regex::Regex::is_match`
/// decides it.
pub uninterp spec fn match_in(pattern: Seq<char>, text: Seq<char>) -> bool;

/// The AES-256 permutation of one sixteen-byte block, a function of key and
/// block alone.
pub uninterp spec fn aes_block_of(key: Seq<u8>, block: Seq<u8>) -> Seq<u8>;

/// The standard-alphabet, padded base64 rendering of a byte string.
pub uninterp spec fn b64_of(bytes: Seq<u8>) -> Seq<char>;

/// The SHA-256 digest of a byte string.
pub uninterp spec fn sha256_of(bytes: Seq<u8>) -> Seq<u8>;

/// Relies on regex::Regex::new and regex::Regex::replace_all: compiling
/// succeeds for exactly the patterns the regex grammar admits; the
/// replacement depends on pattern, text and replacement alone; and a text
/// without a match comes back unchanged.
#[verifier::external_body]
fn regex_replace(pattern: &str, text: &str, replacement: &str) -> (r: Option<String>)
    ensures
        r is Some <==> regex_compiles(pattern@),
        r matches Some(s) ==> s@ == replaced_of(pattern@, text@, replacement@),
        !match_in(pattern@, text@) ==> (r matches Some(s) ==> s@ == text@),
{
    match regex::Regex::new(pattern) {
        Ok(re) => Some(re.replace_all(text, replacement).into_owned()),
        Err(_) => None,
    }
}

/// Relies on aes::Aes256 (new_from_slice, encrypt_block): the AES-256
/// permutation, a function of key and block alone.
#[verifier::external_body]
fn aes256_encrypt_block(key: &[u8], block: &[u8]) -> (r: Vec<u8>)
    requires
        key@.len() == 32,
        block@.len() == 16,
    ensures
        r@ == aes_block_of(key@, block@),
        r@.len() == 16,
{
    let cipher = aes::Aes256::new_from_slice(key).unwrap();
    let mut b = aes::Block::try_from(block).unwrap();
    cipher.encrypt_block(&mut b);
    b.to_vec()
}

/// Relies on base64::engine::general_purpose::STANDARD (Engine::encode):
/// standard-alphabet padded base64, a function of the bytes alone, four
/// output characters for every three input bytes rounded up.
#[verifier::external_body]
fn base64_encode(bytes: &[u8]) -> (r: String)
    ensures
        r@ == b64_of(bytes@),
        r@.len() == 4 * ((bytes@.len() + 2) / 3),
{
    base64::engine::general_purpose::STANDARD.encode(bytes)
}

/// Relies on sha2::Sha256 (Digest::digest): the SHA-256 digest, thirty-two
/// bytes, a function of the input bytes alone.
#[verifier::external_body]
fn sha256_digest(bytes: &[u8]) -> (r: Vec<u8>)
    ensures
        r@ == sha256_of(bytes@),
        r@.len() == 32,
{
    sha2::Sha256::digest(bytes).to_vec()
}

/// Relies on uuid::Uuid::new_v4: sixteen bytes drawn from the process's
/// random source; nothing is promised of their values.
#[verifier::external_body]
pub(crate) fn fresh_random_bytes() -> (r: Vec<u8>)
    ensures
        r@.len() == 16,
{
    uuid::Uuid::new_v4().into_bytes().to_vec()
}

/// An element-wise copy of a list of strings.
fn clone_strings(v: &Vec<String>) -> (r: Vec<String>)
    ensures
        r@ == v@,
{
    let mut out: Vec<String> = Vec::new();
    let mut i: usize = 0;
    while i < v.len()
        invariant
            i <= v@.len(),
            out@ == v@.take(i as int),
        decreases v@.len() - i,
    {
        out.push(v[i].clone());
        proof {
            assert(v@.take(i + 1) =~= v@.take(i as int).push(v@[i as int]));
        }
        i = i + 1;
    }
    proof {
        assert(v@.take(v@.len() as int) =~= v@);
    }
    out
}

/// Whether the regex grammar admits `pattern`.
pub fn pattern_ok(pattern: &str) -> (r: bool)
    ensures
        r == regex_compiles(pattern@),
{
    let probe = regex_replace(pattern, "", "");
    probe.is_some()
}

/// Failures of the security transform chain.
#[derive(Debug)]
pub enum SecurityError {
    EncryptionError(String),
    HashingError(String),
    SanitizationError(String),
}

/// The pattern used when none are configured: it matches email-address-shaped
/// substrings.
pub open spec fn default_pattern_spec() -> Seq<char> {
    "(?i)(\\b[A-Z0-9._%+-]+@[A-Z0-9.-]+\\.[A-Z]{2,}\\b)"@
}

/// Whether every pattern of a list compiles.
pub open spec fn all_compile(patterns: Seq<Seq<char>>) -> bool {
    forall|i: int| 0 <= i < patterns.len() ==> regex_compiles(#[trigger] patterns[i])
}

/// The patterns a configuration stands for: the given list, or the default
/// email pattern when none are given.
pub open spec fn effective_patterns(patterns: Option<Vec<String>>) -> Seq<Seq<char>> {
    match patterns {
        Some(ps) => ps.deep_view(),
        None => seq![default_pattern_spec()],
    }
}

/// The text after every configured pattern has redacted its matches, in
/// configured order; a later pattern re-scans what an earlier one produced.
pub open spec fn sanitize_spec(patterns: Seq<Seq<char>>, text: Seq<char>) -> Seq<char>
    decreases patterns.len(),
{
    if patterns.len() == 0 {
        text
    } else {
        sanitize_spec(patterns.drop_first(), replaced_of(patterns[0], text, "[REDACTED]"@))
    }
}

/// The big-endian bytes of a block counter.
pub open spec fn counter_bytes(i: u64) -> Seq<u8> {
    seq![
        (i >> 56) as u8,
        (i >> 48) as u8,
        (i >> 40) as u8,
        (i >> 32) as u8,
        (i >> 24) as u8,
        (i >> 16) as u8,
        (i >> 8) as u8,
        i as u8,
    ]
}

/// The keystream block for counter `i`: AES-256 of nonce followed by counter.
pub open spec fn ctr_pad(key: Seq<u8>, nonce: Seq<u8>, i: int) -> Seq<u8> {
    aes_block_of(key, nonce + counter_bytes(i as u64))
}

/// Byte-wise exclusive or; the result is as long as `a`.
pub open spec fn xor_seq(a: Seq<u8>, b: Seq<u8>) -> Seq<u8> {
    Seq::new(a.len(), |k: int| a[k] ^ b[k])
}

/// Counter-mode encryption of `pt` starting at block counter `i`.
pub open spec fn ctr_cipher_from(key: Seq<u8>, nonce: Seq<u8>, pt: Seq<u8>, i: int) -> Seq<u8>
    decreases pt.len(),
{
    if pt.len() == 0 {
        Seq::empty()
    } else if pt.len() <= 16 {
        xor_seq(pt, ctr_pad(key, nonce, i).take(pt.len() as int))
    } else {
        xor_seq(pt.take(16), ctr_pad(key, nonce, i)) + ctr_cipher_from(key, nonce, pt.skip(16), i + 1)
    }
}

/// The self-describing ciphertext blob: base64 of nonce followed by the
/// counter-mode ciphertext.
pub open spec fn cipher_blob(key: Seq<u8>, nonce: Seq<u8>, pt: Seq<u8>) -> Seq<char> {
    b64_of(nonce + ctr_cipher_from(key, nonce, pt, 0))
}

/// The hexadecimal SHA-256 digest of a text.
pub open spec fn hash_spec(text: Seq<char>) -> Seq<char> {
    hex_of(sha256_of(vstd::utf8::encode_utf8(text)))
}

/// Holds the fixed-size symmetric key and the ordered redaction patterns;
/// immutable after construction.
pub struct SecurityManager {
    key: Vec<u8>,
    patterns: Vec<String>,
}

impl SecurityManager {
    #[verifier::type_invariant]
    spec fn wf(self) -> bool {
        self.key@.len() == 32 && all_compile(self.patterns.deep_view())
    }

    /// The thirty-two bytes of key material in use.
    pub closed spec fn key_spec(self) -> Seq<u8> {
        self.key@
    }

    /// The redaction patterns in configured order.
    pub closed spec fn patterns_spec(self) -> Seq<Seq<char>> {
        self.patterns.deep_view()
    }

    /// Builds the transform chain: fails on a key shorter than thirty-two
    /// bytes, or on a pattern the regex grammar refuses; otherwise keeps the
    /// first thirty-two key bytes and the given patterns (or the default
    /// email pattern).
    pub fn new(key: &[u8], patterns: Option<Vec<String>>) -> (r: Result<
        SecurityManager,
        SecurityError,
    >)
        ensures
            r is Ok <==> key@.len() >= 32 && all_compile(effective_patterns(patterns)),
            r matches Ok(m) ==> m.key_spec() == key@.take(32) && m.patterns_spec()
                == effective_patterns(patterns),
            r matches Err(e) ==> (match e {
                SecurityError::EncryptionError(_) => key@.len() < 32,
                SecurityError::SanitizationError(_) => key@.len() >= 32 && !all_compile(
                    effective_patterns(patterns),
                ),
                SecurityError::HashingError(_) => false,
            }),
    {
        if key.len() < 32 {
            return Err(
                SecurityError::EncryptionError(
                    String::from_str("Encryption key must be at least 32 bytes."),
                ),
            );
        }
        let mut k: Vec<u8> = Vec::new();
        let mut i: usize = 0;
        while i < 32
            invariant
                i <= 32,
                key@.len() >= 32,
                k@ == key@.take(i as int),
            decreases 32 - i,
        {
            k.push(key[i]);
            proof {
                assert(key@.take(i + 1) =~= key@.take(i as int).push(key@[i as int]));
            }
            i = i + 1;
        }
        let ghost eff = effective_patterns(patterns);
        let pats: Vec<String> = match &patterns {
            Some(ps) => clone_strings(ps),
            None => {
                let mut v: Vec<String> = Vec::new();
                v.push(String::from_str("(?i)(\\b[A-Z0-9._%+-]+@[A-Z0-9.-]+\\.[A-Z]{2,}\\b)"));
                proof {
                    assert(v.deep_view() =~= seq![default_pattern_spec()]);
                }
                v
            },
        };
        proof {
            assert(pats.deep_view() == eff);
        }
        let mut j: usize = 0;
        while j < pats.len()
            invariant
                j <= pats@.len(),
                pats.deep_view() == eff,
                eff == effective_patterns(patterns),
                key@.len() >= 32,
                k@ == key@.take(32),
                forall|t: int| 0 <= t < j ==> regex_compiles(#[trigger] pats.deep_view()[t]),
            decreases pats@.len() - j,
        {
            proof {
                assert(pats.deep_view()[j as int] == pats@[j as int]@);
            }
            if !pattern_ok(pats[j].as_str()) {
                proof {
                    assert(0 <= j < eff.len());
                    assert(!regex_compiles(eff[j as int]));
                    assert(!all_compile(eff));
                }
                return Err(
                    SecurityError::SanitizationError(String::from_str("invalid pattern")),
                );
            }
            j = j + 1;
        }
        Ok(SecurityManager { key: k, patterns: pats })
    }

    /// Redacts every match of every configured pattern, in order; an input
    /// that no pattern matches comes back unchanged.
    pub fn sanitize(&self, log: &str) -> (r: String)
        ensures
            r@ == sanitize_spec(self.patterns_spec(), log@),
            (forall|i: int| 0 <= i < self.patterns_spec().len() ==> !match_in(
                #[trigger] self.patterns_spec()[i],
                log@,
            )) ==> r@ == log@,
    {
        proof {
            use_type_invariant(&*self);
        }
        let ghost ps = self.patterns_spec();
        let ghost none_match = forall|i: int| 0 <= i < ps.len() ==> !match_in(
            #[trigger] ps[i],
            log@,
        );
        let mut cur = String::from_str(log);
        let mut i: usize = 0;
        proof {
            assert(ps.skip(0) =~= ps);
        }
        while i < self.patterns.len()
            invariant
                i <= ps.len(),
                ps == self.patterns_spec(),
                ps.len() == self.patterns@.len(),
                all_compile(ps),
                sanitize_spec(ps.skip(i as int), cur@) == sanitize_spec(ps, log@),
                none_match == (forall|t: int| 0 <= t < ps.len() ==> !match_in(
                    #[trigger] ps[t],
                    log@,
                )),
                none_match ==> cur@ == log@,
            decreases ps.len() - i,
        {
            let ghost rest = ps.skip(i as int);
            proof {
                assert(rest[0] == ps[i as int]);
                assert(self.patterns.deep_view()[i as int] == self.patterns@[i as int]@);
            }
            let rep = regex_replace(self.patterns[i].as_str(), cur.as_str(), "[REDACTED]");
            match rep {
                Some(s) => {
                    proof {
                        assert(rest.drop_first() =~= ps.skip(i + 1));
                        assert(sanitize_spec(rest, cur@) == sanitize_spec(
                            ps.skip(i + 1),
                            replaced_of(ps[i as int], cur@, "[REDACTED]"@),
                        ));
                    }
                    cur = s;
                },
                None => {
                    proof {
                        assert(regex_compiles(ps[i as int]));
                        assert(false);
                    }
                },
            }
            i = i + 1;
        }
        proof {
            assert(ps.skip(ps.len() as int) =~= Seq::<Seq<char>>::empty());
        }
        cur
    }

    /// Encrypts a text under the manager's key: a fresh eight-byte nonce,
    /// counter-mode AES-256, and the blob rendered as base64 of nonce
    /// followed by ciphertext.
    pub fn encrypt(&self, log: &str) -> (r: Result<String, SecurityError>)
        ensures
            r is Ok,
            exists|nonce: Seq<u8>|
                #[trigger] cipher_blob(self.key_spec(), nonce, log.spec_bytes())
                    == r->Ok_0@ && nonce.len() == 8,
    {
        proof {
            use_type_invariant(&*self);
        }
        let ghost key = self.key_spec();
        let rb = fresh_random_bytes();
        let mut nonce: Vec<u8> = Vec::new();
        let mut t: usize = 0;
        while t < 8
            invariant
                t <= 8,
                rb@.len() == 16,
                nonce@.len() == t,
            decreases 8 - t,
        {
            nonce.push(rb[t]);
            t = t + 1;
        }
        let pt = log.as_bytes();
        let n = pt.len();
        let mut ct: Vec<u8> = Vec::new();
        let mut pos: usize = 0;
        let mut blk: u64 = 0;
        proof {
            assert(pt@.skip(0) =~= pt@);
            assert(ct@ + ctr_cipher_from(key, nonce@, pt@, 0) =~= ctr_cipher_from(
                key,
                nonce@,
                pt@,
                0,
            ));
        }
        while pos < pt.len()
            invariant
                n == pt@.len(),
                pos <= pt@.len(),
                blk as int <= pos as int,
                nonce@.len() == 8,
                key == self.key_spec(),
                self.key@.len() == 32,
                ct@ + ctr_cipher_from(key, nonce@, pt@.skip(pos as int), blk as int)
                    == ctr_cipher_from(key, nonce@, pt@, 0),
            decreases pt@.len() - pos,
        {
            let mut block: Vec<u8> = Vec::new();
            let mut t2: usize = 0;
            while t2 < 8
                invariant
                    t2 <= 8,
                    nonce@.len() == 8,
                    block@ == nonce@.take(t2 as int),
                decreases 8 - t2,
            {
                block.push(nonce[t2]);
                proof {
                    assert(nonce@.take(t2 + 1) =~= nonce@.take(t2 as int).push(
                        nonce@[t2 as int],
                    ));
                }
                t2 = t2 + 1;
            }
            block.push(#[verifier::truncate] ((blk >> 56) as u8));
            block.push(#[verifier::truncate] ((blk >> 48) as u8));
            block.push(#[verifier::truncate] ((blk >> 40) as u8));
            block.push(#[verifier::truncate] ((blk >> 32) as u8));
            block.push(#[verifier::truncate] ((blk >> 24) as u8));
            block.push(#[verifier::truncate] ((blk >> 16) as u8));
            block.push(#[verifier::truncate] ((blk >> 8) as u8));
            block.push(#[verifier::truncate] (blk as u8));
            proof {
                assert(nonce@.take(8) =~= nonce@);
                assert(block@ =~= nonce@ + counter_bytes(blk));
            }
            let pad = aes256_encrypt_block(self.key.as_slice(), block.as_slice());
            let rem = pt.len() - pos;
            let chunk: usize = if rem < 16 {
                rem
            } else {
                16
            };
            let ghost pre_ct = ct@;
            let mut kk: usize = 0;
            while kk < chunk
                invariant
                    kk <= chunk,
                    chunk <= 16,
                    n == pt@.len(),
                    pos + chunk <= pt@.len(),
                    pad@.len() == 16,
                    ct@.len() == pre_ct.len() + kk,
                    ct@.take(pre_ct.len() as int) == pre_ct,
                    forall|u: int| 0 <= u < kk ==> ct@[pre_ct.len() + u] == (pt@[pos + u]
                        ^ pad@[u]),
                decreases chunk - kk,
            {
                let x = pt[pos + kk] ^ pad[kk];
                ct.push(x);
                proof {
                    assert(ct@.take(pre_ct.len() as int) =~= pre_ct);
                }
                kk = kk + 1;
            }
            proof {
                let tail = pt@.skip(pos as int);
                let appended = xor_seq(
                    pt@.subrange(pos as int, pos + chunk),
                    pad@.take(chunk as int),
                );
                assert(ct@ =~= pre_ct + appended);
                assert(pad@ == ctr_pad(key, nonce@, blk as int));
                if tail.len() <= 16 {
                    assert(chunk == tail.len());
                    assert(pt@.subrange(pos as int, pos + chunk) =~= tail);
                    assert(ctr_cipher_from(key, nonce@, tail, blk as int) == xor_seq(
                        tail,
                        ctr_pad(key, nonce@, blk as int).take(tail.len() as int),
                    ));
                    assert(appended == ctr_cipher_from(key, nonce@, tail, blk as int));
                    assert(pt@.skip(pos + chunk) =~= Seq::<u8>::empty());
                    assert((pre_ct + appended) + ctr_cipher_from(
                        key,
                        nonce@,
                        pt@.skip(pos + chunk),
                        blk as int + 1,
                    ) =~= pre_ct + ctr_cipher_from(key, nonce@, tail, blk as int));
                } else {
                    assert(chunk == 16);
                    assert(tail.take(16) =~= pt@.subrange(pos as int, pos + 16));
                    assert(tail.skip(16) =~= pt@.skip(pos + 16));
                    assert(pad@.take(16) =~= pad@);
                    assert(ctr_cipher_from(key, nonce@, tail, blk as int) == xor_seq(
                        tail.take(16),
                        ctr_pad(key, nonce@, blk as int),
                    ) + ctr_cipher_from(key, nonce@, tail.skip(16), blk as int + 1));
                    assert(appended == xor_seq(tail.take(16), ctr_pad(key, nonce@, blk as int)));
                    assert((pre_ct + appended) + ctr_cipher_from(
                        key,
                        nonce@,
                        pt@.skip(pos + chunk),
                        blk as int + 1,
                    ) =~= pre_ct + (appended + ctr_cipher_from(
                        key,
                        nonce@,
                        tail.skip(16),
                        blk as int + 1,
                    )));
                }
            }
            pos = pos + chunk;
            blk = blk + 1;
        }
        proof {
            assert(pt@.skip(pos as int) =~= Seq::<u8>::empty());
            assert(ct@ + Seq::<u8>::empty() =~= ct@);
        }
        let mut combined: Vec<u8> = nonce;
        let ghost nview = combined@;
        let mut w: usize = 0;
        while w < ct.len()
            invariant
                w <= ct@.len(),
                combined@ == nview + ct@.take(w as int),
            decreases ct@.len() - w,
        {
            combined.push(ct[w]);
            proof {
                assert(nview + ct@.take(w + 1) =~= (nview + ct@.take(w as int)).push(
                    ct@[w as int],
                ));
            }
            w = w + 1;
        }
        proof {
            assert(ct@.take(ct@.len() as int) =~= ct@);
            assert(combined@ == nview + ct@);
        }
        let blob = base64_encode(combined.as_slice());
        proof {
            assert(cipher_blob(key, nview, log.spec_bytes()) == blob@);
        }
        Ok(blob)
    }

    /// The hexadecimal SHA-256 digest of a text; never fails on legitimate
    /// input.
    pub fn hash(&self, log: &str) -> (r: Result<String, SecurityError>)
        ensures
            r is Ok,
            r->Ok_0@ == hash_spec(log@),
            r->Ok_0@.len() == 64,
    {
        let digest = sha256_digest(log.as_bytes());
        let h = bytes_to_hex(digest.as_slice());
        proof {
            lemma_hex_of_len(digest@);
        }
        Ok(h)
    }

    /// Recomputes the digest of `log` and compares it with `hash`.
    pub fn verify_integrity(&self, log: &str, hash: &str) -> (r: Result<bool, SecurityError>)
        ensures
            r is Ok,
            r->Ok_0 == (hash_spec(log@) == hash@),
    {
        let computed = match self.hash(log) {
            Ok(c) => c,
            Err(e) => {
                return Err(e);
            },
        };
        let expected = hash.to_owned();
        Ok(computed == expected)
    }
}

/// A blob always checks out against its own digest: recomputing the digest
/// of any text yields the digest it was stored with.
pub proof fn lemma_integrity_round_trip(blob: Seq<char>, digest: Seq<char>)
    requires
        digest == hash_spec(blob),
    ensures
        (hash_spec(blob) == digest) == true,
{
}

} // verus!
