use vstd::prelude::*;
use vstd::string::{StringExecFns, StringSliceAdditionalSpecFns};

verus! {

/// The result of comparing a file's freshly computed content
/// fingerprint against the fingerprint stored for it by an earlier
/// run.
#[derive(Clone, Copy, Debug, PartialEq, Eq, Structural)]
pub enum HashFileOutcome {
    /// No fingerprint was stored yet; a fresh one has been recorded.
    Created,
    /// A fingerprint was stored and differs from the fresh one.
    Changed,
    /// A fingerprint was stored and equals the fresh one.
    Unchanged,
}

/// Why a cache step cannot complete: conditions the caller must treat
/// as fatal.
#[derive(Clone, Copy, Debug, PartialEq, Eq, Structural)]
pub enum CacheError {
    /// The target path names a directory; only regular files are
    /// supported.
    IsDirectory,
    /// The stored cache entry does not have the byte length of a
    /// digest: unrecoverable corruption.
    CorruptEntry,
}

/// The digest that the content hash function produces for a byte
/// sequence. The function is deterministic: the digest depends on the
/// bytes alone.
pub uninterp spec fn fx_hash_of(bytes: Seq<u8>) -> u64;

/// Relies on fxhash::FxHasher: a hasher started from its default state
/// (which is fixed, not seeded per process), fed a byte slice in one
/// write and finished, yields a digest that is a function of those
/// bytes alone.
#[verifier::external_body]
fn fx_digest(data: &[u8]) -> (r: u64)
    ensures
        r == fx_hash_of(data@),
{
    let mut hasher = fxhash::FxHasher::default();
    std::hash::Hasher::write(&mut hasher, data);
    std::hash::Hasher::finish(&hasher)
}

/// Append `data` to `buf`.
fn append_bytes(buf: &mut Vec<u8>, data: &[u8])
    ensures
        final(buf)@ == old(buf)@ + data@,
{
    let mut i: usize = 0;
    while i < data.len()
        invariant
            i <= data@.len(),
            buf@ == old(buf)@ + data@.take(i as int),
        decreases data@.len() - i,
    {
        buf.push(data[i]);
        proof {
            assert(old(buf)@ + data@.take(i as int + 1) =~= (old(buf)@ + data@.take(
                i as int,
            )).push(data@[i as int]));
        }
        i = i + 1;
    }
    proof {
        assert(data@.take(data@.len() as int) =~= data@);
    }
}

/// The byte sequence hashed for a file: the version tag's bytes
/// followed by the file's content bytes. Mixing the tag in makes a
/// change of the computing tool's version invalidate every stored
/// fingerprint.
pub open spec fn fingerprint_input(tag: Seq<u8>, content: Seq<u8>) -> Seq<u8> {
    tag + content
}

/// The content fingerprint of a file: the digest of the version tag's
/// bytes followed by the file's bytes. The digest is one function of
/// that whole byte sequence, so how the content was chunked while
/// reading cannot affect it.
pub fn fingerprint(version_tag: &str, content: &[u8]) -> (r: u64)
    ensures
        r == fx_hash_of(fingerprint_input(version_tag.spec_bytes(), content@)),
{
    let mut buf: Vec<u8> = Vec::new();
    append_bytes(&mut buf, version_tag.as_bytes());
    append_bytes(&mut buf, content);
    proof {
        assert(buf@ =~= fingerprint_input(version_tag.spec_bytes(), content@));
    }
    fx_digest(buf.as_slice())
}

/// Distinct version tags feed distinct byte sequences to the digest
/// function, whatever the file content is. (Equal digests for the two
/// distinct inputs would be a collision of the hash function itself,
/// which a non-cryptographic digest does not rule out; the distinct
/// inputs are what this system guarantees.)
pub proof fn lemma_version_tag_separates(tag1: Seq<u8>, tag2: Seq<u8>, content: Seq<u8>)
    requires
        tag1 != tag2,
    ensures
        fingerprint_input(tag1, content) != fingerprint_input(tag2, content),
{
    if tag1 + content == tag2 + content {
        assert((tag1 + content).len() == tag1.len() + content.len());
        assert((tag2 + content).len() == tag2.len() + content.len());
        assert(tag1.len() == tag2.len());
        assert forall|i: int| 0 <= i < tag1.len() implies tag1[i] == tag2[i] by {
            assert((tag1 + content)[i] == tag1[i]);
            assert((tag2 + content)[i] == tag2[i]);
        }
        assert(tag1 =~= tag2);
    }
}

/// The lower-case hexadecimal digit for `d`.
pub open spec fn hex_digit(d: nat) -> char {
    if d == 0 {
        '0'
    } else if d == 1 {
        '1'
    } else if d == 2 {
        '2'
    } else if d == 3 {
        '3'
    } else if d == 4 {
        '4'
    } else if d == 5 {
        '5'
    } else if d == 6 {
        '6'
    } else if d == 7 {
        '7'
    } else if d == 8 {
        '8'
    } else if d == 9 {
        '9'
    } else if d == 10 {
        'a'
    } else if d == 11 {
        'b'
    } else if d == 12 {
        'c'
    } else if d == 13 {
        'd'
    } else if d == 14 {
        'e'
    } else {
        'f'
    }
}

/// The lower-case hexadecimal spelling of `n`, most significant digit
/// first, without leading zeros (`0` for zero).
pub open spec fn hex_seq(n: nat) -> Seq<char>
    decreases n,
{
    if n < 16 {
        seq![hex_digit(n)]
    } else {
        hex_seq(n / 16).push(hex_digit(n % 16))
    }
}

/// The one-character string for the hexadecimal digit `d`.
fn hex_digit_str(d: u64) -> (s: &'static str)
    requires
        d < 16,
    ensures
        s@ == seq![hex_digit(d as nat)],
{
    proof {
        reveal_strlit("0");
        reveal_strlit("1");
        reveal_strlit("2");
        reveal_strlit("3");
        reveal_strlit("4");
        reveal_strlit("5");
        reveal_strlit("6");
        reveal_strlit("7");
        reveal_strlit("8");
        reveal_strlit("9");
        reveal_strlit("a");
        reveal_strlit("b");
        reveal_strlit("c");
        reveal_strlit("d");
        reveal_strlit("e");
        reveal_strlit("f");
    }
    let s: &'static str = if d == 0 {
        "0"
    } else if d == 1 {
        "1"
    } else if d == 2 {
        "2"
    } else if d == 3 {
        "3"
    } else if d == 4 {
        "4"
    } else if d == 5 {
        "5"
    } else if d == 6 {
        "6"
    } else if d == 7 {
        "7"
    } else if d == 8 {
        "8"
    } else if d == 9 {
        "9"
    } else if d == 10 {
        "a"
    } else if d == 11 {
        "b"
    } else if d == 12 {
        "c"
    } else if d == 13 {
        "d"
    } else if d == 14 {
        "e"
    } else {
        "f"
    };
    proof {
        assert(s@ =~= seq![hex_digit(d as nat)]);
    }
    s
}

/// The lower-case hexadecimal spelling of `n`, exactly as `hex_seq`
/// gives it.
fn hex_string(n: u64) -> (s: String)
    ensures
        s@ == hex_seq(n as nat),
    decreases n,
{
    if n < 16 {
        String::from_str(hex_digit_str(n))
    } else {
        proof {
            assert(n / 16 < n) by (nonlinear_arith)
                requires
                    n >= 16,
            ;
        }
        let mut s = hex_string(n / 16);
        s.append(hex_digit_str(n % 16));
        proof {
            assert(s@ =~= hex_seq((n / 16) as nat).push(hex_digit((n % 16) as nat)));
        }
        s
    }
}

/// The stable identifier under which a file's fingerprint is stored:
/// the digest of the path string's bytes. Two distinct paths can hash
/// to the same identifier; such a collision makes them share one cache
/// entry and is not detected. (Using the path itself, sanitized for
/// filesystem safety, would remove that risk; the hashed identifier is
/// kept for compatibility with the stored entries' existing names.)
pub open spec fn entry_id(path: Seq<u8>) -> u64 {
    fx_hash_of(path)
}

/// The file name a cache entry is stored under, inside the workspace's
/// output directory: the entry identifier in lower-case hexadecimal,
/// with the fixed `.hash` extension.
pub fn entry_file_name(path: &str) -> (r: String)
    ensures
        r@ == hex_seq(entry_id(path.spec_bytes()) as nat) + ".hash"@,
{
    let id = fx_digest(path.as_bytes());
    let mut s = hex_string(id);
    s.append(".hash");
    s
}

/// The eight bytes of a fingerprint as they are persisted in a cache
/// entry, least significant byte first.
pub open spec fn digest_bytes(fp: u64) -> Seq<u8> {
    seq![
        (fp & 0xff) as u8,
        ((fp >> 8) & 0xff) as u8,
        ((fp >> 16) & 0xff) as u8,
        ((fp >> 24) & 0xff) as u8,
        ((fp >> 32) & 0xff) as u8,
        ((fp >> 40) & 0xff) as u8,
        ((fp >> 48) & 0xff) as u8,
        ((fp >> 56) & 0xff) as u8,
    ]
}

/// Two distinct fingerprints persist as distinct byte sequences, so a
/// byte-for-byte comparison of stored entries decides fingerprint
/// equality exactly.
pub proof fn lemma_digest_bytes_injective(a: u64, b: u64)
    requires
        digest_bytes(a) == digest_bytes(b),
    ensures
        a == b,
{
    assert(digest_bytes(a)[0] == digest_bytes(b)[0]);
    assert(digest_bytes(a)[1] == digest_bytes(b)[1]);
    assert(digest_bytes(a)[2] == digest_bytes(b)[2]);
    assert(digest_bytes(a)[3] == digest_bytes(b)[3]);
    assert(digest_bytes(a)[4] == digest_bytes(b)[4]);
    assert(digest_bytes(a)[5] == digest_bytes(b)[5]);
    assert(digest_bytes(a)[6] == digest_bytes(b)[6]);
    assert(digest_bytes(a)[7] == digest_bytes(b)[7]);
    assert(a == b) by (bit_vector)
        requires
            (a & 0xff) as u8 == (b & 0xff) as u8,
            ((a >> 8) & 0xff) as u8 == ((b >> 8) & 0xff) as u8,
            ((a >> 16) & 0xff) as u8 == ((b >> 16) & 0xff) as u8,
            ((a >> 24) & 0xff) as u8 == ((b >> 24) & 0xff) as u8,
            ((a >> 32) & 0xff) as u8 == ((b >> 32) & 0xff) as u8,
            ((a >> 40) & 0xff) as u8 == ((b >> 40) & 0xff) as u8,
            ((a >> 48) & 0xff) as u8 == ((b >> 48) & 0xff) as u8,
            ((a >> 56) & 0xff) as u8 == ((b >> 56) & 0xff) as u8,
    ;
}

/// The persisted form of `fp`, exactly as `digest_bytes` gives it.
pub fn fingerprint_bytes(fp: u64) -> (r: Vec<u8>)
    ensures
        r@ == digest_bytes(fp),
{
    proof {
        assert((fp & 0xff) < 256 && ((fp >> 8) & 0xff) < 256 && ((fp >> 16) & 0xff) < 256 && ((fp
            >> 24) & 0xff) < 256 && ((fp >> 32) & 0xff) < 256 && ((fp >> 40) & 0xff) < 256 && ((fp
            >> 48) & 0xff) < 256 && ((fp >> 56) & 0xff) < 256) by (bit_vector);
    }
    let mut r: Vec<u8> = Vec::new();
    r.push((fp & 0xff) as u8);
    r.push(((fp >> 8) & 0xff) as u8);
    r.push(((fp >> 16) & 0xff) as u8);
    r.push(((fp >> 24) & 0xff) as u8);
    r.push(((fp >> 32) & 0xff) as u8);
    r.push(((fp >> 40) & 0xff) as u8);
    r.push(((fp >> 48) & 0xff) as u8);
    r.push(((fp >> 56) & 0xff) as u8);
    proof {
        assert(r@ =~= digest_bytes(fp));
    }
    r
}

/// What one completed cache step decides: the outcome reported to the
/// caller, and the digest bytes to persist, if the entry is to be
/// written.
pub struct EntryStep {
    /// The outcome reported to the caller.
    pub outcome: HashFileOutcome,
    /// The bytes to write to the cache entry, or `None` when the
    /// stored entry already holds the fresh digest.
    pub store: Option<Seq<u8>>,
}

/// The decision taken from a fresh fingerprint and the bytes of the
/// stored entry, if one exists: create on first observation, reject a
/// stored entry of the wrong width as corrupt, otherwise compare and
/// overwrite exactly when the digests differ.
pub open spec fn entry_decision(current: u64, stored: Option<Seq<u8>>) -> Result<
    EntryStep,
    CacheError,
> {
    match stored {
        None => Ok(
            EntryStep { outcome: HashFileOutcome::Created, store: Some(digest_bytes(current)) },
        ),
        Some(s) => {
            if s.len() != 8 {
                Err(CacheError::CorruptEntry)
            } else if s == digest_bytes(current) {
                Ok(EntryStep { outcome: HashFileOutcome::Unchanged, store: None })
            } else {
                Ok(
                    EntryStep {
                        outcome: HashFileOutcome::Changed,
                        store: Some(digest_bytes(current)),
                    },
                )
            }
        },
    }
}

/// The persisted bytes a stored entry holds, if one exists.
pub open spec fn bytes_view(stored: Option<Vec<u8>>) -> Option<Seq<u8>> {
    match stored {
        Some(v) => Some(v@),
        None => None,
    }
}

/// What the caller is to do after one cache step: report `outcome`,
/// and write `store` to the cache entry first if it is present.
#[derive(Debug)]
pub struct CacheUpdate {
    /// The outcome reported to the caller.
    pub outcome: HashFileOutcome,
    /// The bytes to write to the cache entry, or `None` when no write
    /// is needed.
    pub store: Option<Vec<u8>>,
}

impl View for CacheUpdate {
    type V = EntryStep;

    open spec fn view(&self) -> EntryStep {
        EntryStep { outcome: self.outcome, store: bytes_view(self.store) }
    }
}

/// Whether two byte vectors hold the same bytes.
fn bytes_equal(a: &Vec<u8>, b: &Vec<u8>) -> (r: bool)
    ensures
        r == (a@ == b@),
{
    if a.len() != b.len() {
        proof {
            assert(a@ != b@);
        }
        return false;
    }
    let mut i: usize = 0;
    while i < a.len()
        invariant
            i <= a@.len(),
            a@.len() == b@.len(),
            forall|j: int| 0 <= j < i ==> a@[j] == b@[j],
        decreases a@.len() - i,
    {
        if a[i] != b[i] {
            proof {
                assert(a@ != b@);
            }
            return false;
        }
        i = i + 1;
    }
    proof {
        assert(a@ =~= b@);
    }
    true
}

/// Reject a target that names a directory: only regular files can be
/// fingerprinted, and the caller must treat the error as fatal, before
/// reading anything and before any write.
pub fn validate_target(is_directory: bool) -> (r: Result<(), CacheError>)
    ensures
        r == if is_directory {
            Err::<(), CacheError>(CacheError::IsDirectory)
        } else {
            Ok::<(), CacheError>(())
        },
{
    if is_directory {
        Err(CacheError::IsDirectory)
    } else {
        Ok(())
    }
}

/// Decide one cache step from the fresh fingerprint and the stored
/// entry's bytes, exactly as `entry_decision` says: `Created` with a
/// write on first observation, `Unchanged` with no write when the
/// stored digest equals the fresh one, `Changed` with a write when it
/// differs, and a fatal corruption error when the stored entry does
/// not have a digest's width.
pub fn resolve_entry(current: u64, stored: &Option<Vec<u8>>) -> (r: Result<
    CacheUpdate,
    CacheError,
>)
    ensures
        (r is Ok) == (entry_decision(current, bytes_view(*stored)) is Ok),
        r matches Ok(u) ==> entry_decision(current, bytes_view(*stored)) == Ok::<
            EntryStep,
            CacheError,
        >(u@),
        r matches Err(e) ==> entry_decision(current, bytes_view(*stored)) == Err::<
            EntryStep,
            CacheError,
        >(e),
{
    match stored {
        Option::None => Ok(
            CacheUpdate {
                outcome: HashFileOutcome::Created,
                store: Some(fingerprint_bytes(current)),
            },
        ),
        Option::Some(s) => {
            if s.len() != 8 {
                Err(CacheError::CorruptEntry)
            } else {
                let fresh = fingerprint_bytes(current);
                if bytes_equal(s, &fresh) {
                    Ok(CacheUpdate { outcome: HashFileOutcome::Unchanged, store: None })
                } else {
                    Ok(CacheUpdate { outcome: HashFileOutcome::Changed, store: Some(fresh) })
                }
            }
        },
    }
}

/// Observing a file for the first time creates its entry; observing
/// the same fingerprint again, with the entry holding exactly what the
/// first step stored, is `Unchanged` and stores nothing: repeated
/// calls on an unmodified file settle after the first.
pub proof fn lemma_created_then_unchanged(fp: u64)
    ensures
        entry_decision(fp, None) == Ok::<EntryStep, CacheError>(
            EntryStep { outcome: HashFileOutcome::Created, store: Some(digest_bytes(fp)) },
        ),
        entry_decision(fp, Some(digest_bytes(fp))) == Ok::<EntryStep, CacheError>(
            EntryStep { outcome: HashFileOutcome::Unchanged, store: None },
        ),
{
}

/// A fingerprint that differs from the stored one is reported
/// `Changed`, never `Unchanged`, and the fresh digest replaces the
/// stored one, after which the same fingerprint is `Unchanged`.
pub proof fn lemma_change_detected(stored_fp: u64, fresh_fp: u64)
    requires
        stored_fp != fresh_fp,
    ensures
        entry_decision(fresh_fp, Some(digest_bytes(stored_fp))) == Ok::<EntryStep, CacheError>(
            EntryStep { outcome: HashFileOutcome::Changed, store: Some(digest_bytes(fresh_fp)) },
        ),
        entry_decision(fresh_fp, Some(digest_bytes(fresh_fp))) == Ok::<EntryStep, CacheError>(
            EntryStep { outcome: HashFileOutcome::Unchanged, store: None },
        ),
{
    if digest_bytes(stored_fp) == digest_bytes(fresh_fp) {
        lemma_digest_bytes_injective(stored_fp, fresh_fp);
    }
}

} // verus!
