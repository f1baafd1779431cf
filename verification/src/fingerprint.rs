//! The execution fingerprint: a 64-bit XOR fold over the playbook text and
//! every referenced secret, order-insensitive across secrets.

use vstd::prelude::*;
use crate::strutil::{hex_str, u64_to_hex};

verus! {

/// The payload of one secret: its `(key, value)` entries in key order.
pub type SecretData = Vec<(String, Vec<u8>)>;

/// What the 64-bit hash of a text is; a function of the characters alone.
pub uninterp spec fn xx_text(s: Seq<char>) -> u64;

/// What the 64-bit hash of one secret's entry list is; a function of the
/// keys and values alone, in their listed order.
pub uninterp spec fn xx_entries(entries: Seq<(Seq<char>, Seq<u8>)>) -> u64;

/// What the 64-bit hash of a timestamp is; a function of the instant alone.
pub uninterp spec fn xx_time(t: i64) -> u64;

/// Relies on `twox_hash::XxHash3_64` over a string slice: an unseeded,
/// deterministic function of the characters alone.
#[verifier::external_body]
fn hash_text(s: &str) -> (r: u64)
    ensures
        r == xx_text(s@),
{
    let mut hasher = twox_hash::XxHash3_64::new();
    core::hash::Hash::hash(s, &mut hasher);
    core::hash::Hasher::finish(&hasher)
}

/// Relies on `twox_hash::XxHash3_64` fed each key and value in order: an
/// unseeded, deterministic function of the entry list alone.
#[verifier::external_body]
fn hash_secret_entries(entries: &SecretData) -> (r: u64)
    ensures
        r == xx_entries(entries.deep_view()),
{
    let mut hasher = twox_hash::XxHash3_64::new();
    for (key, value) in entries.iter() {
        core::hash::Hash::hash(key, &mut hasher);
        core::hash::Hash::hash(value, &mut hasher);
    }
    core::hash::Hasher::finish(&hasher)
}

/// Relies on `twox_hash::XxHash3_64` over an `i64`: an unseeded,
/// deterministic function of the value alone.
#[verifier::external_body]
pub(crate) fn hash_timestamp(t: i64) -> (r: u64)
    ensures
        r == xx_time(t),
{
    let mut hasher = twox_hash::XxHash3_64::new();
    core::hash::Hash::hash(&t, &mut hasher);
    core::hash::Hasher::finish(&hasher)
}

/// XOR of the per-secret hashes, head first.
pub open spec fn secrets_xor(secrets: Seq<Seq<(Seq<char>, Seq<u8>)>>) -> u64
    decreases secrets.len(),
{
    if secrets.len() == 0 {
        0u64
    } else {
        xx_entries(secrets[0]) ^ secrets_xor(secrets.drop_first())
    }
}

/// The fingerprint of a playbook and its referenced secrets.
pub open spec fn spec_execution_hash(playbook: Seq<char>, secrets: Seq<Seq<(Seq<char>, Seq<u8>)>>) -> u64 {
    xx_text(playbook) ^ secrets_xor(secrets)
}

/// The 64-bit execution fingerprint of a plan, shown as lowercase hex in
/// labels and status fields.
#[derive(Debug, Clone, Copy, PartialEq, Eq, Structural)]
pub struct ExecutionHash(pub u64);

impl ExecutionHash {
    /// The raw 64-bit value.
    pub fn value(&self) -> (r: u64)
        ensures
            r == self.0,
    {
        self.0
    }

    /// The fingerprint as a lowercase hexadecimal string, as `"{:x}"` shows it.
    pub fn hex_string(&self) -> (r: String)
        ensures
            r@ == hex_str(self.0 as nat),
    {
        u64_to_hex(self.0)
    }
}

/// Given a playbook and some secrets, calculates a hash that only changes if
/// the inputs change; with regard to the secrets the fold is order-insensitive.
pub fn calculate_execution_hash(playbook: &str, secrets: &Vec<SecretData>) -> (r: ExecutionHash)
    ensures
        r.0 == spec_execution_hash(playbook@, secrets.deep_view()),
{
    let mut acc: u64 = hash_text(playbook);
    proof {
        assert(secrets.deep_view().skip(0) =~= secrets.deep_view());
    }
    let mut i: usize = 0;
    while i < secrets.len()
        invariant
            i <= secrets@.len(),
            secrets.deep_view().len() == secrets@.len(),
            acc ^ secrets_xor(secrets.deep_view().skip(i as int)) == spec_execution_hash(
                playbook@,
                secrets.deep_view(),
            ),
        decreases secrets@.len() - i,
    {
        let e = hash_secret_entries(&secrets[i]);
        proof {
            let s = secrets.deep_view();
            assert(s.skip(i as int).drop_first() =~= s.skip(i + 1));
            assert(s.skip(i as int)[0] == s[i as int]);
            assert(secrets_xor(s.skip(i as int)) == xx_entries(s[i as int]) ^ secrets_xor(
                s.skip(i + 1),
            ));
            let a = acc;
            let b = e;
            let c = secrets_xor(s.skip(i + 1));
            assert((a ^ b) ^ c == a ^ (b ^ c)) by (bit_vector);
        }
        acc = acc ^ e;
        i += 1;
    }
    proof {
        let s = secrets.deep_view();
        assert(s.skip(s.len() as int) =~= Seq::<Seq<(Seq<char>, Seq<u8>)>>::empty());
        let a = acc;
        assert(a ^ 0u64 == a) by (bit_vector);
    }
    ExecutionHash(acc)
}

/// Pulling any one element to the front of the fold leaves the XOR unchanged.
proof fn lemma_secrets_xor_pick(s: Seq<Seq<(Seq<char>, Seq<u8>)>>, j: int)
    requires
        0 <= j < s.len(),
    ensures
        secrets_xor(s) == xx_entries(s[j]) ^ secrets_xor(s.remove(j)),
    decreases j,
{
    if j == 0 {
        assert(s.remove(0) =~= s.drop_first());
    } else {
        let t = s.drop_first();
        lemma_secrets_xor_pick(t, j - 1);
        assert(s.remove(j).drop_first() =~= t.remove(j - 1));
        assert(t[j - 1] == s[j]);
        let a = xx_entries(s[0]);
        let b = xx_entries(s[j]);
        let c = secrets_xor(t.remove(j - 1));
        assert(a ^ (b ^ c) == b ^ (a ^ c)) by (bit_vector);
    }
}

/// The XOR fold over secrets only depends on which secrets are fed, not on
/// their order.
proof fn lemma_secrets_xor_permutation(
    s1: Seq<Seq<(Seq<char>, Seq<u8>)>>,
    s2: Seq<Seq<(Seq<char>, Seq<u8>)>>,
)
    requires
        s1.to_multiset() == s2.to_multiset(),
    ensures
        secrets_xor(s1) == secrets_xor(s2),
    decreases s1.len(),
{
    broadcast use vstd::seq_lib::group_to_multiset_ensures;

    s1.to_multiset_ensures();
    s2.to_multiset_ensures();
    if s1.len() == 0 {
        assert(s2.to_multiset().len() == 0);
        assert(s2.len() == 0);
    } else {
        let x = s1[0];
        assert(s1.contains(x));
        assert(s2.to_multiset().count(x) > 0);
        assert(s2.contains(x));
        let j = choose|j: int| 0 <= j < s2.len() && s2[j] == x;
        lemma_secrets_xor_pick(s2, j);
        assert(s1.remove(0).to_multiset() =~= s1.to_multiset().remove(x));
        assert(s2.remove(j).to_multiset() =~= s2.to_multiset().remove(x));
        assert(s1.remove(0) =~= s1.drop_first());
        lemma_secrets_xor_permutation(s1.drop_first(), s2.remove(j));
        assert(secrets_xor(s1) == xx_entries(x) ^ secrets_xor(s1.drop_first()));
    }
}

/// Order-insensitivity of the fingerprint across secrets: for one playbook,
/// feeding the same secrets in any order yields the same fingerprint.
pub proof fn lemma_execution_hash_order_insensitive(
    playbook: Seq<char>,
    s1: Seq<Seq<(Seq<char>, Seq<u8>)>>,
    s2: Seq<Seq<(Seq<char>, Seq<u8>)>>,
)
    requires
        s1.to_multiset() == s2.to_multiset(),
    ensures
        spec_execution_hash(playbook, s1) == spec_execution_hash(playbook, s2),
{
    lemma_secrets_xor_permutation(s1, s2);
}

} // verus!
