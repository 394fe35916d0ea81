//! Deterministic choice from a weighted table.
//!
//! A seed is hashed to a bucket below the sum of all weights. Every entry owns
//! as many consecutive buckets as its weight says, in table order, and the entry
//! that owns the bucket is chosen.

use vstd::prelude::*;
use vstd::utf8::{encode_scalar, encode_utf8};

use crate::text::Text;

verus! {

broadcast use vstd::string::group_string_axioms;

/// One entry of a weighted table.
#[derive(Debug, Clone, PartialEq, Eq)]
pub struct WeightedEntry<K> {
    pub key: K,
    /// Relative weight; an entry of weight zero is never chosen.
    pub weight: u64,
}

impl<K> WeightedEntry<K> {
    pub fn new(key: K, weight: u64) -> (r: Self)
        ensures
            r.key == key,
            r.weight == weight,
    {
        WeightedEntry { key, weight }
    }
}

/// A seed mapped to a bucket.
#[derive(Debug, Clone, PartialEq, Eq)]
pub struct WeightedRoll {
    pub seed: String,
    pub hash: u64,
    pub total_weight: u128,
    pub bucket: u128,
}

/// Why nothing was chosen.
#[derive(Debug, Clone, Copy, PartialEq, Eq, Structural)]
pub enum WeightedNoSelectionReason {
    /// The table has no entries.
    EmptyTable,
    /// Every entry has weight zero.
    ZeroTotalWeight,
}

/// The outcome of a choice.
#[derive(Debug, Clone, Copy, PartialEq, Eq)]
pub struct WeightedSelection<'a, K> {
    pub selected_key: Option<&'a K>,
    pub hash: u64,
    pub total_weight: u128,
    pub bucket: Option<u128>,
    pub no_selection_reason: Option<WeightedNoSelectionReason>,
}

/// Why an entry was left out.
#[derive(Debug, Clone, Copy, PartialEq, Eq, Structural)]
pub enum WeightedRejectedReason {
    ZeroWeight,
}

/// An entry that was left out.
#[derive(Debug, Clone, PartialEq, Eq)]
pub struct WeightedRejectedEntry {
    pub key: String,
    pub reason: WeightedRejectedReason,
}

/// The outcome of a choice, with everything that led to it.
#[derive(Debug, Clone, PartialEq, Eq)]
pub struct WeightedSelectionExplanation {
    pub seed: String,
    pub hash: u64,
    pub total_weight: u128,
    pub bucket: Option<u128>,
    pub selected_key: Option<String>,
    pub rejected: Vec<WeightedRejectedEntry>,
    pub no_selection_reason: Option<WeightedNoSelectionReason>,
}

/// The start value of the hash.
pub const FNV_OFFSET: u64 = 0xcbf2_9ce4_8422_2325;

/// The multiplier of the hash.
pub const FNV_PRIME: u64 = 0x0000_0100_0000_01b3;

/// The 64-bit FNV-1a hash of a sequence of bytes.
pub open spec fn fnv1a(bytes: Seq<u8>) -> u64
    decreases bytes.len(),
{
    if bytes.len() == 0 {
        FNV_OFFSET
    } else {
        ((fnv1a(bytes.drop_last()) ^ (bytes.last() as u64)) as u64).wrapping_mul(FNV_PRIME)
    }
}

/// The hash of a seed: that of its UTF-8 bytes.
pub open spec fn seed_hash(seed: Seq<char>) -> u64 {
    fnv1a(encode_utf8(seed))
}

/// The sum of the weights of a table.
pub open spec fn total<K>(entries: Seq<WeightedEntry<K>>) -> nat
    decreases entries.len(),
{
    if entries.len() == 0 {
        0
    } else {
        total(entries.drop_last()) + entries.last().weight as nat
    }
}

/// Whether entry `i` owns a bucket.
pub open spec fn owns<K>(entries: Seq<WeightedEntry<K>>, i: int, bucket: int) -> bool {
    &&& 0 <= i < entries.len()
    &&& total(entries.take(i)) <= bucket < total(entries.take(i)) + entries[i].weight
}

/// Whether a key is that of the entry that owns a bucket.
pub open spec fn owner_key<K>(entries: Seq<WeightedEntry<K>>, bucket: int, key: K) -> bool {
    exists|i: int| #[trigger] owns(entries, i, bucket) && entries[i].key == key
}

/// Whether a text is that of the key of the entry that owns a bucket.
pub open spec fn owner_text<K: Text>(
    entries: Seq<WeightedEntry<K>>,
    bucket: int,
    text: Seq<char>,
) -> bool {
    exists|i: int| #[trigger] owns(entries, i, bucket) && entries[i].key.text() == text
}

/// The bucket of a hash below a total.
pub open spec fn bucket_of(hash: u64, total: nat) -> int {
    hash as int % total as int
}

/// The entries of weight zero, in table order.
pub open spec fn unselectable<K>(entries: Seq<WeightedEntry<K>>) -> Seq<WeightedEntry<K>>
    decreases entries.len(),
{
    if entries.len() == 0 {
        seq![]
    } else if entries.last().weight == 0 {
        unselectable(entries.drop_last()).push(entries.last())
    } else {
        unselectable(entries.drop_last())
    }
}

/// The 64-bit FNV-1a hash of a seed. It is the same on every machine and in
/// every release.
pub fn stable_hash(seed: &str) -> (hash: u64)
    ensures
        hash == seed_hash(seed@),
{
    let bytes: &[u8] = seed.as_bytes();
    let mut hash: u64 = FNV_OFFSET;
    let mut i: usize = 0;
    assert(bytes@.take(0) =~= seq![]);
    while i < bytes.len()
        invariant
            i <= bytes@.len(),
            hash == fnv1a(bytes@.take(i as int)),
        decreases bytes@.len() - i,
    {
        assert(bytes@.take(i + 1).drop_last() =~= bytes@.take(i as int));
        hash = (hash ^ (bytes[i] as u64)).wrapping_mul(FNV_PRIME);
        i = i + 1;
    }
    assert(bytes@.take(i as int) =~= bytes@);
    hash
}

/// The bytes of a text with one more character are those of the text and those
/// of the character.
proof fn lemma_encode_push(s: Seq<char>, c: char)
    ensures
        encode_utf8(s.push(c)) == encode_utf8(s) + encode_scalar(c as u32),
    decreases s.len(),
{
    let longer = s.push(c);
    if s.len() == 0 {
        assert(longer.drop_first() =~= seq![]);
        assert(encode_utf8(longer.drop_first()) =~= seq![]);
        assert(encode_utf8(longer) =~= encode_scalar(c as u32));
        assert(encode_utf8(s) + encode_scalar(c as u32) =~= encode_scalar(c as u32));
    } else {
        assert(longer.drop_first() =~= s.drop_first().push(c));
        lemma_encode_push(s.drop_first(), c);
        assert(encode_utf8(longer) =~= encode_utf8(s) + encode_scalar(c as u32));
    }
}

/// The hash of no text is the start value. One more ASCII character is mixed into
/// the hash of the text before it, and the sum multiplied.
pub proof fn hashes_take_one_character_at_a_time(s: Seq<char>, c: char)
    requires
        (c as u32) < 0x80,
    ensures
        seed_hash(seq![]) == 0xcbf2_9ce4_8422_2325,
        seed_hash(s.push(c)) == ((seed_hash(s) ^ (c as u64)) as u64).wrapping_mul(
            0x0000_0100_0000_01b3,
        ),
{
    assert(encode_utf8(Seq::<char>::empty()) =~= seq![]);
    let v = c as u32;
    assert(v & 0x7f == v) by (bit_vector)
        requires
            v < 0x80,
    ;
    assert(encode_scalar(v) =~= seq![v as u8]);
    lemma_encode_push(s, c);
    let bytes = encode_utf8(s);
    assert(bytes + encode_scalar(v) =~= bytes.push(v as u8));
    assert(bytes.push(v as u8).drop_last() =~= bytes);
}

/// Map a seed to a bucket below a total; there is none below zero.
pub fn seed_to_bucket(seed: &str, total_weight: u128) -> (r: Option<WeightedRoll>)
    ensures
        r is None <==> total_weight == 0,
        match r {
            Some(roll) => roll.seed@ == seed@ && roll.hash == seed_hash(seed@) && roll.total_weight
                == total_weight && roll.bucket == bucket_of(
                seed_hash(seed@),
                total_weight as nat,
            ) && roll.bucket < total_weight,
            None => true,
        },
{
    if total_weight == 0 {
        return None;
    }
    let hash: u64 = stable_hash(seed);
    Some(
        WeightedRoll {
            seed: seed.to_string(),
            hash,
            total_weight,
            bucket: hash as u128 % total_weight,
        },
    )
}

/// The sum of the weights.
fn selectable_total<K>(entries: &[WeightedEntry<K>]) -> (r: u128)
    ensures
        r == total(entries@),
{
    let mut sum: u128 = 0;
    let mut i: usize = 0;
    assert(entries@.take(0) =~= seq![]);
    while i < entries.len()
        invariant
            i <= entries@.len(),
            sum == total(entries@.take(i as int)),
            sum <= i * 0xffff_ffff_ffff_ffff,
        decreases entries@.len() - i,
    {
        assert(entries@.take(i + 1).drop_last() =~= entries@.take(i as int));
        assert(i * 0xffff_ffff_ffff_ffff <= 0xffff_ffff_ffff_fffe * 0xffff_ffff_ffff_ffff)
            by (nonlinear_arith)
            requires
                i <= 0xffff_ffff_ffff_fffe,
        ;
        sum = sum + entries[i].weight as u128;
        i = i + 1;
        assert(i * 0xffff_ffff_ffff_ffff == (i - 1) * 0xffff_ffff_ffff_ffff + 0xffff_ffff_ffff_ffff)
            by (nonlinear_arith);
    }
    assert(entries@.take(i as int) =~= entries@);
    sum
}

/// Choose an entry. The entry that owns the seed's bucket is chosen wherever any
/// weight is positive; otherwise the reason says why there is none.
pub fn select_weighted<'a, K: Text>(seed: &str, entries: &'a [WeightedEntry<K>]) -> (r:
    WeightedSelection<'a, K>)
    ensures
        r.hash == seed_hash(seed@),
        r.total_weight == total(entries@),
        total(entries@) == 0 ==> {
            &&& r.selected_key is None
            &&& r.bucket is None
            &&& r.no_selection_reason == Some(
                if entries@.len() == 0 {
                    WeightedNoSelectionReason::EmptyTable
                } else {
                    WeightedNoSelectionReason::ZeroTotalWeight
                },
            )
        },
        total(entries@) > 0 ==> {
            &&& r.bucket is Some
            &&& r.bucket->0 == bucket_of(seed_hash(seed@), total(entries@))
            &&& r.selected_key is Some
            &&& owner_key(entries@, r.bucket->0 as int, *r.selected_key->0)
            &&& r.no_selection_reason is None
        },
{
    let hash: u64 = stable_hash(seed);
    let total_weight: u128 = selectable_total(entries);
    if total_weight == 0 {
        return WeightedSelection {
            selected_key: None,
            hash,
            total_weight,
            bucket: None,
            no_selection_reason: Some(
                if entries.len() == 0 {
                    WeightedNoSelectionReason::EmptyTable
                } else {
                    WeightedNoSelectionReason::ZeroTotalWeight
                },
            ),
        };
    }
    let bucket: u128 = hash as u128 % total_weight;
    let mut cursor: u128 = 0;
    let mut i: usize = 0;
    assert(entries@.take(0) =~= seq![]);
    while i < entries.len()
        invariant
            i <= entries@.len(),
            hash == seed_hash(seed@),
            total_weight == total(entries@),
            bucket == bucket_of(hash, total(entries@)),
            cursor == total(entries@.take(i as int)),
            cursor <= bucket < total_weight,
        decreases entries@.len() - i,
    {
        proof {
            assert(entries@.take(i + 1).drop_last() =~= entries@.take(i as int));
            lemma_total_grows(entries@, i + 1);
        }
        if entries[i].weight > 0 {
            cursor = cursor + entries[i].weight as u128;
            if bucket < cursor {
                let key: &'a K = &entries[i].key;
                assert(owns(entries@, i as int, bucket as int));
                assert(owner_key(entries@, bucket as int, *key));
                return WeightedSelection {
                    selected_key: Some(key),
                    hash,
                    total_weight,
                    bucket: Some(bucket),
                    no_selection_reason: None,
                };
            }
        }
        i = i + 1;
    }
    assert(entries@.take(i as int) =~= entries@);
    WeightedSelection {
        selected_key: None,
        hash,
        total_weight,
        bucket: Some(bucket),
        no_selection_reason: Some(WeightedNoSelectionReason::ZeroTotalWeight),
    }
}

/// The keys of a list of entries, as rejected for their weight.
pub open spec fn rejections<K: Text>(
    rejected: Seq<WeightedRejectedEntry>,
    entries: Seq<WeightedEntry<K>>,
) -> bool {
    &&& rejected.len() == entries.len()
    &&& forall|i: int|
        0 <= i < rejected.len() ==> (#[trigger] rejected[i]).key@ == entries[i].key.text()
            && rejected[i].reason == WeightedRejectedReason::ZeroWeight
}

/// Choose an entry and report everything that led to the choice.
pub fn explain_weighted_selection<K: Text>(seed: &str, entries: &[WeightedEntry<K>]) -> (r:
    WeightedSelectionExplanation)
    ensures
        r.seed@ == seed@,
        r.hash == seed_hash(seed@),
        r.total_weight == total(entries@),
        rejections(r.rejected@, unselectable(entries@)),
        total(entries@) == 0 ==> {
            &&& r.selected_key is None
            &&& r.bucket is None
            &&& r.no_selection_reason == Some(
                if entries@.len() == 0 {
                    WeightedNoSelectionReason::EmptyTable
                } else {
                    WeightedNoSelectionReason::ZeroTotalWeight
                },
            )
        },
        total(entries@) > 0 ==> {
            &&& r.bucket is Some
            &&& r.bucket->0 == bucket_of(seed_hash(seed@), total(entries@))
            &&& r.selected_key is Some
            &&& owner_text(entries@, r.bucket->0 as int, r.selected_key->0@)
            &&& r.no_selection_reason is None
        },
{
    let selection: WeightedSelection<K> = select_weighted(seed, entries);
    let mut rejected: Vec<WeightedRejectedEntry> = Vec::new();
    let mut i: usize = 0;
    assert(entries@.take(0) =~= seq![]);
    while i < entries.len()
        invariant
            i <= entries@.len(),
            rejections(rejected@, unselectable(entries@.take(i as int))),
        decreases entries@.len() - i,
    {
        assert(entries@.take(i + 1).drop_last() =~= entries@.take(i as int));
        if entries[i].weight == 0 {
            rejected.push(
                WeightedRejectedEntry {
                    key: entries[i].key.as_text().to_string(),
                    reason: WeightedRejectedReason::ZeroWeight,
                },
            );
        }
        i = i + 1;
    }
    assert(entries@.take(i as int) =~= entries@);
    let selected_key: Option<String> = match selection.selected_key {
        Some(key) => {
            proof {
                let bucket = selection.bucket->0 as int;
                let i = choose|i: int| #[trigger]
                    owns(entries@, i, bucket) && entries@[i].key == *key;
                assert(owns(entries@, i, bucket) && entries@[i].key.text() == key.text());
            }
            Some(key.as_text().to_string())
        },
        None => None,
    };
    WeightedSelectionExplanation {
        seed: seed.to_string(),
        hash: selection.hash,
        total_weight: selection.total_weight,
        bucket: selection.bucket,
        selected_key,
        rejected,
        no_selection_reason: selection.no_selection_reason,
    }
}

/// A part of a table does not weigh more than the table.
proof fn lemma_total_grows<K>(entries: Seq<WeightedEntry<K>>, n: int)
    requires
        0 <= n <= entries.len(),
    ensures
        total(entries.take(n)) <= total(entries),
    decreases entries.len(),
{
    if n == entries.len() {
        assert(entries.take(n) =~= entries);
    } else {
        assert(entries.drop_last().take(n) =~= entries.take(n));
        lemma_total_grows(entries.drop_last(), n);
    }
}

proof fn lemma_total_step<K>(entries: Seq<WeightedEntry<K>>, i: int)
    requires
        0 <= i < entries.len(),
    ensures
        total(entries.take(i + 1)) == total(entries.take(i)) + entries[i].weight,
{
    assert(entries.take(i + 1).drop_last() =~= entries.take(i));
}

/// No bucket has two owners, and an entry of weight zero owns none. So the same
/// seed and the same table always give the same choice, and never one of weight
/// zero.
pub proof fn buckets_have_one_owner<K>(
    entries: Seq<WeightedEntry<K>>,
    i: int,
    j: int,
    bucket: int,
)
    requires
        owns(entries, i, bucket),
        owns(entries, j, bucket),
    ensures
        i == j,
        entries[i].weight > 0,
{
    if i < j {
        lemma_total_step(entries, i);
        assert(entries.take(j).take(i + 1) =~= entries.take(i + 1));
        lemma_total_grows(entries.take(j), i + 1);
    } else if j < i {
        lemma_total_step(entries, j);
        assert(entries.take(i).take(j + 1) =~= entries.take(j + 1));
        lemma_total_grows(entries.take(i), j + 1);
    }
}

/// Every bucket below the sum of the weights has an owner.
pub proof fn buckets_are_owned<K>(entries: Seq<WeightedEntry<K>>, bucket: int) -> (i: int)
    requires
        0 <= bucket < total(entries),
    ensures
        owns(entries, i, bucket),
    decreases entries.len(),
{
    let front = entries.drop_last();
    let last = entries.len() - 1;
    assert(entries.take(last) =~= front);
    if bucket < total(front) {
        let i = buckets_are_owned(front, bucket);
        assert(front.take(i) =~= entries.take(i));
        i
    } else {
        last
    }
}

/// A bucket lies below the total and differs from the hash by a whole number of
/// totals.
pub proof fn buckets_are_remainders(hash: u64, total: nat)
    requires
        total > 0,
    ensures
        0 <= bucket_of(hash, total) < total,
        exists|k: int| hash == #[trigger] (k * total) + bucket_of(hash, total),
{
    vstd::arithmetic::div_mod::lemma_fundamental_div_mod(hash as int, total as int);
    let k = hash as int / total as int;
    assert(total * k == k * total) by (nonlinear_arith);
    assert(hash == (k * total) + bucket_of(hash, total));
}

/// An entry owns as many buckets as it weighs, right behind those of the entries
/// before it.
pub proof fn entries_own_what_they_weigh<K>(entries: Seq<WeightedEntry<K>>, i: int, bucket: int)
    requires
        0 <= i < entries.len(),
    ensures
        owns(entries, i, bucket) <==> 0 <= bucket - total(entries.take(i)) < entries[i].weight,
        total(entries.take(i + 1)) == total(entries.take(i)) + entries[i].weight,
        total(entries.take(0)) == 0,
{
    lemma_total_step(entries, i);
    assert(entries.take(0) =~= seq![]);
}

/// How many of the first `n` entries weigh nothing.
pub open spec fn weightless_before<K>(entries: Seq<WeightedEntry<K>>, n: int) -> int
    decreases n,
{
    if n <= 0 {
        0
    } else {
        weightless_before(entries, n - 1) + if entries[n - 1].weight == 0 {
            1int
        } else {
            0int
        }
    }
}

/// Every entry that weighs nothing is left out, in the order of the table, and no
/// other is.
pub proof fn only_weightless_entries_are_left_out<K>(entries: Seq<WeightedEntry<K>>, i: int)
    requires
        0 <= i < entries.len(),
    ensures
        unselectable(entries).len() == weightless_before(entries, entries.len() as int),
        entries[i].weight == 0 ==> 0 <= weightless_before(entries, i) < unselectable(entries).len()
            && unselectable(entries)[weightless_before(entries, i)] == entries[i],
    decreases entries.len(),
{
    lemma_left_out_len(entries);
    let front = entries.drop_last();
    lemma_left_out_len(front);
    lemma_weightless_stays(front, entries, i);
    lemma_weightless_stays(front, entries, front.len() as int);
    if i < front.len() {
        only_weightless_entries_are_left_out(front, i);
    }
}

proof fn lemma_weightless_stays<K>(a: Seq<WeightedEntry<K>>, b: Seq<WeightedEntry<K>>, n: int)
    requires
        n <= a.len() <= b.len(),
        forall|i: int| 0 <= i < a.len() ==> a[i] == b[i],
    ensures
        weightless_before(a, n) == weightless_before(b, n),
    decreases n,
{
    if n > 0 {
        lemma_weightless_stays(a, b, n - 1);
    }
}

proof fn lemma_left_out_len<K>(entries: Seq<WeightedEntry<K>>)
    ensures
        unselectable(entries).len() == weightless_before(entries, entries.len() as int),
    decreases entries.len(),
{
    if entries.len() > 0 {
        let front = entries.drop_last();
        lemma_left_out_len(front);
        lemma_weightless_stays(front, entries, front.len() as int);
    }
}

/// The key that is chosen is that of the entry that owns the bucket, and so is its
/// text.
pub proof fn the_owner_is_chosen<K: Text>(
    entries: Seq<WeightedEntry<K>>,
    i: int,
    bucket: int,
    key: K,
    text: Seq<char>,
)
    requires
        owns(entries, i, bucket),
    ensures
        owner_key(entries, bucket, key) <==> key == entries[i].key,
        owner_text(entries, bucket, text) <==> text == entries[i].key.text(),
{
    if owner_key(entries, bucket, key) {
        let j = choose|j: int| #[trigger] owns(entries, j, bucket) && entries[j].key == key;
        buckets_have_one_owner(entries, i, j, bucket);
    }
    if owner_text(entries, bucket, text) {
        let j = choose|j: int| #[trigger]
            owns(entries, j, bucket) && entries[j].key.text() == text;
        buckets_have_one_owner(entries, i, j, bucket);
    }
}

} // verus!
