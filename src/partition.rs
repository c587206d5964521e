use vstd::prelude::*;

verus! {

pub const HASH_OFFSET_BASIS: u64 = 0xcbf2_9ce4_8422_2325;

pub const HASH_PRIME: u64 = 0x0100_0000_01b3;

/// The 64-bit FNV-1a hash of a routing key.
pub open spec fn key_hash(key: Seq<u8>) -> u64
    decreases key.len(),
{
    if key.len() == 0 {
        HASH_OFFSET_BASIS
    } else {
        (key_hash(key.drop_last()) ^ (key.last() as u64)).wrapping_mul(HASH_PRIME)
    }
}

/// The downstream task that records with `key` go to, among `n`.
pub open spec fn partition_of(key: Seq<u8>, n: u16) -> u16 {
    (key_hash(key) % (n as u64)) as u16
}

/// Hashes a routing key.
pub fn hash_key(key: &Vec<u8>) -> (r: u64)
    ensures
        r == key_hash(key@),
{
    let mut h: u64 = HASH_OFFSET_BASIS;
    let mut i: usize = 0;
    while i < key.len()
        invariant
            i <= key@.len(),
            h == key_hash(key@.subrange(0, i as int)),
        decreases key@.len() - i,
    {
        proof {
            assert(key@.subrange(0, i + 1).drop_last() =~= key@.subrange(0, i as int));
        }
        h = (h ^ (key[i] as u64)).wrapping_mul(HASH_PRIME);
        i = i + 1;
    }
    proof {
        assert(key@.subrange(0, key@.len() as int) =~= key@);
    }
    h
}

/// The index of the downstream task, among `num_tasks`, that a record keyed
/// by `key` is routed to. The result depends on the key and the count alone,
/// so every call on equal arguments routes alike.
pub fn hash_partition(key: &Vec<u8>, num_tasks: u16) -> (r: u16)
    requires
        num_tasks > 0,
    ensures
        r == partition_of(key@, num_tasks),
        r < num_tasks,
{
    (hash_key(key) % (num_tasks as u64)) as u16
}

/// A key is always routed to one of the downstream tasks.
pub proof fn lemma_partition_in_range(key: Seq<u8>, n: u16)
    requires
        n > 0,
    ensures
        partition_of(key, n) < n,
{
}

} // verus!
