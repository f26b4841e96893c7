//! Looking for the first entry with a given key.
use vstd::prelude::*;

verus! {

/// The place of the first key that equals `key`, if there is one.
pub open spec fn first_place<K>(keys: Seq<K>, key: K) -> Option<int>
    decreases keys.len(),
{
    if keys.len() == 0 {
        None
    } else if keys[0] == key {
        Some(0)
    } else {
        match first_place(keys.drop_first(), key) {
            Some(i) => Some(i + 1),
            None => None,
        }
    }
}

/// What is found is in range, has the key, and is the first that has it; nothing is found only
/// where no entry has the key.
pub proof fn lemma_first_place<K>(keys: Seq<K>, key: K)
    ensures
        match first_place(keys, key) {
            Some(i) => {
                &&& 0 <= i < keys.len()
                &&& keys[i] == key
                &&& forall|j: int| 0 <= j < i ==> keys[j] != key
            },
            None => forall|j: int| 0 <= j < keys.len() ==> keys[j] != key,
        },
    decreases keys.len(),
{
    if keys.len() > 0 && keys[0] != key {
        let rest = keys.drop_first();
        lemma_first_place(rest, key);
        assert forall|j: int| 0 < j < keys.len() implies keys[j] == rest[j - 1] by {}
    }
}

/// An entry that has the key, with none before it that has it, is the one that is found.
pub proof fn lemma_first_place_is<K>(keys: Seq<K>, key: K, i: int)
    requires
        0 <= i < keys.len(),
        keys[i] == key,
        forall|j: int| 0 <= j < i ==> keys[j] != key,
    ensures
        first_place(keys, key) == Some(i),
{
    lemma_first_place(keys, key);
}

/// One more entry at the end is found only where none before it has its key.
pub proof fn lemma_first_place_push<K>(keys: Seq<K>, last: K, key: K)
    ensures
        first_place(keys.push(last), key) == (match first_place(keys, key) {
            Some(i) => Some(i),
            None => if last == key {
                Some(keys.len() as int)
            } else {
                None
            },
        }),
{
    let more = keys.push(last);
    lemma_first_place(keys, key);
    match first_place(keys, key) {
        Some(i) => {
            assert(more[i] == key);
            lemma_first_place_is(more, key, i);
        },
        None => {
            if last == key {
                assert(more[keys.len() as int] == key);
                lemma_first_place_is(more, key, keys.len() as int);
            } else {
                lemma_first_place(more, key);
                assert forall|j: int| 0 <= j < more.len() implies more[j] != key by {}
            }
        },
    }
}

/// Taking out an entry with another key moves what is found, but finds nothing else.
pub proof fn lemma_first_place_remove<K>(keys: Seq<K>, i: int, key: K)
    requires
        0 <= i < keys.len(),
        keys[i] != key,
    ensures
        first_place(keys.remove(i), key) == (match first_place(keys, key) {
            Some(j) => Some(
                if j < i {
                    j
                } else {
                    j - 1
                },
            ),
            None => None,
        }),
{
    let fewer = keys.remove(i);
    lemma_first_place(keys, key);
    match first_place(keys, key) {
        Some(j) => {
            let k = if j < i {
                j
            } else {
                j - 1
            };
            assert(fewer[k] == key);
            assert forall|n: int| 0 <= n < k implies fewer[n] != key by {
                assert(fewer[n] == keys[if n < i { n } else { n + 1 }]);
            }
            lemma_first_place_is(fewer, key, k);
        },
        None => {
            lemma_first_place(fewer, key);
            assert forall|n: int| 0 <= n < fewer.len() implies fewer[n] != key by {
                assert(fewer[n] == keys[if n < i { n } else { n + 1 }]);
            }
        },
    }
}

} // verus!
