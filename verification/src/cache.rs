//! The cache of downloaded images.
use lru::LruCache;
use std::collections::hash_map::DefaultHasher;
use std::hash::{Hash, Hasher};
use std::num::NonZeroUsize;
use vstd::prelude::*;
use vstd::std_specs::hash::*;

verus! {

/// The number of images that the cache holds at most.
pub const CACHE_CAPACITY: usize = 1024;

/// The cache type of the `lru` crate.
#[verifier::external_type_specification]
#[verifier::external_body]
#[verifier::reject_recursive_types(K)]
#[verifier::reject_recursive_types(V)]
#[verifier::reject_recursive_types(S)]
pub struct ExLruCache<K, V, S>(lru::LruCache<K, V, S>);

/// The hasher with which the cache of the `lru` crate finds its keys.
#[verifier::external_type_specification]
#[verifier::external_body]
pub struct ExLruHasher(lru::DefaultHasher);

/// What a cache holds: keys and images, the one used last first.
pub uninterp spec fn entries_of(cache: LruCache<u64, Vec<u8>>) -> Seq<(u64, Seq<u8>)>;

/// How many entries a cache was made for.
pub uninterp spec fn capacity_of(cache: LruCache<u64, Vec<u8>>) -> nat;

/// What `str` feeds to a hasher, write by write.
pub uninterp spec fn hash_writes(text: Seq<char>) -> Seq<Seq<u8>>;

/// `Hash::hash` of the standard library's `str` feeds the text to the hasher: what it writes
/// depends on the text alone, and is added to what was written before.
#[verifier::external_body]
fn hash_text(text: &str, hasher: &mut DefaultHasher)
    ensures
        final(hasher)@ == old(hasher)@ + hash_writes(text@),
{
    text.hash(hasher)
}

/// `lru::LruCache::new` makes an empty cache for the given number of entries.
#[verifier::external_body]
fn empty_cache(capacity: usize) -> (cache: LruCache<u64, Vec<u8>>)
    requires
        0 < capacity <= 65536,
    ensures
        entries_of(cache) == Seq::<(u64, Seq<u8>)>::empty(),
        capacity_of(cache) == capacity,
{
    LruCache::new(NonZeroUsize::new(capacity).unwrap())
}

/// `lru::LruCache::get` finds the value of a key and puts the entry in front; without such a key it
/// changes nothing.
#[verifier::external_body]
fn cache_get(cache: &mut LruCache<u64, Vec<u8>>, key: u64) -> (image: Option<Vec<u8>>)
    ensures
        match image {
            Some(bytes) => found(entries_of(*old(cache)), key) == Some(bytes@),
            None => found(entries_of(*old(cache)), key) is None,
        },
        entries_of(*final(cache)) == touched(entries_of(*old(cache)), key),
        capacity_of(*final(cache)) == capacity_of(*old(cache)),
{
    cache.get(&key).cloned()
}

/// `lru::LruCache::put` puts an entry in front. It replaces the entry with the same key; a new key
/// in a full cache drives out the last entry.
#[verifier::external_body]
fn cache_put(cache: &mut LruCache<u64, Vec<u8>>, key: u64, image: Vec<u8>)
    ensures
        entries_of(*final(cache)) == stored(
            entries_of(*old(cache)),
            capacity_of(*old(cache)),
            key,
            image@,
        ),
        capacity_of(*final(cache)) == capacity_of(*old(cache)),
{
    cache.put(key, image);
}

/// The image under a key.
pub open spec fn found(entries: Seq<(u64, Seq<u8>)>, key: u64) -> Option<Seq<u8>>
    decreases entries.len(),
{
    if entries.len() == 0 {
        None
    } else if entries.first().0 == key {
        Some(entries.first().1)
    } else {
        found(entries.drop_first(), key)
    }
}

/// The entries but for those under a key, in the order that they had.
pub open spec fn without(entries: Seq<(u64, Seq<u8>)>, key: u64) -> Seq<(u64, Seq<u8>)>
    decreases entries.len(),
{
    if entries.len() == 0 {
        entries
    } else if entries.first().0 == key {
        without(entries.drop_first(), key)
    } else {
        seq![entries.first()] + without(entries.drop_first(), key)
    }
}

/// The entries once the one under a key has been used: it comes first.
pub open spec fn touched(entries: Seq<(u64, Seq<u8>)>, key: u64) -> Seq<(u64, Seq<u8>)> {
    match found(entries, key) {
        Some(image) => seq![(key, image)] + without(entries, key),
        None => entries,
    }
}

/// The entries once an image has been stored under a key: it comes first, in place of what was
/// under the key; if the key is new and the cache full, the entry that was not used for the
/// longest time is gone.
pub open spec fn stored(
    entries: Seq<(u64, Seq<u8>)>,
    capacity: nat,
    key: u64,
    image: Seq<u8>,
) -> Seq<(u64, Seq<u8>)> {
    let others = if found(entries, key) is Some {
        without(entries, key)
    } else if entries.len() == capacity {
        entries.drop_last()
    } else {
        entries
    };
    seq![(key, image)] + others
}

/// No key occurs twice.
pub open spec fn distinct(entries: Seq<(u64, Seq<u8>)>) -> bool {
    forall|i: int, j: int|
        0 <= i < j < entries.len() ==> #[trigger] entries[i].0 != #[trigger] entries[j].0
}

/// The key under which the image at an address is kept.
pub open spec fn url_key(url: Seq<char>) -> u64 {
    DefaultHasher::spec_finish(hash_writes(url))
}

/// A key is found exactly if an entry has it.
proof fn lemma_found(entries: Seq<(u64, Seq<u8>)>, key: u64)
    ensures
        found(entries, key) is Some <==> exists|i: int|
            0 <= i < entries.len() && #[trigger] entries[i].0 == key,
    decreases entries.len(),
{
    if entries.len() > 0 && entries.first().0 != key {
        let rest = entries.drop_first();
        lemma_found(rest, key);
        if found(rest, key) is Some {
            let i = choose|i: int| 0 <= i < rest.len() && #[trigger] rest[i].0 == key;
            assert(entries[i + 1].0 == key);
        }
        if exists|i: int| 0 <= i < entries.len() && #[trigger] entries[i].0 == key {
            let i = choose|i: int| 0 <= i < entries.len() && #[trigger] entries[i].0 == key;
            assert(rest[i - 1].0 == key);
        }
    }
}

/// Taking the entries under a key out leaves all others, and no key twice.
proof fn lemma_without(entries: Seq<(u64, Seq<u8>)>, key: u64, other: u64)
    ensures
        found(without(entries, key), other) == if other == key {
            None
        } else {
            found(entries, other)
        },
        without(entries, key).len() <= entries.len(),
        found(entries, key) is Some ==> without(entries, key).len() < entries.len(),
        distinct(entries) ==> distinct(without(entries, key)),
    decreases entries.len(),
{
    if entries.len() > 0 {
        let first = entries.first();
        let rest = entries.drop_first();
        let kept = without(rest, key);
        lemma_without(rest, key, other);
        if distinct(entries) {
            assert forall|i: int, j: int| 0 <= i < j < rest.len() implies #[trigger] rest[i].0
                != #[trigger] rest[j].0 by {
                assert(entries[i + 1].0 != entries[j + 1].0);
            }
        }
        if first.0 != key {
            let all = seq![first] + kept;
            assert(all.drop_first() == kept);
            lemma_without(rest, key, first.0);
            lemma_found(kept, first.0);
            lemma_found(rest, first.0);
            if distinct(entries) {
                assert(found(rest, first.0) is None) by {
                    if found(rest, first.0) is Some {
                        let i = choose|i: int|
                            0 <= i < rest.len() && #[trigger] rest[i].0 == first.0;
                        assert(entries[0].0 != entries[i + 1].0);
                    }
                }
                assert forall|i: int, j: int| 0 <= i < j < all.len() implies #[trigger] all[i].0
                    != #[trigger] all[j].0 by {
                    assert(all[j] == kept[j - 1]);
                    if i > 0 {
                        assert(all[i] == kept[i - 1]);
                    } else {
                        assert(kept[j - 1].0 != first.0);
                    }
                }
            }
        }
    }
}

/// An entry in front of entries that lack its key: what is found, and no key twice.
proof fn lemma_in_front(entry: (u64, Seq<u8>), others: Seq<(u64, Seq<u8>)>, key: u64)
    requires
        distinct(others),
        found(others, entry.0) is None,
    ensures
        distinct(seq![entry] + others),
        found(seq![entry] + others, key) == if key == entry.0 {
            Some(entry.1)
        } else {
            found(others, key)
        },
{
    let all = seq![entry] + others;
    assert(all.drop_first() == others);
    lemma_found(others, entry.0);
    assert forall|i: int, j: int| 0 <= i < j < all.len() implies #[trigger] all[i].0
        != #[trigger] all[j].0 by {
        assert(all[j] == others[j - 1]);
        if i > 0 {
            assert(all[i] == others[i - 1]);
        }
    }
}

/// Leaving the last entry out takes nothing else away.
proof fn lemma_drop_last(entries: Seq<(u64, Seq<u8>)>, key: u64)
    requires
        entries.len() > 0,
        distinct(entries),
    ensures
        distinct(entries.drop_last()),
        found(entries.drop_last(), key) == if key == entries.last().0 {
            None
        } else {
            found(entries, key)
        },
    decreases entries.len(),
{
    let rest = entries.drop_first();
    if entries.len() > 1 {
        assert forall|i: int, j: int| 0 <= i < j < rest.len() implies #[trigger] rest[i].0
            != #[trigger] rest[j].0 by {
            assert(entries[i + 1].0 != entries[j + 1].0);
        }
        lemma_drop_last(rest, key);
        assert(entries.drop_last().drop_first() == rest.drop_last());
        assert(entries[0].0 != entries[entries.len() - 1].0);
    } else {
        assert(found(rest, key) is None);
    }
}

/// Using an entry keeps the cache in order: every image is still found, and nothing is twice.
pub proof fn law_lookup_keeps_all(entries: Seq<(u64, Seq<u8>)>, key: u64, other: u64)
    requires
        distinct(entries),
    ensures
        found(touched(entries, key), other) == found(entries, other),
        distinct(touched(entries, key)),
        touched(entries, key).len() <= entries.len(),
{
    lemma_without(entries, key, other);
    lemma_without(entries, key, key);
    if let Some(image) = found(entries, key) {
        lemma_in_front((key, image), without(entries, key), other);
    }
}

/// What was stored is read back, as long as nothing else is stored.
pub proof fn law_read_after_write(
    entries: Seq<(u64, Seq<u8>)>,
    capacity: nat,
    key: u64,
    image: Seq<u8>,
)
    ensures
        found(stored(entries, capacity, key, image), key) == Some(image),
{
}

/// Storing an image takes no other away, but for the one that was not used for the longest time if
/// the cache is full and the key new. The cache never outgrows its capacity, and no key is twice.
pub proof fn law_store_keeps_others(
    entries: Seq<(u64, Seq<u8>)>,
    capacity: nat,
    key: u64,
    image: Seq<u8>,
    other: u64,
)
    requires
        distinct(entries),
        0 < capacity,
        entries.len() <= capacity,
    ensures
        ({
            let after = stored(entries, capacity, key, image);
            let full = found(entries, key) is None && entries.len() == capacity;
            &&& after.len() <= capacity
            &&& distinct(after)
            &&& other != key ==> found(after, other) == if full && other == entries.last().0 {
                None
            } else {
                found(entries, other)
            }
        }),
{
    if found(entries, key) is Some {
        lemma_without(entries, key, other);
        lemma_without(entries, key, key);
        lemma_in_front((key, image), without(entries, key), other);
    } else if entries.len() == capacity {
        lemma_drop_last(entries, other);
        lemma_drop_last(entries, key);
        lemma_in_front((key, image), entries.drop_last(), other);
    } else {
        lemma_in_front((key, image), entries, other);
    }
}

/// The entries once images have been stored one after the other.
pub open spec fn stored_all(
    entries: Seq<(u64, Seq<u8>)>,
    capacity: nat,
    news: Seq<(u64, Seq<u8>)>,
) -> Seq<(u64, Seq<u8>)>
    decreases news.len(),
{
    if news.len() == 0 {
        entries
    } else {
        stored(
            stored_all(entries, capacity, news.drop_last()),
            capacity,
            news.last().0,
            news.last().1,
        )
    }
}

/// Taking the entries under another key out moves an entry forward at most.
proof fn lemma_without_keeps_place(entries: Seq<(u64, Seq<u8>)>, other: u64, place: int)
    requires
        0 <= place < entries.len(),
        entries[place].0 != other,
    ensures
        exists|q: int|
            0 <= q <= place && q < without(entries, other).len() && #[trigger] without(
                entries,
                other,
            )[q] == entries[place],
    decreases entries.len(),
{
    let rest = entries.drop_first();
    let kept = without(rest, other);
    let all = without(entries, other);
    if place == 0 {
        assert(all[0] == entries[0]);
    } else {
        assert(rest[place - 1] == entries[place]);
        lemma_without_keeps_place(rest, other, place - 1);
        let q = choose|q: int|
            0 <= q <= place - 1 && q < kept.len() && #[trigger] kept[q] == rest[place - 1];
        if entries.first().0 == other {
            assert(all[q] == entries[place]);
        } else {
            assert(all[q + 1] == entries[place]);
        }
    }
}

/// An image that was used last outlasts the storing of other images, as long as these are fewer
/// than the cache is for.
pub proof fn law_last_used_stays(
    entries: Seq<(u64, Seq<u8>)>,
    capacity: nat,
    news: Seq<(u64, Seq<u8>)>,
)
    requires
        distinct(entries),
        0 < entries.len() <= capacity,
        news.len() < capacity,
        forall|i: int| 0 <= i < news.len() ==> #[trigger] news[i].0 != entries.first().0,
    ensures
        distinct(stored_all(entries, capacity, news)),
        stored_all(entries, capacity, news).len() <= capacity,
        found(stored_all(entries, capacity, news), entries.first().0) == Some(entries.first().1),
        exists|place: int|
            0 <= place <= news.len() && place < stored_all(entries, capacity, news).len()
                && #[trigger] stored_all(entries, capacity, news)[place] == entries.first(),
    decreases news.len(),
{
    let after = stored_all(entries, capacity, news);
    let used = entries.first();
    if news.len() == 0 {
        assert(after[0] == used);
    } else {
        let earlier = news.drop_last();
        let before = stored_all(entries, capacity, earlier);
        let key = news.last().0;
        assert forall|i: int| 0 <= i < earlier.len() implies #[trigger] earlier[i].0
            != entries.first().0 by {
            assert(news[i].0 != entries.first().0);
        }
        assert(news[news.len() - 1].0 != used.0);
        law_last_used_stays(entries, capacity, earlier);
        let place = choose|place: int|
            0 <= place <= earlier.len() && place < before.len() && #[trigger] before[place] == used;
        law_store_keeps_others(before, capacity, key, news.last().1, used.0);
        if found(before, key) is Some {
            lemma_without_keeps_place(before, key, place);
            let others = without(before, key);
            let q = choose|q: int|
                0 <= q <= place && q < others.len() && #[trigger] others[q] == before[place];
            assert(after[q + 1] == used);
        } else {
            assert(after[place + 1] == used);
        }
        if found(before, key) is None && before.len() == capacity {
            assert(before[place].0 != before[before.len() - 1].0);
        }
    }
}

/// The key of an address is the hash of all its characters, so two addresses have one key exactly if
/// the hasher makes no difference between what they feed to it.
pub proof fn law_key_is_hash_of_whole_address(url: Seq<char>, other: Seq<char>)
    ensures
        url_key(url) == DefaultHasher::spec_finish(hash_writes(url)),
        url_key(url) == url_key(other) <==> DefaultHasher::spec_finish(hash_writes(url))
            == DefaultHasher::spec_finish(hash_writes(other)),
{
}

/// The place of a key among entries of which no two have one key: what is found there, and what is
/// left without it.
proof fn lemma_place_of_key(entries: Seq<(u64, Seq<u8>)>, place: int)
    requires
        distinct(entries),
        0 <= place < entries.len(),
    ensures
        found(entries, entries[place].0) == Some(entries[place].1),
        without(entries, entries[place].0) == entries.take(place) + entries.skip(place + 1),
    decreases entries.len(),
{
    let key = entries[place].0;
    let rest = entries.drop_first();
    assert forall|i: int, j: int| 0 <= i < j < rest.len() implies #[trigger] rest[i].0
        != #[trigger] rest[j].0 by {
        assert(entries[i + 1].0 != entries[j + 1].0);
    }
    if place == 0 {
        lemma_found(rest, key);
        assert(found(rest, key) is None) by {
            if found(rest, key) is Some {
                let i = choose|i: int| 0 <= i < rest.len() && #[trigger] rest[i].0 == key;
                assert(entries[0].0 != entries[i + 1].0);
            }
        }
        lemma_without_unfound(rest, key);
        assert(entries.take(0) + entries.skip(1) == rest);
    } else {
        assert(entries[0].0 != entries[place].0);
        assert(rest[place - 1] == entries[place]);
        lemma_place_of_key(rest, place - 1);
        assert(seq![entries.first()] + (rest.take(place - 1) + rest.skip(place)) == entries.take(
            place,
        ) + entries.skip(place + 1));
    }
}

/// Without a key that no entry has, all entries are left.
proof fn lemma_without_unfound(entries: Seq<(u64, Seq<u8>)>, key: u64)
    requires
        found(entries, key) is None,
    ensures
        without(entries, key) == entries,
    decreases entries.len(),
{
    if entries.len() > 0 {
        lemma_without_unfound(entries.drop_first(), key);
        assert(seq![entries.first()] + entries.drop_first() == entries);
    }
}

/// Using an entry brings it to the front and leaves the others in their order; looking for a key that
/// no entry has changes nothing, and gives nothing.
pub proof fn law_lookup_brings_to_front(entries: Seq<(u64, Seq<u8>)>, key: u64, place: int)
    requires
        distinct(entries),
    ensures
        0 <= place < entries.len() && entries[place].0 == key ==> {
            &&& found(entries, key) == Some(entries[place].1)
            &&& touched(entries, key) == seq![entries[place]] + entries.take(place) + entries.skip(
                place + 1,
            )
        },
        (forall|i: int| 0 <= i < entries.len() ==> #[trigger] entries[i].0 != key) ==> {
            &&& found(entries, key) is None
            &&& touched(entries, key) == entries
        },
{
    if 0 <= place < entries.len() && entries[place].0 == key {
        lemma_place_of_key(entries, place);
        assert(seq![entries[place]] + entries.take(place) + entries.skip(place + 1) == seq![
            entries[place],
        ] + (entries.take(place) + entries.skip(place + 1)));
    }
    lemma_found(entries, key);
}

/// Storing an image puts it in front. Where its key was, the entry goes from there and the others stay
/// in their order; where the key is new, all stay behind it in their order, but for the last one if
/// the cache is full.
pub proof fn law_store_puts_in_front(
    entries: Seq<(u64, Seq<u8>)>,
    capacity: nat,
    key: u64,
    image: Seq<u8>,
    place: int,
)
    requires
        distinct(entries),
        0 < capacity,
        entries.len() <= capacity,
    ensures
        0 <= place < entries.len() && entries[place].0 == key ==> stored(
            entries,
            capacity,
            key,
            image,
        ) == seq![(key, image)] + entries.take(place) + entries.skip(place + 1),
        (forall|i: int| 0 <= i < entries.len() ==> #[trigger] entries[i].0 != key) ==> stored(
            entries,
            capacity,
            key,
            image,
        ) == seq![(key, image)] + (if entries.len() < capacity {
            entries
        } else {
            entries.take(capacity - 1)
        }),
{
    if 0 <= place < entries.len() && entries[place].0 == key {
        lemma_place_of_key(entries, place);
        assert(seq![(key, image)] + entries.take(place) + entries.skip(place + 1) == seq![
            (key, image),
        ] + (entries.take(place) + entries.skip(place + 1)));
    }
    lemma_found(entries, key);
    if entries.len() == capacity {
        assert(entries.drop_last() == entries.take(capacity - 1));
    }
}

/// After an image was stored for one address, another address finds it exactly if the hashes of the
/// two whole addresses agree; else it finds what it found before, unless that was the last of 1024.
pub proof fn law_addresses_share_by_hash_alone(
    cache: ImageCache,
    url: Seq<char>,
    image: Seq<u8>,
    other: Seq<char>,
)
    requires
        cache.wf(),
    ensures
        ({
            let key = DefaultHasher::spec_finish(hash_writes(url));
            let other_key = DefaultHasher::spec_finish(hash_writes(other));
            let after = stored(cache@, 1024, url_key(url), image);
            &&& other_key == key ==> found(after, url_key(other)) == Some(image)
            &&& other_key != key && (cache@.len() < 1024 || found(cache@, key) is Some
                || cache@.last().0 != other_key) ==> found(after, url_key(other)) == found(
                cache@,
                other_key,
            )
        }),
{
    law_read_after_write(cache@, 1024, url_key(url), image);
    law_store_keeps_others(cache@, 1024, url_key(url), image, url_key(other));
}

/// Hashes an address.
fn key_of(url: &str) -> (key: u64)
    ensures
        key == url_key(url@),
        key == DefaultHasher::spec_finish(hash_writes(url@)),
{
    let mut hasher = DefaultHasher::new();
    hash_text(url, &mut hasher);
    assert(hasher@ == hash_writes(url@));
    hasher.finish()
}

/// The images that were downloaded last, by the hash of their address.
pub struct ImageCache {
    images: LruCache<u64, Vec<u8>>,
}

impl View for ImageCache {
    type V = Seq<(u64, Seq<u8>)>;

    closed spec fn view(&self) -> Seq<(u64, Seq<u8>)> {
        entries_of(self.images)
    }
}

impl ImageCache {
    /// No key occurs twice, and there are no more images than the cache is for.
    pub closed spec fn wf(self) -> bool {
        &&& capacity_of(self.images) == CACHE_CAPACITY
        &&& self@.len() <= CACHE_CAPACITY
        &&& distinct(self@)
    }

    /// An empty cache.
    pub fn new() -> (cache: ImageCache)
        ensures
            cache.wf(),
            cache@ == Seq::<(u64, Seq<u8>)>::empty(),
    {
        ImageCache { images: empty_cache(CACHE_CAPACITY) }
    }

    /// Looks for the image at an address. An image that is found counts as used.
    pub fn lookup(&mut self, url: &str) -> (image: Option<Vec<u8>>)
        requires
            old(self).wf(),
        ensures
            final(self).wf(),
            match image {
                Some(bytes) => found(old(self)@, url_key(url@)) == Some(bytes@),
                None => found(old(self)@, url_key(url@)) is None,
            },
            final(self)@ == touched(old(self)@, url_key(url@)),
            match image {
                Some(bytes) => found(
                    old(self)@,
                    DefaultHasher::spec_finish(hash_writes(url@)),
                ) == Some(bytes@),
                None => found(old(self)@, DefaultHasher::spec_finish(hash_writes(url@))) is None,
            },
            final(self)@ == touched(old(self)@, DefaultHasher::spec_finish(hash_writes(url@))),
    {
        let key: u64 = key_of(url);
        proof {
            law_lookup_keeps_all(self@, key, key);
        }
        cache_get(&mut self.images, key)
    }

    /// Keeps the image that was downloaded from an address.
    pub fn store(&mut self, url: &str, image: Vec<u8>)
        requires
            old(self).wf(),
        ensures
            final(self).wf(),
            final(self)@ == stored(old(self)@, CACHE_CAPACITY as nat, url_key(url@), image@),
            final(self)@ == stored(
                old(self)@,
                1024,
                DefaultHasher::spec_finish(hash_writes(url@)),
                image@,
            ),
    {
        let key: u64 = key_of(url);
        proof {
            law_store_keeps_others(self@, CACHE_CAPACITY as nat, key, image@, key);
        }
        cache_put(&mut self.images, key, image)
    }
}

/// At any time the cache holds no more images than it is for, and none twice.
pub proof fn law_cache_is_bounded(cache: ImageCache)
    requires
        cache.wf(),
    ensures
        cache@.len() <= CACHE_CAPACITY,
        cache@.len() <= 1024,
        distinct(cache@),
{
}

} // verus!
