//! What the cache keeps: what a purge removes, and what a read gives back of a write.
use vstd::prelude::*;
use vstd::utf8::*;

use crate::store::{
    applied, applied_all, be_bytes, body_of, expired_front, expiry_bound, expiry_key_view,
    indexed_key, prefixed_key, put_ops, remove_ops, sorts_upto, sweep_ops, EntryView, KeyFault,
    OpView, StoreView,
};

verus! {

/// The entries that have not expired by `now`, and their index keys.
pub open spec fn purged(store: StoreView, now: u64) -> StoreView {
    StoreView {
        entries: store.entries.restrict(
            Set::new(
                |key: Seq<char>|
                    store.entries.dom().contains(key) && store.entries[key].expires_at > now,
            ),
        ),
        expiry: store.expiry.filter(|index_key: Seq<u8>| !sorts_upto(index_key, expiry_bound(now))),
    }
}

/// The index holds the index key of every entry and nothing else.
pub open spec fn consistent(store: StoreView) -> bool {
    &&& forall|key: Seq<char>| #[trigger]
        store.entries.dom().contains(key) ==> store.expiry.contains(
            expiry_key_view(store.entries[key].expires_at, key),
        )
    &&& forall|index_key: Seq<u8>| #[trigger]
        store.expiry.contains(index_key) ==> exists|key: Seq<char>| #[trigger]
            store.entries.dom().contains(key) && index_key == expiry_key_view(
                store.entries[key].expires_at,
                key,
            )
}

/// A listing of the index: each of its keys, in ascending order.
pub open spec fn lists(index: Seq<Seq<u8>>, expiry: Set<Seq<u8>>) -> bool {
    &&& forall|i: int, j: int| 0 <= i <= j < index.len() ==> sorts_upto(index[i], index[j])
    &&& index.to_set() == expiry
}

proof fn lemma_upto_transitive(a: Seq<u8>, b: Seq<u8>, c: Seq<u8>)
    requires
        sorts_upto(a, b),
        sorts_upto(b, c),
    ensures
        sorts_upto(a, c),
    decreases a.len(),
{
    if a.len() > 0 && a[0] == b[0] && b[0] == c[0] {
        lemma_upto_transitive(a.skip(1), b.skip(1), c.skip(1));
    }
}

/// Behind two heads of one length, the heads decide the order unless they are equal.
proof fn lemma_upto_heads(left: Seq<u8>, right: Seq<u8>, after_left: Seq<u8>, after_right: Seq<u8>)
    requires
        left.len() == right.len(),
    ensures
        sorts_upto(left + after_left, right + after_right) == if left == right {
            sorts_upto(after_left, after_right)
        } else {
            sorts_upto(left, right)
        },
    decreases left.len(),
{
    if left.len() == 0 {
        assert(left == right);
        assert(left + after_left == after_left);
        assert(right + after_right == after_right);
    } else {
        assert((left + after_left).skip(1) == left.skip(1) + after_left);
        assert((right + after_right).skip(1) == right.skip(1) + after_right);
        if left[0] == right[0] {
            lemma_upto_heads(left.skip(1), right.skip(1), after_left, after_right);
            assert(left == right <==> left.skip(1) == right.skip(1)) by {
                assert(left == seq![left[0]] + left.skip(1));
                assert(right == seq![right[0]] + right.skip(1));
            }
        }
    }
}

proof fn lemma_be_len(value: nat, width: nat)
    ensures
        be_bytes(value, width).len() == width,
    decreases width,
{
    if width > 0 {
        lemma_be_len(value / 256, (width - 1) as nat);
    }
}

/// Whether a number fits into `width` bytes.
spec fn fits(value: nat, width: nat) -> bool
    decreases width,
{
    if width == 0 {
        value == 0
    } else {
        fits(value / 256, (width - 1) as nat)
    }
}

/// Numbers of one width sort as their big-endian bytes do.
proof fn lemma_be_order(a: nat, b: nat, width: nat)
    requires
        fits(a, width),
        fits(b, width),
    ensures
        sorts_upto(be_bytes(a, width), be_bytes(b, width)) <==> a <= b,
        be_bytes(a, width) == be_bytes(b, width) <==> a == b,
    decreases width,
{
    if width > 0 {
        let shorter = (width - 1) as nat;
        lemma_be_order(a / 256, b / 256, shorter);
        lemma_be_len(a / 256, shorter);
        lemma_be_len(b / 256, shorter);
        let high_a = be_bytes(a / 256, shorter);
        let high_b = be_bytes(b / 256, shorter);
        let low_a = seq![(a % 256) as u8];
        let low_b = seq![(b % 256) as u8];
        assert(be_bytes(a, width) == high_a + low_a);
        assert(be_bytes(b, width) == high_b + low_b);
        lemma_upto_heads(high_a, high_b, low_a, low_b);
        assert(sorts_upto(low_a, low_b) <==> a % 256 <= b % 256) by {
            reveal_with_fuel(sorts_upto, 2);
        }
        if be_bytes(a, width) == be_bytes(b, width) {
            assert(high_a == be_bytes(a, width).drop_last());
            assert(high_b == be_bytes(b, width).drop_last());
            assert(be_bytes(a, width).last() == be_bytes(b, width).last());
        }
    }
}

proof fn lemma_fits_u64(value: u64)
    ensures
        fits(value as nat, 8),
{
    reveal_with_fuel(fits, 9);
}

/// The index key of an entry is within the bound just when the entry has expired.
pub proof fn expired_iff_within_bound(expires_at: u64, key: Seq<char>, now: u64)
    ensures
        sorts_upto(expiry_key_view(expires_at, key), expiry_bound(now)) <==> expires_at <= now,
{
    lemma_fits_u64(expires_at);
    lemma_fits_u64(now);
    lemma_be_order(expires_at as nat, now as nat, 8);
    lemma_be_len(expires_at as nat, 8);
    lemma_be_len(now as nat, 8);
    let text = encode_utf8(key);
    let top: Seq<u8> = seq![0xff];
    assert(expiry_bound(now) == be_bytes(now as nat, 8) + top);
    lemma_upto_heads(be_bytes(expires_at as nat, 8), be_bytes(now as nat, 8), text, top);
    if key.len() > 0 {
        encode_utf8_first_scalar(key);
        assert(text[0] != 0xff);
    }
}

/// An index key gives back the key of its entry.
pub proof fn index_key_gives_back_key(expires_at: u64, key: Seq<char>)
    ensures
        indexed_key(expiry_key_view(expires_at, key)) == Ok::<Seq<char>, KeyFault>(key),
{
    lemma_be_len(expires_at as nat, 8);
    assert(expiry_key_view(expires_at, key).skip(8) == encode_utf8(key));
    encode_utf8_valid_utf8(key);
    encode_utf8_decode_utf8(key);
}

/// Two entries share an index key only where they are of one key and expire together.
pub proof fn index_keys_are_distinct(
    expires_a: u64,
    key_a: Seq<char>,
    expires_b: u64,
    key_b: Seq<char>,
)
    ensures
        expiry_key_view(expires_a, key_a) == expiry_key_view(expires_b, key_b) <==> expires_a
            == expires_b && key_a == key_b,
{
    index_key_gives_back_key(expires_a, key_a);
    index_key_gives_back_key(expires_b, key_b);
    lemma_fits_u64(expires_a);
    lemma_fits_u64(expires_b);
    lemma_be_order(expires_a as nat, expires_b as nat, 8);
    lemma_be_len(expires_a as nat, 8);
    lemma_be_len(expires_b as nat, 8);
    assert(expiry_key_view(expires_a, key_a).take(8) == be_bytes(expires_a as nat, 8));
    assert(expiry_key_view(expires_b, key_b).take(8) == be_bytes(expires_b as nat, 8));
}

/// The expired keys at the front of a listing are all the expired keys that it lists.
proof fn lemma_front_holds_expired(index: Seq<Seq<u8>>, now: u64)
    requires
        forall|i: int, j: int| 0 <= i <= j < index.len() ==> sorts_upto(index[i], index[j]),
    ensures
        forall|key: Seq<u8>| #[trigger]
            expired_front(index, now).contains(key) <==> index.contains(key) && sorts_upto(
                key,
                expiry_bound(now),
            ),
    decreases index.len(),
{
    let bound = expiry_bound(now);
    if index.len() == 0 {
    } else if !sorts_upto(index[0], bound) {
        assert forall|key: Seq<u8>| index.contains(key) implies !sorts_upto(key, bound) by {
            let i = choose|i: int| 0 <= i < index.len() && index[i] == key;
            if sorts_upto(key, bound) {
                assert(sorts_upto(index[0], index[i]));
                lemma_upto_transitive(index[0], key, bound);
            }
        }
    } else {
        let rest = index.skip(1);
        lemma_front_holds_expired(rest, now);
        let front = expired_front(index, now);
        let front_rest = expired_front(rest, now);
        assert forall|key: Seq<u8>| #[trigger] front.contains(key) <==> index.contains(key)
            && sorts_upto(key, bound) by {
            if front.contains(key) {
                let i = choose|i: int| 0 <= i < front.len() && front[i] == key;
                if i == 0 {
                    assert(index[0] == key);
                } else {
                    assert(front_rest[i - 1] == key);
                    assert(front_rest.contains(key));
                    let j = choose|j: int| 0 <= j < rest.len() && rest[j] == key;
                    assert(index[j + 1] == key);
                }
            }
            if index.contains(key) && sorts_upto(key, bound) {
                let i = choose|i: int| 0 <= i < index.len() && index[i] == key;
                if i == 0 {
                    assert(front[0] == key);
                } else {
                    assert(rest[i - 1] == key);
                    assert(rest.contains(key));
                    assert(front_rest.contains(key));
                    let j = choose|j: int| 0 <= j < front_rest.len() && front_rest[j] == key;
                    assert(front[j + 1] == key);
                }
            }
        }
    }
}

/// Whether one of a list of index keys stands for an entry of the key.
spec fn indexes(expired: Seq<Seq<u8>>, key: Seq<char>) -> bool {
    exists|i: int|
        0 <= i < expired.len() && indexed_key(#[trigger] expired[i]) == Ok::<
            Seq<char>,
            KeyFault,
        >(key)
}

/// A sweep removes the entries and the index keys that it is given, and nothing else.
proof fn lemma_sweep_effect(store: StoreView, expired: Seq<Seq<u8>>)
    requires
        forall|i: int| 0 <= i < expired.len() ==> indexed_key(#[trigger] expired[i]) is Ok,
    ensures
        sweep_ops(expired) is Ok,
        ({
            let after = applied_all(store, sweep_ops(expired)->Ok_0);
            &&& forall|key: Seq<char>| #[trigger]
                after.entries.dom().contains(key) <==> store.entries.dom().contains(key)
                    && !indexes(expired, key)
            &&& forall|key: Seq<char>|
                after.entries.dom().contains(key) ==> #[trigger] after.entries[key]
                    == store.entries[key]
            &&& forall|index_key: Seq<u8>| #[trigger]
                after.expiry.contains(index_key) <==> store.expiry.contains(index_key)
                    && !expired.contains(index_key)
        }),
    decreases expired.len(),
{
    if expired.len() > 0 {
        let shorter = expired.drop_last();
        assert forall|i: int| 0 <= i < shorter.len() implies indexed_key(
            #[trigger] shorter[i],
        ) is Ok by {
            assert(shorter[i] == expired[i]);
        }
        lemma_sweep_effect(store, shorter);
        let ops = sweep_ops(shorter)->Ok_0;
        let last = expired.last();
        let last_key = indexed_key(last)->Ok_0;
        let one = ops.push(OpView::DeleteEntry { key: last_key });
        let two = one.push(OpView::DeleteExpiry { index_key: last });
        assert(indexed_key(expired[expired.len() - 1]) is Ok);
        assert(sweep_ops(expired) == Ok::<Seq<OpView>, KeyFault>(two));
        assert(two.drop_last() == one);
        assert(one.drop_last() == ops);
        let before = applied_all(store, ops);
        let after = applied_all(store, two);
        assert(applied_all(store, one) == applied(before, OpView::DeleteEntry { key: last_key }));
        assert(after == applied(
            applied_all(store, one),
            OpView::DeleteExpiry { index_key: last },
        ));
        assert forall|key: Seq<char>| indexes(expired, key) <==> indexes(shorter, key) || key
            == last_key by {
            if indexes(expired, key) {
                let i = choose|i: int|
                    0 <= i < expired.len() && indexed_key(#[trigger] expired[i]) == Ok::<
                        Seq<char>,
                        KeyFault,
                    >(key);
                if i < shorter.len() {
                    assert(shorter[i] == expired[i]);
                }
            }
            if indexes(shorter, key) {
                let i = choose|i: int|
                    0 <= i < shorter.len() && indexed_key(#[trigger] shorter[i]) == Ok::<
                        Seq<char>,
                        KeyFault,
                    >(key);
                assert(shorter[i] == expired[i]);
            }
            assert(indexed_key(expired[expired.len() - 1]) == Ok::<Seq<char>, KeyFault>(last_key));
        }
        assert forall|index_key: Seq<u8>| expired.contains(index_key) <==> shorter.contains(
            index_key,
        ) || index_key == last by {
            if expired.contains(index_key) {
                let i = choose|i: int| 0 <= i < expired.len() && expired[i] == index_key;
                if i < shorter.len() {
                    assert(shorter[i] == index_key);
                }
            }
            if shorter.contains(index_key) {
                let i = choose|i: int| 0 <= i < shorter.len() && shorter[i] == index_key;
                assert(expired[i] == index_key);
            }
            assert(expired[expired.len() - 1] == last);
        }
    }
}

/// A purge never fails on consistent tables. It removes just the entries that have expired,
/// and keeps the tables consistent.
pub proof fn purge_removes_what_has_expired(store: StoreView, index: Seq<Seq<u8>>, now: u64)
    requires
        consistent(store),
        lists(index, store.expiry),
    ensures
        sweep_ops(expired_front(index, now)) is Ok,
        applied_all(store, sweep_ops(expired_front(index, now))->Ok_0) == purged(store, now),
        consistent(purged(store, now)),
{
    let expired = expired_front(index, now);
    let bound = expiry_bound(now);
    lemma_front_holds_expired(index, now);
    assert forall|i: int| 0 <= i < expired.len() implies indexed_key(#[trigger] expired[i]) is Ok
        && exists|key: Seq<char>| #[trigger]
        store.entries.dom().contains(key) && expired[i] == expiry_key_view(
            store.entries[key].expires_at,
            key,
        ) by {
        assert(expired.contains(expired[i]));
        assert(index.to_set().contains(expired[i]));
        assert(store.expiry.contains(expired[i]));
        let key = choose|key: Seq<char>| #[trigger]
            store.entries.dom().contains(key) && expired[i] == expiry_key_view(
                store.entries[key].expires_at,
                key,
            );
        index_key_gives_back_key(store.entries[key].expires_at, key);
    }
    lemma_sweep_effect(store, expired);
    let after = applied_all(store, sweep_ops(expired)->Ok_0);
    let expected = purged(store, now);
    assert forall|key: Seq<char>| #[trigger] store.entries.dom().contains(key) implies (indexes(
        expired,
        key,
    ) <==> store.entries[key].expires_at <= now) by {
        let index_key = expiry_key_view(store.entries[key].expires_at, key);
        expired_iff_within_bound(store.entries[key].expires_at, key, now);
        index_key_gives_back_key(store.entries[key].expires_at, key);
        assert(store.expiry.contains(index_key));
        assert(index.to_set().contains(index_key));
        assert(index.contains(index_key));
        if store.entries[key].expires_at <= now {
            assert(expired.contains(index_key));
            let i = choose|i: int| 0 <= i < expired.len() && expired[i] == index_key;
            assert(indexed_key(expired[i]) == Ok::<Seq<char>, KeyFault>(key));
        }
        if indexes(expired, key) {
            let i = choose|i: int|
                0 <= i < expired.len() && indexed_key(#[trigger] expired[i]) == Ok::<
                    Seq<char>,
                    KeyFault,
                >(key);
            let owner = choose|owner: Seq<char>| #[trigger]
                store.entries.dom().contains(owner) && expired[i] == expiry_key_view(
                    store.entries[owner].expires_at,
                    owner,
                );
            index_key_gives_back_key(store.entries[owner].expires_at, owner);
            assert(owner == key);
            assert(expired.contains(expired[i]));
        }
    }
    assert(after.entries =~= expected.entries);
    assert forall|index_key: Seq<u8>| #[trigger]
        after.expiry.contains(index_key) <==> expected.expiry.contains(index_key) by {
        if store.expiry.contains(index_key) {
            assert(index.to_set().contains(index_key));
            assert(index.contains(index_key));
        }
    }
    assert(after.expiry =~= expected.expiry);
    assert(after =~= expected);
    lemma_purged_consistent(store, now);
}

/// The entry that a key has.
pub open spec fn entry_at(store: StoreView, key: Seq<char>) -> Option<EntryView> {
    if store.entries.dom().contains(key) {
        Some(store.entries[key])
    } else {
        None
    }
}

/// Caching an entry gives its key that entry, leaves every other key what it had, and keeps the
/// tables consistent.
pub proof fn put_replaces_one_entry(store: StoreView, key: Seq<char>, entry: EntryView)
    requires
        consistent(store),
    ensures
        ({
            let after = applied_all(store, put_ops(entry_at(store, key), key, entry));
            &&& after.entries == store.entries.insert(key, entry)
            &&& consistent(after)
            &&& after.expiry == if store.entries.dom().contains(key) {
                store.expiry.remove(expiry_key_view(store.entries[key].expires_at, key)).insert(
                    expiry_key_view(entry.expires_at, key),
                )
            } else {
                store.expiry.insert(expiry_key_view(entry.expires_at, key))
            }
        }),
{
    let ops = put_ops(entry_at(store, key), key, entry);
    let after = applied_all(store, ops);
    let new_index_key = expiry_key_view(entry.expires_at, key);
    reveal_with_fuel(applied_all, 4);
    let old_index_keys: Set<Seq<u8>> = if store.entries.dom().contains(key) {
        set![expiry_key_view(store.entries[key].expires_at, key)]
    } else {
        Set::empty()
    };
    assert(after.entries =~= store.entries.insert(key, entry));
    assert(after.expiry =~= store.expiry.difference(old_index_keys).insert(new_index_key));
    assert forall|other: Seq<char>| #[trigger]
        after.entries.dom().contains(other) implies after.expiry.contains(
        expiry_key_view(after.entries[other].expires_at, other),
    ) by {
        if other != key {
            assert(store.entries.dom().contains(other));
            index_keys_are_distinct(
                store.entries[other].expires_at,
                other,
                store.entries[key].expires_at,
                key,
            );
        }
    }
    assert forall|index_key: Seq<u8>| #[trigger] after.expiry.contains(index_key) implies exists|
        other: Seq<char>,
    | #[trigger]
        after.entries.dom().contains(other) && index_key == expiry_key_view(
            after.entries[other].expires_at,
            other,
        ) by {
        if index_key == new_index_key {
            assert(after.entries.dom().contains(key));
        } else {
            assert(store.expiry.contains(index_key));
            let other = choose|other: Seq<char>| #[trigger]
                store.entries.dom().contains(other) && index_key == expiry_key_view(
                    store.entries[other].expires_at,
                    other,
                );
            assert(other != key);
            assert(after.entries.dom().contains(other));
        }
    }
}

/// Dropping an entry leaves every other key what it had, and keeps the tables consistent.
pub proof fn remove_drops_one_entry(store: StoreView, key: Seq<char>)
    requires
        consistent(store),
    ensures
        ({
            let after = applied_all(store, remove_ops(entry_at(store, key), key));
            &&& after.entries == store.entries.remove(key)
            &&& consistent(after)
            &&& after.expiry == if store.entries.dom().contains(key) {
                store.expiry.remove(expiry_key_view(store.entries[key].expires_at, key))
            } else {
                store.expiry
            }
        }),
{
    let ops = remove_ops(entry_at(store, key), key);
    let after = applied_all(store, ops);
    reveal_with_fuel(applied_all, 3);
    assert(after.entries =~= store.entries.remove(key));
    if store.entries.dom().contains(key) {
        let old_index_key = expiry_key_view(store.entries[key].expires_at, key);
        assert(after.expiry =~= store.expiry.remove(old_index_key));
        assert forall|other: Seq<char>| #[trigger]
            after.entries.dom().contains(other) implies after.expiry.contains(
            expiry_key_view(after.entries[other].expires_at, other),
        ) by {
            assert(store.entries.dom().contains(other));
            index_keys_are_distinct(
                store.entries[other].expires_at,
                other,
                store.entries[key].expires_at,
                key,
            );
        }
        assert forall|index_key: Seq<u8>| #[trigger]
            after.expiry.contains(index_key) implies exists|other: Seq<char>| #[trigger]
            after.entries.dom().contains(other) && index_key == expiry_key_view(
                after.entries[other].expires_at,
                other,
            ) by {
            assert(store.expiry.contains(index_key));
            let other = choose|other: Seq<char>| #[trigger]
                store.entries.dom().contains(other) && index_key == expiry_key_view(
                    store.entries[other].expires_at,
                    other,
                );
            assert(other != key);
            assert(after.entries.dom().contains(other));
        }
    }
}

/// The body that a read at `now` gives: expired entries are purged first.
pub open spec fn read_body(store: StoreView, key: Seq<char>, now: u64) -> Option<Seq<u8>> {
    body_of(entry_at(purged(store, now), key))
}

/// The tables after a payload is cached at `written_at`: the entries that have expired by
/// `swept_at` are purged first.
pub open spec fn written(
    store: StoreView,
    key: Seq<char>,
    body: Seq<u8>,
    ttl_seconds: u64,
    swept_at: u64,
    written_at: u64,
) -> StoreView {
    let swept = purged(store, swept_at);
    let entry = EntryView { body, expires_at: (written_at + ttl_seconds) as u64 };
    applied_all(swept, put_ops(entry_at(swept, key), key, entry))
}

/// A read gives back what was written until its time to live has passed, and nothing from then
/// on; the reads of every other key are as they were before the write, unless the clock has run
/// back behind the purge before it.
pub proof fn read_gives_back_what_was_written(
    store: StoreView,
    key: Seq<char>,
    body: Seq<u8>,
    ttl_seconds: u64,
    swept_at: u64,
    written_at: u64,
    read_at: u64,
)
    requires
        consistent(store),
        written_at + ttl_seconds <= u64::MAX,
    ensures
        ({
            let after = written(store, key, body, ttl_seconds, swept_at, written_at);
            &&& consistent(after)
            &&& read_body(after, key, read_at) == if read_at < written_at + ttl_seconds {
                Some(body)
            } else {
                None
            }
            &&& swept_at <= read_at ==> forall|other: Seq<char>|
                other != key ==> #[trigger] read_body(after, other, read_at) == read_body(
                    store,
                    other,
                    read_at,
                )
        }),
{
    let swept = purged(store, swept_at);
    lemma_purged_consistent(store, swept_at);
    put_replaces_one_entry(
        swept,
        key,
        EntryView { body, expires_at: (written_at + ttl_seconds) as u64 },
    );
}

proof fn lemma_purged_consistent(store: StoreView, now: u64)
    requires
        consistent(store),
    ensures
        consistent(purged(store, now)),
{
    let after = purged(store, now);
    assert forall|key: Seq<char>| #[trigger]
        after.entries.dom().contains(key) implies after.expiry.contains(
        expiry_key_view(after.entries[key].expires_at, key),
    ) by {
        assert(store.entries.dom().contains(key));
        expired_iff_within_bound(store.entries[key].expires_at, key, now);
    }
    assert forall|index_key: Seq<u8>| #[trigger] after.expiry.contains(index_key) implies exists|
        key: Seq<char>,
    | #[trigger]
        after.entries.dom().contains(key) && index_key == expiry_key_view(
            after.entries[key].expires_at,
            key,
        ) by {
        assert(store.expiry.contains(index_key));
        let key = choose|key: Seq<char>| #[trigger]
            store.entries.dom().contains(key) && index_key == expiry_key_view(
                store.entries[key].expires_at,
                key,
            );
        expired_iff_within_bound(store.entries[key].expires_at, key, now);
        assert(after.entries.dom().contains(key));
    }
}

/// What happens to the tables over time. An operation that fails writes nothing behind its
/// purge.
pub enum CacheEvent {
    /// A purge, alone or before a read.
    Purged { now: u64 },
    /// A purge, and a payload is cached.
    Put { key: Seq<char>, body: Seq<u8>, ttl_seconds: u64, swept_at: u64, written_at: u64 },
    /// A purge, and the entry of a key is dropped.
    Removed { key: Seq<char>, swept_at: u64 },
}

impl CacheEvent {
    /// The time of the purge.
    pub open spec fn swept_at(self) -> u64 {
        match self {
            CacheEvent::Purged { now } => now,
            CacheEvent::Put { swept_at, .. } => swept_at,
            CacheEvent::Removed { swept_at, .. } => swept_at,
        }
    }

    /// The time at which a payload expires is a time.
    pub open spec fn is_timed(self) -> bool {
        self matches CacheEvent::Put { ttl_seconds, written_at, .. } ==> written_at + ttl_seconds
            <= u64::MAX
    }
}

/// The tables after an entry is dropped: the entries that have expired by `swept_at` are purged
/// first.
pub open spec fn dropped(store: StoreView, key: Seq<char>, swept_at: u64) -> StoreView {
    let swept = purged(store, swept_at);
    applied_all(swept, remove_ops(entry_at(swept, key), key))
}

/// The tables after an event.
pub open spec fn happened(store: StoreView, event: CacheEvent) -> StoreView {
    match event {
        CacheEvent::Purged { now } => purged(store, now),
        CacheEvent::Put { key, body, ttl_seconds, swept_at, written_at } => written(
            store,
            key,
            body,
            ttl_seconds,
            swept_at,
            written_at,
        ),
        CacheEvent::Removed { key, swept_at } => dropped(store, key, swept_at),
    }
}

/// Tables that hold nothing.
pub open spec fn fresh_store() -> StoreView {
    StoreView { entries: Map::empty(), expiry: Set::empty() }
}

/// The tables after a sequence of events that starts with empty tables.
pub open spec fn store_after(events: Seq<CacheEvent>) -> StoreView
    decreases events.len(),
{
    if events.len() == 0 {
        fresh_store()
    } else {
        happened(store_after(events.drop_last()), events.last())
    }
}

/// The entry that was put last under a key and not dropped since.
pub open spec fn last_put(events: Seq<CacheEvent>, key: Seq<char>) -> Option<EntryView>
    decreases events.len(),
{
    if events.len() == 0 {
        None
    } else {
        match events.last() {
            CacheEvent::Put { key: other, body, ttl_seconds, written_at, .. } => if other == key {
                Some(EntryView { body, expires_at: (written_at + ttl_seconds) as u64 })
            } else {
                last_put(events.drop_last(), key)
            },
            CacheEvent::Removed { key: other, .. } => if other == key {
                None
            } else {
                last_put(events.drop_last(), key)
            },
            CacheEvent::Purged { .. } => last_put(events.drop_last(), key),
        }
    }
}

/// A purge leaves every read as it was, unless the clock has run back behind it.
pub proof fn purges_leave_reads_as_they_were(
    store: StoreView,
    key: Seq<char>,
    swept_at: u64,
    read_at: u64,
)
    requires
        swept_at <= read_at,
    ensures
        read_body(purged(store, swept_at), key, read_at) == read_body(store, key, read_at),
{
}

/// Whatever was put, purged and dropped before, the index holds the index key of every entry and
/// nothing else.
pub proof fn the_index_stays_in_step(events: Seq<CacheEvent>)
    ensures
        consistent(store_after(events)),
        forall|index_key: Seq<u8>| #[trigger]
            store_after(events).expiry.contains(index_key) <==> exists|key: Seq<char>| #[trigger]
                store_after(events).entries.dom().contains(key) && index_key == expiry_key_view(
                    store_after(events).entries[key].expires_at,
                    key,
                ),
    decreases events.len(),
{
    if events.len() > 0 {
        let before = store_after(events.drop_last());
        the_index_stays_in_step(events.drop_last());
        lemma_purged_consistent(before, events.last().swept_at());
        let swept = purged(before, events.last().swept_at());
        match events.last() {
            CacheEvent::Purged { .. } => {},
            CacheEvent::Put { key, body, ttl_seconds, written_at, .. } => {
                put_replaces_one_entry(
                    swept,
                    key,
                    EntryView { body, expires_at: (written_at + ttl_seconds) as u64 },
                );
            },
            CacheEvent::Removed { key, .. } => {
                remove_drops_one_entry(swept, key);
            },
        }
    }
}

/// Whatever was put, purged and dropped before, a read gives the body that was put last under
/// its key, as long as its time to live has not passed and it was not dropped; else it gives
/// nothing. The clock must not have run back behind a purge.
pub proof fn reads_give_back_the_last_write(events: Seq<CacheEvent>, key: Seq<char>, now: u64)
    requires
        forall|i: int|
            0 <= i < events.len() ==> (#[trigger] events[i]).is_timed() && events[i].swept_at()
                <= now,
    ensures
        read_body(store_after(events), key, now) == match last_put(events, key) {
            Some(entry) => if now < entry.expires_at {
                Some(entry.body)
            } else {
                None
            },
            None => None,
        },
    decreases events.len(),
{
    if events.len() > 0 {
        let earlier = events.drop_last();
        let before = store_after(earlier);
        let event = events.last();
        assert(events[events.len() - 1] == event);
        assert forall|i: int| 0 <= i < earlier.len() implies (#[trigger] earlier[i]).is_timed()
            && earlier[i].swept_at() <= now by {
            assert(earlier[i] == events[i]);
        }
        reads_give_back_the_last_write(earlier, key, now);
        the_index_stays_in_step(earlier);
        let swept = purged(before, event.swept_at());
        lemma_purged_consistent(before, event.swept_at());
        purges_leave_reads_as_they_were(before, key, event.swept_at(), now);
        match event {
            CacheEvent::Purged { .. } => {},
            CacheEvent::Put { key: other, body, ttl_seconds, swept_at, written_at } => {
                read_gives_back_what_was_written(
                    before,
                    other,
                    body,
                    ttl_seconds,
                    swept_at,
                    written_at,
                    now,
                );
            },
            CacheEvent::Removed { key: other, .. } => {
                remove_drops_one_entry(swept, other);
            },
        }
    }
}

/// Keys of two kinds never meet, where neither kind holds a colon.
pub proof fn kinds_do_not_meet(
    kind_a: Seq<char>,
    key_a: Seq<char>,
    kind_b: Seq<char>,
    key_b: Seq<char>,
)
    requires
        !kind_a.contains(':'),
        !kind_b.contains(':'),
    ensures
        prefixed_key(kind_a, key_a) == prefixed_key(kind_b, key_b) <==> kind_a == kind_b && key_a
            == key_b,
{
    let a = prefixed_key(kind_a, key_a);
    let b = prefixed_key(kind_b, key_b);
    if a == b {
        assert(a[kind_a.len() as int] == ':');
        assert(b[kind_b.len() as int] == ':');
        if kind_a.len() < kind_b.len() {
            assert(kind_b[kind_a.len() as int] == ':');
        }
        if kind_b.len() < kind_a.len() {
            assert(kind_a[kind_b.len() as int] == ':');
        }
        assert(a.take(kind_a.len() as int) == kind_a);
        assert(b.take(kind_b.len() as int) == kind_b);
        assert(a.skip(kind_a.len() as int + 1) == key_a);
        assert(b.skip(kind_b.len() as int + 1) == key_b);
    }
}

/// A purge keeps just the entries that expire later, as they are, and the index keys behind its
/// bound. An entry is read by its key.
pub proof fn purges_keep_what_expires_later(
    store: StoreView,
    now: u64,
    key: Seq<char>,
    index_key: Seq<u8>,
)
    ensures
        purged(store, now).entries.dom().contains(key) <==> store.entries.dom().contains(key)
            && store.entries[key].expires_at > now,
        purged(store, now).entries.dom().contains(key) ==> purged(store, now).entries[key]
            == store.entries[key],
        purged(store, now).expiry.contains(index_key) <==> store.expiry.contains(index_key)
            && !sorts_upto(index_key, expiry_bound(now)),
        store.entries.dom().contains(key) ==> entry_at(store, key) == Some(store.entries[key]),
        !store.entries.dom().contains(key) ==> entry_at(store, key) is None,
        read_body(store, key, now) == if store.entries.dom().contains(key)
            && store.entries[key].expires_at > now {
            Some(store.entries[key].body)
        } else {
            None
        },
{
}

/// A sweep of index keys that all stand for entries succeeds. Otherwise it fails with what is wrong
/// with the first that does not.
pub proof fn sweeps_fail_with_the_first_bad_key(expired: Seq<Seq<u8>>, bad: int)
    requires
        0 <= bad <= expired.len(),
        forall|i: int| 0 <= i < bad ==> indexed_key(#[trigger] expired[i]) is Ok,
        bad < expired.len() ==> indexed_key(expired[bad]) is Err,
    ensures
        bad == expired.len() ==> sweep_ops(expired) is Ok,
        bad < expired.len() ==> sweep_ops(expired) == Err::<Seq<OpView>, KeyFault>(
            indexed_key(expired[bad])->Err_0,
        ),
    decreases expired.len(),
{
    if bad == expired.len() {
        lemma_sweep_effect(fresh_store(), expired);
    } else {
        let fewer = expired.drop_last();
        assert forall|i: int| 0 <= i < bad implies indexed_key(#[trigger] fewer[i]) is Ok by {
            assert(fewer[i] == expired[i]);
        }
        if bad < fewer.len() {
            assert(fewer[bad] == expired[bad]);
        }
        sweeps_fail_with_the_first_bad_key(fewer, bad);
    }
}

/// A purge of the index takes the entry and the index key of each expired key, and nothing else.
pub proof fn sweeps_take_what_they_are_given(store: StoreView, expired: Seq<Seq<u8>>)
    requires
        forall|i: int| 0 <= i < expired.len() ==> indexed_key(#[trigger] expired[i]) is Ok,
    ensures
        ({
            let after = applied_all(store, sweep_ops(expired)->Ok_0);
            &&& forall|key: Seq<char>| #[trigger]
                after.entries.dom().contains(key) <==> store.entries.dom().contains(key) && !(
                exists|i: int|
                    0 <= i < expired.len() && indexed_key(#[trigger] expired[i]) == Ok::<
                        Seq<char>,
                        KeyFault,
                    >(key))
            &&& forall|key: Seq<char>|
                after.entries.dom().contains(key) ==> #[trigger] after.entries[key]
                    == store.entries[key]
            &&& forall|index_key: Seq<u8>| #[trigger]
                after.expiry.contains(index_key) <==> store.expiry.contains(index_key)
                    && !expired.contains(index_key)
        }),
{
    lemma_sweep_effect(store, expired);
}

} // verus!
