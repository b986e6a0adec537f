//! The cache of raw upstream payloads: entries by key, and an index of the keys by the time
//! at which they expire.
//!
//! The tables live in a database. Here is what is written to them, as a list of operations
//! that one transaction performs, and what the tables hold after it.
use vstd::prelude::*;
use vstd::string::to_string_from_display_ensures;
use vstd::utf8::*;

use crate::retention::{
    consistent, entry_at, lists, purge_removes_what_has_expired, purged, put_replaces_one_entry,
    read_body, remove_drops_one_entry,
};

verus! {

/// `std::str::Utf8Error`, the refusal of bytes that are not UTF-8.
#[verifier::external_type_specification]
#[verifier::external_body]
pub struct ExUtf8Error(std::str::Utf8Error);

/// The error with which `std::str::from_utf8` refuses bytes that are not UTF-8.
pub uninterp spec fn utf8_refusal(bytes: Seq<u8>) -> std::str::Utf8Error;

/// `std::str::from_utf8`: the text of bytes that are valid UTF-8, an error for all others. The
/// error is named by the bytes.
#[verifier::external_body]
fn text_of_utf8(bytes: &[u8]) -> (text: Result<&str, std::str::Utf8Error>)
    ensures
        match text {
            Ok(text) => valid_utf8(bytes@) && text@ == decode_utf8(bytes@),
            Err(error) => !valid_utf8(bytes@) && error == utf8_refusal(bytes@),
        },
{
    std::str::from_utf8(bytes)
}

/// A cached payload and the second from which it counts as expired.
pub struct CacheEntry {
    pub body: Vec<u8>,
    pub expires_at_unix_seconds: u64,
}

/// A cached payload by its bytes.
pub struct EntryView {
    pub body: Seq<u8>,
    pub expires_at: u64,
}

impl View for CacheEntry {
    type V = EntryView;

    open spec fn view(&self) -> EntryView {
        EntryView { body: self.body@, expires_at: self.expires_at_unix_seconds }
    }
}

/// One write to the tables.
pub enum StoreOp {
    PutEntry { key: String, entry: CacheEntry },
    DeleteEntry { key: String },
    PutExpiry { index_key: Vec<u8> },
    DeleteExpiry { index_key: Vec<u8> },
}

/// One write to the tables, by its keys and its entry.
pub enum OpView {
    PutEntry { key: Seq<char>, entry: EntryView },
    DeleteEntry { key: Seq<char> },
    PutExpiry { index_key: Seq<u8> },
    DeleteExpiry { index_key: Seq<u8> },
}

impl View for StoreOp {
    type V = OpView;

    open spec fn view(&self) -> OpView {
        match *self {
            StoreOp::PutEntry { key, entry } => OpView::PutEntry { key: key@, entry: entry@ },
            StoreOp::DeleteEntry { key } => OpView::DeleteEntry { key: key@ },
            StoreOp::PutExpiry { index_key } => OpView::PutExpiry { index_key: index_key@ },
            StoreOp::DeleteExpiry { index_key } => OpView::DeleteExpiry { index_key: index_key@ },
        }
    }
}

/// The views of a list of writes.
pub open spec fn op_views(ops: Seq<StoreOp>) -> Seq<OpView> {
    ops.map_values(|op: StoreOp| op@)
}

/// The views of a list of byte strings.
pub open spec fn byte_views(keys: Seq<Vec<u8>>) -> Seq<Seq<u8>> {
    keys.map_values(|key: Vec<u8>| key@)
}

/// What the two tables hold.
#[verifier::ext_equal]
pub struct StoreView {
    pub entries: Map<Seq<char>, EntryView>,
    pub expiry: Set<Seq<u8>>,
}

/// The tables after one write.
pub open spec fn applied(store: StoreView, op: OpView) -> StoreView {
    match op {
        OpView::PutEntry { key, entry } => StoreView {
            entries: store.entries.insert(key, entry),
            ..store
        },
        OpView::DeleteEntry { key } => StoreView { entries: store.entries.remove(key), ..store },
        OpView::PutExpiry { index_key } => StoreView {
            expiry: store.expiry.insert(index_key),
            ..store
        },
        OpView::DeleteExpiry { index_key } => StoreView {
            expiry: store.expiry.remove(index_key),
            ..store
        },
    }
}

/// The tables after a list of writes.
pub open spec fn applied_all(store: StoreView, ops: Seq<OpView>) -> StoreView
    decreases ops.len(),
{
    if ops.len() == 0 {
        store
    } else {
        applied(applied_all(store, ops.drop_last()), ops.last())
    }
}

/// A number in `width` bytes, the most significant byte first.
pub open spec fn be_bytes(value: nat, width: nat) -> Seq<u8>
    decreases width,
{
    if width == 0 {
        Seq::empty()
    } else {
        be_bytes(value / 256, (width - 1) as nat).push((value % 256) as u8)
    }
}

/// Whether one byte string sorts before another or equals it.
pub open spec fn sorts_upto(left: Seq<u8>, right: Seq<u8>) -> bool
    decreases left.len(),
{
    if left.len() == 0 {
        true
    } else if right.len() == 0 {
        false
    } else if left[0] == right[0] {
        sorts_upto(left.skip(1), right.skip(1))
    } else {
        left[0] < right[0]
    }
}

/// The index key of an entry: its expiry time in eight bytes, then its key.
pub open spec fn expiry_key_view(expires_at: u64, key: Seq<char>) -> Seq<u8> {
    be_bytes(expires_at as nat, 8) + encode_utf8(key)
}

/// The byte string up to which the index holds the entries that have expired by `now`.
pub open spec fn expiry_bound(now: u64) -> Seq<u8> {
    be_bytes(now as nat, 8).push(0xff)
}

/// What is wrong with an index key.
pub enum KeyFault {
    /// It has no room for an expiry time.
    Short,
    /// Its key is not UTF-8, as the error tells.
    NotText(std::str::Utf8Error),
}

/// The key of the entry that an index key stands for.
pub open spec fn indexed_key(expiry_key: Seq<u8>) -> Result<Seq<char>, KeyFault> {
    if expiry_key.len() < 8 {
        Err(KeyFault::Short)
    } else if !valid_utf8(expiry_key.skip(8)) {
        Err(KeyFault::NotText(utf8_refusal(expiry_key.skip(8))))
    } else {
        Ok(decode_utf8(expiry_key.skip(8)))
    }
}

/// The keys at the front of the index that have expired by `now`, up to the first that has not.
pub open spec fn expired_front(index: Seq<Seq<u8>>, now: u64) -> Seq<Seq<u8>>
    decreases index.len(),
{
    if index.len() == 0 || !sorts_upto(index[0], expiry_bound(now)) {
        Seq::empty()
    } else {
        seq![index[0]] + expired_front(index.skip(1), now)
    }
}

/// The writes that remove expired entries and their index keys, or what is wrong with the first
/// index key that stands for no entry.
pub open spec fn sweep_ops(expired: Seq<Seq<u8>>) -> Result<Seq<OpView>, KeyFault>
    decreases expired.len(),
{
    if expired.len() == 0 {
        Ok(Seq::empty())
    } else {
        match (sweep_ops(expired.drop_last()), indexed_key(expired.last())) {
            (Err(fault), _) => Err(fault),
            (Ok(_), Err(fault)) => Err(fault),
            (Ok(ops), Ok(key)) => Ok(
                ops.push(OpView::DeleteEntry { key }).push(
                    OpView::DeleteExpiry { index_key: expired.last() },
                ),
            ),
        }
    }
}

/// The writes that cache an entry in place of the one that its key had before.
pub open spec fn put_ops(
    previous: Option<EntryView>,
    key: Seq<char>,
    entry: EntryView,
) -> Seq<OpView> {
    let put = seq![
        OpView::PutEntry { key, entry },
        OpView::PutExpiry { index_key: expiry_key_view(entry.expires_at, key) },
    ];
    match previous {
        Some(previous) => seq![
            OpView::DeleteExpiry { index_key: expiry_key_view(previous.expires_at, key) },
        ] + put,
        None => put,
    }
}

/// The writes that drop an entry, if its key has one.
pub open spec fn remove_ops(previous: Option<EntryView>, key: Seq<char>) -> Seq<OpView> {
    match previous {
        Some(previous) => seq![
            OpView::DeleteEntry { key },
            OpView::DeleteExpiry { index_key: expiry_key_view(previous.expires_at, key) },
        ],
        None => Seq::empty(),
    }
}

/// Why expired entries cannot be removed: an index key that stands for no entry.
pub enum StoreError {
    InvalidExpiryKey,
    InvalidText(std::str::Utf8Error),
}

impl StoreError {
    /// What is wrong with the index key.
    pub open spec fn fault(self) -> KeyFault {
        match self {
            StoreError::InvalidExpiryKey => KeyFault::Short,
            StoreError::InvalidText(error) => KeyFault::NotText(error),
        }
    }

    /// The text of the error; for a key that is not UTF-8, the text that `Utf8Error` displays.
    pub fn message(&self) -> (message: String)
        ensures
            match *self {
                StoreError::InvalidExpiryKey => message@ == "invalid expiry key"@,
                StoreError::InvalidText(error) => to_string_from_display_ensures::<
                    std::str::Utf8Error,
                >(&error, message),
            },
    {
        match self {
            StoreError::InvalidExpiryKey => "invalid expiry key".to_owned(),
            StoreError::InvalidText(error) => error.to_string(),
        }
    }
}

fn big_endian(value: u64, width: usize) -> (bytes: Vec<u8>)
    ensures
        bytes@ == be_bytes(value as nat, width as nat),
    decreases width,
{
    if width == 0 {
        Vec::new()
    } else {
        let mut bytes = big_endian(value / 256, width - 1);
        bytes.push((value % 256) as u8);
        bytes
    }
}

/// The index key of an entry.
pub fn expiry_key(expires_at_unix_seconds: u64, cache_key: &str) -> (encoded: Vec<u8>)
    ensures
        encoded@ == expiry_key_view(expires_at_unix_seconds, cache_key@),
{
    let mut encoded = big_endian(expires_at_unix_seconds, 8);
    encoded.extend_from_slice(cache_key.as_bytes());
    encoded
}

/// The key of a kind of entry: the kind and the key with a colon between them.
pub open spec fn prefixed_key(kind: Seq<char>, key: Seq<char>) -> Seq<char> {
    kind + seq![':'] + key
}

/// The key of a kind of entry.
pub fn cache_key_prefix(kind: &str, key: &str) -> (prefixed: String)
    ensures
        prefixed@ == prefixed_key(kind@, key@),
{
    let mut prefixed = kind.to_owned();
    prefixed.push(':');
    prefixed.append(key);
    prefixed
}

/// Whether a byte string sorts before another or equals it.
fn is_upto(left: &[u8], right: &[u8]) -> (upto: bool)
    ensures
        upto == sorts_upto(left@, right@),
{
    assert(left@.skip(0) == left@);
    assert(right@.skip(0) == right@);
    let mut i: usize = 0;
    while i < left.len()
        invariant
            i <= left@.len(),
            i <= right@.len(),
            sorts_upto(left@, right@) == sorts_upto(left@.skip(i as int), right@.skip(i as int)),
        decreases left@.len() - i,
    {
        if i >= right.len() {
            return false;
        }
        if left[i] != right[i] {
            return left[i] < right[i];
        }
        assert(left@.skip(i as int).skip(1) == left@.skip(i + 1));
        assert(right@.skip(i as int).skip(1) == right@.skip(i + 1));
        i = i + 1;
    }
    true
}

/// The scan of the index that finds the expired entries.
pub struct PurgeScan {
    now: u64,
    bound: Vec<u8>,
    expired: Vec<Vec<u8>>,
}

impl PurgeScan {
    pub closed spec fn wf(self) -> bool {
        self.bound@ == expiry_bound(self.now)
    }

    /// The second for which the scan looks.
    pub closed spec fn now(self) -> u64 {
        self.now
    }

    /// The expired keys that the scan has met, in the order in which it met them.
    pub closed spec fn expired(self) -> Seq<Seq<u8>> {
        byte_views(self.expired@)
    }

    /// Starts a scan for the entries that have expired by `now`.
    pub fn new(now: u64) -> (scan: Self)
        ensures
            scan.wf(),
            scan.now() == now,
            scan.expired() == Seq::<Seq<u8>>::empty(),
    {
        let mut bound = big_endian(now, 8);
        bound.push(0xff);
        let expired: Vec<Vec<u8>> = Vec::new();
        assert(byte_views(expired@) == Seq::<Seq<u8>>::empty());
        PurgeScan { now, bound, expired }
    }

    /// Takes the next key of the index; says whether the scan goes on behind it.
    pub fn visit(&mut self, key: &[u8]) -> (goes_on: bool)
        requires
            old(self).wf(),
        ensures
            final(self).wf(),
            final(self).now() == old(self).now(),
            goes_on == sorts_upto(key@, expiry_bound(old(self).now())),
            final(self).expired() == if goes_on {
                old(self).expired().push(key@)
            } else {
                old(self).expired()
            },
    {
        if is_upto(key, self.bound.as_slice()) {
            self.expired.push(vstd::slice::slice_to_vec(key));
            assert(byte_views(self.expired@) == byte_views(old(self).expired@).push(key@));
            true
        } else {
            false
        }
    }

    /// The writes that remove what the scan has found.
    pub fn finish(self) -> (ops: Result<Vec<StoreOp>, StoreError>)
        requires
            self.wf(),
        ensures
            match ops {
                Ok(ops) => sweep_ops(self.expired()) == Ok::<Seq<OpView>, KeyFault>(
                    op_views(ops@),
                ),
                Err(error) => sweep_ops(self.expired()) == Err::<Seq<OpView>, KeyFault>(
                    error.fault(),
                ),
            },
    {
        let ghost all = self.expired@;
        let mut ops: Vec<StoreOp> = Vec::new();
        assert(op_views(ops@) == Seq::<OpView>::empty());
        assert(byte_views(all).take(0) == Seq::<Seq<u8>>::empty());
        for key in iter: self.expired.into_iter()
            invariant
                iter.seq() == all,
                sweep_ops(byte_views(all).take(iter.index() as int)) == Ok::<
                    Seq<OpView>,
                    KeyFault,
                >(op_views(ops@)),
        {
            let ghost front = byte_views(all).take(iter.index() as int);
            let ghost longer = byte_views(all).take(iter.index() + 1);
            proof {
                assert(longer.drop_last() == front);
                assert(longer.last() == key@);
                if sweep_ops(longer) is Err {
                    lemma_sweep_fault(byte_views(all), longer.len() as int);
                }
            }
            if key.len() < 8 {
                return Err(StoreError::InvalidExpiryKey);
            }
            let text = vstd::slice::slice_subrange(key.as_slice(), 8, key.len());
            assert(text@ == key@.skip(8));
            match text_of_utf8(text) {
                Ok(cache_key) => {
                    let ghost before = op_views(ops@);
                    ops.push(StoreOp::DeleteEntry { key: cache_key.to_owned() });
                    ops.push(StoreOp::DeleteExpiry { index_key: key });
                    assert(op_views(ops@) == before.push(
                        OpView::DeleteEntry { key: cache_key@ },
                    ).push(OpView::DeleteExpiry { index_key: key@ }));
                },
                Err(error) => {
                    return Err(StoreError::InvalidText(error));
                },
            }
        }
        assert(byte_views(all).take(all.len() as int) == byte_views(all));
        Ok(ops)
    }
}

/// A fault among the first keys is the fault of them all.
proof fn lemma_sweep_fault(expired: Seq<Seq<u8>>, count: int)
    requires
        0 <= count <= expired.len(),
        sweep_ops(expired.take(count)) is Err,
    ensures
        sweep_ops(expired) == sweep_ops(expired.take(count)),
    decreases expired.len(),
{
    if count == expired.len() {
        assert(expired.take(count) == expired);
    } else {
        assert(expired.drop_last().take(count) == expired.take(count));
        lemma_sweep_fault(expired.drop_last(), count);
    }
}

/// Scans a listing of the index for the entries that have expired by `now`.
fn scan_index(index: &Vec<Vec<u8>>, now: u64) -> (scan: PurgeScan)
    ensures
        scan.wf(),
        scan.expired() == expired_front(byte_views(index@), now),
{
    let mut scan = PurgeScan::new(now);
    let ghost keys = byte_views(index@);
    let mut i: usize = 0;
    assert(keys.skip(0) == keys);
    while i < index.len()
        invariant
            scan.wf(),
            scan.now() == now,
            keys == byte_views(index@),
            i <= index.len(),
            expired_front(keys, now) == scan.expired() + expired_front(keys.skip(i as int), now),
        decreases index.len() - i,
    {
        let ghost before = scan.expired();
        assert(keys.skip(i as int)[0] == index[i as int]@);
        if !scan.visit(index[i].as_slice()) {
            assert(scan.expired() + expired_front(keys.skip(i as int), now) == scan.expired());
            return scan;
        }
        assert(keys.skip(i as int).skip(1) == keys.skip(i + 1));
        assert(before + (seq![keys[i as int]] + expired_front(keys.skip(i + 1), now))
            == before.push(keys[i as int]) + expired_front(keys.skip(i + 1), now));
        i = i + 1;
    }
    assert(scan.expired() + expired_front(keys.skip(i as int), now) == scan.expired());
    scan
}

/// The body of an entry that may be missing.
pub open spec fn body_of(entry: Option<EntryView>) -> Option<Seq<u8>> {
    match entry {
        Some(entry) => Some(entry.body),
        None => None,
    }
}

/// A body that may be missing, by its bytes.
pub open spec fn body_view(body: Option<Vec<u8>>) -> Option<Seq<u8>> {
    match body {
        Some(body) => Some(body@),
        None => None,
    }
}

/// An entry that the table may have, by its bytes.
pub open spec fn found_view(entry: Option<CacheEntry>) -> Option<EntryView> {
    match entry {
        Some(entry) => Some(entry@),
        None => None,
    }
}

/// An entry that the table may have had, by its bytes.
pub open spec fn entry_view(entry: Option<&CacheEntry>) -> Option<EntryView> {
    match entry {
        Some(entry) => Some(entry@),
        None => None,
    }
}

/// The cache of the service: what is read from the tables and written to them. Each read and
/// each write follows a purge.
pub struct HeedCache {}

impl HeedCache {
    /// The body that a read gives, of the entry that the table has once it is purged.
    pub fn get(&self, found: Option<CacheEntry>) -> (body: Option<Vec<u8>>)
        ensures
            body_view(body) == body_of(found_view(found)),
            forall|store: StoreView, key: Seq<char>, now: u64|
                found_view(found) == entry_at(purged(store, now), key) ==> body_view(body)
                    == #[trigger] read_body(store, key, now),
    {
        match found {
            Some(entry) => Some(entry.body),
            None => None,
        }
    }

    /// The writes that remove the entries of an index that have expired by `now`.
    pub fn purge_expired(&self, index: &Vec<Vec<u8>>, now: u64) -> (ops: Result<
        Vec<StoreOp>,
        StoreError,
    >)
        ensures
            match ops {
                Ok(ops) => sweep_ops(expired_front(byte_views(index@), now)) == Ok::<
                    Seq<OpView>,
                    KeyFault,
                >(op_views(ops@)),
                Err(error) => sweep_ops(expired_front(byte_views(index@), now)) == Err::<
                    Seq<OpView>,
                    KeyFault,
                >(error.fault()),
            },
            forall|store: StoreView|
                consistent(store) && #[trigger] lists(byte_views(index@), store.expiry) ==> {
                    &&& ops is Ok
                    &&& applied_all(store, op_views(ops->Ok_0@)) == purged(store, now)
                    &&& consistent(purged(store, now))
                },
    {
        proof {
            assert forall|store: StoreView|
                consistent(store) && #[trigger] lists(byte_views(index@), store.expiry) implies {
                &&& sweep_ops(expired_front(byte_views(index@), now)) is Ok
                &&& applied_all(store, sweep_ops(expired_front(byte_views(index@), now))->Ok_0)
                    == purged(store, now)
                &&& consistent(purged(store, now))
            } by {
                purge_removes_what_has_expired(store, byte_views(index@), now);
            }
        }
        scan_index(index, now).finish()
    }

    /// The writes that cache a payload for `ttl_seconds` from `now`, in place of `previous`.
    pub fn put(
        &self,
        previous: Option<&CacheEntry>,
        key: &str,
        body: Vec<u8>,
        ttl_seconds: u64,
        now: u64,
    ) -> (ops: Vec<StoreOp>)
        requires
            now + ttl_seconds <= u64::MAX,
        ensures
            op_views(ops@) == put_ops(
                entry_view(previous),
                key@,
                (EntryView { body: body@, expires_at: (now + ttl_seconds) as u64 }),
            ),
            forall|store: StoreView|
                consistent(store) && entry_view(previous) == #[trigger] entry_at(store, key@) ==> {
                    &&& applied_all(store, op_views(ops@)).entries == store.entries.insert(
                        key@,
                        (EntryView { body: body@, expires_at: (now + ttl_seconds) as u64 }),
                    )
                    &&& consistent(applied_all(store, op_views(ops@)))
                },
    {
        let expires_at_unix_seconds = now + ttl_seconds;
        let mut ops: Vec<StoreOp> = Vec::new();
        if let Some(previous) = previous {
            ops.push(
                StoreOp::DeleteExpiry {
                    index_key: expiry_key(previous.expires_at_unix_seconds, key),
                },
            );
        }
        ops.push(
            StoreOp::PutEntry {
                key: key.to_owned(),
                entry: CacheEntry { body, expires_at_unix_seconds },
            },
        );
        ops.push(StoreOp::PutExpiry { index_key: expiry_key(expires_at_unix_seconds, key) });
        assert(op_views(ops@) == put_ops(
            entry_view(previous),
            key@,
            (EntryView { body: body@, expires_at: expires_at_unix_seconds }),
        ));
        proof {
            let entry = EntryView { body: body@, expires_at: expires_at_unix_seconds };
            assert forall|store: StoreView|
                consistent(store) && entry_view(previous) == #[trigger] entry_at(
                    store,
                    key@,
                ) implies {
                &&& applied_all(store, op_views(ops@)).entries == store.entries.insert(key@, entry)
                &&& consistent(applied_all(store, op_views(ops@)))
            } by {
                put_replaces_one_entry(store, key@, entry);
            }
        }
        ops
    }

    /// The writes that drop an entry; there are some where there is an entry.
    pub fn remove(&self, previous: Option<&CacheEntry>, key: &str) -> (ops: Vec<StoreOp>)
        ensures
            op_views(ops@) == remove_ops(entry_view(previous), key@),
            ops.len() > 0 <==> previous is Some,
            forall|store: StoreView|
                consistent(store) && entry_view(previous) == #[trigger] entry_at(store, key@) ==> {
                    &&& applied_all(store, op_views(ops@)).entries == store.entries.remove(key@)
                    &&& consistent(applied_all(store, op_views(ops@)))
                },
    {
        let mut ops: Vec<StoreOp> = Vec::new();
        if let Some(previous) = previous {
            ops.push(StoreOp::DeleteEntry { key: key.to_owned() });
            ops.push(
                StoreOp::DeleteExpiry {
                    index_key: expiry_key(previous.expires_at_unix_seconds, key),
                },
            );
        }
        assert(op_views(ops@) == remove_ops(entry_view(previous), key@));
        proof {
            assert forall|store: StoreView|
                consistent(store) && entry_view(previous) == #[trigger] entry_at(
                    store,
                    key@,
                ) implies {
                &&& applied_all(store, op_views(ops@)).entries == store.entries.remove(key@)
                &&& consistent(applied_all(store, op_views(ops@)))
            } by {
                remove_drops_one_entry(store, key@);
            }
        }
        ops
    }
}

/// The writes and the entries show what they hold.
pub proof fn writes_show_what_they_hold(
    key: String,
    entry: CacheEntry,
    index_key: Vec<u8>,
    ops: Seq<StoreOp>,
    keys: Seq<Vec<u8>>,
)
    ensures
        entry@.body == entry.body@,
        entry@.expires_at == entry.expires_at_unix_seconds,
        found_view(Some(entry)) == Some(entry@),
        found_view(None) is None,
        entry_view(Some(&entry)) == Some(entry@),
        entry_view(None) is None,
        body_of(Some(entry@)) == Some(entry.body@),
        body_of(None) is None,
        body_view(Some(entry.body)) == Some(entry.body@),
        body_view(None) is None,
        (StoreOp::PutEntry { key, entry })@ == (OpView::PutEntry { key: key@, entry: entry@ }),
        (StoreOp::DeleteEntry { key })@ == (OpView::DeleteEntry { key: key@ }),
        (StoreOp::PutExpiry { index_key })@ == (OpView::PutExpiry { index_key: index_key@ }),
        (StoreOp::DeleteExpiry { index_key })@ == (OpView::DeleteExpiry { index_key: index_key@ }),
        op_views(ops).len() == ops.len(),
        forall|i: int| 0 <= i < ops.len() ==> #[trigger] op_views(ops)[i] == ops[i]@,
        byte_views(keys).len() == keys.len(),
        forall|i: int| 0 <= i < keys.len() ==> #[trigger] byte_views(keys)[i] == keys[i]@,
{
}

/// Writes are performed in order, each on its one key.
pub proof fn writes_are_performed_in_order(
    store: StoreView,
    ops: Seq<OpView>,
    op: OpView,
    key: Seq<char>,
    entry: EntryView,
    index_key: Seq<u8>,
)
    ensures
        applied_all(store, Seq::<OpView>::empty()) == store,
        applied_all(store, ops.push(op)) == applied(applied_all(store, ops), op),
        applied(store, OpView::PutEntry { key, entry }) == (StoreView {
            entries: store.entries.insert(key, entry),
            expiry: store.expiry,
        }),
        applied(store, OpView::DeleteEntry { key }) == (StoreView {
            entries: store.entries.remove(key),
            expiry: store.expiry,
        }),
        applied(store, OpView::PutExpiry { index_key }) == (StoreView {
            entries: store.entries,
            expiry: store.expiry.insert(index_key),
        }),
        applied(store, OpView::DeleteExpiry { index_key }) == (StoreView {
            entries: store.entries,
            expiry: store.expiry.remove(index_key),
        }),
{
    assert(ops.push(op).drop_last() == ops);
}

/// An index key is the time in eight bytes, the most significant first, and behind them the whole
/// key in UTF-8. The bound of a purge is its time in eight bytes and one byte of ones.
pub proof fn index_keys_are_times_and_keys(time: u64, key: Seq<char>)
    ensures
        ({
            let bytes = expiry_key_view(time, key);
            &&& bytes.len() == 8 + encode_utf8(key).len()
            &&& bytes.skip(8) == encode_utf8(key)
            &&& time == 256 * (256 * (256 * (256 * (256 * (256 * (256 * bytes[0] + bytes[1])
                + bytes[2]) + bytes[3]) + bytes[4]) + bytes[5]) + bytes[6]) + bytes[7]
            &&& expiry_bound(time) == bytes.take(8).push(255)
        }),
{
    reveal_with_fuel(be_bytes, 9);
    let head = be_bytes(time as nat, 8);
    assert(head.len() == 8);
    let bytes = expiry_key_view(time, key);
    assert(bytes.take(8) == head);
    assert(bytes.skip(8) == encode_utf8(key));
    let a = time as nat;
    let b = a / 256;
    let c = b / 256;
    let d = c / 256;
    let e = d / 256;
    let f = e / 256;
    let g = f / 256;
    let h = g / 256;
    assert(h < 256);
    assert(head[7] == a % 256 && head[6] == b % 256 && head[5] == c % 256 && head[4] == d % 256);
    assert(head[3] == e % 256 && head[2] == f % 256 && head[1] == g % 256 && head[0] == h % 256);
    assert(forall|i: int| 0 <= i < 8 ==> bytes[i] == head[i]);
}

/// An index key that is too short or whose key is no UTF-8 stands for no entry; any other stands
/// for the text of the bytes behind its time.
pub proof fn index_keys_stand_for_texts(index_key: Seq<u8>)
    ensures
        index_key.len() < 8 ==> indexed_key(index_key) == Err::<Seq<char>, KeyFault>(
            KeyFault::Short,
        ),
        index_key.len() >= 8 && !valid_utf8(index_key.skip(8)) ==> indexed_key(index_key) == Err::<
            Seq<char>,
            KeyFault,
        >(KeyFault::NotText(utf8_refusal(index_key.skip(8)))),
        index_key.len() >= 8 && valid_utf8(index_key.skip(8)) ==> indexed_key(index_key) is Ok
            && encode_utf8(indexed_key(index_key)->Ok_0) == index_key.skip(8),
        StoreError::InvalidExpiryKey.fault() == KeyFault::Short,
{
    if index_key.len() >= 8 && valid_utf8(index_key.skip(8)) {
        decode_utf8_encode_utf8(index_key.skip(8));
    }
}

/// Byte strings are sorted by the first byte in which they differ; one that has run out comes
/// first.
pub proof fn the_first_difference_sorts(
    common: Seq<u8>,
    left: u8,
    right: u8,
    behind_left: Seq<u8>,
    behind_right: Seq<u8>,
)
    ensures
        left < right ==> sorts_upto(
            common + seq![left] + behind_left,
            common + seq![right] + behind_right,
        ),
        left > right ==> !sorts_upto(
            common + seq![left] + behind_left,
            common + seq![right] + behind_right,
        ),
        sorts_upto(common, common + behind_right),
        !sorts_upto(common + seq![left] + behind_left, common),
    decreases common.len(),
{
    let one = common + seq![left] + behind_left;
    let other = common + seq![right] + behind_right;
    if common.len() > 0 {
        let rest = common.skip(1);
        the_first_difference_sorts(rest, left, right, behind_left, behind_right);
        assert(one.skip(1) == rest + seq![left] + behind_left);
        assert(other.skip(1) == rest + seq![right] + behind_right);
        assert((common + behind_right).skip(1) == rest + behind_right);
        assert(one[0] == common[0] && other[0] == common[0]);
        assert((common + behind_right)[0] == common[0]);
    } else {
        assert(one[0] == left && other[0] == right);
    }
}

/// The expired front of an index is its keys up to the first that lies behind the bound.
pub proof fn the_front_ends_at_the_first_live_key(index: Seq<Seq<u8>>, now: u64)
    ensures
        ({
            let front = expired_front(index, now);
            &&& front.len() <= index.len()
            &&& front == index.take(front.len() as int)
            &&& forall|i: int|
                0 <= i < front.len() ==> sorts_upto(#[trigger] index[i], expiry_bound(now))
            &&& front.len() < index.len() ==> !sorts_upto(
                index[front.len() as int],
                expiry_bound(now),
            )
        }),
    decreases index.len(),
{
    let front = expired_front(index, now);
    if index.len() == 0 || !sorts_upto(index[0], expiry_bound(now)) {
        assert(front == index.take(0));
    } else {
        let rest = index.skip(1);
        the_front_ends_at_the_first_live_key(rest, now);
        let tail = expired_front(rest, now);
        assert(front == index.take(front.len() as int)) by {
            assert forall|i: int| 0 <= i < front.len() implies front[i] == index[i] by {
                if i > 0 {
                    assert(front[i] == tail[i - 1]);
                    assert(tail[i - 1] == rest[i - 1]);
                }
            }
        }
        assert forall|i: int| 0 <= i < front.len() implies sorts_upto(
            #[trigger] index[i],
            expiry_bound(now),
        ) by {
            if i > 0 {
                assert(rest[i - 1] == index[i]);
            }
        }
    }
}

/// The key of a kind of entry has the whole kind and the whole key, with one colon between them.
pub proof fn kinds_and_keys_are_joined_by_a_colon(kind: Seq<char>, key: Seq<char>)
    ensures
        prefixed_key(kind, key) == kind + ":"@ + key,
{
    reveal_strlit(":");
    assert(":"@ == seq![':']);
}

} // verus!
