//! The cache of the client: payloads as texts, in one table for each kind.
//!
//! The tables live in a database. Here is what is read from them and written to them.
use vstd::prelude::*;

verus! {

/// The two tables.
#[derive(Clone, Copy, PartialEq, Eq, Structural)]
pub enum Table {
    Metadata,
    Values,
}

impl Table {
    /// The name of the table in the database.
    pub fn name(&self) -> (name: String)
        ensures
            name@ == match *self {
                Table::Metadata => "metadata"@,
                Table::Values => "values"@,
            },
    {
        match self {
            Table::Metadata => "metadata".to_owned(),
            Table::Values => "values".to_owned(),
        }
    }
}

/// A cached payload and the second from which it counts as expired.
pub struct CacheEntry {
    pub body: String,
    pub expires_at_unix_seconds: u64,
}

/// A cached payload by its text.
pub struct TextEntry {
    pub body: Seq<char>,
    pub expires_at: u64,
}

impl View for CacheEntry {
    type V = TextEntry;

    open spec fn view(&self) -> TextEntry {
        TextEntry { body: self.body@, expires_at: self.expires_at_unix_seconds }
    }
}

/// A payload that is to be read.
pub struct CacheRead {
    pub table: Table,
    pub key: String,
}

/// A payload that is to be written.
pub struct CacheWrite {
    pub table: Table,
    pub key: String,
    pub entry: CacheEntry,
}

/// An entry that a table may have, by its text.
pub open spec fn entry_view(entry: Option<CacheEntry>) -> Option<TextEntry> {
    match entry {
        Some(entry) => Some(entry@),
        None => None,
    }
}

/// The entry that is written at `now` for `ttl_seconds`.
pub open spec fn entry_from(body: Seq<char>, ttl_seconds: u64, now: u64) -> TextEntry {
    TextEntry { body, expires_at: (now + ttl_seconds) as u64 }
}

/// The text that an entry gives at `now`: none where there is no entry, or it has expired.
pub open spec fn fresh_text(entry: Option<TextEntry>, now: u64) -> Option<Seq<char>> {
    match entry {
        Some(entry) => if entry.expires_at > now {
            Some(entry.body)
        } else {
            None
        },
        None => None,
    }
}

impl CacheRead {
    /// Takes the entry that the table has; gives its body where it has not expired by `now`.
    pub fn on_entry(self, entry: Option<CacheEntry>, now: u64) -> (body: Option<String>)
        ensures
            fresh_text(entry_view(entry), now) == match body {
                Some(body) => Some(body@),
                None => None,
            },
    {
        match entry {
            Some(entry) => if entry.expires_at_unix_seconds > now {
                Some(entry.body)
            } else {
                None
            },
            None => None,
        }
    }
}

/// The cache of the client.
pub struct HeedCache {}

impl HeedCache {
    fn get(&self, table: Table, key: &str) -> (read: CacheRead)
        ensures
            read.table == table,
            read.key@ == key@,
    {
        CacheRead { table, key: key.to_owned() }
    }

    fn put(&self, table: Table, key: &str, body: &str, ttl_seconds: u64, now: u64) -> (write:
        CacheWrite)
        requires
            now + ttl_seconds <= u64::MAX,
        ensures
            write.table == table,
            write.key@ == key@,
            write.entry@ == entry_from(body@, ttl_seconds, now),
    {
        CacheWrite {
            table,
            key: key.to_owned(),
            entry: CacheEntry {
                body: body.to_owned(),
                expires_at_unix_seconds: now + ttl_seconds,
            },
        }
    }

    /// Which entry is read for a metadata payload.
    pub fn get_metadata(&self, key: &str) -> (read: CacheRead)
        ensures
            read.table == Table::Metadata,
            read.key@ == key@,
    {
        self.get(Table::Metadata, key)
    }

    /// Which entry is written at `now` for a metadata payload.
    pub fn put_metadata(&self, key: &str, body: &str, ttl_seconds: u64, now: u64) -> (write:
        CacheWrite)
        requires
            now + ttl_seconds <= u64::MAX,
        ensures
            write.table == Table::Metadata,
            write.key@ == key@,
            write.entry@ == entry_from(body@, ttl_seconds, now),
    {
        self.put(Table::Metadata, key, body, ttl_seconds, now)
    }

    /// Which entry is read for a values payload.
    pub fn get_values(&self, key: &str) -> (read: CacheRead)
        ensures
            read.table == Table::Values,
            read.key@ == key@,
    {
        self.get(Table::Values, key)
    }

    /// Which entry is written at `now` for a values payload.
    pub fn put_values(&self, key: &str, body: &str, ttl_seconds: u64, now: u64) -> (write:
        CacheWrite)
        requires
            now + ttl_seconds <= u64::MAX,
        ensures
            write.table == Table::Values,
            write.key@ == key@,
            write.entry@ == entry_from(body@, ttl_seconds, now),
    {
        self.put(Table::Values, key, body, ttl_seconds, now)
    }
}

/// What the tables hold, each entry under its table and its key.
pub type Tables = Map<(Table, Seq<char>), TextEntry>;

/// The entry that a table has under a key.
pub open spec fn entry_under(tables: Tables, table: Table, key: Seq<char>) -> Option<TextEntry> {
    if tables.dom().contains((table, key)) {
        Some(tables[(table, key)])
    } else {
        None
    }
}

/// A read gives back what was written until its time to live has passed, and nothing from then
/// on; every other key of either table reads as it did before the write.
pub proof fn reads_give_back_writes(
    tables: Tables,
    table: Table,
    key: Seq<char>,
    body: Seq<char>,
    ttl_seconds: u64,
    written_at: u64,
    read_at: u64,
)
    requires
        written_at + ttl_seconds <= u64::MAX,
    ensures
        ({
            let after = tables.insert((table, key), entry_from(body, ttl_seconds, written_at));
            &&& fresh_text(entry_under(after, table, key), read_at) == if read_at < written_at
                + ttl_seconds {
                Some(body)
            } else {
                None
            }
            &&& forall|other: Table, other_key: Seq<char>|
                (other, other_key) != (table, key) ==> #[trigger] entry_under(
                    after,
                    other,
                    other_key,
                ) == entry_under(tables, other, other_key)
        }),
{
}

/// An entry is written with its whole text and the second at which its time to live is over, and
/// read back until then.
pub proof fn entries_expire_after_their_time(
    body: Seq<char>,
    ttl_seconds: u64,
    now: u64,
    later: u64,
)
    requires
        now + ttl_seconds <= u64::MAX,
    ensures
        entry_from(body, ttl_seconds, now).body == body,
        entry_from(body, ttl_seconds, now).expires_at == now + ttl_seconds,
        fresh_text(None, later) is None,
        later < now + ttl_seconds ==> fresh_text(
            Some(entry_from(body, ttl_seconds, now)),
            later,
        ) == Some(body),
        later >= now + ttl_seconds ==> fresh_text(
            Some(entry_from(body, ttl_seconds, now)),
            later,
        ) is None,
{
}

/// An entry shows what it holds, and a table has under a key what was put there.
pub proof fn entries_show_what_they_hold(
    entry: CacheEntry,
    tables: Tables,
    table: Table,
    key: Seq<char>,
)
    ensures
        entry@.body == entry.body@,
        entry@.expires_at == entry.expires_at_unix_seconds,
        entry_view(Some(entry)) == Some(entry@),
        entry_view(None) is None,
        tables.dom().contains((table, key)) ==> entry_under(tables, table, key) == Some(
            tables[(table, key)],
        ),
        !tables.dom().contains((table, key)) ==> entry_under(tables, table, key) is None,
{
}

} // verus!
