//! The entry store: one entry per address, in the order in which the
//! addresses were first stored.

use vstd::prelude::*;
use vstd::string::StringExecFns;
use crate::ip::{Entry, EntryView, entry_view};
use crate::text::{same_text, views};

verus! {

/// No two entries have the same address.
pub open spec fn distinct_ips(entries: Seq<EntryView>) -> bool {
    forall|i: int, j: int| 0 <= i < j < entries.len() ==> entries[i].ip != entries[j].ip
}

/// The place of the first entry with address `ip`.
pub open spec fn position(entries: Seq<EntryView>, ip: Seq<char>) -> Option<int>
    decreases entries.len(),
{
    if entries.len() == 0 {
        None
    } else {
        match position(entries.drop_last(), ip) {
            Some(i) => Some(i),
            None => if entries.last().ip == ip {
                Some(entries.len() - 1)
            } else {
                None
            },
        }
    }
}

/// The entry stored under `ip`, if there is one.
pub open spec fn found(entries: Seq<EntryView>, ip: Seq<char>) -> Option<EntryView> {
    match position(entries, ip) {
        Some(i) => Some(entries[i]),
        None => None,
    }
}

/// The store after `entry` is written: it takes the place of the entry with
/// its address, or comes last where the address is new.
pub open spec fn stored(entries: Seq<EntryView>, entry: EntryView) -> Seq<EntryView> {
    match position(entries, entry.ip) {
        Some(i) => entries.update(i, entry),
        None => entries.push(entry),
    }
}

/// The store after each of `writes` is written in turn.
pub open spec fn stored_all(entries: Seq<EntryView>, writes: Seq<EntryView>) -> Seq<EntryView>
    decreases writes.len(),
{
    if writes.len() == 0 {
        entries
    } else {
        stored(stored_all(entries, writes.drop_last()), writes.last())
    }
}

/// The records that could be read, in order.
pub open spec fn readable(records: Seq<Option<Entry>>) -> Seq<EntryView>
    decreases records.len(),
{
    if records.len() == 0 {
        Seq::<EntryView>::empty()
    } else {
        match records.last() {
            Some(e) => readable(records.drop_last()).push(e@),
            None => readable(records.drop_last()),
        }
    }
}

/// `position` finds the first entry with the address, and only reports
/// none where no entry has it.
pub proof fn lemma_position(entries: Seq<EntryView>, ip: Seq<char>)
    ensures
        match position(entries, ip) {
            Some(i) => {
                &&& 0 <= i < entries.len()
                &&& entries[i].ip == ip
                &&& forall|j: int| 0 <= j < i ==> entries[j].ip != ip
            },
            None => forall|j: int| 0 <= j < entries.len() ==> entries[j].ip != ip,
        },
    decreases entries.len(),
{
    if entries.len() > 0 {
        let head = entries.drop_last();
        lemma_position(head, ip);
        assert(forall|j: int| 0 <= j < head.len() ==> head[j] == entries[j]);
    }
}

/// The first entry with the address is the one that `position` reports.
pub proof fn lemma_position_is(entries: Seq<EntryView>, ip: Seq<char>, i: int)
    requires
        0 <= i < entries.len(),
        entries[i].ip == ip,
        forall|j: int| 0 <= j < i ==> entries[j].ip != ip,
    ensures
        position(entries, ip) == Some(i),
{
    lemma_position(entries, ip);
}

/// Writing an entry keeps the addresses distinct.
pub proof fn lemma_stored_distinct(entries: Seq<EntryView>, entry: EntryView)
    requires
        distinct_ips(entries),
    ensures
        distinct_ips(stored(entries, entry)),
{
    lemma_position(entries, entry.ip);
}

/// An entry that was written is what a read of its address returns.
pub proof fn lemma_read_after_write(entries: Seq<EntryView>, entry: EntryView)
    ensures
        found(stored(entries, entry), entry.ip) == Some(entry),
{
    lemma_position(entries, entry.ip);
    match position(entries, entry.ip) {
        Some(i) => lemma_position_is(stored(entries, entry), entry.ip, i),
        None => lemma_position_is(stored(entries, entry), entry.ip, entries.len() as int),
    }
}

/// Writing an entry changes nothing for any other address.
pub proof fn lemma_write_elsewhere(entries: Seq<EntryView>, entry: EntryView, ip: Seq<char>)
    requires
        ip != entry.ip,
    ensures
        found(stored(entries, entry), ip) == found(entries, ip),
{
    lemma_position(entries, entry.ip);
    lemma_position(entries, ip);
    let after = stored(entries, entry);
    match position(entries, ip) {
        Some(i) => lemma_position_is(after, ip, i),
        None => {
            lemma_position(after, ip);
            if let Some(k) = position(after, ip) {
                assert(after[k].ip == ip);
                assert(k < entries.len() ==> after[k].ip == entries[k].ip || after[k] == entry);
            }
        },
    }
}

/// An address that no write named is not found, whatever was written.
pub proof fn lemma_never_written(writes: Seq<EntryView>, ip: Seq<char>)
    requires
        forall|i: int| 0 <= i < writes.len() ==> writes[i].ip != ip,
    ensures
        found(stored_all(Seq::<EntryView>::empty(), writes), ip) is None,
    decreases writes.len(),
{
    if writes.len() > 0 {
        lemma_never_written(writes.drop_last(), ip);
        lemma_write_elsewhere(
            stored_all(Seq::<EntryView>::empty(), writes.drop_last()),
            writes.last(),
            ip,
        );
    }
}

/// A store built by writes alone has distinct addresses.
pub proof fn lemma_stored_all_distinct(writes: Seq<EntryView>)
    ensures
        distinct_ips(stored_all(Seq::<EntryView>::empty(), writes)),
    decreases writes.len(),
{
    if writes.len() > 0 {
        lemma_stored_all_distinct(writes.drop_last());
        lemma_stored_distinct(
            stored_all(Seq::<EntryView>::empty(), writes.drop_last()),
            writes.last(),
        );
    }
}

/// The name of the record that holds the entry of the address `ip`.
pub open spec fn record_name_of(ip: Seq<char>) -> Seq<char> {
    ip + ".toml"@
}

/// The name of the record that holds the entry of the address `ip`: the
/// address itself, marked as a record.
pub fn record_name(ip: &str) -> (name: String)
    ensures
        name@ == record_name_of(ip@),
{
    let mut name = ip.to_owned();
    name.append(".toml");
    name
}

/// Two addresses never share a record.
pub proof fn lemma_record_names_differ(a: Seq<char>, b: Seq<char>)
    requires
        a != b,
    ensures
        record_name_of(a) != record_name_of(b),
{
    let mark = ".toml"@;
    if record_name_of(a) == record_name_of(b) {
        assert(record_name_of(a).len() == a.len() + mark.len());
        assert(record_name_of(b).len() == b.len() + mark.len());
        assert forall|i: int| 0 <= i < a.len() implies a[i] == b[i] by {
            assert(record_name_of(a)[i] == a[i]);
            assert(record_name_of(b)[i] == b[i]);
        }
        assert(a =~= b);
    }
}

/// The entries kept in memory, one per address.
pub struct Store {
    entries: Vec<Entry>,
}

impl View for Store {
    type V = Seq<EntryView>;

    /// The stored entries, in the order in which they are listed.
    closed spec fn view(&self) -> Seq<EntryView> {
        views(self.entries@)
    }
}

impl Store {
    /// No address is stored twice.
    pub open spec fn wf(&self) -> bool {
        distinct_ips(self@)
    }

    /// The empty store.
    pub fn new() -> (s: Store)
        ensures
            s@ == Seq::<EntryView>::empty(),
            s.wf(),
    {
        let s = Store { entries: Vec::new() };
        assert(s@ =~= Seq::<EntryView>::empty());
        s
    }

    /// The number of stored entries.
    pub fn len(&self) -> (n: usize)
        ensures
            n == self@.len(),
    {
        self.entries.len()
    }

    /// The entry at place `i` of the listing.
    pub fn entry(&self, i: usize) -> (e: &Entry)
        requires
            i < self@.len(),
        ensures
            e@ == self@[i as int],
    {
        &self.entries[i]
    }

    fn locate(&self, ip: &str) -> (r: Option<usize>)
        ensures
            match r {
                Some(i) => i < self@.len() && position(self@, ip@) == Some(i as int),
                None => position(self@, ip@) is None,
            },
    {
        let mut i: usize = 0;
        while i < self.entries.len()
            invariant
                i <= self.entries@.len(),
                forall|j: int| 0 <= j < i ==> self@[j].ip != ip@,
            decreases self.entries@.len() - i,
        {
            if same_text(self.entries[i].ip.as_str(), ip) {
                proof {
                    assert(self@[i as int].ip == ip@);
                    lemma_position_is(self@, ip@, i as int);
                }
                return Some(i);
            }
            i = i + 1;
        }
        proof {
            lemma_position(self@, ip@);
        }
        None
    }

    /// Writes `entry` under its address, in place of what was stored there.
    pub fn put(&mut self, entry: Entry)
        ensures
            final(self)@ == stored(old(self)@, entry@),
            old(self).wf() ==> final(self).wf(),
    {
        proof {
            if old(self).wf() {
                lemma_stored_distinct(old(self)@, entry@);
            }
        }
        match self.locate(entry.ip.as_str()) {
            Some(i) => {
                self.entries.set(i, entry);
                assert(self@ =~= old(self)@.update(i as int, entry@));
            },
            None => {
                self.entries.push(entry);
                assert(self@ =~= old(self)@.push(entry@));
            },
        }
    }

    /// The entry stored under `ip`.
    pub fn get(&self, ip: &str) -> (r: Option<Entry>)
        ensures
            entry_view(r) == found(self@, ip@),
    {
        match self.locate(ip) {
            Some(i) => Some(self.entries[i].clone()),
            None => None,
        }
    }

    /// Every stored entry, in listing order.
    pub fn list_all(&self) -> (r: Vec<Entry>)
        ensures
            views(r@) == self@,
    {
        let mut r: Vec<Entry> = Vec::new();
        let mut i: usize = 0;
        while i < self.entries.len()
            invariant
                i <= self.entries@.len(),
                r@.len() == i,
                forall|k: int| 0 <= k < i ==> r@[k]@ == self.entries@[k]@,
            decreases self.entries@.len() - i,
        {
            r.push(self.entries[i].clone());
            i = i + 1;
        }
        assert(views(r@) =~= self@);
        r
    }

    /// The store that holds the records that could be read, each written in
    /// turn; a record that could not be read (`None`) is passed over.
    pub fn load(records: Vec<Option<Entry>>) -> (s: Store)
        ensures
            s@ == stored_all(Seq::<EntryView>::empty(), readable(records@)),
            s.wf(),
    {
        let mut s = Store::new();
        let ghost all = records@;
        for record in it: records
            invariant
                it.seq() == all,
                s@ == stored_all(Seq::<EntryView>::empty(), readable(all.take(it.index() as int))),
                s.wf(),
        {
            proof {
                let k = it.index() as int;
                assert(all.take(k + 1).drop_last() =~= all.take(k));
                assert(all.take(k + 1).last() == record);
                if record is Some {
                    let writes = readable(all.take(k + 1));
                    assert(writes.drop_last() =~= readable(all.take(k)));
                    assert(writes.last() == record->0@);
                }
            }
            if let Some(entry) = record {
                s.put(entry);
            }
        }
        assert(all.take(all.len() as int) =~= all);
        s
    }
}

} // verus!
