//! Address entries: the record kept for one address, its form as submitted
//! by a person, and the operations on the store of entries.

use vstd::prelude::*;
use vstd::string::StringExecFns;
use crate::allocation::{allocation, eligible, lemma_first_eligible};
use crate::codec::{decoded, parse_ports, ports_text};
use crate::search::{
    LIST_LIMIT, capped, first_hit, hit, hits, lemma_hits_of_front, search, summaries, summary,
    using_text,
};
use crate::store::{Store, found, stored};
use crate::text::{
    chars_of, contains, parse_numbers, parse_u32, push_decimal, same_chars, same_text,
    split_chars, split_words, string_of, trim_all, views,
};

verus! {

/// One managed address and what is known of it.
#[derive(Debug, PartialEq, Eq)]
pub struct Entry {
    /// The address; the key under which the entry is stored.
    pub ip: String,
    pub domain: Option<String>,
    /// Whether the address is assigned.
    pub using: bool,
    /// The ports believed reachable, in the order in which they were given.
    pub open_ports: Vec<u32>,
    pub description: Option<String>,
}

/// What an entry holds, as mathematical values.
pub struct EntryView {
    pub ip: Seq<char>,
    pub domain: Option<Seq<char>>,
    pub using: bool,
    pub open_ports: Seq<u32>,
    pub description: Option<Seq<char>>,
}

/// The text of an optional string.
pub open spec fn text_of(s: Option<String>) -> Option<Seq<char>> {
    match s {
        Some(t) => Some(t@),
        None => None,
    }
}

impl View for Entry {
    type V = EntryView;

    open spec fn view(&self) -> EntryView {
        EntryView {
            ip: self.ip@,
            domain: text_of(self.domain),
            using: self.using,
            open_ports: self.open_ports@,
            description: text_of(self.description),
        }
    }
}

impl EntryView {
    /// An entry has an address: the address is not empty.
    pub open spec fn well_formed(self) -> bool {
        self.ip.len() > 0
    }
}

impl Entry {
    /// Whether the entry has an address.
    pub fn is_well_formed(&self) -> (r: bool)
        ensures
            r == self@.well_formed(),
    {
        !self.ip.as_str().is_empty()
    }
}

/// What an optional entry holds.
pub open spec fn entry_view(e: Option<Entry>) -> Option<EntryView> {
    match e {
        Some(e) => Some(e@),
        None => None,
    }
}

impl Clone for Entry {
    fn clone(&self) -> (r: Entry)
        ensures
            r@ == self@,
    {
        Entry {
            ip: self.ip.clone(),
            domain: self.domain.clone(),
            using: self.using,
            open_ports: self.open_ports.clone(),
            description: self.description.clone(),
        }
    }
}


/// An entry as a person submits it: every field a string.
#[derive(Debug, PartialEq, Eq)]
pub struct RawEntry {
    pub ip: String,
    pub domain: Option<String>,
    /// `"true"` for an assigned address; anything else counts as not assigned.
    pub using: String,
    /// The open ports, separated by commas.
    pub open_ports: Option<String>,
    pub description: Option<String>,
}

/// What a submitted entry holds, as mathematical values.
pub struct RawEntryView {
    pub ip: Seq<char>,
    pub domain: Option<Seq<char>>,
    pub using: Seq<char>,
    pub open_ports: Option<Seq<char>>,
    pub description: Option<Seq<char>>,
}

impl View for RawEntry {
    type V = RawEntryView;

    open spec fn view(&self) -> RawEntryView {
        RawEntryView {
            ip: self.ip@,
            domain: text_of(self.domain),
            using: self.using@,
            open_ports: text_of(self.open_ports),
            description: text_of(self.description),
        }
    }
}

/// One result of a search: an address, and the text shown for it.
#[derive(Debug, PartialEq, Eq)]
pub struct Query {
    pub ip: String,
    pub element: String,
}

/// What a search result holds, as mathematical values.
pub struct QueryView {
    pub ip: Seq<char>,
    pub element: Seq<char>,
}

impl View for Query {
    type V = QueryView;

    open spec fn view(&self) -> QueryView {
        QueryView { ip: self.ip@, element: self.element@ }
    }
}

/// What an optional search result holds.
pub open spec fn query_view(q: Option<Query>) -> Option<QueryView> {
    match q {
        Some(q) => Some(q@),
        None => None,
    }
}

// ---------------------------------------------------------------------------
// The codec
// ---------------------------------------------------------------------------

/// Reads a comma-separated list of ports.
pub fn parse_port_list(s: &str) -> (r: Vec<u32>)
    ensures
        r@ == parse_ports(s@),
{
    let chars = chars_of(s);
    let pieces = split_chars(&chars, ',');
    let pieces = trim_all(&pieces);
    parse_numbers(&pieces)
}

impl Entry {
    /// The open ports as a list for people, such as `22, 80, 443`.
    pub fn ports_as_string(&self) -> (s: String)
        ensures
            s@ == ports_text(self.open_ports@),
    {
        let mut out: Vec<char> = Vec::new();
        let mut i: usize = 0;
        while i < self.open_ports.len()
            invariant
                i <= self.open_ports@.len(),
                out@ == ports_text(self.open_ports@.take(i as int)),
            decreases self.open_ports@.len() - i,
        {
            proof {
                assert(self.open_ports@.take(i + 1).drop_last() =~= self.open_ports@.take(
                    i as int,
                ));
            }
            let ghost before = out@;
            if i > 0 {
                out.push(',');
                out.push(' ');
                assert(out@ =~= before + seq![',', ' ']);
            }
            push_decimal(&mut out, self.open_ports[i]);
            i = i + 1;
        }
        assert(self.open_ports@.take(self.open_ports@.len() as int) =~= self.open_ports@);
        string_of(&out)
    }
}

impl RawEntry {
    /// The entry that this submission stands for. Every submission stands
    /// for one: a port that cannot be read is dropped.
    pub fn into(self) -> (e: Entry)
        ensures
            e@ == decoded(self@),
    {
        let using = same_text(self.using.as_str(), "true");
        let open_ports = match &self.open_ports {
            Some(s) => parse_port_list(s.as_str()),
            None => Vec::new(),
        };
        Entry {
            ip: self.ip,
            domain: self.domain,
            using,
            open_ports,
            description: self.description,
        }
    }
}

// ---------------------------------------------------------------------------
// The store operations
// ---------------------------------------------------------------------------

/// Writes `entry` to the store under its address. What was stored under
/// that address is replaced whole; every other entry stays as it was.
pub fn add(entry: &Entry, store: &mut Store)
    ensures
        final(store)@ == stored(old(store)@, entry@),
        old(store).wf() ==> final(store).wf(),
{
    store.put(entry.clone());
}

/// The entry stored under `ip`, or `None` where the store has none.
pub fn get(ip: &str, store: &Store) -> (r: Option<Entry>)
    ensures
        entry_view(r) == found(store@, ip@),
{
    store.get(ip)
}

// ---------------------------------------------------------------------------
// Search
// ---------------------------------------------------------------------------

fn using_marker(using: bool) -> (s: &'static str)
    ensures
        s@ == using_text(using),
{
    if using {
        "in use"
    } else {
        "not in use"
    }
}

fn summary_of(entry: &Entry) -> (s: String)
    ensures
        s@ == summary(entry@),
{
    let mut s = String::new();
    match &entry.domain {
        Some(d) => {
            s.append(d.as_str());
            s.append("\n");
            assert(s@ =~= d@ + "\n"@);
        },
        None => {},
    }
    s.append(using_marker(entry.using));
    assert(s@ =~= summary(entry@));
    s
}

fn has_port(ports: &Vec<u32>, port: u32) -> (r: bool)
    ensures
        r == ports@.contains(port),
{
    let mut i: usize = 0;
    while i < ports.len()
        invariant
            i <= ports@.len(),
            forall|k: int| 0 <= k < i ==> ports@[k] != port,
        decreases ports@.len() - i,
    {
        if ports[i] == port {
            return true;
        }
        i = i + 1;
    }
    false
}

fn hit_of(entry: &Entry, token: &Vec<char>) -> (r: Option<Query>)
    ensures
        query_view(r) == hit(entry@, token@),
{
    if contains(&chars_of(entry.ip.as_str()), token) {
        return Some(Query { ip: entry.ip.clone(), element: summary_of(entry) });
    }
    match &entry.domain {
        Some(domain) => {
            if contains(&chars_of(domain.as_str()), token) {
                return Some(Query { ip: entry.ip.clone(), element: domain.clone() });
            }
        },
        None => {},
    }
    let marker = using_marker(entry.using);
    if same_chars(token, &chars_of(marker)) {
        return Some(Query { ip: entry.ip.clone(), element: marker.to_owned() });
    }
    match parse_u32(token) {
        Some(port) => {
            if has_port(&entry.open_ports, port) {
                return Some(Query { ip: entry.ip.clone(), element: entry.ports_as_string() });
            }
        },
        None => {},
    }
    match &entry.description {
        Some(description) => {
            if contains(&chars_of(description.as_str()), token) {
                return Some(Query { ip: entry.ip.clone(), element: description.clone() });
            }
        },
        None => {},
    }
    None
}

/// The result that the token `q` gives for `entry`, if it gives one: the
/// address, and the text of the first field that `q` matches.
pub fn generate_query(entry: &Entry, q: &str) -> (r: Option<Query>)
    ensures
        query_view(r) == hit(entry@, q@),
{
    hit_of(entry, &chars_of(q))
}

fn first_hit_of(entry: &Entry, tokens: &Vec<Vec<char>>) -> (r: Option<Query>)
    ensures
        query_view(r) == first_hit(entry@, views(tokens@)),
{
    let ghost all = views(tokens@);
    let mut i: usize = 0;
    assert(all.skip(0) =~= all);
    while i < tokens.len()
        invariant
            i <= tokens@.len(),
            all == views(tokens@),
            first_hit(entry@, all) == first_hit(entry@, all.skip(i as int)),
        decreases tokens@.len() - i,
    {
        proof {
            assert(all.skip(i as int)[0] == tokens@[i as int]@);
            assert(all.skip(i as int).drop_first() =~= all.skip(i + 1));
        }
        let found = hit_of(entry, &tokens[i]);
        if found.is_some() {
            return found;
        }
        i = i + 1;
    }
    None
}

/// Searches the store. The empty query lists the entries by their summary;
/// any other query lists, for each entry that one of its words matches, the
/// field that the first such word matches first. Entries come in the
/// store's order, and no more than `LIST_LIMIT` results are returned.
pub fn list(query: &str, store: &Store) -> (r: Vec<Query>)
    ensures
        views(r@) == search(store@, query@),
{
    let q = chars_of(query);
    let n: usize = store.len();
    let mut r: Vec<Query> = Vec::new();
    let mut i: usize = 0;
    if q.len() == 0 {
        while i < n && r.len() < LIST_LIMIT
            invariant
                n == store@.len(),
                i <= n,
                r@.len() == i,
                i <= LIST_LIMIT,
                forall|k: int| 0 <= k < i ==> r@[k]@ == summaries(store@)[k],
            decreases n - i,
        {
            let entry = store.entry(i);
            r.push(Query { ip: entry.ip.clone(), element: summary_of(entry) });
            i = i + 1;
        }
        assert(views(r@) =~= capped(summaries(store@)));
    } else {
        let tokens = split_words(&q);
        while i < n && r.len() < LIST_LIMIT
            invariant
                n == store@.len(),
                i <= n,
                r@.len() <= LIST_LIMIT,
                views(r@) == hits(store@.take(i as int), views(tokens@)),
            decreases n - i,
        {
            proof {
                assert(store@.take(i + 1).drop_last() =~= store@.take(i as int));
                assert(store@.take(i + 1).last() == store@[i as int]);
            }
            let ghost before = views(r@);
            match first_hit_of(store.entry(i), &tokens) {
                Some(found) => {
                    r.push(found);
                    assert(views(r@) =~= before.push(found@));
                },
                None => {},
            }
            i = i + 1;
        }
        proof {
            lemma_hits_of_front(store@, views(tokens@), i as int);
            if i == n {
                assert(store@.take(i as int) =~= store@);
            }
        }
    }
    r
}

// ---------------------------------------------------------------------------
// Allocation
// ---------------------------------------------------------------------------

fn has_ports(ports: &Vec<u32>, required: &[u32]) -> (r: bool)
    ensures
        r == forall|k: int| 0 <= k < required@.len() ==> ports@.contains(#[trigger] required@[k]),
{
    let mut k: usize = 0;
    while k < required.len()
        invariant
            k <= required@.len(),
            forall|j: int| 0 <= j < k ==> ports@.contains(#[trigger] required@[j]),
        decreases required@.len() - k,
    {
        if !has_port(ports, required[k]) {
            return false;
        }
        k = k + 1;
    }
    true
}

/// The first entry of the store, in its order, that is not in use and has
/// every one of `required_ports` open; `None` where the store has no such
/// entry. With no required ports, the first entry that is not in use. The
/// entry is returned as it is stored: handing it out does not mark it used.
pub fn issue(required_ports: &[u32], store: &Store) -> (r: Option<Entry>)
    ensures
        entry_view(r) == allocation(store@, required_ports@),
{
    let n: usize = store.len();
    let mut i: usize = 0;
    while i < n
        invariant
            n == store@.len(),
            i <= n,
            forall|j: int| 0 <= j < i ==> !eligible(#[trigger] store@[j], required_ports@),
        decreases n - i,
    {
        let entry = store.entry(i);
        if !entry.using && has_ports(&entry.open_ports, required_ports) {
            proof {
                assert(eligible(store@[i as int], required_ports@));
                lemma_first_eligible(store@, required_ports@);
            }
            return Some(entry.clone());
        }
        i = i + 1;
    }
    proof {
        lemma_first_eligible(store@, required_ports@);
    }
    None
}

} // verus!
