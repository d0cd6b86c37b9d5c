//! What a search returns: which field of an entry a word matches, and
//! which results a query gives.

use vstd::prelude::*;
use crate::codec::ports_text;
use crate::ip::{EntryView, QueryView};
use crate::store::distinct_ips;
use crate::text::{occurs_in, parsed_u32, words};

verus! {

/// The most results that a search returns.
pub const LIST_LIMIT: usize = 8;

/// The word that says whether an address is assigned.
pub open spec fn using_text(using: bool) -> Seq<char> {
    if using {
        "in use"@
    } else {
        "not in use"@
    }
}

/// The short account of an entry: its domain and a line break, where it
/// has a domain, then whether it is assigned.
pub open spec fn summary(e: EntryView) -> Seq<char> {
    match e.domain {
        Some(d) => d + "\n"@ + using_text(e.using),
        None => using_text(e.using),
    }
}

/// What the token `q` shows of the entry `e`, by the first of these that
/// holds: the address contains `q` (the summary); the domain contains `q`
/// (the domain); `q` is the word for the entry's own state of use (that
/// word); `q` is the numeral of an open port (the list of ports); the
/// description contains `q` (the description). `None` where none holds.
pub open spec fn matched(e: EntryView, q: Seq<char>) -> Option<Seq<char>> {
    if occurs_in(e.ip, q) {
        Some(summary(e))
    } else if e.domain is Some && occurs_in(e.domain->0, q) {
        e.domain
    } else if q == using_text(e.using) {
        Some(using_text(e.using))
    } else if parsed_u32(q) is Some && e.open_ports.contains(parsed_u32(q)->0) {
        Some(ports_text(e.open_ports))
    } else if e.description is Some && occurs_in(e.description->0, q) {
        e.description
    } else {
        None
    }
}

/// The result that the token `q` gives for the entry `e`.
pub open spec fn hit(e: EntryView, q: Seq<char>) -> Option<QueryView> {
    match matched(e, q) {
        Some(element) => Some(QueryView { ip: e.ip, element }),
        None => None,
    }
}

/// The result of the first of `tokens` that gives one for `e`.
pub open spec fn first_hit(e: EntryView, tokens: Seq<Seq<char>>) -> Option<QueryView>
    decreases tokens.len(),
{
    if tokens.len() == 0 {
        None
    } else {
        match hit(e, tokens[0]) {
            Some(h) => Some(h),
            None => first_hit(e, tokens.drop_first()),
        }
    }
}

/// The results for `entries`, in their order: for each entry at most one,
/// that of the first token that matches it.
pub open spec fn hits(entries: Seq<EntryView>, tokens: Seq<Seq<char>>) -> Seq<QueryView>
    decreases entries.len(),
{
    if entries.len() == 0 {
        Seq::<QueryView>::empty()
    } else {
        let head = hits(entries.drop_last(), tokens);
        match first_hit(entries.last(), tokens) {
            Some(h) => head.push(h),
            None => head,
        }
    }
}

/// The summary of each entry, in their order.
pub open spec fn summaries(entries: Seq<EntryView>) -> Seq<QueryView> {
    Seq::new(entries.len(), |i: int| QueryView { ip: entries[i].ip, element: summary(entries[i]) })
}

/// The first `LIST_LIMIT` of `results`.
pub open spec fn capped(results: Seq<QueryView>) -> Seq<QueryView> {
    if results.len() <= LIST_LIMIT {
        results
    } else {
        results.take(LIST_LIMIT as int)
    }
}

/// What a search for `query` returns from `entries`. The empty query lists
/// every entry by its summary. Any other query is cut into words at blank
/// space, and each entry that a word matches gives one result.
pub open spec fn search(entries: Seq<EntryView>, query: Seq<char>) -> Seq<QueryView> {
    if query.len() == 0 {
        capped(summaries(entries))
    } else {
        capped(hits(entries, words(query)))
    }
}

/// The results for a part of the entries, taken from the front, open the
/// results for all of them.
pub proof fn lemma_hits_of_front(entries: Seq<EntryView>, tokens: Seq<Seq<char>>, k: int)
    requires
        0 <= k <= entries.len(),
    ensures
        hits(entries.take(k), tokens).len() <= hits(entries, tokens).len(),
        hits(entries.take(k), tokens) == hits(entries, tokens).take(
            hits(entries.take(k), tokens).len() as int,
        ),
    decreases entries.len(),
{
    if k == entries.len() {
        assert(entries.take(k) =~= entries);
        assert(hits(entries, tokens).take(hits(entries, tokens).len() as int) =~= hits(
            entries,
            tokens,
        ));
    } else {
        assert(entries.drop_last().take(k) =~= entries.take(k));
        lemma_hits_of_front(entries.drop_last(), tokens, k);
        let front = hits(entries.take(k), tokens);
        let head = hits(entries.drop_last(), tokens);
        assert(front =~= hits(entries, tokens).take(front.len() as int));
    }
}

/// A search never returns more than `LIST_LIMIT` results.
pub proof fn lemma_search_limit(entries: Seq<EntryView>, query: Seq<char>)
    ensures
        search(entries, query).len() <= LIST_LIMIT,
{
}

/// The empty query lists the entries from the first on, each by its
/// address and its summary, up to the limit.
pub proof fn lemma_search_everything(entries: Seq<EntryView>)
    ensures
        search(entries, Seq::<char>::empty()).len() == if entries.len() <= LIST_LIMIT {
            entries.len()
        } else {
            LIST_LIMIT as nat
        },
        forall|i: int|
            0 <= i < search(entries, Seq::<char>::empty()).len() ==> {
                let item = #[trigger] search(entries, Seq::<char>::empty())[i];
                &&& item.ip == entries[i].ip
                &&& item.element == match entries[i].domain {
                    Some(d) => d + "\n"@ + using_text(entries[i].using),
                    None => using_text(entries[i].using),
                }
            },
{
}

/// The order of the fields: a token that the address contains shows the
/// summary, whatever else it matches; failing that, one that the domain
/// contains shows the domain; failing that, the word for the entry's state
/// of use shows that word; failing that, the numeral of an open port shows
/// the ports; and only then does the description count.
pub proof fn lemma_precedence(e: EntryView, q: Seq<char>)
    ensures
        occurs_in(e.ip, q) ==> matched(e, q) == Some(summary(e)),
        !occurs_in(e.ip, q) && e.domain is Some && occurs_in(e.domain->0, q) ==> matched(e, q)
            == e.domain,
        !occurs_in(e.ip, q) && !(e.domain is Some && occurs_in(e.domain->0, q)) && q
            == using_text(e.using) ==> matched(e, q) == Some(using_text(e.using)),
        !occurs_in(e.ip, q) && !(e.domain is Some && occurs_in(e.domain->0, q)) && q
            != using_text(e.using) && parsed_u32(q) is Some && e.open_ports.contains(
            parsed_u32(q)->0,
        ) ==> matched(e, q) == Some(ports_text(e.open_ports)),
        matched(e, q) is None <==> {
            &&& !occurs_in(e.ip, q)
            &&& !(e.domain is Some && occurs_in(e.domain->0, q))
            &&& q != using_text(e.using)
            &&& !(parsed_u32(q) is Some && e.open_ports.contains(parsed_u32(q)->0))
            &&& !(e.description is Some && occurs_in(e.description->0, q))
        },
{
}

/// The result for an entry carries the entry's address, and comes from
/// the first token that matches the entry.
pub proof fn lemma_first_hit(e: EntryView, tokens: Seq<Seq<char>>)
    ensures
        match first_hit(e, tokens) {
            Some(h) => {
                &&& h.ip == e.ip
                &&& exists|t: int|
                    {
                        &&& 0 <= t < tokens.len()
                        &&& #[trigger] hit(e, tokens[t]) == Some(h)
                        &&& forall|u: int| 0 <= u < t ==> hit(e, #[trigger] tokens[u]) is None
                    }
            },
            None => forall|t: int| 0 <= t < tokens.len() ==> hit(e, #[trigger] tokens[t]) is None,
        },
    decreases tokens.len(),
{
    if tokens.len() > 0 {
        let rest = tokens.drop_first();
        lemma_first_hit(e, rest);
        assert(forall|t: int| 0 <= t < rest.len() ==> rest[t] == tokens[t + 1]);
        match hit(e, tokens[0]) {
            Some(h) => {
                assert(hit(e, tokens[0]) == Some(h));
            },
            None => {
                match first_hit(e, rest) {
                    Some(h) => {
                        let t = choose|t: int|
                            {
                                &&& 0 <= t < rest.len()
                                &&& #[trigger] hit(e, rest[t]) == Some(h)
                                &&& forall|u: int| 0 <= u < t ==> hit(e, #[trigger] rest[u]) is None
                            };
                        assert(hit(e, tokens[t + 1]) == Some(h));
                        assert forall|u: int| 0 <= u < t + 1 implies hit(
                            e,
                            #[trigger] tokens[u],
                        ) is None by {
                            if u > 0 {
                                assert(tokens[u] == rest[u - 1]);
                            }
                        }
                    },
                    None => {
                        assert forall|t: int| 0 <= t < tokens.len() implies hit(
                            e,
                            #[trigger] tokens[t],
                        ) is None by {
                            if t > 0 {
                                assert(tokens[t] == rest[t - 1]);
                            }
                        }
                    },
                }
            },
        }
    }
}

/// Each entry gives at most one result: there are no more results than
/// entries, each result is that of an entry, every entry that a token
/// matches has its result, and where the addresses are distinct no address
/// comes twice.
pub proof fn lemma_hits(entries: Seq<EntryView>, tokens: Seq<Seq<char>>)
    ensures
        hits(entries, tokens).len() <= entries.len(),
        forall|i: int|
            0 <= i < hits(entries, tokens).len() ==> exists|k: int|
                0 <= k < entries.len() && first_hit(#[trigger] entries[k], tokens) == Some(
                    #[trigger] hits(entries, tokens)[i],
                ),
        forall|k: int|
            0 <= k < entries.len() && first_hit(#[trigger] entries[k], tokens) is Some ==> hits(
                entries,
                tokens,
            ).contains(first_hit(entries[k], tokens)->0),
        distinct_ips(entries) ==> forall|i: int, j: int|
            0 <= i < j < hits(entries, tokens).len() ==> hits(entries, tokens)[i].ip != hits(
                entries,
                tokens,
            )[j].ip,
    decreases entries.len(),
{
    if entries.len() > 0 {
        let head = entries.drop_last();
        let results = hits(entries, tokens);
        let before = hits(head, tokens);
        lemma_hits(head, tokens);
        lemma_first_hit(entries.last(), tokens);
        assert(forall|k: int| 0 <= k < head.len() ==> head[k] == entries[k]);
        assert forall|i: int| 0 <= i < results.len() implies exists|k: int|
            0 <= k < entries.len() && first_hit(#[trigger] entries[k], tokens) == Some(
                #[trigger] results[i],
            ) by {
            if i < before.len() {
                assert(results[i] == before[i]);
                let k = choose|k: int|
                    0 <= k < head.len() && first_hit(#[trigger] head[k], tokens) == Some(before[i]);
                assert(first_hit(entries[k], tokens) == Some(results[i]));
            } else {
                assert(first_hit(entries[entries.len() - 1], tokens) == Some(results[i]));
            }
        }
        assert forall|k: int|
            0 <= k < entries.len() && first_hit(
                #[trigger] entries[k],
                tokens,
            ) is Some implies results.contains(first_hit(entries[k], tokens)->0) by {
            let h = first_hit(entries[k], tokens)->0;
            if k < head.len() {
                assert(head[k] == entries[k]);
                assert(before.contains(h));
                let i = choose|i: int| 0 <= i < before.len() && before[i] == h;
                assert(results[i] == h);
            } else {
                assert(results[results.len() - 1] == h);
            }
        }
        if distinct_ips(entries) {
            assert(distinct_ips(head));
            assert forall|i: int, j: int| 0 <= i < j < results.len() implies results[i].ip
                != results[j].ip by {
                assert(results[i] == before[i]);
                if j < before.len() {
                    assert(results[j] == before[j]);
                } else {
                    let k = choose|k: int|
                        0 <= k < head.len() && first_hit(#[trigger] head[k], tokens) == Some(
                            before[i],
                        );
                    lemma_first_hit(head[k], tokens);
                    assert(entries[k].ip != entries[entries.len() - 1].ip);
                }
            }
        }
    }
}

/// A search with a query that is not empty returns at most one result for
/// each entry: where the addresses are distinct, no address comes twice in
/// the results, and each result is that of an entry of the store.
pub proof fn lemma_search_one_per_entry(entries: Seq<EntryView>, query: Seq<char>)
    requires
        distinct_ips(entries),
        query.len() > 0,
    ensures
        forall|i: int, j: int|
            0 <= i < j < search(entries, query).len() ==> search(entries, query)[i].ip != search(
                entries,
                query,
            )[j].ip,
        forall|i: int|
            0 <= i < search(entries, query).len() ==> exists|k: int|
                0 <= k < entries.len() && first_hit(#[trigger] entries[k], words(query)) == Some(
                    #[trigger] search(entries, query)[i],
                ),
{
    let all = hits(entries, words(query));
    let results = search(entries, query);
    lemma_hits(entries, words(query));
    assert forall|i: int| 0 <= i < results.len() implies results[i] == all[i] by {}
    assert forall|i: int| 0 <= i < results.len() implies exists|k: int|
        0 <= k < entries.len() && first_hit(#[trigger] entries[k], words(query)) == Some(
            #[trigger] results[i],
        ) by {
        assert(results[i] == all[i]);
    }
}

} // verus!
