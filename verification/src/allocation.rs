//! Which entry is handed out for a set of required ports.

use vstd::prelude::*;
use crate::ip::EntryView;

verus! {

/// An entry can be handed out for `required` ports where it is not in use
/// and every required port is among its open ports.
pub open spec fn eligible(e: EntryView, required: Seq<u32>) -> bool {
    &&& !e.using
    &&& forall|k: int| 0 <= k < required.len() ==> e.open_ports.contains(#[trigger] required[k])
}

/// The place of the first entry that can be handed out for `required`.
pub open spec fn first_eligible(entries: Seq<EntryView>, required: Seq<u32>) -> Option<int>
    decreases entries.len(),
{
    if entries.len() == 0 {
        None
    } else {
        match first_eligible(entries.drop_last(), required) {
            Some(i) => Some(i),
            None => if eligible(entries.last(), required) {
                Some(entries.len() - 1)
            } else {
                None
            },
        }
    }
}

/// The entry that is handed out for `required`: the first that can be.
pub open spec fn allocation(entries: Seq<EntryView>, required: Seq<u32>) -> Option<EntryView> {
    match first_eligible(entries, required) {
        Some(i) => Some(entries[i]),
        None => None,
    }
}

/// `first_eligible` reports an entry that can be handed out and has none
/// such before it, and reports none only where no entry can be handed out.
pub proof fn lemma_first_eligible(entries: Seq<EntryView>, required: Seq<u32>)
    ensures
        match first_eligible(entries, required) {
            Some(i) => {
                &&& 0 <= i < entries.len()
                &&& eligible(entries[i], required)
                &&& forall|j: int| 0 <= j < i ==> !eligible(#[trigger] entries[j], required)
            },
            None => forall|j: int|
                0 <= j < entries.len() ==> !eligible(#[trigger] entries[j], required),
        },
    decreases entries.len(),
{
    if entries.len() > 0 {
        let head = entries.drop_last();
        lemma_first_eligible(head, required);
        assert(forall|j: int| 0 <= j < head.len() ==> head[j] == entries[j]);
    }
}

/// With no port required, the entry handed out is the first that is not in
/// use; none is handed out exactly where every entry is in use.
pub proof fn lemma_allocation_of_any(entries: Seq<EntryView>)
    ensures
        match first_eligible(entries, Seq::<u32>::empty()) {
            Some(i) => {
                &&& 0 <= i < entries.len()
                &&& !entries[i].using
                &&& forall|j: int| 0 <= j < i ==> (#[trigger] entries[j]).using
                &&& allocation(entries, Seq::<u32>::empty()) == Some(entries[i])
            },
            None => {
                &&& forall|j: int| 0 <= j < entries.len() ==> (#[trigger] entries[j]).using
                &&& allocation(entries, Seq::<u32>::empty()) is None
            },
        },
{
    lemma_first_eligible(entries, Seq::<u32>::empty());
    assert(forall|j: int|
        0 <= j < entries.len() ==> (eligible(#[trigger] entries[j], Seq::<u32>::empty())
            <==> !entries[j].using));
}

/// An entry is handed out only if it is not in use and has every required
/// port open: one that lacks a required port is never handed out.
pub proof fn lemma_allocation_meets_need(entries: Seq<EntryView>, required: Seq<u32>)
    ensures
        allocation(entries, required) matches Some(e) ==> {
            &&& entries.contains(e)
            &&& !e.using
            &&& forall|k: int| 0 <= k < required.len() ==> e.open_ports.contains(#[trigger] required[k])
        },
{
    lemma_first_eligible(entries, required);
}

} // verus!
