//! How an entry is read from what a person submits, and how its ports
//! are written for people.

use vstd::prelude::*;
use crate::ip::{EntryView, RawEntryView};
use crate::text::{
    decimal, is_digit, lemma_decimal, lemma_parse_decimal, lemma_split_append,
    lemma_split_plain, lemma_trim_leading, lemma_trim_tight, numbers, split, trimmed_all,
};

verus! {

/// The ports that a comma-separated list names: each piece between commas,
/// trimmed, that is an unsigned 32-bit numeral; the other pieces are dropped.
pub open spec fn parse_ports(s: Seq<char>) -> Seq<u32> {
    numbers(trimmed_all(split(s, ',')))
}

/// The ports as a list for people: numerals separated by a comma and a
/// space, nothing before the first or after the last.
pub open spec fn ports_text(ports: Seq<u32>) -> Seq<char>
    decreases ports.len(),
{
    if ports.len() == 0 {
        Seq::<char>::empty()
    } else if ports.len() == 1 {
        decimal(ports[0] as nat)
    } else {
        ports_text(ports.drop_last()) + seq![',', ' '] + decimal(ports.last() as nat)
    }
}

/// The entry that a submission stands for.
pub open spec fn decoded(raw: RawEntryView) -> EntryView {
    EntryView {
        ip: raw.ip,
        domain: raw.domain,
        using: raw.using == "true"@,
        open_ports: match raw.open_ports {
            Some(s) => parse_ports(s),
            None => Seq::<u32>::empty(),
        },
        description: raw.description,
    }
}

/// The pieces that the list of `ports` falls into at its commas.
spec fn port_pieces(ports: Seq<u32>) -> Seq<Seq<char>>
    decreases ports.len(),
{
    if ports.len() == 0 {
        seq![Seq::<char>::empty()]
    } else if ports.len() == 1 {
        seq![decimal(ports[0] as nat)]
    } else {
        port_pieces(ports.drop_last()).push(seq![' '] + decimal(ports.last() as nat))
    }
}

proof fn lemma_split_ports_text(ports: Seq<u32>)
    ensures
        split(ports_text(ports), ',') == port_pieces(ports),
    decreases ports.len(),
{
    if ports.len() == 1 {
        let numeral = decimal(ports[0] as nat);
        lemma_decimal(ports[0] as nat);
        assert forall|i: int| 0 <= i < numeral.len() implies numeral[i] != ',' by {
            assert(is_digit(numeral[i]));
        }
        lemma_split_plain(numeral, ',');
    } else if ports.len() >= 2 {
        let front = ports_text(ports.drop_last());
        let numeral = decimal(ports.last() as nat);
        let tail = seq![' '] + numeral;
        lemma_split_ports_text(ports.drop_last());
        lemma_decimal(ports.last() as nat);
        assert forall|i: int| 0 <= i < tail.len() implies tail[i] != ',' by {
            if i > 0 {
                assert(tail[i] == numeral[i - 1]);
                assert(is_digit(numeral[i - 1]));
            }
        }
        assert(front.push(',').drop_last() =~= front);
        assert(split(front.push(','), ',') == split(front, ',').push(Seq::<char>::empty()));
        lemma_split_append(front.push(','), tail, ',');
        assert(ports_text(ports) =~= front.push(',') + tail);
        assert(split(front, ',').push(Seq::<char>::empty()).drop_last() =~= split(front, ','));
        assert(Seq::<char>::empty() + tail =~= tail);
    }
}

proof fn lemma_read_port_pieces(ports: Seq<u32>)
    ensures
        numbers(trimmed_all(port_pieces(ports))) == ports,
    decreases ports.len(),
{
    let pieces = trimmed_all(port_pieces(ports));
    if ports.len() == 0 {
        assert(pieces.drop_last() =~= Seq::<Seq<char>>::empty());
        assert(pieces.last() =~= Seq::<char>::empty());
        assert(numbers(pieces.drop_last()) =~= Seq::<u32>::empty());
        assert(numbers(pieces) =~= ports);
    } else {
        let numeral = decimal(ports.last() as nat);
        lemma_decimal(ports.last() as nat);
        lemma_parse_decimal(ports.last());
        assert(is_digit(numeral[0]) && is_digit(numeral.last()));
        lemma_trim_tight(numeral);
        if ports.len() == 1 {
            assert(pieces.drop_last() =~= Seq::<Seq<char>>::empty());
            assert(pieces.last() == numeral);
            assert(numbers(pieces.drop_last()) =~= Seq::<u32>::empty());
            assert(numbers(pieces) =~= ports);
        } else {
            lemma_read_port_pieces(ports.drop_last());
            lemma_trim_leading(' ', numeral);
            assert(pieces.drop_last() =~= trimmed_all(port_pieces(ports.drop_last())));
            assert(pieces.last() == numeral);
            assert(numbers(pieces) =~= ports);
        }
    }
}

/// Reading the list that `ports_text` writes gives the ports back, each in
/// its place.
pub proof fn lemma_ports_round_trip(ports: Seq<u32>)
    ensures
        parse_ports(ports_text(ports)) == ports,
{
    lemma_split_ports_text(ports);
    lemma_read_port_pieces(ports);
}

/// An entry whose ports are given as its own list reads back with the same
/// ports.
pub proof fn lemma_decode_own_ports(e: EntryView, using: Seq<char>)
    ensures
        decoded(
            RawEntryView {
                ip: e.ip,
                domain: e.domain,
                using,
                open_ports: Some(ports_text(e.open_ports)),
                description: e.description,
            },
        ).open_ports == e.open_ports,
{
    lemma_ports_round_trip(e.open_ports);
}

} // verus!
