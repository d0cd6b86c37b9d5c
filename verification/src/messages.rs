//! The messages in which entries and search results are shown.

use vstd::prelude::*;
use vstd::string::StringExecFns;
use crate::codec::ports_text;
use crate::ip::{Entry, EntryView, Query, QueryView};
use crate::search::using_text;
use crate::slack::{AttachedMessage, Attachment, AttachmentFields, AttachmentView, FieldView};
use crate::text::views;

verus! {

/// The fields that show an entry: its address, its domain where it has
/// one, whether it is in use, its open ports where it has any, and its
/// description where it has one.
pub open spec fn entry_fields(e: EntryView) -> Seq<FieldView> {
    seq![FieldView { title: "IP"@, value: e.ip }] + (match e.domain {
        Some(d) => seq![FieldView { title: "도메인"@, value: d }],
        None => Seq::<FieldView>::empty(),
    }) + seq![FieldView { title: "사용 여부"@, value: using_text(e.using) }] + (if e.open_ports.len()
        > 0 {
        seq![FieldView { title: "개방 포트"@, value: ports_text(e.open_ports) }]
    } else {
        Seq::<FieldView>::empty()
    }) + (match e.description {
        Some(d) => seq![FieldView { title: "설명"@, value: d }],
        None => Seq::<FieldView>::empty(),
    })
}

/// The message that shows one entry.
pub open spec fn get_message(e: EntryView) -> Seq<AttachmentView> {
    seq![AttachmentView { title: "IP "@ + e.ip + "의 정보"@, fields: entry_fields(e) }]
}

/// The title over the results of a search.
pub open spec fn list_title(query: Seq<char>) -> Seq<char> {
    if query.len() == 0 {
        "IP 목록"@
    } else {
        query + "의 검색 결과"@
    }
}

/// The results of a search as fields: the address over the text shown.
pub open spec fn result_fields(results: Seq<QueryView>) -> Seq<FieldView> {
    Seq::new(results.len(), |i: int| FieldView { title: results[i].ip, value: results[i].element })
}

/// The message that shows the results of a search for `query`.
pub open spec fn list_message(query: Seq<char>, results: Seq<QueryView>) -> Seq<AttachmentView> {
    seq![AttachmentView { title: list_title(query), fields: result_fields(results) }]
}

fn field(title: &str, value: String) -> (f: AttachmentFields)
    ensures
        f@ == (FieldView { title: title@, value: value@ }),
{
    AttachmentFields { title: title.to_owned(), value }
}

fn message_of(title: String, fields: Vec<AttachmentFields>) -> (m: AttachedMessage)
    ensures
        m@ == seq![AttachmentView { title: title@, fields: views(fields@) }],
{
    let mut attachments: Vec<Attachment> = Vec::new();
    attachments.push(Attachment { title, fields });
    let m = AttachedMessage { attachments };
    assert(m@ =~= seq![m.attachments@[0]@]);
    m
}

/// The fields that show `entry`.
pub fn generate_entry_fields(entry: Entry) -> (fields: Vec<AttachmentFields>)
    ensures
        views(fields@) == entry_fields(entry@),
{
    let ghost e = entry@;
    let joined_ports = entry.ports_as_string();
    let using = if entry.using {
        "in use"
    } else {
        "not in use"
    };
    let mut fields: Vec<AttachmentFields> = Vec::new();
    fields.push(field("IP", entry.ip));
    let ghost first = views(fields@);
    assert(first =~= seq![FieldView { title: "IP"@, value: e.ip }]);
    match entry.domain {
        Some(domain) => {
            fields.push(field("도메인", domain));
        },
        None => {},
    }
    let ghost second = views(fields@);
    assert(second =~= first + (match e.domain {
        Some(d) => seq![FieldView { title: "도메인"@, value: d }],
        None => Seq::<FieldView>::empty(),
    }));
    fields.push(field("사용 여부", using.to_owned()));
    let ghost third = views(fields@);
    assert(third =~= second + seq![FieldView { title: "사용 여부"@, value: using_text(e.using) }]);
    if entry.open_ports.len() > 0 {
        fields.push(field("개방 포트", joined_ports));
    }
    let ghost fourth = views(fields@);
    assert(fourth =~= third + (if e.open_ports.len() > 0 {
        seq![FieldView { title: "개방 포트"@, value: ports_text(e.open_ports) }]
    } else {
        Seq::<FieldView>::empty()
    }));
    match entry.description {
        Some(description) => {
            fields.push(field("설명", description));
        },
        None => {},
    }
    assert(views(fields@) =~= fourth + (match e.description {
        Some(d) => seq![FieldView { title: "설명"@, value: d }],
        None => Seq::<FieldView>::empty(),
    }));
    fields
}

/// The message that shows `entry`.
pub fn generate_get_message(entry: Entry) -> (m: AttachedMessage)
    ensures
        m@ == get_message(entry@),
{
    let mut title = "IP ".to_owned();
    title.append(entry.ip.as_str());
    title.append("의 정보");
    message_of(title, generate_entry_fields(entry))
}

/// The message that shows the results of a search for `query`.
pub fn generate_list_message(query: &str, queries: Vec<Query>) -> (m: AttachedMessage)
    ensures
        m@ == list_message(query@, views(queries@)),
{
    let mut title = if query.is_empty() {
        "IP 목록".to_owned()
    } else {
        let mut t = query.to_owned();
        t.append("의 검색 결과");
        t
    };
    let ghost results = views(queries@);
    let mut fields: Vec<AttachmentFields> = Vec::new();
    for q in it: queries
        invariant
            views(it.seq()) == results,
            fields@.len() == it.index(),
            forall|k: int|
                0 <= k < it.index() ==> fields@[k]@ == (FieldView {
                    title: results[k].ip,
                    value: results[k].element,
                }),
    {
        assert(views(it.seq())[it.index() as int] == q@);
        fields.push(AttachmentFields { title: q.ip, value: q.element });
    }
    assert(views(fields@) =~= result_fields(results));
    message_of(title, fields)
}

} // verus!
