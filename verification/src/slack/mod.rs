//! The chat platform's data: who sent a command, the messages sent back,
//! and the address of an API call.

use vstd::prelude::*;
use vstd::string::StringExecFns;
use crate::text::{chars_of, string_of, views};

pub mod dialog;
pub mod slash_command;

verus! {

#[derive(Debug, PartialEq, Eq)]
pub struct Channel {
    pub id: String,
    pub name: String,
}

#[derive(Debug, PartialEq, Eq)]
pub struct User {
    pub id: String,
    pub name: String,
}

#[derive(Debug, PartialEq, Eq)]
pub struct Team {
    pub id: String,
    pub domain: String,
}

/// A message made of attachments.
#[derive(Debug, PartialEq, Eq)]
pub struct AttachedMessage {
    pub attachments: Vec<Attachment>,
}

/// A titled list of fields.
#[derive(Debug, PartialEq, Eq)]
pub struct Attachment {
    pub title: String,
    pub fields: Vec<AttachmentFields>,
}

/// One field of an attachment: a title and a value.
#[derive(Debug, PartialEq, Eq)]
pub struct AttachmentFields {
    pub title: String,
    pub value: String,
}

/// What a field holds, as mathematical values.
pub struct FieldView {
    pub title: Seq<char>,
    pub value: Seq<char>,
}

impl View for AttachmentFields {
    type V = FieldView;

    open spec fn view(&self) -> FieldView {
        FieldView { title: self.title@, value: self.value@ }
    }
}

/// What an attachment holds, as mathematical values.
pub struct AttachmentView {
    pub title: Seq<char>,
    pub fields: Seq<FieldView>,
}

impl View for Attachment {
    type V = AttachmentView;

    open spec fn view(&self) -> AttachmentView {
        AttachmentView { title: self.title@, fields: views(self.fields@) }
    }
}

impl View for AttachedMessage {
    type V = Seq<AttachmentView>;

    open spec fn view(&self) -> Seq<AttachmentView> {
        views(self.attachments@)
    }
}

/// The address under which the API's methods are called.
pub open spec fn api_root() -> Seq<char> {
    "https://slack.com/api/"@
}

/// How one character is written in the query of an address: a space, `<`,
/// `>` and `#` by their codes, any other character as it is.
pub open spec fn escaped(c: char) -> Seq<char> {
    if c == ' ' {
        "%20"@
    } else if c == '<' {
        "%3C"@
    } else if c == '>' {
        "%3E"@
    } else if c == '#' {
        "%23"@
    } else {
        seq![c]
    }
}

/// `s` with each character written as `escaped` has it.
pub open spec fn encoded(s: Seq<char>) -> Seq<char>
    decreases s.len(),
{
    if s.len() == 0 {
        Seq::<char>::empty()
    } else {
        encoded(s.drop_last()) + escaped(s.last())
    }
}

/// The query of an address: each argument as its name, `=`, its encoded
/// value and `&`.
pub open spec fn query_of(arguments: Seq<(Seq<char>, Seq<char>)>) -> Seq<char>
    decreases arguments.len(),
{
    if arguments.len() == 0 {
        Seq::<char>::empty()
    } else {
        query_of(arguments.drop_last()) + arguments.last().0 + "="@ + encoded(arguments.last().1)
            + "&"@
    }
}

/// The address of a call of the method `api`: the root, the method, `?`
/// and the query, without the last character of all that (the `&` after the
/// last argument; the `?` where there is no argument).
pub open spec fn uri_of(api: Seq<char>, arguments: Seq<(Seq<char>, Seq<char>)>) -> Seq<char> {
    (api_root() + api + "?"@ + query_of(arguments)).drop_last()
}

/// The names and values of a list of arguments, as texts.
pub open spec fn pairs_of(arguments: Seq<(String, String)>) -> Seq<(Seq<char>, Seq<char>)> {
    Seq::new(arguments.len(), |i: int| (arguments[i].0@, arguments[i].1@))
}

/// Writes `url` for use in the query of an address.
pub fn encode_url(url: &str) -> (r: String)
    ensures
        r@ == encoded(url@),
{
    let chars = chars_of(url);
    let mut r = String::new();
    let mut i: usize = 0;
    while i < chars.len()
        invariant
            i <= chars@.len(),
            r@ == encoded(chars@.take(i as int)),
        decreases chars@.len() - i,
    {
        let c: char = chars[i];
        proof {
            assert(chars@.take(i + 1).drop_last() =~= chars@.take(i as int));
            assert(chars@.take(i + 1).last() == c);
        }
        if c == ' ' {
            r.append("%20");
        } else if c == '<' {
            r.append("%3C");
        } else if c == '>' {
            r.append("%3E");
        } else if c == '#' {
            r.append("%23");
        } else {
            let mut one: Vec<char> = Vec::new();
            one.push(c);
            assert(one@ =~= seq![c]);
            r.append(string_of(&one).as_str());
        }
        i = i + 1;
    }
    assert(chars@.take(chars@.len() as int) =~= chars@);
    r
}

/// The address to call for the method `api` with the given arguments, in
/// their order.
pub fn request_uri(api: &str, arguments: &Vec<(String, String)>) -> (uri: String)
    ensures
        uri@ == uri_of(api@, pairs_of(arguments@)),
{
    let mut uri = "https://slack.com/api/".to_owned();
    uri.append(api);
    uri.append("?");
    let ghost front = uri@;
    let mut i: usize = 0;
    assert(uri@ =~= front + query_of(pairs_of(arguments@).take(0)));
    while i < arguments.len()
        invariant
            i <= arguments@.len(),
            front == api_root() + api@ + "?"@,
            uri@ == front + query_of(pairs_of(arguments@).take(i as int)),
        decreases arguments@.len() - i,
    {
        let ghost before = query_of(pairs_of(arguments@).take(i as int));
        proof {
            let pairs = pairs_of(arguments@);
            assert(pairs.take(i + 1).drop_last() =~= pairs.take(i as int));
            assert(pairs.take(i + 1).last() == (arguments@[i as int].0@, arguments@[i as int].1@));
        }
        uri.append(arguments[i].0.as_str());
        uri.append("=");
        let value = encode_url(arguments[i].1.as_str());
        uri.append(value.as_str());
        uri.append("&");
        assert(uri@ =~= front + (before + arguments@[i as int].0@ + "="@ + encoded(
            arguments@[i as int].1@,
        ) + "&"@));
        i = i + 1;
    }
    assert(pairs_of(arguments@).take(arguments@.len() as int) =~= pairs_of(arguments@));
    proof {
        reveal_strlit("?");
    }
    let chars = chars_of(uri.as_str());
    assert(chars@.len() > 0);
    let keep: usize = chars.len() - 1;
    let mut kept: Vec<char> = Vec::new();
    let mut k: usize = 0;
    while k < keep
        invariant
            keep + 1 == chars@.len(),
            k <= keep,
            kept@ == chars@.take(k as int),
        decreases keep - k,
    {
        kept.push(chars[k]);
        assert(chars@.take(k as int).push(chars@[k as int]) =~= chars@.take(k + 1));
        k = k + 1;
    }
    assert(chars@.take(k as int) =~= chars@.drop_last());
    string_of(&kept)
}

} // verus!
