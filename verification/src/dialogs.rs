//! The dialogs in which an entry is written or changed.

use vstd::prelude::*;
use crate::codec::ports_text;
use crate::ip::{Entry, EntryView};
use crate::search::using_text;
use crate::slack::dialog::{Dialog, DialogView};
use crate::slack::dialog::element::{
    Element, ElementView, OptionView, SelectElement, SelectOption, SelectView, TextAreaElement,
    TextElement, TextView,
};
use crate::text::views;

verus! {

/// The line for the address.
pub open spec fn ip_text(value: Option<Seq<char>>) -> ElementView {
    ElementView::Text(
        TextView {
            label: "IP"@,
            name: "ip"@,
            optional: None,
            hint: None,
            subtype: None,
            value,
            placeholder: None,
        },
    )
}

/// The line for the domain.
pub open spec fn domain_text(value: Option<Seq<char>>) -> ElementView {
    ElementView::Text(
        TextView {
            label: "도메인"@,
            name: "domain"@,
            optional: Some(true),
            hint: None,
            subtype: None,
            value,
            placeholder: Some("Optional"@),
        },
    )
}

/// The choice between an address in use and one that is not.
pub open spec fn using_select(value: Option<Seq<char>>) -> ElementView {
    ElementView::Select(
        SelectView {
            label: "사용 여부"@,
            name: "using"@,
            optional: None,
            options: seq![
                OptionView { label: using_text(true), value: "true"@ },
                OptionView { label: using_text(false), value: "false"@ },
            ],
            value,
            placeholder: None,
        },
    )
}

/// The line for the open ports.
pub open spec fn open_ports_text(value: Option<Seq<char>>) -> ElementView {
    ElementView::Text(
        TextView {
            label: "개방된 포트"@,
            name: "open_ports"@,
            optional: Some(true),
            hint: Some("쉼표로 구분"@),
            subtype: None,
            value,
            placeholder: Some("ex) 22, 80"@),
        },
    )
}

/// The area for the description.
pub open spec fn description_textarea(value: Option<Seq<char>>) -> ElementView {
    ElementView::TextArea(
        TextView {
            label: "설명"@,
            name: "description"@,
            optional: Some(true),
            hint: None,
            subtype: None,
            value,
            placeholder: Some("Optional"@),
        },
    )
}

/// The dialog in which a new entry is written: every element empty.
pub open spec fn add_dialog() -> DialogView {
    DialogView {
        callback_id: "add"@,
        title: "IP 추가"@,
        elements: seq![
            ip_text(None),
            domain_text(None),
            using_select(None),
            open_ports_text(None),
            description_textarea(None),
        ],
    }
}

/// How the state of use is written in a dialog.
pub open spec fn using_value(using: bool) -> Seq<char> {
    if using {
        "true"@
    } else {
        "false"@
    }
}

/// The open ports as a dialog shows them: their list, or nothing where
/// there is none.
pub open spec fn ports_value(ports: Seq<u32>) -> Option<Seq<char>> {
    if ports.len() > 0 {
        Some(ports_text(ports))
    } else {
        None
    }
}

/// The dialog in which the entry `e` is changed: every element filled with
/// what the entry holds.
pub open spec fn edit_dialog(e: EntryView) -> DialogView {
    DialogView {
        callback_id: "edit"@,
        title: "IP 수정"@,
        elements: seq![
            ip_text(Some(e.ip)),
            domain_text(e.domain),
            using_select(Some(using_value(e.using))),
            open_ports_text(ports_value(e.open_ports)),
            description_textarea(e.description),
        ],
    }
}

pub fn generate_ip_text(value: Option<String>) -> (r: Element)
    ensures
        r@ == ip_text(crate::ip::text_of(value)),
{
    Element::Text(
        TextElement {
            label: "IP".to_owned(),
            name: "ip".to_owned(),
            optional: None,
            hint: None,
            subtype: None,
            value,
            placeholder: None,
        },
    )
}

pub fn generate_domain_text(value: Option<String>) -> (r: Element)
    ensures
        r@ == domain_text(crate::ip::text_of(value)),
{
    Element::Text(
        TextElement {
            label: "도메인".to_owned(),
            name: "domain".to_owned(),
            optional: Some(true),
            hint: None,
            subtype: None,
            value,
            placeholder: Some("Optional".to_owned()),
        },
    )
}

pub fn generate_using_select(value: Option<String>) -> (r: Element)
    ensures
        r@ == using_select(crate::ip::text_of(value)),
{
    let mut options: Vec<SelectOption> = Vec::new();
    options.push(SelectOption { label: "in use".to_owned(), value: "true".to_owned() });
    options.push(SelectOption { label: "not in use".to_owned(), value: "false".to_owned() });
    let select = SelectElement {
        label: "사용 여부".to_owned(),
        name: "using".to_owned(),
        optional: None,
        options,
        value,
        placeholder: None,
    };
    assert(select@.options =~= seq![
        OptionView { label: using_text(true), value: "true"@ },
        OptionView { label: using_text(false), value: "false"@ },
    ]);
    Element::Select(select)
}

pub fn generate_open_ports_text(value: Option<String>) -> (r: Element)
    ensures
        r@ == open_ports_text(crate::ip::text_of(value)),
{
    Element::Text(
        TextElement {
            label: "개방된 포트".to_owned(),
            name: "open_ports".to_owned(),
            optional: Some(true),
            hint: Some("쉼표로 구분".to_owned()),
            subtype: None,
            value,
            placeholder: Some("ex) 22, 80".to_owned()),
        },
    )
}

pub fn generate_description_textarea(value: Option<String>) -> (r: Element)
    ensures
        r@ == description_textarea(crate::ip::text_of(value)),
{
    Element::TextArea(
        TextAreaElement {
            label: "설명".to_owned(),
            name: "description".to_owned(),
            optional: Some(true),
            hint: None,
            subtype: None,
            value,
            placeholder: Some("Optional".to_owned()),
        },
    )
}

/// The dialog in which a new entry is written.
pub fn generate_add_dialog() -> (d: Dialog)
    ensures
        d@ == add_dialog(),
{
    let mut dialog = Dialog::new("add".to_owned(), "IP 추가".to_owned());
    let mut elements: Vec<Element> = Vec::new();
    elements.push(generate_ip_text(None));
    elements.push(generate_domain_text(None));
    elements.push(generate_using_select(None));
    elements.push(generate_open_ports_text(None));
    elements.push(generate_description_textarea(None));
    assert(views(elements@) =~= add_dialog().elements);
    dialog.elements = elements;
    dialog
}

/// The dialog in which `entry` is changed.
pub fn generate_edit_dialog(entry: Entry) -> (d: Dialog)
    ensures
        d@ == edit_dialog(entry@),
{
    let mut dialog = Dialog::new("edit".to_owned(), "IP 수정".to_owned());
    let joined_ports = entry.ports_as_string();
    let ports = if entry.open_ports.len() > 0 {
        Some(joined_ports)
    } else {
        None
    };
    let using = if entry.using {
        "true"
    } else {
        "false"
    };
    let ghost e = entry@;
    let mut elements: Vec<Element> = Vec::new();
    elements.push(generate_ip_text(Some(entry.ip)));
    elements.push(generate_domain_text(entry.domain));
    elements.push(generate_using_select(Some(using.to_owned())));
    elements.push(generate_open_ports_text(ports));
    elements.push(generate_description_textarea(entry.description));
    assert(elements@[0]@ == ip_text(Some(e.ip)));
    assert(elements@[1]@ == domain_text(e.domain));
    assert(elements@[2]@ == using_select(Some(using_value(e.using))));
    assert(elements@[3]@ == open_ports_text(ports_value(e.open_ports)));
    assert(elements@[4]@ == description_textarea(e.description));
    assert(views(elements@) =~= edit_dialog(e).elements);
    dialog.elements = elements;
    dialog
}

} // verus!
