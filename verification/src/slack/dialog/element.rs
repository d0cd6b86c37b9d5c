//! The elements of a dialog: lines of text, areas of text, and selections.

use vstd::prelude::*;
use crate::ip::text_of;

verus! {

#[derive(Debug, PartialEq, Eq)]
pub enum Element {
    Text(TextElement),
    TextArea(TextAreaElement),
    Select(SelectElement),
}

/// A line of text to fill in.
#[derive(Debug, PartialEq, Eq)]
pub struct TextElement {
    pub label: String,
    pub name: String,
    pub optional: Option<bool>,
    pub hint: Option<String>,
    pub subtype: Option<String>,
    pub value: Option<String>,
    pub placeholder: Option<String>,
}

/// An area of text to fill in.
#[derive(Debug, PartialEq, Eq)]
pub struct TextAreaElement {
    pub label: String,
    pub name: String,
    pub optional: Option<bool>,
    pub hint: Option<String>,
    pub subtype: Option<String>,
    pub value: Option<String>,
    pub placeholder: Option<String>,
}

/// A choice among options.
#[derive(Debug, PartialEq, Eq)]
pub struct SelectElement {
    pub label: String,
    pub name: String,
    pub optional: Option<bool>,
    pub options: Vec<SelectOption>,
    pub value: Option<String>,
    pub placeholder: Option<String>,
}

/// One option of a selection: what is shown, and what is submitted.
#[derive(Debug, PartialEq, Eq)]
pub struct SelectOption {
    pub label: String,
    pub value: String,
}

impl Clone for SelectOption {
    fn clone(&self) -> (r: SelectOption)
        ensures
            r@ == self@,
    {
        SelectOption { label: self.label.clone(), value: self.value.clone() }
    }
}

/// What a line or an area of text holds, as mathematical values.
pub struct TextView {
    pub label: Seq<char>,
    pub name: Seq<char>,
    pub optional: Option<bool>,
    pub hint: Option<Seq<char>>,
    pub subtype: Option<Seq<char>>,
    pub value: Option<Seq<char>>,
    pub placeholder: Option<Seq<char>>,
}

/// What an option holds, as mathematical values.
pub struct OptionView {
    pub label: Seq<char>,
    pub value: Seq<char>,
}

/// What a selection holds, as mathematical values.
pub struct SelectView {
    pub label: Seq<char>,
    pub name: Seq<char>,
    pub optional: Option<bool>,
    pub options: Seq<OptionView>,
    pub value: Option<Seq<char>>,
    pub placeholder: Option<Seq<char>>,
}

/// What an element holds, as mathematical values.
pub enum ElementView {
    Text(TextView),
    TextArea(TextView),
    Select(SelectView),
}

impl View for TextElement {
    type V = TextView;

    open spec fn view(&self) -> TextView {
        TextView {
            label: self.label@,
            name: self.name@,
            optional: self.optional,
            hint: text_of(self.hint),
            subtype: text_of(self.subtype),
            value: text_of(self.value),
            placeholder: text_of(self.placeholder),
        }
    }
}

impl View for TextAreaElement {
    type V = TextView;

    open spec fn view(&self) -> TextView {
        TextView {
            label: self.label@,
            name: self.name@,
            optional: self.optional,
            hint: text_of(self.hint),
            subtype: text_of(self.subtype),
            value: text_of(self.value),
            placeholder: text_of(self.placeholder),
        }
    }
}

impl View for SelectOption {
    type V = OptionView;

    open spec fn view(&self) -> OptionView {
        OptionView { label: self.label@, value: self.value@ }
    }
}

impl View for SelectElement {
    type V = SelectView;

    open spec fn view(&self) -> SelectView {
        SelectView {
            label: self.label@,
            name: self.name@,
            optional: self.optional,
            options: Seq::new(self.options@.len(), |i: int| self.options@[i]@),
            value: text_of(self.value),
            placeholder: text_of(self.placeholder),
        }
    }
}

impl View for Element {
    type V = ElementView;

    open spec fn view(&self) -> ElementView {
        match self {
            Element::Text(e) => ElementView::Text(e@),
            Element::TextArea(e) => ElementView::TextArea(e@),
            Element::Select(e) => ElementView::Select(e@),
        }
    }
}

} // verus!
