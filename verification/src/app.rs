//! The service as one value: its settings, and the commands it takes.

use vstd::prelude::*;
use vstd::string::StringExecFns;
use crate::Response;
use crate::ResponseView;
use crate::dialogs::{
    description_textarea, domain_text, generate_description_textarea, generate_domain_text,
    generate_ip_text, generate_open_ports_text, generate_using_select, ip_text, open_ports_text,
    using_select,
};
use crate::error::{Error, ErrorView, message_of};
use crate::codec::ports_text;
use crate::ip::{Entry, EntryView};
use crate::search::using_text;
use crate::settings::Settings;
use crate::slack::{AttachedMessage, Attachment, AttachmentFields, AttachmentView, FieldView};
use crate::slack::dialog::{Dialog, DialogView, OpenRequest, Submission};
use crate::slack::dialog::element::Element;
use crate::slack::slash_command::Request;
use crate::store::{Store, found};
use crate::text::{same_text, views};

verus! {

/// The commands that the service knows.
#[derive(Debug, PartialEq, Eq)]
pub enum Command {
    Add,
    Get,
    Edit,
    Issue,
}

/// The service: the settings it was started with.
pub struct App {
    settings: Settings,
}

/// The dialog that `add` opens: that for a new entry, with `not in use`
/// chosen.
pub open spec fn new_entry_dialog() -> DialogView {
    DialogView {
        callback_id: "add"@,
        title: "IP 추가"@,
        elements: seq![
            ip_text(None),
            domain_text(None),
            using_select(Some("false"@)),
            open_ports_text(None),
            description_textarea(None),
        ],
    }
}

/// The fields that show an entry, its open ports followed by a line break.
pub open spec fn info_fields(e: EntryView) -> Seq<FieldView> {
    seq![FieldView { title: "IP"@, value: e.ip }] + (match e.domain {
        Some(d) => seq![FieldView { title: "도메인"@, value: d }],
        None => Seq::<FieldView>::empty(),
    }) + seq![FieldView { title: "사용 여부"@, value: using_text(e.using) }] + (if e.open_ports.len()
        > 0 {
        seq![FieldView { title: "개방 포트"@, value: ports_text(e.open_ports) + "\n"@ }]
    } else {
        Seq::<FieldView>::empty()
    }) + (match e.description {
        Some(d) => seq![FieldView { title: "설명"@, value: d }],
        None => Seq::<FieldView>::empty(),
    })
}

/// The message that shows an entry: one attachment without a title.
pub open spec fn info_message(e: EntryView) -> Seq<AttachmentView> {
    seq![AttachmentView { title: Seq::<char>::empty(), fields: info_fields(e) }]
}

/// What `get` answers for the address `text`.
pub open spec fn get_outcome(text: Seq<char>, entries: Seq<EntryView>) -> Result<
    Seq<AttachmentView>,
    ErrorView,
> {
    if text.len() == 0 {
        Err(ErrorView::InvalidArgument)
    } else {
        match found(entries, text) {
            Some(e) => Ok(info_message(e)),
            None => Err(ErrorView::NotFound),
        }
    }
}

/// The answer that tells of an error.
pub open spec fn error_reply(e: ErrorView) -> ResponseView {
    ResponseView::PlainText("Error: "@ + message_of(e))
}

/// What the service answers to a command.
pub open spec fn app_outcome(
    command: Command,
    token: Seq<char>,
    text: Seq<char>,
    expected: Seq<char>,
    entries: Seq<EntryView>,
) -> ResponseView {
    if token != expected {
        ResponseView::PlainText("Error: Validation error"@)
    } else {
        match command {
            Command::Add => ResponseView::Dialog(new_entry_dialog()),
            Command::Get => match get_outcome(text, entries) {
                Ok(m) => ResponseView::AttachedMessage(m),
                Err(e) => error_reply(e),
            },
            _ => ResponseView::PlainText("Nope"@),
        }
    }
}

/// The message that shows `entry`.
pub fn show_get_info(entry: &Entry) -> (m: AttachedMessage)
    ensures
        m@ == info_message(entry@),
{
    let ghost e = entry@;
    let using = if entry.using {
        "in use"
    } else {
        "not in use"
    };
    let mut fields: Vec<AttachmentFields> = Vec::new();
    fields.push(AttachmentFields { title: "IP".to_owned(), value: entry.ip.clone() });
    let ghost first = views(fields@);
    assert(first =~= seq![FieldView { title: "IP"@, value: e.ip }]);
    match &entry.domain {
        Some(domain) => {
            fields.push(AttachmentFields { title: "도메인".to_owned(), value: domain.clone() });
        },
        None => {},
    }
    let ghost second = views(fields@);
    assert(second =~= first + (match e.domain {
        Some(d) => seq![FieldView { title: "도메인"@, value: d }],
        None => Seq::<FieldView>::empty(),
    }));
    fields.push(AttachmentFields { title: "사용 여부".to_owned(), value: using.to_owned() });
    let ghost third = views(fields@);
    assert(third =~= second + seq![FieldView { title: "사용 여부"@, value: using_text(e.using) }]);
    if entry.open_ports.len() > 0 {
        let mut s = entry.ports_as_string();
        s.append("\n");
        fields.push(AttachmentFields { title: "개방 포트".to_owned(), value: s });
    }
    let ghost fourth = views(fields@);
    assert(fourth =~= third + (if e.open_ports.len() > 0 {
        seq![FieldView { title: "개방 포트"@, value: ports_text(e.open_ports) + "\n"@ }]
    } else {
        Seq::<FieldView>::empty()
    }));
    match &entry.description {
        Some(description) => {
            fields.push(
                AttachmentFields { title: "설명".to_owned(), value: description.clone() },
            );
        },
        None => {},
    }
    assert(views(fields@) =~= fourth + (match e.description {
        Some(d) => seq![FieldView { title: "설명"@, value: d }],
        None => Seq::<FieldView>::empty(),
    }));
    let mut attachments: Vec<Attachment> = Vec::new();
    attachments.push(Attachment { title: String::new(), fields });
    let m = AttachedMessage { attachments };
    assert(m@ =~= seq![m.attachments@[0]@]);
    m
}

impl App {
    /// The token that every request must carry.
    pub closed spec fn verification_token(&self) -> Seq<char> {
        self.settings.verification_token@
    }

    /// The token under which the service calls the platform.
    pub closed spec fn api_token(&self) -> Seq<char> {
        self.settings.api_token@
    }

    /// Where the entries are kept.
    pub closed spec fn data_path(&self) -> Seq<char> {
        self.settings.data_path@
    }

    /// The service with the given settings.
    pub fn new(settings: Settings) -> (app: App)
        ensures
            app.verification_token() == settings.verification_token@,
            app.api_token() == settings.api_token@,
            app.data_path() == settings.data_path@,
    {
        App { settings }
    }

    /// Whether `token` is the agreed one.
    pub fn validate(&self, token: &str) -> (r: bool)
        ensures
            r == (token@ == self.verification_token()),
    {
        same_text(token, self.settings.verification_token.as_str())
    }

    /// Answers a command. A request without the agreed token is told so.
    /// `Add` answers with the dialog to open, `Get` with the entry asked
    /// for or with what is wrong, and every other command with `Nope`.
    pub fn handle_command(&self, command: Command, data: Request, store: &Store) -> (r: Response)
        ensures
            r@ == app_outcome(command, data.token@, data.text@, self.verification_token(), store@),
    {
        if !self.validate(data.token.as_str()) {
            return Response::PlainText("Error: Validation error".to_owned());
        }
        match command {
            Command::Add => Response::Dialog(self.show_add_dialog(data).dialog),
            Command::Get => match self.get_command(data, store) {
                Ok(m) => Response::AttachedMessage(m),
                Err(e) => {
                    let mut text = "Error: ".to_owned();
                    text.append(e.message().as_str());
                    Response::PlainText(text)
                },
            },
            _ => Response::PlainText("Nope".to_owned()),
        }
    }

    /// Takes in a filled dialog, and answers with nothing.
    pub fn handle_submission(&self, submission: Submission) -> (r: String)
        ensures
            r@ == Seq::<char>::empty(),
    {
        String::new()
    }

    /// The request that opens the dialog for a new entry, for the person
    /// who gave the command.
    pub fn show_add_dialog(&self, data: Request) -> (r: OpenRequest)
        ensures
            r.token@ == self.api_token(),
            r.dialog@ == new_entry_dialog(),
            r.trigger_id@ == data.trigger_id@,
    {
        let mut dialog = Dialog::new("add".to_owned(), "IP 추가".to_owned());
        let mut elements: Vec<Element> = Vec::new();
        elements.push(generate_ip_text(None));
        elements.push(generate_domain_text(None));
        elements.push(generate_using_select(Some("false".to_owned())));
        elements.push(generate_open_ports_text(None));
        elements.push(generate_description_textarea(None));
        assert(views(elements@) =~= new_entry_dialog().elements);
        dialog.elements = elements;
        OpenRequest { token: self.settings.api_token.clone(), dialog, trigger_id: data.trigger_id }
    }

    /// The entry stored under the address that the command gives. No
    /// address is an error, and so is an address that is not stored.
    pub fn get_command(&self, data: Request, store: &Store) -> (r: Result<AttachedMessage, Error>)
        ensures
            match get_outcome(data.text@, store@) {
                Ok(m) => r is Ok && r->Ok_0@ == m,
                Err(e) => r is Err && r->Err_0@ == e,
            },
    {
        if data.text.as_str().is_empty() {
            return Err(Error::InvalidArgument);
        }
        match crate::ip::get(data.text.as_str(), store) {
            Some(e) => Ok(show_get_info(&e)),
            None => Err(Error::NotFound),
        }
    }

    /// Names the command.
    pub fn edit_command(&self, data: Request) -> (r: Result<String, Error>)
        ensures
            r is Ok,
            r->Ok_0@ == "edit"@,
    {
        Ok("edit".to_owned())
    }

    /// Names the command.
    pub fn issue_command(&self, data: Request) -> (r: Result<String, Error>)
        ensures
            r is Ok,
            r->Ok_0@ == "issue"@,
    {
        Ok("issue".to_owned())
    }
}

} // verus!
