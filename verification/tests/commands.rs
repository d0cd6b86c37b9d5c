use ip_manager::error::Error;
use ip_manager::ip::{add, get, Entry, RawEntry};
use ip_manager::settings::Settings;
use ip_manager::slack::dialog::element::{Element, SelectElement, SelectOption, TextAreaElement, TextElement};
use ip_manager::slack::dialog::{Dialog, Submission};
use ip_manager::slack::slash_command::Request;
use ip_manager::slack::{AttachedMessage, Attachment, AttachmentFields, Channel, Team, User};
use ip_manager::store::Store;
use ip_manager::{handle_command, handle_submission, Response};

fn s(t: &str) -> String {
    t.to_string()
}

fn settings() -> Settings {
    Settings { verification_token: s("secret"), api_token: s("api"), data_path: s("data") }
}

fn request(token: &str, text: &str) -> Request {
    Request {
        token: s(token),
        team_id: s("T1"),
        team_domain: s("team"),
        channel_id: s("C1"),
        channel_name: s("general"),
        user_id: s("U1"),
        user_name: s("someone"),
        text: s(text),
        response_url: s("https://hooks.example/1"),
        trigger_id: s("trigger"),
    }
}

fn sample() -> Entry {
    Entry {
        ip: s("10.0.0.5"),
        domain: Some(s("svc.example")),
        using: false,
        open_ports: vec![22, 80],
        description: Some(s("22 backup")),
    }
}

fn store() -> Store {
    let mut store = Store::new();
    add(&sample(), &mut store);
    add(&Entry { ip: s("10.0.0.6"), domain: None, using: true, open_ports: vec![], description: None }, &mut store);
    store
}

fn text(label: &str, name: &str, optional: Option<bool>, hint: Option<&str>, value: Option<&str>, placeholder: Option<&str>) -> TextElement {
    TextElement {
        label: s(label),
        name: s(name),
        optional,
        hint: hint.map(s),
        subtype: None,
        value: value.map(s),
        placeholder: placeholder.map(s),
    }
}

fn elements(ip: Option<&str>, domain: Option<&str>, using: Option<&str>, ports: Option<&str>, description: Option<&str>) -> Vec<Element> {
    vec![
        Element::Text(text("IP", "ip", None, None, ip, None)),
        Element::Text(text("도메인", "domain", Some(true), None, domain, Some("Optional"))),
        Element::Select(SelectElement {
            label: s("사용 여부"),
            name: s("using"),
            optional: None,
            options: vec![
                SelectOption { label: s("in use"), value: s("true") },
                SelectOption { label: s("not in use"), value: s("false") },
            ],
            value: using.map(s),
            placeholder: None,
        }),
        Element::Text(text("개방된 포트", "open_ports", Some(true), Some("쉼표로 구분"), ports, Some("ex) 22, 80"))),
        Element::TextArea(TextAreaElement {
            label: s("설명"),
            name: s("description"),
            optional: Some(true),
            hint: None,
            subtype: None,
            value: description.map(s),
            placeholder: Some(s("Optional")),
        }),
    ]
}

fn edit_dialog_of_sample() -> Dialog {
    Dialog {
        callback_id: s("edit"),
        title: s("IP 수정"),
        elements: elements(Some("10.0.0.5"), Some("svc.example"), Some("false"), Some("22, 80"), Some("22 backup")),
    }
}

fn field(title: &str, value: &str) -> AttachmentFields {
    AttachmentFields { title: s(title), value: s(value) }
}

#[test]
fn command_with_a_wrong_token_is_refused() {
    assert_eq!(handle_command("get", request("wrong", "10.0.0.5"), &settings(), &store()), Err(Error::InvalidToken));
    assert_eq!(handle_command("nope", request("", ""), &settings(), &store()), Err(Error::InvalidToken));
}

#[test]
fn unknown_command_is_refused() {
    assert_eq!(handle_command("remove", request("secret", "x"), &settings(), &store()), Err(Error::CommandNotFound(s("remove"))));
    assert_eq!(handle_command("Add", request("secret", ""), &settings(), &store()), Err(Error::CommandNotFound(s("Add"))));
    assert_eq!(handle_command("", request("secret", ""), &settings(), &store()), Err(Error::CommandNotFound(s(""))));
}

#[test]
fn add_command_answers_with_the_empty_dialog() {
    let expected = Dialog { callback_id: s("add"), title: s("IP 추가"), elements: elements(None, None, None, None, None) };
    assert_eq!(handle_command("add", request("secret", "ignored"), &settings(), &store()), Ok(Response::Dialog(expected)));
}

#[test]
fn get_command_shows_the_entry() {
    let expected = AttachedMessage {
        attachments: vec![Attachment {
            title: s("IP 10.0.0.5의 정보"),
            fields: vec![
                field("IP", "10.0.0.5"),
                field("도메인", "svc.example"),
                field("사용 여부", "not in use"),
                field("개방 포트", "22, 80"),
                field("설명", "22 backup"),
            ],
        }],
    };
    assert_eq!(handle_command("get", request("secret", "10.0.0.5"), &settings(), &store()), Ok(Response::AttachedMessage(expected)));
    let bare = AttachedMessage {
        attachments: vec![Attachment { title: s("IP 10.0.0.6의 정보"), fields: vec![field("IP", "10.0.0.6"), field("사용 여부", "in use")] }],
    };
    assert_eq!(handle_command("get", request("secret", "10.0.0.6"), &settings(), &store()), Ok(Response::AttachedMessage(bare)));
}

#[test]
fn get_and_edit_need_an_address_that_is_stored() {
    for command in ["get", "edit"] {
        assert_eq!(handle_command(command, request("secret", ""), &settings(), &store()), Ok(Response::PlainText(s("Invalid argument"))));
        assert_eq!(handle_command(command, request("secret", "10.0.0.9"), &settings(), &store()), Ok(Response::PlainText(s("IP not found"))));
    }
}

#[test]
fn edit_command_answers_with_the_filled_dialog() {
    assert_eq!(handle_command("edit", request("secret", "10.0.0.5"), &settings(), &store()), Ok(Response::Dialog(edit_dialog_of_sample())));
    let bare = Dialog { callback_id: s("edit"), title: s("IP 수정"), elements: elements(Some("10.0.0.6"), None, Some("true"), None, None) };
    assert_eq!(handle_command("edit", request("secret", "10.0.0.6"), &settings(), &store()), Ok(Response::Dialog(bare)));
}

#[test]
fn list_command_shows_the_results() {
    let all = AttachedMessage {
        attachments: vec![Attachment {
            title: s("IP 목록"),
            fields: vec![field("10.0.0.5", "svc.example\nnot in use"), field("10.0.0.6", "in use")],
        }],
    };
    assert_eq!(handle_command("list", request("secret", ""), &settings(), &store()), Ok(Response::AttachedMessage(all)));
    let found = AttachedMessage {
        attachments: vec![Attachment { title: s("22의 검색 결과"), fields: vec![field("10.0.0.5", "22, 80")] }],
    };
    assert_eq!(handle_command("list", request("secret", "22"), &settings(), &store()), Ok(Response::AttachedMessage(found)));
    assert_eq!(handle_command("list", request("secret", "absent"), &settings(), &store()), Ok(Response::PlainText(s("IP not found"))));
    assert_eq!(handle_command("list", request("secret", ""), &settings(), &Store::new()), Ok(Response::PlainText(s("IP not found"))));
}

#[test]
fn issue_command_hands_out_an_entry_to_edit() {
    assert_eq!(handle_command("issue", request("secret", "22 80"), &settings(), &store()), Ok(Response::Dialog(edit_dialog_of_sample())));
    assert_eq!(handle_command("issue", request("secret", ""), &settings(), &store()), Ok(Response::Dialog(edit_dialog_of_sample())));
    assert_eq!(handle_command("issue", request("secret", "ssh  80 x"), &settings(), &store()), Ok(Response::Dialog(edit_dialog_of_sample())));
    assert_eq!(handle_command("issue", request("secret", "22 443"), &settings(), &store()), Ok(Response::PlainText(s("No available IP"))));
}

fn submission(token: &str, kind: &str, callback: &str, using: &str, ports: Option<&str>) -> Submission {
    Submission {
        submission_type: s(kind),
        submission: RawEntry { ip: s("10.0.0.5"), domain: None, using: s(using), open_ports: ports.map(s), description: Some(s("new")) },
        callback_id: s(callback),
        team: Team { id: s("T1"), domain: s("team") },
        user: User { id: s("U1"), name: s("someone") },
        channel: Channel { id: s("C1"), name: s("general") },
        action_ts: s("1"),
        token: s(token),
    }
}

#[test]
fn submission_writes_the_entry() {
    for callback in ["add", "edit"] {
        let mut store = store();
        assert_eq!(handle_submission(submission("secret", "dialog_submission", callback, "true", Some("22, x, 443")), &settings(), &mut store), Ok(()));
        assert_eq!(
            get("10.0.0.5", &store),
            Some(Entry { ip: s("10.0.0.5"), domain: None, using: true, open_ports: vec![22, 443], description: Some(s("new")) })
        );
        assert_eq!(store.len(), 2);
    }
}

#[test]
fn refused_submission_leaves_the_store() {
    let cases = [
        (submission("wrong", "dialog_submission", "add", "true", None), Error::InvalidToken),
        (submission("wrong", "other", "other", "true", None), Error::InvalidToken),
        (submission("secret", "interactive_message", "add", "true", None), Error::InvalidSubmission),
        (submission("secret", "interactive_message", "remove", "true", None), Error::InvalidSubmission),
        (submission("secret", "dialog_submission", "remove", "true", None), Error::SubmissionNotFound(s("remove"))),
    ];
    for (sub, error) in cases {
        let mut store = store();
        assert_eq!(handle_submission(sub, &settings(), &mut store), Err(error));
        assert_eq!(get("10.0.0.5", &store), Some(sample()));
        assert_eq!(store.len(), 2);
    }
}

#[test]
fn errors_in_words() {
    assert_eq!(Error::InvalidToken.message(), "Invalid token");
    assert_eq!(Error::InvalidSubmission.message(), "Invalid submission");
    assert_eq!(Error::CommandNotFound(s("remove")).message(), "No such command: remove");
    assert_eq!(Error::SubmissionNotFound(s("x y")).message(), "No such submission: x y");
    assert_eq!(Error::InvalidArgument.message(), "Invalid argument");
    assert_eq!(Error::NotFound.message(), "IP not found");
    assert_eq!(Error::BadResponse.message(), "Bad Slack Response");
}
