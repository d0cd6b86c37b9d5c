use ip_manager::app::{show_get_info, App, Command};
use ip_manager::error::Error;
use ip_manager::ip::{add, Entry};
use ip_manager::settings::Settings;
use ip_manager::slack::dialog::{open, open_arguments, Dialog, OpenResponse};
use ip_manager::slack::slash_command::Request;
use ip_manager::slack::{encode_url, request_uri, AttachedMessage, Attachment, AttachmentFields};
use ip_manager::store::Store;
use ip_manager::Response;

fn s(t: &str) -> String {
    t.to_string()
}

#[test]
fn encode_url_escapes_four_characters() {
    assert_eq!(encode_url("a b<c>d#e"), "a%20b%3Cc%3Ed%23e");
    assert_eq!(encode_url(""), "");
    assert_eq!(encode_url("{\"title\":\"IP 추가\"}"), "{\"title\":\"IP%20추가\"}");
    assert_eq!(encode_url("100%&="), "100%&=");
    let plain = "a b<c>d#e % #<> ";
    assert_eq!(encode_url(plain), plain.replace(" ", "%20").replace("<", "%3C").replace(">", "%3E").replace("#", "%23"));
}

#[test]
fn request_uri_joins_the_arguments() {
    let arguments = vec![(s("token"), s("x y")), (s("trigger_id"), s("1#2"))];
    assert_eq!(request_uri("dialog.open", &arguments), "https://slack.com/api/dialog.open?token=x%20y&trigger_id=1%232");
    assert_eq!(request_uri("dialog.open", &vec![(s("a"), s(""))]), "https://slack.com/api/dialog.open?a=");
    assert_eq!(request_uri("api.test", &Vec::new()), "https://slack.com/api/api.test");
}

#[test]
fn open_arguments_are_token_dialog_and_trigger() {
    assert_eq!(
        open_arguments(s("api"), s("{}"), s("trigger")),
        vec![(s("token"), s("api")), (s("dialog"), s("{}")), (s("trigger_id"), s("trigger"))]
    );
}

#[test]
fn open_fails_on_a_bad_answer() {
    assert_eq!(open(&OpenResponse { ok: true }), Ok(()));
    assert_eq!(open(&OpenResponse { ok: false }), Err(Error::BadResponse));
}

#[test]
fn new_dialog_has_no_elements() {
    let d = Dialog::new(s("add"), s("IP 추가"));
    assert_eq!(d, Dialog { callback_id: s("add"), title: s("IP 추가"), elements: vec![] });
}

fn request(token: &str, text: &str) -> Request {
    Request {
        token: s(token),
        team_id: s("T1"),
        team_domain: s("team"),
        channel_id: s("C1"),
        channel_name: s("general"),
        user_id: s("U1"),
        user_name: s("someone"),
        text: s(text),
        response_url: s("https://hooks.example/1"),
        trigger_id: s("trigger"),
    }
}

fn app() -> App {
    App::new(Settings { verification_token: s("secret"), api_token: s("api"), data_path: s("data") })
}

fn store() -> Store {
    let mut store = Store::new();
    add(&Entry { ip: s("10.0.0.5"), domain: Some(s("svc.example")), using: true, open_ports: vec![22, 80], description: None }, &mut store);
    store
}

fn info() -> AttachedMessage {
    AttachedMessage {
        attachments: vec![Attachment {
            title: s(""),
            fields: vec![
                AttachmentFields { title: s("IP"), value: s("10.0.0.5") },
                AttachmentFields { title: s("도메인"), value: s("svc.example") },
                AttachmentFields { title: s("사용 여부"), value: s("in use") },
                AttachmentFields { title: s("개방 포트"), value: s("22, 80\n") },
            ],
        }],
    }
}

#[test]
fn app_validates_the_token() {
    assert!(app().validate("secret"));
    assert!(!app().validate("Secret"));
    assert!(!app().validate(""));
    assert_eq!(app().handle_command(Command::Get, request("wrong", "10.0.0.5"), &store()), Response::PlainText(s("Error: Validation error")));
}

#[test]
fn app_answers_get_add_and_the_rest() {
    assert_eq!(app().handle_command(Command::Get, request("secret", "10.0.0.5"), &store()), Response::AttachedMessage(info()));
    assert_eq!(app().handle_command(Command::Get, request("secret", ""), &store()), Response::PlainText(s("Error: Invalid argument")));
    assert_eq!(app().handle_command(Command::Get, request("secret", "10.0.0.9"), &store()), Response::PlainText(s("Error: IP not found")));
    assert_eq!(app().handle_command(Command::Edit, request("secret", "10.0.0.5"), &store()), Response::PlainText(s("Nope")));
    assert_eq!(app().handle_command(Command::Issue, request("secret", ""), &store()), Response::PlainText(s("Nope")));
    match app().handle_command(Command::Add, request("secret", ""), &store()) {
        Response::Dialog(d) => {
            assert_eq!(d.callback_id, "add");
            assert_eq!(d.elements.len(), 5);
        }
        other => panic!("{:?}", other),
    }
}

#[test]
fn app_get_command_reports_what_is_wrong() {
    assert_eq!(app().get_command(request("secret", "10.0.0.5"), &store()), Ok(info()));
    assert_eq!(app().get_command(request("secret", ""), &store()), Err(Error::InvalidArgument));
    assert_eq!(app().get_command(request("secret", "10.0.0.9"), &store()), Err(Error::NotFound));
    let e = Entry { ip: s("x"), domain: None, using: false, open_ports: vec![], description: Some(s("d")) };
    assert_eq!(
        show_get_info(&e).attachments[0].fields,
        vec![
            AttachmentFields { title: s("IP"), value: s("x") },
            AttachmentFields { title: s("사용 여부"), value: s("not in use") },
            AttachmentFields { title: s("설명"), value: s("d") },
        ]
    );
}

#[test]
fn app_show_add_dialog_asks_for_the_dialog() {
    let r = app().show_add_dialog(request("secret", ""));
    assert_eq!(r.token, "api");
    assert_eq!(r.trigger_id, "trigger");
    assert_eq!(r.dialog.callback_id, "add");
    assert_eq!(r.dialog.title, "IP 추가");
    assert_eq!(r.dialog.elements.len(), 5);
}

#[test]
fn app_names_the_other_commands() {
    assert_eq!(app().edit_command(request("secret", "")), Ok(s("edit")));
    assert_eq!(app().issue_command(request("secret", "")), Ok(s("issue")));
}
