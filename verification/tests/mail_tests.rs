use appmesh::args::ArgMap;
use appmesh::codec::encode_value;
use appmesh::ports::mail;
use appmesh::ports::mail::{MailAction, MailConfig, MailboxInfo};

fn args_of(pairs: &[(&str, &str)]) -> ArgMap {
    let mut m = ArgMap::new();
    for (k, v) in pairs {
        m.insert(String::from(*k), String::from(*v));
    }
    m
}

fn no_config() -> MailConfig {
    MailConfig { url: None, user: None, pass: None }
}

#[test]
fn mail_schema_lists_every_command() {
    let cmds = mail::commands();
    let names: Vec<&str> = cmds.iter().map(|c| c.name.as_str()).collect();
    assert_eq!(
        names,
        vec![
            "connect", "status", "mailboxes", "query", "read", "mark_read", "identities",
            "send", "reply", "move", "delete", "flag", "unflag", "mark_unread", "search",
            "attachment_list", "attachment_download"
        ]
    );
}

#[test]
fn connect_uses_arguments_then_config() {
    let cfg = MailConfig {
        url: Some(String::from("https://cfg.example")),
        user: Some(String::from("cfg-user")),
        pass: None,
    };
    let a = mail::plan(
        "connect",
        &args_of(&[("pass", "SECRET-REDACTED"), ("user", "arg-user")]),
        &cfg,
    )
    .expect("argument and config credentials combine");
    match &a {
        MailAction::Connect { url, user, pass } => {
            assert_eq!(url, "https://cfg.example");
            assert_eq!(user, "arg-user");
            assert_eq!(pass, "SECRET-REDACTED");
        },
        _ => panic!("expected a connect request"),
    }
    let e = mail::plan("connect", &ArgMap::new(), &no_config()).expect_err("no url anywhere");
    assert_eq!(e.message, "missing 'url' argument and JMAP_URL not set");
}

#[test]
fn query_defaults() {
    let a = mail::plan("query", &ArgMap::new(), &no_config()).expect("defaults fill in");
    match &a {
        MailAction::Query { mailbox, limit } => {
            assert_eq!(mailbox, "Inbox");
            assert_eq!(*limit, 20);
        },
        _ => panic!("expected a query"),
    }
    let a = mail::plan(
        "query",
        &args_of(&[("mailbox", "Archive"), ("limit", "3")]),
        &no_config(),
    )
    .expect("explicit");
    match &a {
        MailAction::Query { mailbox, limit } => {
            assert_eq!(mailbox, "Archive");
            assert_eq!(*limit, 3);
        },
        _ => panic!("expected a query"),
    }
}

#[test]
fn delete_permanence_parses() {
    for (text, expect) in [("true", true), ("1", true), ("false", false), ("0", false)] {
        let a = mail::plan(
            "delete",
            &args_of(&[("id", "m1"), ("permanent", text)]),
            &no_config(),
        )
        .expect("delete with id");
        match &a {
            MailAction::Delete { permanent, .. } => assert_eq!(*permanent, expect),
            _ => panic!("expected a delete"),
        }
    }
    let e = mail::plan(
        "delete",
        &args_of(&[("id", "m1"), ("permanent", "yes")]),
        &no_config(),
    )
    .expect_err("an unrecognized flag is rejected");
    assert_eq!(e.message, "invalid 'permanent' argument");
}

#[test]
fn mail_requires_its_arguments() {
    let e = mail::plan("read", &ArgMap::new(), &no_config()).expect_err("id required");
    assert_eq!(e.message, "missing 'id' argument");
    let e = mail::plan("send", &args_of(&[("to", "a@b")]), &no_config())
        .expect_err("subject required");
    assert_eq!(e.message, "missing 'subject' argument");
    let e = mail::plan("search", &ArgMap::new(), &no_config()).expect_err("text required");
    assert_eq!(e.message, "missing 'text' argument");
    let e = mail::plan("bogus", &ArgMap::new(), &no_config()).expect_err("unknown command");
    assert_eq!(e.message, "unknown command: bogus");
    let e = mail::plan("query", &args_of(&[("limit", "many")]), &no_config())
        .expect_err("a malformed limit is rejected");
    assert_eq!(e.message, "invalid 'limit' argument");
    let e = mail::plan("search", &args_of(&[("text", "hi"), ("limit", "x")]), &no_config())
        .expect_err("a malformed limit is rejected");
    assert_eq!(e.message, "invalid 'limit' argument");
}

#[test]
fn download_names_default() {
    let a = mail::plan("attachment_download", &args_of(&[("id", "blob9")]), &no_config())
        .expect("blob id given");
    match &a {
        MailAction::AttachmentDownload { blob_id, name } => {
            assert_eq!(blob_id, "blob9");
            assert_eq!(name, "attachment");
        },
        _ => panic!("expected a download"),
    }
}

#[test]
fn host_extraction() {
    assert_eq!(mail::host_of("https://mail.example.com/jmap"), "mail.example.com");
    assert_eq!(mail::host_of("http://mail.example.com:8080/x"), "mail.example.com");
    assert_eq!(mail::host_of("mail.example.com:443"), "mail.example.com");
    assert_eq!(mail::host_of("https://bare"), "bare");
    assert_eq!(mail::host_of(""), "");
}

#[test]
fn reply_subjects() {
    assert_eq!(mail::reply_subject("Hello"), "Re: Hello");
    assert_eq!(mail::reply_subject("Re: Hello"), "Re: Hello");
    assert_eq!(mail::reply_subject("RE: Hello"), "RE: Hello");
    assert_eq!(mail::reply_subject("re: Hello"), "re: Hello");
    assert_eq!(mail::reply_subject(""), "Re: ");
}

#[test]
fn reply_reference_chains() {
    let refs = vec![String::from("r1"), String::from("r2")];
    let got = mail::reply_references(&refs, &Some(String::from("m1")))
        .expect("references plus id");
    assert_eq!(got, vec!["r1", "r2", "m1"]);
    let got = mail::reply_references(&vec![], &Some(String::from("m1"))).expect("id alone");
    assert_eq!(got, vec!["m1"]);
    let got = mail::reply_references(&refs, &None).expect("references alone");
    assert_eq!(got, vec!["r1", "r2"]);
    assert!(mail::reply_references(&vec![], &None).is_none());
    let got = mail::in_reply_to_ids(&Some(String::from("m9"))).expect("predecessor id");
    assert_eq!(got, vec!["m9"]);
    assert!(mail::in_reply_to_ids(&None).is_none());
}

fn mb(id: &str, name: &str, role: &str) -> MailboxInfo {
    MailboxInfo { id: String::from(id), name: String::from(name), role: String::from(role) }
}

#[test]
fn mailbox_lookup_matches_name_role_or_id() {
    let list = vec![
        mb("id1", "Inbox", "Some(Inbox)"),
        mb("id2", "Sent Items", "Some(Sent)"),
        mb("id3", "Junk", "None"),
    ];
    assert_eq!(mail::find_mailbox(&list, "inbox").unwrap(), "id1");
    assert_eq!(mail::find_mailbox(&list, "SENT ITEMS").unwrap(), "id2");
    assert_eq!(mail::find_mailbox(&list, "some(sent)").unwrap(), "id2");
    assert_eq!(mail::find_mailbox(&list, "id3").unwrap(), "id3");
    let e = mail::find_mailbox(&list, "Drafts").unwrap_err();
    assert_eq!(e.message, "mailbox not found: Drafts");
}

#[test]
fn address_rendering() {
    let list = vec![
        mail::Address { name: String::from(""), email: String::from("a@x") },
        mail::Address { name: String::from("Bea"), email: String::from("b@x") },
    ];
    assert_eq!(mail::format_addresses(&list), "a@x, Bea <b@x>");
    assert_eq!(mail::format_addresses(&vec![]), "");
}

#[test]
fn summary_and_detail_rendering() {
    let s = mail::EmailSummary {
        id: String::from("m1"),
        subject: String::from("S"),
        from_text: String::from("a@x"),
        date: String::from("2024-01-01"),
        preview: String::from("p"),
    };
    assert_eq!(
        encode_value(&mail::summary_value(&s)),
        "{\"id\":\"m1\",\"subject\":\"S\",\"from\":\"a@x\",\"date\":\"2024-01-01\",\"preview\":\"p\"}"
    );
    let d = mail::EmailDetails {
        id: String::from("m1"),
        subject: String::from("S"),
        from_text: String::from("a@x"),
        to_text: String::from("b@x"),
        date: String::from("d"),
        preview: String::from("p"),
        body: String::from("B"),
        keywords: vec![String::from("$seen")],
    };
    assert_eq!(
        encode_value(&mail::details_value(&d)),
        "{\"id\":\"m1\",\"subject\":\"S\",\"from\":\"a@x\",\"to\":\"b@x\",\"date\":\"d\",\"preview\":\"p\",\"body\":\"B\",\"keywords\":[\"$seen\"]}"
    );
    let a = mail::AttachmentInfo {
        name: String::from("f.pdf"),
        content_type: String::from("application/pdf"),
        size: 123,
        blob_id: String::from("bl"),
    };
    assert_eq!(
        encode_value(&mail::attachment_value(&a)),
        "{\"name\":\"f.pdf\",\"type\":\"application/pdf\",\"size\":123,\"blob_id\":\"bl\"}"
    );
    let m = mail::mailbox_value(&mail::MailboxEntry { info: mb("i", "N", "R"), total: 5, unread: 2 });
    assert_eq!(
        encode_value(&m),
        "{\"id\":\"i\",\"name\":\"N\",\"role\":\"R\",\"total\":5,\"unread\":2}"
    );
}

#[test]
fn identity_rendering() {
    let i = mail::IdentityInfo {
        id: String::from("i1"),
        name: String::from("Me"),
        email: String::from("me@x"),
        reply_to: String::from("r@x"),
    };
    assert_eq!(
        encode_value(&mail::identity_value(&i)),
        "{\"id\":\"i1\",\"name\":\"Me\",\"email\":\"me@x\",\"reply_to\":\"r@x\"}"
    );
}

#[test]
fn body_extraction_prefers_fetched_parts() {
    let mut values = ArgMap::new();
    values.insert(String::from("2"), String::from("the body"));
    let parts = vec![String::from("1"), String::from("2")];
    assert_eq!(mail::extract_body(&parts, &values, "preview"), "the body");
    assert_eq!(mail::extract_body(&vec![], &values, "preview"), "preview");
    let unfetched = vec![String::from("9")];
    assert_eq!(mail::extract_body(&unfetched, &values, "preview"), "preview");
}

#[test]
fn filenames_are_sanitized() {
    assert_eq!(mail::sanitize_name("safe-name_1.pdf"), "safe-name_1.pdf");
    assert_eq!(mail::sanitize_name("../evil name"), ".._evil_name");
}

#[test]
fn success_messages() {
    assert_eq!(
        mail::connect_ok_text("https://h", "u", "acct"),
        "connected to https://h as u (account: acct)"
    );
    assert_eq!(mail::mark_read_ok_text("m1"), "marked m1 as read");
    assert_eq!(mail::mark_unread_ok_text("m1"), "marked m1 as unread");
    assert_eq!(mail::flag_ok_text("m1"), "flagged m1");
    assert_eq!(mail::unflag_ok_text("m1"), "unflagged m1");
    assert_eq!(mail::moved_ok_text("m1", "Archive"), "moved m1 to Archive");
    assert_eq!(mail::deleted_ok_text("m1"), "deleted m1");
    assert_eq!(mail::trashed_ok_text("m1"), "moved m1 to Trash");
    assert_eq!(mail::sent_ok_text("a@b", "s9"), "sent to a@b (submission: s9)");
    assert_eq!(mail::replied_ok_text("m1", "s9"), "replied to m1 (submission: s9)");
    assert_eq!(mail::saved_ok_text("/tmp/f.pdf", 99), "saved to /tmp/f.pdf (99 bytes)");
    assert_eq!(mail::disconnected_text(), "disconnected");
}
