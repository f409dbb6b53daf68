use postmarkee::inbound;
use postmarkee::{Attachment, Header, InboundEmail, Participant, UtcDateTime};

fn participant(email: &str, name: &str, hash: &str) -> Participant {
    Participant {
        email: email.to_owned(),
        name: name.to_owned(),
        mailbox_hash: hash.to_owned(),
    }
}

fn sample_email() -> InboundEmail {
    InboundEmail {
        from_name: "Postmarkapp Support".to_owned(),
        message_stream: "inbound".to_owned(),
        from_full: participant("support@postmarkapp.com", "Postmarkapp Support", ""),
        to_full: vec![
            participant("hash+SampleHash@inbound.postmarkapp.com", "Firstname Lastname", "SampleHash"),
            participant("second@inbound.postmarkapp.com", "", ""),
        ],
        cc_full: vec![participant("cc@postmarkapp.com", "Cc Person", "")],
        bcc_full: vec![],
        original_recipient: "hash+SampleHash@inbound.postmarkapp.com".to_owned(),
        subject: "Test subject \"quoted\"".to_owned(),
        message_id: "73e6d360-66eb-11e1-8e72-a8904824019b".to_owned(),
        reply_to: "replyto@example.com".to_owned(),
        mailbox_hash: "SampleHash".to_owned(),
        date: UtcDateTime {
            year: 2014,
            month: 2,
            day: 17,
            hour: 12,
            minute: 25,
            second: 1,
            nanosecond: 0,
        },
        text_body: "This is a test text body.\nLine two.".to_owned(),
        html_body: "<html><body><p>This is a test</p></body></html>".to_owned(),
        stripped_text_reply: "Ok, thanks for letting me know!".to_owned(),
        tag: "TestTag".to_owned(),
        headers: vec![
            Header { name: "X-Spam-Status".to_owned(), value: "No".to_owned() },
            Header { name: "Received-SPF".to_owned(), value: "pass".to_owned() },
        ],
        attachments: vec![Attachment {
            name: "test.txt".to_owned(),
            content: b"This is attachment contents, base-64 encoded.".to_vec(),
            content_type: "text/plain".to_owned(),
            content_length: 45,
        }],
    }
}

#[test]
fn test_serialize() {
    let email = sample_email();
    let serialized = inbound::serialize(&email);

    // the emitted text is valid JSON with the PascalCase member names
    let value: serde_json::Value = serde_json::from_str(&serialized).unwrap();
    assert_eq!(
        value["FromName"],
        serde_json::Value::String("Postmarkapp Support".to_owned())
    );
    assert_eq!(
        value["MessageID"],
        serde_json::Value::String("73e6d360-66eb-11e1-8e72-a8904824019b".to_owned())
    );
    assert_eq!(
        value["Date"],
        serde_json::Value::String("Mon, 17 Feb 2014 12:25:01 +00:00".to_owned())
    );
    assert_eq!(
        value["ToFull"][0]["MailboxHash"],
        serde_json::Value::String("SampleHash".to_owned())
    );
    assert_eq!(
        value["Attachments"][0]["Content"],
        serde_json::Value::String(base64::encode(
            b"This is attachment contents, base-64 encoded."
        ))
    );
    assert_eq!(
        value["Attachments"][0]["ContentLength"],
        serde_json::Value::Number(45.into())
    );
}

#[test]
fn test_deserialize() {
    let email = sample_email();
    let serialized = inbound::serialize(&email);
    let parsed = inbound::deserialize(&serialized).unwrap();
    assert_eq!(parsed, email);
}

#[test]
fn deserialize_accepts_any_member_order_and_skips_unknowns() {
    let email = sample_email();
    let serialized = inbound::serialize(&email);
    // rebuild the object with members reordered and one extra member
    let value: serde_json::Value = serde_json::from_str(&serialized).unwrap();
    let object = value.as_object().unwrap();
    let mut reordered = serde_json::Map::new();
    reordered.insert("Unknown".to_owned(), serde_json::Value::from(1.5));
    let mut keys: Vec<&String> = object.keys().collect();
    keys.reverse();
    for key in keys {
        reordered.insert(key.clone(), object[key.as_str()].clone());
    }
    let text = serde_json::to_string_pretty(&serde_json::Value::Object(reordered)).unwrap();
    let parsed = inbound::deserialize(&text).unwrap();
    assert_eq!(parsed, email);
}

#[test]
fn deserialize_rejects_missing_members_and_bad_content() {
    assert!(inbound::deserialize("{}").is_err());
    assert!(inbound::deserialize("not json").is_err());

    let email = sample_email();
    let serialized = inbound::serialize(&email);
    let broken = serialized.replace("\"Date\":\"Mon,", "\"Date\":\"Mon;");
    assert!(inbound::deserialize(&broken).is_err());
}

#[test]
fn round_trip_keeps_empty_collections() {
    let mut email = sample_email();
    email.to_full = vec![];
    email.cc_full = vec![];
    email.headers = vec![];
    email.attachments = vec![];
    email.text_body = String::new();
    let serialized = inbound::serialize(&email);
    assert_eq!(inbound::deserialize(&serialized).unwrap(), email);
}

#[test]
fn round_trip_keeps_attachment_bytes() {
    let mut email = sample_email();
    email.attachments = vec![Attachment {
        name: "blob.bin".to_owned(),
        content: (0u16..=255).map(|b| b as u8).collect(),
        content_type: "application/octet-stream".to_owned(),
        content_length: 256,
    }];
    let serialized = inbound::serialize(&email);
    assert_eq!(inbound::deserialize(&serialized).unwrap(), email);
}
