use chrono::{Datelike, Timelike, Utc};
use postmarkee::{
    build_send_body, interpret_send_parts, interpret_send_response, join_recipients,
    parse_error_receipt, parse_send_receipt, send_email_url, BaseUrl, EmailBody, Error,
    ErrorReceipt, OutboundEmail, PostmarkError, SendReceipt, UtcDateTime,
};

#[test]
fn deserialize_error_receipt() {
    let json = r#"
        {
            "ErrorCode": 405,
            "Message": "details"
        }
    "#;

    let receipt: ErrorReceipt = parse_error_receipt(json).unwrap();

    assert_eq!(
        receipt,
        ErrorReceipt {
            error_code: 405,
            message: "details".to_owned()
        }
    );
}

#[test]
fn deserialize_send_receipt() {
    let json = r#"
        {
            "To": "receiver@example.com",
            "SubmittedAt": "2014-02-17T07:25:01.4178645-05:00",
            "MessageID": "0a129aee-e1cd-480d-b08d-4f48548ff48d",
            "ErrorCode": 0,
            "Message": "OK"
        }
    "#;

    let receipt: SendReceipt = parse_send_receipt(json).unwrap();

    assert_eq!(
        receipt,
        SendReceipt {
            to: "receiver@example.com".to_owned(),
            submitted_at: UtcDateTime {
                year: 2014,
                month: 2,
                day: 17,
                hour: 12,
                minute: 25,
                second: 1,
                nanosecond: 417864500,
            },
            message_id: "0a129aee-e1cd-480d-b08d-4f48548ff48d".to_owned(),
        }
    );
}

#[test]
fn send_receipt_time_agrees_with_chrono() {
    let receipt = parse_send_receipt(
        r#"{"To":"a@b.c","SubmittedAt":"2014-02-17T07:25:01.4178645-05:00","MessageID":"x"}"#,
    )
    .unwrap();
    let reference = chrono::DateTime::parse_from_rfc3339("2014-02-17T07:25:01.4178645-05:00")
        .unwrap()
        .with_timezone(&Utc);
    assert_eq!(receipt.submitted_at.year as i32, reference.year());
    assert_eq!(receipt.submitted_at.month as u32, reference.month());
    assert_eq!(receipt.submitted_at.day as u32, reference.day());
    assert_eq!(receipt.submitted_at.hour as u32, reference.hour());
    assert_eq!(receipt.submitted_at.minute as u32, reference.minute());
    assert_eq!(receipt.submitted_at.second as u32, reference.second());
    assert_eq!(receipt.submitted_at.nanosecond, reference.nanosecond());
}

#[test]
fn body_decomposes_by_variant() {
    assert_eq!(EmailBody::Html("<b>hi</b>").into_tuple(), (Some("<b>hi</b>"), None));
    assert_eq!(EmailBody::Text("hi").into_tuple(), (None, Some("hi")));
    assert_eq!(
        EmailBody::Both { html: "<b>hi</b>", text: "hi" }.into_tuple(),
        (Some("<b>hi</b>"), Some("hi"))
    );
}

#[test]
fn recipients_join_with_commas() {
    assert_eq!(join_recipients(&[]), "");
    assert_eq!(join_recipients(&["a@b.c"]), "a@b.c");
    assert_eq!(join_recipients(&["a@b.c", "d@e.f", "g@h.i"]), "a@b.c,d@e.f,g@h.i");
}

#[test]
fn send_body_has_the_wire_shape() {
    let email = OutboundEmail {
        recipients: &["to@example.com", "cc@example.com"],
        subject: "Hi",
        body: EmailBody::Both { html: "<p>Hi</p>", text: "Hi" },
    };
    let body = build_send_body("from@example.com", Some("outbound"), &email);
    assert_eq!(
        body,
        "{\"From\":\"from@example.com\",\"To\":\"to@example.com,cc@example.com\",\"Subject\":\"Hi\",\"HtmlBody\":\"<p>Hi</p>\",\"TextBody\":\"Hi\",\"MessageStream\":\"outbound\"}"
    );

    let email = OutboundEmail {
        recipients: &["to@example.com"],
        subject: "Quote \" and newline \n",
        body: EmailBody::Text("plain"),
    };
    let body = build_send_body("from@example.com", None, &email);
    assert_eq!(
        body,
        "{\"From\":\"from@example.com\",\"To\":\"to@example.com\",\"Subject\":\"Quote \\\" and newline \\n\",\"TextBody\":\"plain\"}"
    );
    let parsed: serde_json::Value = serde_json::from_str(&body).unwrap();
    assert_eq!(parsed["Subject"], serde_json::Value::String("Quote \" and newline \n".to_owned()));
}

#[test]
fn send_url_appends_the_email_segment() {
    assert_eq!(
        send_email_url(&BaseUrl::default()),
        "https://api.postmarkapp.com/email"
    );
    let base = BaseUrl::try_from("https://example.org/sub".parse::<url::Url>().unwrap()).unwrap();
    assert_eq!(send_email_url(&base), "https://example.org/sub/email");
}

#[test]
fn status_mapping_is_strict() {
    let receipt = SendReceipt {
        to: "a@b.c".to_owned(),
        submitted_at: UtcDateTime {
            year: 2014,
            month: 2,
            day: 17,
            hour: 12,
            minute: 25,
            second: 1,
            nanosecond: 0,
        },
        message_id: "id".to_owned(),
    };
    let rejection = ErrorReceipt { error_code: 300, message: "bad address".to_owned() };

    let r = interpret_send_parts(200, Ok(receipt.clone()), Err("unused".to_owned()));
    assert_eq!(r, Ok(receipt.clone()));

    let r = interpret_send_parts(422, Err("unused".to_owned()), Ok(rejection.clone()));
    assert_eq!(
        r,
        Err(Error::Postmark(PostmarkError::UnprocessableEntity(rejection.clone())))
    );

    let r = interpret_send_parts(404, Err("unused".to_owned()), Err("unused".to_owned()));
    assert_eq!(r, Err(Error::Postmark(PostmarkError::Other(404))));

    let r = interpret_send_parts(200, Err("no body".to_owned()), Err("unused".to_owned()));
    assert_eq!(r, Err(Error::HttpClient("no body".to_owned())));
}

#[test]
fn response_interpretation_reads_the_body_by_status() {
    let ok_body = r#"{"To":"a@b.c","SubmittedAt":"2014-02-17T07:25:01Z","MessageID":"id"}"#;
    let r = interpret_send_response(200, ok_body).unwrap();
    assert_eq!(r.to, "a@b.c");
    assert_eq!(r.message_id, "id");

    let err_body = r#"{"ErrorCode":405,"Message":"details"}"#;
    let r = interpret_send_response(422, err_body);
    assert_eq!(
        r,
        Err(Error::Postmark(PostmarkError::UnprocessableEntity(ErrorReceipt {
            error_code: 405,
            message: "details".to_owned()
        })))
    );

    let r = interpret_send_response(500, "ignored");
    assert_eq!(r, Err(Error::Postmark(PostmarkError::Other(500))));

    let r = interpret_send_response(200, "not json");
    assert!(matches!(r, Err(Error::HttpClient(_))));
}

#[test]
fn error_messages_follow_the_original_wording() {
    let e = Error::Url {
        url: "wss://example.com/".to_owned(),
        reason: "expecting an HTTP URL".to_owned(),
    };
    assert_eq!(e.message(), "expecting an HTTP URL, was `wss://example.com/`");

    let e = Error::Postmark(PostmarkError::Other(503));
    assert_eq!(e.message(), "received response with status code `503`");

    let e = Error::Postmark(PostmarkError::UnprocessableEntity(ErrorReceipt {
        error_code: 405,
        message: "details".to_owned(),
    }));
    assert_eq!(e.message(), "received response with error `405 - details`");

    let e = Error::HttpClient("connection reset".to_owned());
    assert_eq!(e.message(), "connection reset");
}

#[test]
fn receipt_parsers_reject_incomplete_bodies() {
    assert!(parse_error_receipt("{}").is_err());
    assert!(parse_error_receipt("[]").is_err());
    assert!(parse_error_receipt(r#"{"ErrorCode":70000,"Message":"x"}"#).is_err());
    assert!(parse_error_receipt(r#"{"ErrorCode":1,"Message":"x"} trailing"#).is_err());
    assert!(parse_send_receipt(r#"{"To":"a@b.c"}"#).is_err());
    assert!(parse_send_receipt(r#"{"To":"a@b.c","SubmittedAt":"nope","MessageID":"x"}"#).is_err());
}

#[test]
fn string_members_unescape_the_full_range() {
    let receipt =
        parse_error_receipt(r#"{"ErrorCode":1,"Message":"Aé€😀 \n\t\" ok"}"#)
            .unwrap();
    assert_eq!(receipt.message, "A\u{e9}\u{20ac}\u{1f600} \n\t\" ok");
    let reference: serde_json::Value =
        serde_json::from_str(r#""Aé€😀 \n\t\" ok""#).unwrap();
    assert_eq!(receipt.message, reference.as_str().unwrap());

    assert!(parse_error_receipt(r#"{"ErrorCode":1,"Message":"\ud83d"}"#).is_err());
    assert!(parse_error_receipt(r#"{"ErrorCode":1,"Message":"\ude00"}"#).is_err());
}

#[test]
fn send_url_keeps_query_and_fragment_after_the_segment() {
    let base = BaseUrl::try_from("https://example.org/p?q=1".parse::<url::Url>().unwrap()).unwrap();
    let mine = send_email_url(&base);
    assert_eq!(mine, "https://example.org/p/email?q=1");
    let mut reference = "https://example.org/p?q=1".parse::<url::Url>().unwrap();
    reference.path_segments_mut().unwrap().push("email");
    assert_eq!(mine, reference.as_str());

    let base = BaseUrl::try_from("https://example.org/p#frag".parse::<url::Url>().unwrap()).unwrap();
    assert_eq!(send_email_url(&base), "https://example.org/p/email#frag");
}
