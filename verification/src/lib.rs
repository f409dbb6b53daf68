//! Typed client layer for the Postmark transactional-email HTTP API:
//! building and interpreting the "send email" exchange, and the data
//! model and wire codecs for the inbound webhook payload.

pub mod b64;
mod base_url;
mod client;
pub mod date;
mod json;
mod error;
pub mod inbound;
mod text;

pub use base_url::{
    base_url_problem, check_base_url, is_http_scheme, lemma_default_scheme_accepted,
    lemma_url_validation, BaseUrl,
};
pub use client::{
    build_send_body, email_url_spec, error_receipt_scan, html_part, interpret_send_parts,
    interpret_send_response, join_commas, join_recipients, parse_error_receipt, parse_send_receipt,
    path_part_end, recipient_views, send_body_spec, send_email_url, send_receipt_scan, text_part,
    Config, EmailBody, ErrorReceipt, OutboundEmail, SendReceipt,
};
pub use date::{
    days_in_month, format_spec, is_leap_year, iso_parse_spec, lemma_date_round_trip, parse_iso_utc,
    parse_spec, weekday_of, UtcDateTime,
};

pub use json::{escape_str, int_scan, push_quoted, quoted, skip_value_scan, str_scan, ws_end};
pub use error::{Error, PostmarkError};
pub use inbound::{
    array_json, attachment_fields, attachment_json, attachment_scan, header_fields, header_json,
    header_scan, inbound_fields, inbound_json, inbound_scan, lemma_inbound_codecs_round_trip,
    participant_fields, participant_json, participant_scan, Attachment, AttachmentFields, Header,
    HeaderFields, InboundEmail, InboundFields, Participant, ParticipantFields,
};
pub use b64::{decode_spec, encode_spec, lemma_base64_round_trip};
pub use text::{chars_to_string, str_to_chars};
