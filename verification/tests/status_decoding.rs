use ts_query_client::datastructures::{FromQueryString, QueryError, QueryStatus, WebQueryStatus};
use ts_query_client::datastructures::{NotifyTextMessage, SchandlerId};
use ts_query_client::protocol::{decode_records, decode_status};

#[test]
fn decode_status_success_identity() {
    let frame = String::from("error id=0 msg=ok\n\r");
    let out = decode_status(frame.clone()).unwrap();
    assert_eq!(out, frame);
}

#[test]
fn decode_status_success_keeps_data_lines() {
    let frame = String::from("schandlerid=1\nerror id=0 msg=ok\n\r");
    let out = decode_status(frame.clone()).unwrap();
    assert_eq!(out, frame);
}

#[test]
fn decode_status_without_status_line_is_empty_response() {
    let e = decode_status(String::from("just some data\n\r")).unwrap_err();
    assert_eq!(e.code(), -1);
    assert_eq!(e.message().as_str(), "Expect result but none found.");
}

#[test]
fn decode_status_empty_frame_is_empty_response() {
    let e = decode_status(String::new()).unwrap_err();
    assert_eq!(e.code(), -1);
}

#[test]
fn login_reply_ok() {
    assert!(decode_status(String::from("error id=0 msg=ok\n\r")).is_ok());
}

#[test]
fn login_reply_invalid_key() {
    let e = decode_status(String::from("error id=1281 msg=invalid\\sapikey\n\r")).unwrap_err();
    assert_eq!(e.code(), 1281);
    assert_eq!(e.message().as_str(), "invalid apikey");
}

#[test]
fn decode_status_unparsable_id() {
    let e = decode_status(String::from("error id=abc msg=x\n\r")).unwrap_err();
    assert_eq!(e.code(), -2);
    assert_eq!(e.message().as_str(), "Got parser error: error id=abc msg=x");
}

#[test]
fn decode_status_indented_status_line() {
    let frame = String::from("  error id=0 msg=ok\n\r");
    assert_eq!(decode_status(frame.clone()).unwrap(), frame);
}

#[test]
fn query_status_try_from_parses_line() {
    let st = QueryStatus::try_from("error id=0 msg=ok").unwrap();
    assert_eq!(st.id(), 0);
    assert_eq!(st.msg().as_str(), "ok");
}

#[test]
fn query_status_try_from_splits_at_first_marker() {
    let st = QueryStatus::try_from("x error id=768 msg=hi").unwrap();
    assert_eq!(st.id(), 768);
    assert_eq!(st.msg().as_str(), "hi");
}

#[test]
fn query_status_try_from_rejects_overflow() {
    let e = QueryStatus::try_from("error id=99999999999999999999 msg=x").unwrap_err();
    assert_eq!(e.code(), -2);
}

#[test]
fn query_status_default_is_ok() {
    let st = QueryStatus::default();
    assert_eq!(st.id(), 0);
    assert_eq!(st.msg().as_str(), "ok");
}

#[test]
fn query_status_into_result_keeps_value_on_success() {
    let st = QueryStatus::default();
    assert_eq!(st.into_result(7u32).unwrap(), 7);
}

#[test]
fn query_status_into_err_carries_code_and_message() {
    let st = QueryStatus::try_from("error id=5 msg=boom").unwrap();
    let e = st.into_err();
    assert_eq!(e.code(), 5);
    assert_eq!(e.message().as_str(), "boom");
}

#[test]
fn query_error_describe_formats_message_and_code() {
    let e = QueryError::decode_error("x");
    assert_eq!(e.describe(), "Decode result error: x(-3)");
}

#[test]
fn query_error_constructors_use_their_codes() {
    assert_eq!(QueryError::static_empty_response().code(), -1);
    assert_eq!(QueryError::send_message_error(String::from("z")).code(), -2);
    assert_eq!(
        QueryError::send_message_error(String::from("z")).message().as_str(),
        "Unable to send message, raw data => z"
    );
    assert_eq!(QueryError::decode_error("z").code(), -3);
}

#[test]
fn web_query_status_converts() {
    let st = WebQueryStatus::new(3, String::from("a")).into_status();
    assert_eq!(st.id(), 3);
    assert_eq!(st.msg().as_str(), "a");
}

#[test]
fn decode_records_one_handle() {
    let r = decode_records::<SchandlerId>(String::from("schandlerid=2\nerror id=0 msg=ok\n\r"))
        .unwrap()
        .unwrap();
    assert_eq!(r.len(), 1);
    assert_eq!(r[0].schandler_id(), 2);
}

#[test]
fn decode_records_splits_on_pipe() {
    let r = decode_records::<SchandlerId>(String::from(
        "schandlerid=1|schandlerid=2\nerror id=0 msg=ok\n\r",
    ))
    .unwrap()
    .unwrap();
    assert_eq!(r.len(), 2);
    assert_eq!(r[0].schandler_id(), 1);
    assert_eq!(r[1].schandler_id(), 2);
}

#[test]
fn decode_records_none_without_data_line() {
    let r = decode_records::<SchandlerId>(String::from("error id=0 msg=ok")).unwrap();
    assert!(r.is_none());
}

#[test]
fn decode_records_passes_status_error_through() {
    let e = decode_records::<SchandlerId>(String::from("error id=5 msg=x\n\r")).unwrap_err();
    assert_eq!(e.code(), 5);
}

#[test]
fn decode_records_undecodable_record() {
    let e =
        decode_records::<SchandlerId>(String::from("bogus=1\nerror id=0 msg=ok")).unwrap_err();
    assert_eq!(e.code(), -3);
}

#[test]
fn notify_from_query_parses_fields() {
    let n = NotifyTextMessage::from_query("targetmode=2 msg=hello\\sthere invokername=bob")
        .unwrap();
    assert_eq!(n.msg(), "hello there");
    assert_eq!(n.invoker_name(), "bob");
}

#[test]
fn notify_from_query_defaults_invoker_name() {
    let n = NotifyTextMessage::from_query("msg=hi").unwrap();
    assert_eq!(n.msg(), "hi");
    assert_eq!(n.invoker_name(), "");
}

#[test]
fn notify_from_query_needs_msg() {
    let e = NotifyTextMessage::from_query("invokername=bob").unwrap_err();
    assert_eq!(e.code(), -3);
}

#[test]
fn schandler_from_query_parses_handle() {
    let s = SchandlerId::from_query("schandlerid=-4").unwrap();
    assert_eq!(s.schandler_id(), -4);
}

#[test]
fn schandler_from_query_needs_number() {
    assert_eq!(SchandlerId::from_query("schandlerid=x").unwrap_err().code(), -3);
    assert_eq!(SchandlerId::from_query("\r").unwrap_err().code(), -3);
}
