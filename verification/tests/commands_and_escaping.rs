use ts_query_client::is_terminated;
use ts_query_client::protocol::{
    BUFFER_SIZE, channel_message_payload, check_send_reply, current_tab_payload, escape,
    frame_complete, keep_alive_payload, keepalive_alive, login_payload, private_message_payload,
    register_event_payload, text_message_payload,
};

#[test]
fn escape_blank() {
    assert_eq!(escape("hello world"), "hello\\sworld");
}

#[test]
fn escape_backslash_without_double_escape() {
    assert_eq!(escape("a\\b"), "a\\\\b");
}

#[test]
fn escape_slash_and_mixed() {
    assert_eq!(escape("a/b c\\"), "a\\/b\\sc\\\\");
}

#[test]
fn escape_empty_is_empty() {
    assert_eq!(escape(""), "");
}

#[test]
fn channel_message_payload_exact_bytes() {
    assert_eq!(
        channel_message_payload(1, "hi there"),
        "sendtextmessage schandlerid=1 targetmode=2 target=0 msg=hi\\sthere\n\r"
    );
}

#[test]
fn private_message_payload_exact_bytes() {
    assert_eq!(
        private_message_payload(2, 77, "yo"),
        "sendtextmessage schandlerid=2 targetmode=1 target=77 msg=yo\n\r"
    );
}

#[test]
fn text_message_payload_negative_ids() {
    assert_eq!(
        text_message_payload(2, -3, 0, "a"),
        "sendtextmessage schandlerid=-3 targetmode=2 target=0 msg=a\n\r"
    );
}

#[test]
fn fixed_payloads() {
    assert_eq!(login_payload("KEY1"), "auth apikey=KEY1\n\r");
    assert_eq!(
        register_event_payload(),
        "clientnotifyregister schandlerid=0 event=notifytextmessage\n\r"
    );
    assert_eq!(keep_alive_payload(), "whoami\n\r");
    assert_eq!(current_tab_payload(), "currentschandlerid\n\r");
}

#[test]
fn send_reply_echo_mismatch() {
    let e = check_send_reply(String::from("notifytextmessage msg=goodbye"), "hello").unwrap_err();
    assert_eq!(e.code(), -2);
    assert_eq!(e.message().as_str(), "Unable to send message, raw data => None (No equal)");
}

#[test]
fn send_reply_echo_match() {
    let reply = String::from("notifytextmessage targetmode=2 msg=hi\\sthere invokername=me\n\r");
    assert!(check_send_reply(reply, "hi there").is_ok());
}

#[test]
fn send_reply_echo_undecodable() {
    let e = check_send_reply(String::from("notifytextmessage invokername=me"), "x").unwrap_err();
    assert_eq!(e.code(), -3);
}

#[test]
fn send_reply_plain_status_ok() {
    assert!(check_send_reply(String::from("error id=0 msg=ok\n\r"), "x").is_ok());
}

#[test]
fn send_reply_plain_status_error() {
    let e = check_send_reply(String::from("error id=768 msg=nope\n\r"), "x").unwrap_err();
    assert_eq!(e.code(), 768);
}

#[test]
fn keepalive_alive_with_both_tokens() {
    assert!(keepalive_alive("clid=5 cid=3\n\r"));
}

#[test]
fn keepalive_not_alive_with_one_token() {
    assert!(!keepalive_alive("cid=3\n\r"));
    assert!(!keepalive_alive("clid=3\n\r"));
    assert!(!keepalive_alive(""));
}

#[test]
fn frame_complete_on_short_chunk() {
    assert!(frame_complete("anything", 100, BUFFER_SIZE));
}

#[test]
fn frame_complete_on_status_terminator() {
    assert!(frame_complete("error id=0 msg=ok\n\r", BUFFER_SIZE, BUFFER_SIZE));
}

#[test]
fn frame_incomplete_on_full_chunk_without_status() {
    assert!(!frame_complete("partial data", BUFFER_SIZE, BUFFER_SIZE));
}

#[test]
fn frame_incomplete_when_terminator_not_last() {
    assert!(!frame_complete("error id=0 msg=ok\n\rmore", BUFFER_SIZE, BUFFER_SIZE));
}

#[test]
fn every_built_payload_is_terminated() {
    assert!(is_terminated(&login_payload("K")));
    assert!(is_terminated(&register_event_payload()));
    assert!(is_terminated(&keep_alive_payload()));
    assert!(is_terminated(&current_tab_payload()));
    assert!(is_terminated(&channel_message_payload(1, "a b")));
}

#[test]
fn terminator_order_matters() {
    assert!(is_terminated("whoami\n\r"));
    assert!(!is_terminated("whoami\r\n"));
    assert!(!is_terminated("\n"));
    assert!(!is_terminated(""));
}
