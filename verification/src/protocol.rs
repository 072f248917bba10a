//! The commands and replies of the protocol: locating and decoding the
//! status line of a frame, decoding record lines, building the outbound
//! command payloads, the liveness heuristic, and the check of a
//! message-send reply against its echo.

use vstd::prelude::*;
use vstd::string::StringExecFns;
use crate::datastructures::{
    FromQueryString, NotifyTextMessage, QueryError, QueryResult, QueryStatus,
    spec_decode_error_msg, spec_empty_response_msg, spec_parse_fail_msg, spec_send_error_msg,
    spec_status_of_line,
};
use crate::numbers::{format_i64, spec_int_str};
use crate::query::{escape_chars, spec_escape};
use crate::text::{
    chars_string, contains_seq, contains_sub, ends_with_chars, ends_with_seq, find_sub,
    find_sub_from, spec_lines, spec_split, spec_trim, split_lines, split_on_char, starts_with_chars,
    starts_with_seq, str_chars, sub_chars, trim_chars, views,
};

verus! {

/// What a frame's status line says: no status line at all, a status
/// line that would not parse (carrying the offending line), or a parsed
/// status code and message.
pub enum StatusModel {
    NoStatus,
    Unparsable(Seq<char>),
    Status(int, Seq<char>),
}

/// Index of the first line whose trimmed form starts with `error `.
pub open spec fn error_line_from(ls: Seq<Seq<char>>, i: int) -> Option<int>
    decreases ls.len() - i when 0 <= i <= ls.len()
{
    if i >= ls.len() {
        None
    } else if starts_with_seq(spec_trim(ls[i]), "error "@) {
        Some(i)
    } else {
        error_line_from(ls, i + 1)
    }
}

/// The status the frame `s` carries.
pub open spec fn spec_decode_status(s: Seq<char>) -> StatusModel {
    let ls = spec_lines(s);
    match error_line_from(ls, 0) {
        None => StatusModel::NoStatus,
        Some(i) => match spec_status_of_line(ls[i]) {
            None => StatusModel::Unparsable(ls[i]),
            Some(m) => StatusModel::Status(m.0, m.1),
        },
    }
}

/// Scans the frame for its status line.  On status code zero the whole
/// frame comes back unchanged; any other code is the server's error; a
/// frame without a status line is the distinguished empty-response
/// error, and one whose status line will not parse is a parse error.
#[verifier::loop_isolation(false)]
pub fn decode_status(content: String) -> (r: QueryResult<String>)
    ensures
        match spec_decode_status(content@) {
            StatusModel::NoStatus => r matches Err(e) && e@ == (
                -1int,
                spec_empty_response_msg(),
            ),
            StatusModel::Unparsable(line) => r matches Err(e) && e@ == (
                -2int,
                spec_parse_fail_msg(line),
            ),
            StatusModel::Status(id, msg) => if id == 0 {
                r == Ok::<String, QueryError>(content)
            } else {
                r matches Err(e) && e@ == (id, msg)
            },
        },
{
    let v = str_chars(content.as_str());
    let ls = split_lines(&v);
    let marker = str_chars("error ");
    let n = ls.len();
    let mut i: usize = 0;
    while i < n
        invariant
            n == ls@.len(),
            views(ls@).len() == n,
            i <= n,
            views(ls@) == spec_lines(content@),
            error_line_from(views(ls@), 0) == error_line_from(views(ls@), i as int),
        decreases n - i,
    {
        let line = &ls[i];
        proof {
            assert(views(ls@)[i as int] == line@);
        }
        let t = trim_chars(line);
        if starts_with_chars(&t, &marker) {
            proof {
                assert(error_line_from(views(ls@), i as int) == Some(i as int));
            }
            let line_str = chars_string(line);
            match QueryStatus::try_from(line_str.as_str()) {
                Err(e) => {
                    return Err(e);
                },
                Ok(st) => {
                    return st.into_result(content);
                },
            }
        }
        proof {
            assert(error_line_from(views(ls@), i as int) == error_line_from(views(ls@), i + 1));
        }
        i += 1;
    }
    proof {
        assert(error_line_from(views(ls@), n as int) is None);
    }
    Err(QueryError::static_empty_response())
}

/// Index of the first line that does not start with `error `.
pub open spec fn non_error_line_from(ls: Seq<Seq<char>>, i: int) -> Option<int>
    decreases ls.len() - i when 0 <= i <= ls.len()
{
    if i >= ls.len() {
        None
    } else if !starts_with_seq(ls[i], "error "@) {
        Some(i)
    } else {
        non_error_line_from(ls, i + 1)
    }
}

/// Index of the first record of `es` that `T` cannot decode.
pub open spec fn first_undecodable<T: FromQueryString>(es: Seq<Seq<char>>, i: int) -> Option<int>
    decreases es.len() - i when 0 <= i <= es.len()
{
    if i >= es.len() {
        None
    } else if T::spec_from_query(es[i]) is None {
        Some(i)
    } else {
        first_undecodable::<T>(es, i + 1)
    }
}

/// Decodes the frame's record line: after the status check succeeds,
/// the first line not starting with `error ` is split on `|` into
/// records, each decoded as a `T`.  A frame whose only lines are status
/// lines yields `None`; the first undecodable record is its error.
#[verifier::loop_isolation(false)]
pub fn decode_records<T: FromQueryString>(content: String) -> (r: QueryResult<Option<Vec<T>>>)
    ensures
        match spec_decode_status(content@) {
            StatusModel::NoStatus => r matches Err(e) && e@ == (
                -1int,
                spec_empty_response_msg(),
            ),
            StatusModel::Unparsable(line) => r matches Err(e) && e@ == (
                -2int,
                spec_parse_fail_msg(line),
            ),
            StatusModel::Status(id, msg) => if id != 0 {
                r matches Err(e) && e@ == (id, msg)
            } else {
                match non_error_line_from(spec_lines(content@), 0) {
                    None => r == Ok::<Option<Vec<T>>, QueryError>(None),
                    Some(li) => {
                        let es = spec_split(spec_lines(content@)[li], '|');
                        match first_undecodable::<T>(es, 0) {
                            Some(b) => r matches Err(e) && e@ == (
                                -3int,
                                spec_decode_error_msg(es[b]),
                            ),
                            None => r matches Ok(o) && o matches Some(rv) && rv@.len() == es.len()
                                && rv@.len() >= 1 && (forall|j: int|
                                0 <= j < es.len() ==> Some(#[trigger] rv@[j]@)
                                    == T::spec_from_query(es[j])),
                        }
                    },
                }
            },
        },
{
    let content = match decode_status(content) {
        Err(e) => {
            return Err(e);
        },
        Ok(c) => c,
    };
    let v = str_chars(content.as_str());
    let ls = split_lines(&v);
    let marker = str_chars("error ");
    let n = ls.len();
    let mut i: usize = 0;
    while i < n
        invariant
            n == ls@.len(),
            views(ls@).len() == n,
            i <= n,
            views(ls@) == spec_lines(content@),
            non_error_line_from(views(ls@), 0) == non_error_line_from(views(ls@), i as int),
        decreases n - i,
    {
        let line = &ls[i];
        proof {
            assert(views(ls@)[i as int] == line@);
        }
        if !starts_with_chars(line, &marker) {
            proof {
                assert(non_error_line_from(views(ls@), i as int) == Some(i as int));
            }
            let elems = split_on_char(line, '|');
            let ghost es = spec_split(line@, '|');
            let m = elems.len();
            let mut out: Vec<T> = Vec::new();
            let mut j: usize = 0;
            while j < m
                invariant
                    m == elems@.len(),
                    es.len() == m,
                    j <= m,
                    views(elems@) == es,
                    first_undecodable::<T>(es, 0) == first_undecodable::<T>(es, j as int),
                    out@.len() == j,
                    forall|t: int|
                        0 <= t < j ==> Some(#[trigger] out@[t]@) == T::spec_from_query(es[t]),
                decreases m - j,
            {
                proof {
                    assert(views(elems@)[j as int] == elems@[j as int]@);
                }
                let elem_str = chars_string(&elems[j]);
                match T::from_query(elem_str.as_str()) {
                    Err(e) => {
                        proof {
                            assert(first_undecodable::<T>(es, j as int) == Some(j as int));
                        }
                        return Err(e);
                    },
                    Ok(t) => {
                        out.push(t);
                    },
                }
                proof {
                    assert(first_undecodable::<T>(es, j as int) == first_undecodable::<T>(
                        es,
                        j + 1,
                    ));
                }
                j += 1;
            }
            proof {
                assert(first_undecodable::<T>(es, m as int) is None);
            }
            return Ok(Some(out));
        }
        proof {
            assert(non_error_line_from(views(ls@), i as int) == non_error_line_from(
                views(ls@),
                i + 1,
            ));
        }
        i += 1;
    }
    proof {
        assert(non_error_line_from(views(ls@), n as int) is None);
    }
    Ok(None)
}

/// The text before the first frame terminator, or all of it when no
/// terminator occurs.
pub open spec fn spec_reply_head(data: Seq<char>) -> Seq<char> {
    match find_sub_from(data, "\n\r"@, 0) {
        None => data,
        Some(k) => data.take(k),
    }
}

/// Checks the reply to a message send.  An echoed notification must
/// carry exactly the text that was sent: any other echoed text is the
/// send-mismatch error.  A reply that is no echo is decoded as a plain
/// status.
pub fn check_send_reply(data: String, text: &str) -> (r: QueryResult<()>)
    ensures
        ({
            let head = spec_reply_head(data@);
            if starts_with_seq(head, "notifytextmessage"@) {
                match find_sub_from(head, "notifytextmessage "@, 0) {
                    None => r matches Err(e) && e@ == (-2int, spec_send_error_msg(head)),
                    Some(k) => {
                        let rest = head.skip(k + "notifytextmessage "@.len() as int);
                        match NotifyTextMessage::spec_from_query(rest) {
                            None => r matches Err(e) && e@ == (-3int, spec_decode_error_msg(rest)),
                            Some(m) => if m.0 == text@ {
                                r == Ok::<(), QueryError>(())
                            } else {
                                r matches Err(e) && e@ == (
                                    -2int,
                                    spec_send_error_msg("None (No equal)"@),
                                )
                            },
                        }
                    },
                }
            } else {
                match spec_decode_status(head) {
                    StatusModel::NoStatus => r matches Err(e) && e@ == (
                        -1int,
                        spec_empty_response_msg(),
                    ),
                    StatusModel::Unparsable(line) => r matches Err(e) && e@ == (
                        -2int,
                        spec_parse_fail_msg(line),
                    ),
                    StatusModel::Status(id, msg) => if id == 0 {
                        r == Ok::<(), QueryError>(())
                    } else {
                        r matches Err(e) && e@ == (id, msg)
                    },
                }
            }
        }),
{
    let v = str_chars(data.as_str());
    let term = str_chars("\n\r");
    let head = match find_sub(&v, &term, 0) {
        None => v,
        Some(k) => {
            let h = sub_chars(&v, 0, k);
            proof {
                assert(h@ =~= spec_reply_head(data@));
            }
            h
        },
    };
    let hn = head.len();
    let notify_marker = str_chars("notifytextmessage");
    if starts_with_chars(&head, &notify_marker) {
        let split_marker = str_chars("notifytextmessage ");
        match find_sub(&head, &split_marker, 0) {
            None => Err(QueryError::send_message_error(chars_string(&head))),
            Some(k) => {
                let rest = sub_chars(&head, k + split_marker.len(), hn);
                proof {
                    assert(rest@ =~= head@.skip(k + "notifytextmessage "@.len() as int));
                }
                let rest_str = chars_string(&rest);
                match NotifyTextMessage::from_query(rest_str.as_str()) {
                    Err(e) => Err(e),
                    Ok(nm) => {
                        let sent = str_chars(text);
                        let echoed = str_chars(nm.msg());
                        if crate::text::eq_chars(&echoed, &sent) {
                            Ok(())
                        } else {
                            Err(QueryError::send_message_error("None (No equal)".to_owned()))
                        }
                    },
                }
            },
        }
    } else {
        match decode_status(chars_string(&head)) {
            Ok(_) => Ok(()),
            Err(e) => Err(e),
        }
    }
}

/// A value escaped for embedding in a command: backslash first, then
/// blank and forward slash.
pub fn escape(s: &str) -> (r: String)
    ensures
        r@ == spec_escape(s@),
{
    let v = str_chars(s);
    let e = escape_chars(&v);
    chars_string(&e)
}

/// The authentication command for an interface key.
pub open spec fn spec_login_payload(key: Seq<char>) -> Seq<char> {
    "auth apikey="@ + key + "\n\r"@
}

pub fn login_payload(api_key: &str) -> (r: String)
    ensures
        r@ == spec_login_payload(api_key@),
{
    "auth apikey=".to_owned().concat(api_key).concat("\n\r")
}

/// The subscription command for text-message notifications on handler
/// zero.
pub fn register_event_payload() -> (r: String)
    ensures
        r@ == "clientnotifyregister schandlerid=0 event=notifytextmessage\n\r"@,
{
    "clientnotifyregister schandlerid=0 event=notifytextmessage\n\r".to_owned()
}

/// The liveness-probe command.
pub fn keep_alive_payload() -> (r: String)
    ensures
        r@ == "whoami\n\r"@,
{
    "whoami\n\r".to_owned()
}

/// The query for the currently focused server tab.
pub fn current_tab_payload() -> (r: String)
    ensures
        r@ == "currentschandlerid\n\r"@,
{
    "currentschandlerid\n\r".to_owned()
}

/// The full text-message command: handler, target mode, target, and
/// the escaped text, under the frame terminator.
pub open spec fn spec_text_message_payload(
    mode: int,
    server_id: int,
    target: int,
    text: Seq<char>,
) -> Seq<char> {
    "sendtextmessage schandlerid="@ + spec_int_str(server_id) + " targetmode="@ + spec_int_str(
        mode,
    ) + " target="@ + spec_int_str(target) + " msg="@ + spec_escape(text) + "\n\r"@
}

pub fn text_message_payload(mode: i64, server_id: i64, client_id: i64, text: &str) -> (r: String)
    ensures
        r@ == spec_text_message_payload(mode as int, server_id as int, client_id as int, text@),
{
    let sid = chars_string(&format_i64(server_id));
    let md = chars_string(&format_i64(mode));
    let cid = chars_string(&format_i64(client_id));
    let esc = escape(text);
    "sendtextmessage schandlerid=".to_owned().concat(sid.as_str()).concat(
        " targetmode=",
    ).concat(md.as_str()).concat(" target=").concat(cid.as_str()).concat(" msg=").concat(
        esc.as_str(),
    ).concat("\n\r")
}

/// The channel-message command: target mode two, target zero.
pub fn channel_message_payload(server_id: i64, text: &str) -> (r: String)
    ensures
        r@ == spec_text_message_payload(2, server_id as int, 0, text@),
{
    text_message_payload(2, server_id, 0, text)
}

/// The private-message command: target mode one.
pub fn private_message_payload(server_id: i64, client_id: i64, text: &str) -> (r: String)
    ensures
        r@ == spec_text_message_payload(1, server_id as int, client_id as int, text@),
{
    text_message_payload(1, server_id, client_id, text)
}

/// The liveness heuristic: a probe reply counts as alive exactly when
/// it carries both the `clid=` and the `cid=` token somewhere.
pub fn keepalive_alive(reply: &str) -> (r: bool)
    ensures
        r == (contains_seq(reply@, "clid="@) && contains_seq(reply@, "cid="@)),
{
    let v = str_chars(reply);
    let a = contains_sub(&v, &str_chars("clid="));
    let b = contains_sub(&v, &str_chars("cid="));
    a && b
}

/// Every command payload this library builds ends with the frame
/// terminator, which is what the writer of a frame demands of its
/// callers.
pub proof fn lemma_payloads_terminated(
    key: Seq<char>,
    mode: int,
    server_id: int,
    target: int,
    text: Seq<char>,
)
    ensures
        crate::spec_terminated(spec_login_payload(key)),
        crate::spec_terminated(spec_text_message_payload(mode, server_id, target, text)),
        crate::spec_terminated("clientnotifyregister schandlerid=0 event=notifytextmessage\n\r"@),
        crate::spec_terminated("whoami\n\r"@),
        crate::spec_terminated("currentschandlerid\n\r"@),
{
    reveal_strlit("\n\r");
    reveal_strlit("clientnotifyregister schandlerid=0 event=notifytextmessage\n\r");
    reveal_strlit("whoami\n\r");
    reveal_strlit("currentschandlerid\n\r");
}

/// The terminator test on a payload and the suffix test the framing
/// rule uses say the same thing.
pub proof fn lemma_terminated_is_suffix(s: Seq<char>)
    ensures
        crate::spec_terminated(s) <==> ends_with_seq(s, "\n\r"@),
{
    reveal_strlit("\n\r");
    if crate::spec_terminated(s) {
        assert(s.subrange(s.len() - 2, s.len() as int) =~= "\n\r"@);
    }
    if ends_with_seq(s, "\n\r"@) {
        assert(s.subrange(s.len() - 2, s.len() as int)[0] == s[s.len() - 2]);
        assert(s.subrange(s.len() - 2, s.len() as int)[1] == s[s.len() - 1]);
    }
}

/// Bytes read from the socket per chunk; a shorter read ends a frame.
pub const BUFFER_SIZE: usize = 512;

/// Whether an accumulated read is a complete frame: a short chunk ends
/// it, and so does an accumulation that holds the `error id=` marker
/// and ends with the frame terminator.
pub fn frame_complete(acc: &str, chunk_len: usize, chunk_cap: usize) -> (r: bool)
    ensures
        r == (chunk_len < chunk_cap || (contains_seq(acc@, "error id="@) && ends_with_seq(
            acc@,
            "\n\r"@,
        ))),
{
    if chunk_len < chunk_cap {
        return true;
    }
    let v = str_chars(acc);
    let has_marker = contains_sub(&v, &str_chars("error id="));
    let terminated = ends_with_chars(&v, &str_chars("\n\r"));
    has_marker && terminated
}

} // verus!

