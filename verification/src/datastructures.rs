//! The data carried across the protocol: command-status lines, the
//! library's error type, unsolicited text-message notifications, the
//! server-tab handle, and the intents the event loop consumes.

use vstd::prelude::*;
use vstd::string::StringExecFns;
use crate::numbers::{spec_parse_int, spec_int_str, parse_i32, parse_i64, format_i64};
use crate::query::record_value;
use crate::query::record_value_chars;
use crate::text::{find_sub_from, find_sub, str_chars, chars_string, sub_chars};

verus! {

pub type QueryResult<T> = Result<T, QueryError>;

/// A decoded status line: the numeric result code and its message.
/// Code zero is success; anything else is a protocol error.
#[derive(Clone, Debug)]
pub struct QueryStatus {
    id: i32,
    msg: String,
}

impl View for QueryStatus {
    type V = (int, Seq<char>);

    closed spec fn view(&self) -> (int, Seq<char>) {
        (self.id as int, self.msg@)
    }
}

/// A status decoded from a web-query reply shape.
#[derive(Clone, Debug)]
pub struct WebQueryStatus {
    code: i32,
    message: String,
}

impl View for WebQueryStatus {
    type V = (int, Seq<char>);

    closed spec fn view(&self) -> (int, Seq<char>) {
        (self.code as int, self.message@)
    }
}

impl WebQueryStatus {
    pub fn new(code: i32, message: String) -> (r: Self)
        ensures
            r@ == (code as int, message@),
    {
        WebQueryStatus { code, message }
    }

    pub fn into_status(self) -> (r: QueryStatus)
        ensures
            r@ == self@,
    {
        QueryStatus { id: self.code, msg: self.message }
    }
}

/// An error of the library: a code and a message.  Codes at or above
/// zero echo a server status; the negative codes are the library's own:
/// `-1` a frame without a status line, `-2` a failed send or a status
/// line that would not parse, `-3` a record that would not decode.
#[derive(Clone, Debug)]
pub struct QueryError {
    code: i32,
    message: String,
}

impl View for QueryError {
    type V = (int, Seq<char>);

    closed spec fn view(&self) -> (int, Seq<char>) {
        (self.code as int, self.message@)
    }
}

/// Message carried by a status-line parse failure.
pub open spec fn spec_parse_fail_msg(line: Seq<char>) -> Seq<char> {
    "Got parser error: "@ + line
}

/// Message carried by a record decode failure.
pub open spec fn spec_decode_error_msg(data: Seq<char>) -> Seq<char> {
    "Decode result error: "@ + data
}

/// Message carried by a failed message send.
pub open spec fn spec_send_error_msg(data: Seq<char>) -> Seq<char> {
    "Unable to send message, raw data => "@ + data
}

/// Message carried by a frame that held no status line.
pub open spec fn spec_empty_response_msg() -> Seq<char> {
    "Expect result but none found."@
}

impl Default for QueryError {
    fn default() -> (r: Self)
        ensures
            r@ == (0int, Seq::<char>::empty()),
    {
        QueryError { code: 0, message: String::new() }
    }
}

impl QueryError {
    /// A frame was read but carried no status line where one was owed.
    pub fn static_empty_response() -> (r: Self)
        ensures
            r@ == (-1int, spec_empty_response_msg()),
    {
        QueryError { code: -1, message: "Expect result but none found.".to_owned() }
    }

    /// A message send failed; `data` is the raw reply.
    pub fn send_message_error(data: String) -> (r: Self)
        ensures
            r@ == (-2int, spec_send_error_msg(data@)),
    {
        QueryError {
            code: -2,
            message: "Unable to send message, raw data => ".to_owned().concat(data.as_str()),
        }
    }

    /// A record's shape did not match what its type expects.
    pub fn decode_error(data: &str) -> (r: Self)
        ensures
            r@ == (-3int, spec_decode_error_msg(data@)),
    {
        QueryError { code: -3, message: "Decode result error: ".to_owned().concat(data) }
    }

    /// A status line was found but would not parse.
    pub fn parse_error(line: &str) -> (r: Self)
        ensures
            r@ == (-2int, spec_parse_fail_msg(line@)),
    {
        QueryError { code: -2, message: "Got parser error: ".to_owned().concat(line) }
    }

    pub fn code(&self) -> (r: i32)
        ensures
            r as int == self@.0,
    {
        self.code
    }

    pub fn message(&self) -> (r: &String)
        ensures
            r@ == self@.1,
    {
        &self.message
    }

    /// The error written out as `message(code)`.
    pub fn describe(&self) -> (r: String)
        ensures
            r@ == self@.1 + "("@ + spec_int_str(self@.0) + ")"@,
    {
        let digits = chars_string(&format_i64(self.code as i64));
        self.message.clone().concat("(").concat(digits.as_str()).concat(")")
    }
}

impl Default for QueryStatus {
    fn default() -> (r: Self)
        ensures
            r@ == (0int, "ok"@),
    {
        QueryStatus { id: 0, msg: "ok".to_owned() }
    }
}

/// The status a line holds: the text after the first `error ` marker is
/// read as a record, whose `id` field must be a decimal number within
/// the status-code range and whose `msg` field must be present.
pub open spec fn spec_status_of_line(line: Seq<char>) -> Option<(int, Seq<char>)> {
    match find_sub_from(line, "error "@, 0) {
        None => None,
        Some(k) => {
            let rest = line.skip(k + "error "@.len() as int);
            match record_value(rest, "id"@) {
                None => None,
                Some(idv) => match record_value(rest, "msg"@) {
                    None => None,
                    Some(msgv) => match spec_parse_int(idv) {
                        None => None,
                        Some(x) => if -0x8000_0000 <= x <= 0x7fff_ffff {
                            Some((x, msgv))
                        } else {
                            None
                        },
                    },
                },
            }
        },
    }
}

impl QueryStatus {
    pub fn id(&self) -> (r: i32)
        ensures
            r as int == self@.0,
    {
        self.id
    }

    pub fn msg(&self) -> (r: &String)
        ensures
            r@ == self@.1,
    {
        &self.msg
    }

    /// The status as this library's error value.
    pub fn into_err(self) -> (r: QueryError)
        ensures
            r@ == self@,
    {
        QueryError { code: self.id, message: self.msg }
    }

    /// Success keeps `ret`; any other status code becomes the error.
    pub fn into_result<T>(self, ret: T) -> (r: QueryResult<T>)
        ensures
            if self@.0 == 0 {
                r == Ok::<T, QueryError>(ret)
            } else {
                r matches Err(e) && e@ == self@
            },
    {
        if self.id == 0 {
            return Ok(ret);
        }
        Err(self.into_err())
    }

    /// Reads the status a line holds; a line without a parsable status
    /// is a parse error.
    pub fn try_from(line: &str) -> (r: QueryResult<QueryStatus>)
        ensures
            match spec_status_of_line(line@) {
                Some(m) => r matches Ok(st) && st@ == m,
                None => r matches Err(e) && e@ == (-2int, spec_parse_fail_msg(line@)),
            },
    {
        let v = str_chars(line);
        let n = v.len();
        let marker = str_chars("error ");
        let k = match find_sub(&v, &marker, 0) {
            None => {
                return Err(QueryError::parse_error(line));
            },
            Some(k) => k,
        };
        let rest = sub_chars(&v, k + marker.len(), n);
        proof {
            assert(rest@ =~= line@.skip(k + "error "@.len() as int));
        }
        let idv = match record_value_chars(&rest, &str_chars("id")) {
            None => {
                return Err(QueryError::parse_error(line));
            },
            Some(x) => x,
        };
        let msgv = match record_value_chars(&rest, &str_chars("msg")) {
            None => {
                return Err(QueryError::parse_error(line));
            },
            Some(x) => x,
        };
        match parse_i32(&idv) {
            None => Err(QueryError::parse_error(line)),
            Some(id) => Ok(QueryStatus { id, msg: chars_string(&msgv) }),
        }
    }
}

/// An unsolicited text-message notification: the message text and the
/// name of its sender.
#[derive(Clone, Debug)]
pub struct NotifyTextMessage {
    msg: String,
    invoker_name: String,
}

impl View for NotifyTextMessage {
    type V = (Seq<char>, Seq<char>);

    closed spec fn view(&self) -> (Seq<char>, Seq<char>) {
        (self.msg@, self.invoker_name@)
    }
}

impl NotifyTextMessage {
    pub fn msg(&self) -> (r: &str)
        ensures
            r@ == self@.0,
    {
        self.msg.as_str()
    }

    pub fn invoker_name(&self) -> (r: &str)
        ensures
            r@ == self@.1,
    {
        self.invoker_name.as_str()
    }
}

/// The server-connection handle a query names.
#[derive(Clone, Copy, Debug)]
pub struct SchandlerId {
    schandler_id: i64,
}

impl View for SchandlerId {
    type V = int;

    closed spec fn view(&self) -> int {
        self.schandler_id as int
    }
}

impl SchandlerId {
    pub fn schandler_id(&self) -> (r: i64)
        ensures
            r as int == self@,
    {
        self.schandler_id
    }
}

/// An intent sent to the event loop: text to relay, a liveness probe,
/// or the order to end the session.
#[derive(Clone, Debug)]
pub enum TransmissionCommand {
    Data(String),
    KeepAlive,
    Terminate,
}

/// A value decoded from one `key=value` record.
///
/// `spec_from_query` names the model a record decodes to; `from_query`
/// returns exactly that value, or the record decode error when the
/// record does not fit the type.
pub trait FromQueryString: Sized + View {
    spec fn spec_from_query(data: Seq<char>) -> Option<Self::V>;

    fn from_query(data: &str) -> (r: QueryResult<Self>)
        ensures
            match Self::spec_from_query(data@) {
                Some(m) => r matches Ok(v) && v@ == m,
                None => r matches Err(e) && e@ == (-3int, spec_decode_error_msg(data@)),
            },
    ;
}

impl FromQueryString for NotifyTextMessage {
    /// A notification needs a `msg` field; the sender's name defaults
    /// to empty when `invokername` is absent.
    open spec fn spec_from_query(data: Seq<char>) -> Option<(Seq<char>, Seq<char>)> {
        match record_value(data, "msg"@) {
            None => None,
            Some(m) => Some(
                (
                    m,
                    match record_value(data, "invokername"@) {
                        Some(x) => x,
                        None => Seq::empty(),
                    },
                ),
            ),
        }
    }

    fn from_query(data: &str) -> (r: QueryResult<Self>) {
        let v = str_chars(data);
        let m = match record_value_chars(&v, &str_chars("msg")) {
            None => {
                return Err(QueryError::decode_error(data));
            },
            Some(x) => x,
        };
        let inv = match record_value_chars(&v, &str_chars("invokername")) {
            None => Vec::new(),
            Some(x) => x,
        };
        Ok(NotifyTextMessage { msg: chars_string(&m), invoker_name: chars_string(&inv) })
    }
}

impl FromQueryString for SchandlerId {
    /// The handle needs a `schandlerid` field holding a decimal number.
    open spec fn spec_from_query(data: Seq<char>) -> Option<int> {
        match record_value(data, "schandlerid"@) {
            None => None,
            Some(v) => match spec_parse_int(v) {
                None => None,
                Some(x) => if -0x8000_0000_0000_0000 <= x <= 0x7fff_ffff_ffff_ffff {
                    Some(x)
                } else {
                    None
                },
            },
        }
    }

    fn from_query(data: &str) -> (r: QueryResult<Self>) {
        let v = str_chars(data);
        let idv = match record_value_chars(&v, &str_chars("schandlerid")) {
            None => {
                return Err(QueryError::decode_error(data));
            },
            Some(x) => x,
        };
        match parse_i64(&idv) {
            None => Err(QueryError::decode_error(data)),
            Some(id) => Ok(SchandlerId { schandler_id: id }),
        }
    }
}

} // verus!
