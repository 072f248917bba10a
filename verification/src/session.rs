//! Decisions of the event loop: the session state machine, what an
//! input line becomes, the fallback for a failed server-tab lookup,
//! the idle-timer rule, and the notifications drained from a frame.
//!
//! The loop itself runs outside the library: it performs the reads,
//! writes and waits, and hands the plain values back in.

use vstd::prelude::*;
use crate::datastructures::{
    FromQueryString, NotifyTextMessage, QueryError, QueryResult, SchandlerId, TransmissionCommand,
    spec_decode_error_msg,
};
use crate::text::{
    chars_string, contains_seq, contains_sub, spec_lines, spec_trim, split_lines, str_chars,
    trim_chars, views,
};

verus! {

/// Seconds of idleness after which the timer enqueues a liveness probe.
pub const TRANSMISSION_DEADLINE: u64 = 180;

/// Seconds between two looks of the idle timer at the clock.
pub const IDLE_CHECK_INTERVAL: u64 = 5;

/// The handler the loop falls back to when the server-tab lookup fails.
pub const DEFAULT_SERVER_TAB: i64 = 1;

/// The session's place in its life: running, asked to end, ended.
#[derive(Clone, Copy, Debug, PartialEq, Eq, Structural)]
pub enum SessionState {
    Running,
    Terminating,
    Terminated,
}

/// One intent arriving at the loop: only the order to end the session
/// moves a running session on; everything else leaves it running, and
/// a session past running takes no further intent.
pub fn on_command(state: SessionState, cmd: &TransmissionCommand) -> (r: SessionState)
    ensures
        r == (match state {
            SessionState::Running => if (cmd matches TransmissionCommand::Terminate) {
                SessionState::Terminating
            } else {
                SessionState::Running
            },
            SessionState::Terminating => SessionState::Terminating,
            SessionState::Terminated => SessionState::Terminated,
        }),
{
    match state {
        SessionState::Running => match cmd {
            TransmissionCommand::Terminate => SessionState::Terminating,
            _ => SessionState::Running,
        },
        SessionState::Terminating => SessionState::Terminating,
        SessionState::Terminated => SessionState::Terminated,
    }
}

/// A fatal transport fault ends the session at once, from any state.
pub fn on_transport_error(state: SessionState) -> (r: SessionState)
    ensures
        r == SessionState::Terminated,
{
    let _ = state;
    SessionState::Terminated
}

/// Leaving the loop: a session that was asked to end is now ended; the
/// other states do not move here.
pub fn on_loop_exit(state: SessionState) -> (r: SessionState)
    ensures
        r == (if (state matches SessionState::Terminating) {
            SessionState::Terminated
        } else {
            state
        }),
{
    match state {
        SessionState::Terminating => SessionState::Terminated,
        _ => state,
    }
}

/// The handler a message goes to: the looked-up tab, or the default
/// tab when the lookup failed — a failed lookup never fails the send.
pub fn resolve_server_id(tab: &QueryResult<SchandlerId>) -> (r: i64)
    ensures
        match tab {
            Ok(t) => r as int == t@,
            Err(_) => r == DEFAULT_SERVER_TAB,
        },
{
    match tab {
        Ok(t) => t.schandler_id(),
        Err(_) => DEFAULT_SERVER_TAB,
    }
}

/// The idle rule: one probe intent exactly when the time since the
/// last transmission exceeds the deadline, and nothing otherwise.
pub fn timer_tick(now_secs: u64, last_transmission: u64, deadline_secs: u64) -> (r: Option<
    TransmissionCommand,
>)
    requires
        last_transmission <= now_secs,
    ensures
        if now_secs - last_transmission > deadline_secs {
            r matches Some(c) && c matches TransmissionCommand::KeepAlive
        } else {
            r is None
        },
{
    if now_secs - last_transmission > deadline_secs {
        Some(TransmissionCommand::KeepAlive)
    } else {
        None
    }
}

/// What one line of input becomes: nothing when the line is empty,
/// else a send intent carrying the line trimmed.
pub fn input_intent(line: &str) -> (r: Option<TransmissionCommand>)
    ensures
        match r {
            Some(c) => line@.len() > 0 && (c matches TransmissionCommand::Data(s) && s@
                == spec_trim(line@)),
            None => line@.len() == 0,
        },
{
    if line.unicode_len() == 0 {
        return None;
    }
    let t = trim_chars(&str_chars(line));
    Some(TransmissionCommand::Data(chars_string(&t)))
}

/// A trimmed line carries a notification when it is not empty and
/// holds the notification token somewhere.
pub open spec fn notify_line(t: Seq<char>) -> bool {
    t.len() > 0 && contains_seq(t, "notifytextmessage"@)
}

/// The notifications the lines of a drained frame carry, in order; the
/// first notification line that will not decode is the error.
pub open spec fn spec_extract(ls: Seq<Seq<char>>, i: int) -> Result<
    Seq<(Seq<char>, Seq<char>)>,
    Seq<char>,
>
    decreases ls.len() - i when 0 <= i <= ls.len()
{
    if i >= ls.len() {
        Ok(Seq::empty())
    } else {
        let t = spec_trim(ls[i]);
        if notify_line(t) {
            match NotifyTextMessage::spec_from_query(t) {
                None => Err(t),
                Some(m) => match spec_extract(ls, i + 1) {
                    Err(e) => Err(e),
                    Ok(rest) => Ok(seq![m] + rest),
                },
            }
        } else {
            spec_extract(ls, i + 1)
        }
    }
}

/// The views of the gathered notifications.
pub open spec fn notify_views(ms: Seq<NotifyTextMessage>) -> Seq<(Seq<char>, Seq<char>)> {
    ms.map_values(|m: NotifyTextMessage| m@)
}

/// Walks a drained frame: every non-empty trimmed line holding the
/// notification token is decoded and surfaced, other lines are
/// ignored, and an undecodable notification line ends the drain with
/// its decode error.
#[verifier::loop_isolation(false)]
pub fn extract_notifications(frame: &str) -> (r: QueryResult<Vec<NotifyTextMessage>>)
    ensures
        match spec_extract(spec_lines(frame@), 0) {
            Ok(ms) => r matches Ok(v) && notify_views(v@) == ms,
            Err(t) => r matches Err(e) && e@ == (-3int, spec_decode_error_msg(t)),
        },
{
    let v = str_chars(frame);
    let ls = split_lines(&v);
    let token = str_chars("notifytextmessage");
    let n = ls.len();
    let mut out: Vec<NotifyTextMessage> = Vec::new();
    let mut i: usize = 0;
    proof {
        assert(notify_views(out@) =~= Seq::<(Seq<char>, Seq<char>)>::empty());
    }
    while i < n
        invariant
            n == ls@.len(),
            views(ls@).len() == n,
            i <= n,
            views(ls@) == spec_lines(frame@),
            spec_extract(views(ls@), 0) == (match spec_extract(views(ls@), i as int) {
                Ok(rest) => Ok::<Seq<(Seq<char>, Seq<char>)>, Seq<char>>(notify_views(out@) + rest),
                Err(e) => Err::<Seq<(Seq<char>, Seq<char>)>, Seq<char>>(e),
            }),
        decreases n - i,
    {
        let line = &ls[i];
        proof {
            assert(views(ls@)[i as int] == line@);
        }
        let t = trim_chars(line);
        let nonempty = t.len() > 0;
        if nonempty && contains_sub(&t, &token) {
            let t_str = chars_string(&t);
            match NotifyTextMessage::from_query(t_str.as_str()) {
                Err(e) => {
                    return Err(e);
                },
                Ok(m) => {
                    let ghost prev = out@;
                    out.push(m);
                    proof {
                        assert(notify_views(out@) =~= notify_views(prev).push(m@));
                        if spec_extract(views(ls@), i + 1) is Ok {
                            let rest = spec_extract(views(ls@), i + 1)->Ok_0;
                            assert(notify_views(prev) + (seq![m@] + rest) =~= notify_views(out@)
                                + rest);
                        }
                    }
                },
            }
        }
        i += 1;
    }
    proof {
        assert(spec_extract(views(ls@), n as int) == Ok::<
            Seq<(Seq<char>, Seq<char>)>,
            Seq<char>,
        >(Seq::empty()));
        assert(notify_views(out@) + Seq::<(Seq<char>, Seq<char>)>::empty() =~= notify_views(out@));
    }
    Ok(out)
}

} // verus!
