//! The decisions of a control connection: which commands may go out, how
//! received lines are routed, and what a command's reply amounts to.
//!
//! The TCP connection, the reader task and the waiting for replies live outside the
//! library; they consult these functions.

use vstd::prelude::*;

use crate::device::{support_set, Device};
use crate::error::{Error, Result};
use crate::json::{items_v, lemma_items_v, Json, JsonV};
use crate::message::{distinct_names, pairs_v, parse_line, parsed_line, Incoming, Notification};
use crate::text::{chars_of, trim, trim_chars};

verus! {

/// Seconds a command waits for its reply.
pub const REQUEST_TIMEOUT_SECS: u64 = 5;

/// Direction of a logged wire line.
#[derive(Debug, Clone, Copy, PartialEq, Eq, Structural)]
pub enum Direction {
    /// Sent from this client to the device.
    Sent,
    /// Received from the device (a result, error, or notification).
    Received,
}

/// One raw wire line (trailing CRLF stripped), logged as sent or received.
#[derive(Debug, Clone)]
pub struct LogLine {
    /// Whether the line was sent or received.
    pub direction: Direction,
    /// The raw JSON line.
    pub line: String,
}

/// Whether a command `method` may be sent to `device`: always when `force` is on,
/// else only when the device advertises it.
pub open spec fn may_send(device: Device, force: bool, method: Seq<char>) -> bool {
    force || support_set(device.support@).contains(method)
}

/// Checks that `method` may be sent to `device` (see [`may_send`]); a device that
/// does not advertise it yields [`Error::Unsupported`] with the method's name.
pub fn check_supported(device: &Device, force: bool, method: &str) -> (r: Result<()>)
    ensures
        match r {
            Ok(()) => may_send(*device, force, method@),
            Err(e) => !may_send(*device, force, method@) && (e matches Error::Unsupported(m) && m@
                == method@),
        },
{
    if !force && !device.supports(method) {
        return Err(Error::Unsupported(method.to_string()));
    }
    Ok(())
}

/// How waiting for a command's reply ended.
#[derive(Debug)]
pub enum Reply {
    /// The device answered with a result.
    Answer(Json),
    /// The device answered with an error object.
    Refused {
        /// Device error code.
        code: i64,
        /// Device error message.
        message: String,
    },
    /// The connection closed before the reply came.
    Closed,
    /// No reply came within [`REQUEST_TIMEOUT_SECS`].
    TimedOut,
}

/// What a command returns for how its wait ended: the result, the device's error,
/// [`Error::NotConnected`] or [`Error::Timeout`].
pub open spec fn outcome_v(reply: Reply, r: Result<Json>) -> bool {
    match reply {
        Reply::Answer(v) => r matches Ok(w) && w@ == v@,
        Reply::Refused { code, message } => r matches Err(Error::Protocol { code: c, message: m })
            && c == code && m@ == message@,
        Reply::Closed => r matches Err(Error::NotConnected),
        Reply::TimedOut => r matches Err(Error::Timeout),
    }
}

/// The result of a command whose wait ended as `reply`.
pub fn reply_outcome(reply: Reply) -> (r: Result<Json>)
    ensures
        outcome_v(reply, r),
{
    match reply {
        Reply::Answer(v) => Ok(v),
        Reply::Refused { code, message } => Err(Error::Protocol { code, message }),
        Reply::Closed => Err(Error::NotConnected),
        Reply::TimedOut => Err(Error::Timeout),
    }
}

/// Where a received line goes.
#[derive(Debug)]
pub enum Route {
    /// A blank line: nothing to do, nothing to log.
    Skip,
    /// A line that does not parse or is not recognized: logged and dropped.
    Drop(Error),
    /// A reply to command `id`.
    Reply {
        /// The id of the command answered.
        id: u64,
        /// The reply.
        reply: Reply,
    },
    /// A state-change notification for subscribers.
    Notify(Notification),
}

/// Where the line `line` goes: blank lines are skipped; results and errors answer
/// the command with their id; notifications go to subscribers; anything else is
/// dropped with its parse error.
pub open spec fn route_v(line: Seq<char>, r: Route) -> bool {
    if trim(line).len() == 0 {
        r is Skip
    } else {
        exists|inc: Result<Incoming>|
            #[trigger] parsed_line(line, inc) && match inc {
                Ok(Incoming::Result { id, result }) => r matches Route::Reply {
                    id: i,
                    reply: Reply::Answer(v),
                } && i == id && v@ == result@,
                Ok(Incoming::Error { id, code, message }) => r matches Route::Reply {
                    id: i,
                    reply: Reply::Refused { code: c, message: m },
                } && i == id && c == code && m@ == message@,
                Ok(Incoming::Notification(n)) => r matches Route::Notify(n2) && n2.method@
                    == n.method@ && n2.params@ == n.params@,
                Err(e) => r matches Route::Drop(e2) && e2 == e,
            }
    }
}

/// Routes one line received from the device (see [`route_v`]).
pub fn route_line(line: &str) -> (r: Route)
    ensures
        route_v(line@, r),
        r matches Route::Notify(n) ==> distinct_names(pairs_v(n.params@)),
{
    let t = trim_chars(&chars_of(line));
    if t.len() == 0 {
        return Route::Skip;
    }
    let inc = parse_line(line);
    let ghost g = inc;
    match inc {
        Ok(Incoming::Result { id, result }) => Route::Reply { id, reply: Reply::Answer(result) },
        Ok(Incoming::Error { id, code, message }) => Route::Reply {
            id,
            reply: Reply::Refused { code, message },
        },
        Ok(Incoming::Notification(n)) => Route::Notify(n),
        Err(e) => Route::Drop(e),
    }
}

/// The values a `get_prop` result reports: each string of the result array (an
/// empty string for any other item); nothing when the result is not an array.
pub open spec fn prop_values_v(result: JsonV) -> Seq<Seq<char>> {
    match result {
        JsonV::Array(items, _) => items.map_values(
            |x: JsonV|
                match x {
                    JsonV::Str(s) => s,
                    _ => Seq::empty(),
                },
        ),
        _ => Seq::empty(),
    }
}

/// The property values of a `get_prop` result (see [`prop_values_v`]).
pub fn prop_values(result: &Json) -> (r: Vec<String>)
    ensures
        r@.map_values(|s: String| s@) == prop_values_v(result@),
{
    let mut out: Vec<String> = Vec::new();
    match result.as_array() {
        Some(items) => {
            proof {
                lemma_items_v(items@);
            }
            let ghost iv = items_v(items@);
            let mut i: usize = 0;
            while i < items.len()
                invariant
                    i <= items@.len(),
                    iv == items_v(items@),
                    iv.len() == items@.len(),
                    forall|j: int| 0 <= j < items@.len() ==> #[trigger] iv[j] == items@[j]@,
                    out@.map_values(|s: String| s@) == iv.take(i as int).map_values(
                        |x: JsonV|
                            match x {
                                JsonV::Str(s) => s,
                                _ => Seq::empty(),
                            },
                    ),
                decreases items@.len() - i,
            {
                let v = match items[i].as_str() {
                    Some(s) => s.to_string(),
                    None => String::new(),
                };
                let ghost before = out@;
                out.push(v);
                i = i + 1;
                assert(iv.take(i as int) == iv.take((i - 1) as int).push(iv[i - 1]));
                assert(out@.map_values(|s: String| s@) =~= before.map_values(|s: String| s@).push(v@));
            }
            assert(iv.take(items@.len() as int) == iv);
        },
        None => {},
    }
    out
}


// ----- calls in flight ------------------------------------------------------------------

/// `w` without the id `id`.
pub open spec fn without(w: Seq<u64>, id: u64) -> Seq<u64>
    decreases w.len(),
{
    if w.len() == 0 {
        w
    } else if w.last() == id {
        without(w.drop_last(), id)
    } else {
        without(w.drop_last(), id).push(w.last())
    }
}

/// The bookkeeping of commands awaiting their replies: the id the next command gets
/// (ids count up from 1) and the ids still waiting, oldest first.
#[derive(Debug)]
pub struct Calls {
    next_id: u64,
    pending: Vec<u64>,
}

impl Calls {
    /// Ids start at 1, every waiting id was issued, and none waits twice.
    #[verifier::type_invariant]
    spec fn inv(self) -> bool {
        &&& self.next_id >= 1
        &&& forall|i: int| 0 <= i < self.pending@.len() ==> #[trigger] self.pending@[i] < self.next_id
        &&& forall|i: int, j: int|
            0 <= i < j < self.pending@.len() ==> #[trigger] self.pending@[i] != #[trigger] self.pending@[j]
    }

    /// The id the next command gets.
    pub closed spec fn next(self) -> u64 {
        self.next_id
    }

    /// The ids awaiting their replies, oldest first.
    pub closed spec fn waiting(self) -> Seq<u64> {
        self.pending@
    }

    /// No command sent yet.
    pub fn new() -> (c: Calls)
        ensures
            c.next() == 1,
            c.waiting() == Seq::<u64>::empty(),
    {
        Calls { next_id: 1, pending: Vec::new() }
    }

    /// The id the next command gets.
    pub fn next_id(&self) -> (n: u64)
        ensures
            n == self.next(),
    {
        self.next_id
    }

    /// Start a command: it takes the next id, which then waits; `None` once the ids
    /// are used up.
    pub fn begin(&mut self) -> (id: Option<u64>)
        ensures
            old(self).next() < u64::MAX ==> {
                &&& id == Some(old(self).next())
                &&& final(self).next() == old(self).next() + 1
                &&& final(self).waiting() == old(self).waiting().push(old(self).next())
            },
            old(self).next() == u64::MAX ==> id is None && final(self).next() == old(self).next()
                && final(self).waiting() == old(self).waiting(),
    {
        proof {
            use_type_invariant(&*self);
        }
        if self.next_id == u64::MAX {
            return None;
        }
        let id = self.next_id;
        let mut p = self.pending.clone();
        assert(p@ =~= self.pending@);
        p.push(id);
        *self = Calls { next_id: id + 1, pending: p };
        Some(id)
    }

    /// The command `id` ends (its reply came, or its wait timed out): returns whether it
    /// was waiting; it waits no more, and every other command keeps waiting.
    #[verifier::spinoff_prover]
    #[verifier::rlimit(40)]
    pub fn finish(&mut self, id: u64) -> (was: bool)
        ensures
            was == old(self).waiting().contains(id),
            final(self).waiting() == without(old(self).waiting(), id),
            final(self).next() == old(self).next(),
    {
        proof {
            use_type_invariant(&*self);
        }
        let mut kept: Vec<u64> = Vec::new();
        let mut was = false;
        let mut i: usize = 0;
        let ghost w = self.pending@;
        while i < self.pending.len()
            invariant
                i <= w.len(),
                w == self.pending@,
                kept@ == without(w.take(i as int), id),
                was == w.take(i as int).contains(id),
                forall|k: int| 0 <= k < kept@.len() ==> exists|m: int| 0 <= m < i && #[trigger] kept@[k] == w[m] && w[m] != id,
                forall|a: int, b: int| 0 <= a < b < kept@.len() ==> exists|ma: int, mb: int| 0 <= ma < mb < i && #[trigger] kept@[a] == w[ma] && #[trigger] kept@[b] == w[mb],
            decreases w.len() - i,
        {
            let x = self.pending[i];
            let ghost t = w.take(i as int + 1);
            assert(t.drop_last() == w.take(i as int));
            assert(t.last() == x);
            let ghost before = kept@;
            if x == id {
                was = true;
            } else {
                kept.push(x);
            }
            assert forall|a: int, b: int| 0 <= a < b < kept@.len() implies exists|ma: int, mb: int| 0 <= ma < mb < i + 1 && #[trigger] kept@[a] == w[ma] && #[trigger] kept@[b] == w[mb] by {
                if b < before.len() {
                    let (ma, mb) = choose|ma: int, mb: int| 0 <= ma < mb < i && #[trigger] before[a] == w[ma] && #[trigger] before[b] == w[mb];
                    assert(kept@[a] == w[ma] && kept@[b] == w[mb]);
                } else {
                    let ma = choose|m: int| 0 <= m < i && #[trigger] before[a] == w[m] && w[m] != id;
                    assert(kept@[a] == w[ma] && kept@[b] == w[i as int]);
                }
            }
            assert forall|k: int| 0 <= k < kept@.len() implies exists|m: int| 0 <= m < i + 1 && #[trigger] kept@[k] == w[m] && w[m] != id by {
                if k < before.len() {
                    let m = choose|m: int| 0 <= m < i && #[trigger] before[k] == w[m] && w[m] != id;
                    assert(kept@[k] == w[m]);
                } else {
                    assert(kept@[k] == w[i as int]);
                }
            }
            proof {
                if w.take(i as int + 1).contains(id) && !w.take(i as int).contains(id) {
                    let m = choose|m: int| 0 <= m < i + 1 && #[trigger] w.take(i as int + 1)[m] == id;
                    if m < i {
                        assert(w.take(i as int)[m] == id);
                    }
                }
                if w.take(i as int).contains(id) {
                    let m = choose|m: int| 0 <= m < i && #[trigger] w.take(i as int)[m] == id;
                    assert(w.take(i as int + 1)[m] == id);
                }
            }
            i = i + 1;
        }
        assert(w.take(w.len() as int) == w);
        proof {
            assert forall|a: int, b: int| 0 <= a < b < kept@.len() implies kept@[a] != kept@[b] by {
                let (ma, mb) = choose|ma: int, mb: int| 0 <= ma < mb < w.len() && #[trigger] kept@[a] == w[ma] && #[trigger] kept@[b] == w[mb];
            }
            assert forall|k: int| 0 <= k < kept@.len() implies kept@[k] < self.next_id by {
                let m = choose|m: int| 0 <= m < w.len() && #[trigger] kept@[k] == w[m] && w[m] != id;
            }
        }
        *self = Calls { next_id: self.next_id, pending: kept };
        was
    }

    /// The connection closed: every waiting command ends, and their ids are returned
    /// (oldest first) so each can be told.
    pub fn close(&mut self) -> (ids: Vec<u64>)
        ensures
            ids@ == old(self).waiting(),
            final(self).waiting() == Seq::<u64>::empty(),
            final(self).next() == old(self).next(),
    {
        proof {
            use_type_invariant(&*self);
        }
        let ids = self.pending.clone();
        assert(ids@ =~= self.pending@);
        *self = Calls { next_id: self.next_id, pending: Vec::new() };
        ids
    }
}

/// A reply for one command never ends another: removing `other` keeps `id` waiting.
pub proof fn other_reply_keeps_waiting(w: Seq<u64>, id: u64, other: u64)
    requires
        w.contains(id),
        id != other,
    ensures
        without(w, other).contains(id),
    decreases w.len(),
{
    if w.last() == id {
        assert(without(w, other) == without(w.drop_last(), other).push(id));
        assert(without(w, other)[without(w.drop_last(), other).len() as int] == id);
    } else {
        let m = choose|m: int| 0 <= m < w.len() && #[trigger] w[m] == id;
        assert(w.drop_last()[m] == id);
        other_reply_keeps_waiting(w.drop_last(), id, other);
        let k = choose|k: int| 0 <= k < without(w.drop_last(), other).len() && #[trigger] without(w.drop_last(), other)[k] == id;
        if w.last() != other {
            assert(without(w, other)[k] == id);
        }
    }
}

/// A finished command no longer waits.
pub proof fn finished_call_leaves(w: Seq<u64>, id: u64)
    ensures
        !without(w, id).contains(id),
    decreases w.len(),
{
    if w.len() > 0 {
        finished_call_leaves(w.drop_last(), id);
        if w.last() != id {
            assert forall|k: int| 0 <= k < without(w, id).len() implies without(w, id)[k] != id by {
                if k < without(w.drop_last(), id).len() {
                    assert(without(w, id)[k] == without(w.drop_last(), id)[k]);
                }
            }
        }
    }
}

/// The reader's step for a reply to command `id`: the reply goes to that command if
/// it is still waiting, which then waits no more; a reply for a command that no longer
/// waits (it timed out, or was already answered) is dropped.
pub fn deliver(calls: &mut Calls, id: u64, reply: Reply) -> (r: Option<Reply>)
    ensures
        final(calls).waiting() == without(old(calls).waiting(), id),
        final(calls).next() == old(calls).next(),
        r == (if old(calls).waiting().contains(id) {
            Some(reply)
        } else {
            None
        }),
{
    if calls.finish(id) {
        Some(reply)
    } else {
        None
    }
}

/// The ids still waiting after [`deliver`] takes the replies `rs` (each the id it
/// answers and the reply, in arrival order) while the ids `w` wait.
pub open spec fn waiting_after(w: Seq<u64>, rs: Seq<(u64, Reply)>) -> Seq<u64>
    decreases rs.len(),
{
    if rs.len() == 0 {
        w
    } else {
        waiting_after(without(w, rs[0].0), rs.drop_first())
    }
}

/// The replies that [`deliver`] hands to command `k` when it takes the replies `rs`
/// in order while the ids `w` wait.
pub open spec fn handed_to(w: Seq<u64>, rs: Seq<(u64, Reply)>, k: u64) -> Seq<Reply>
    decreases rs.len(),
{
    if rs.len() == 0 {
        Seq::empty()
    } else {
        let rest = handed_to(without(w, rs[0].0), rs.drop_first(), k);
        if rs[0].0 == k && w.contains(k) {
            seq![rs[0].1] + rest
        } else {
            rest
        }
    }
}

/// Ending a command never brings another one back to waiting.
proof fn lemma_without_within(w: Seq<u64>, id: u64, x: u64)
    requires
        without(w, id).contains(x),
    ensures
        w.contains(x),
    decreases w.len(),
{
    if w.len() > 0 {
        let k = choose|k: int| 0 <= k < without(w, id).len() && #[trigger] without(w, id)[k] == x;
        if w.last() == id || k < without(w.drop_last(), id).len() {
            if w.last() != id {
                assert(without(w.drop_last(), id)[k] == x);
            }
            lemma_without_within(w.drop_last(), id, x);
            let m = choose|m: int| 0 <= m < w.drop_last().len() && #[trigger] w.drop_last()[m] == x;
            assert(w[m] == x);
        } else {
            assert(w[w.len() - 1] == x);
        }
    }
}

/// A reply that comes for a command no longer waiting (it timed out, or was
/// answered already) reaches nobody: nothing is ever handed to it again.
pub proof fn late_reply_is_dropped(w: Seq<u64>, rs: Seq<(u64, Reply)>, k: u64)
    requires
        !w.contains(k),
    ensures
        handed_to(w, rs, k) == Seq::<Reply>::empty(),
    decreases rs.len(),
{
    if rs.len() > 0 {
        if without(w, rs[0].0).contains(k) {
            lemma_without_within(w, rs[0].0, k);
        }
        late_reply_is_dropped(without(w, rs[0].0), rs.drop_first(), k);
    }
}

/// A waiting command gets exactly one reply, the first one that answers its id,
/// whatever replies for other commands come before or after it.
pub proof fn own_reply_resolves(w: Seq<u64>, rs: Seq<(u64, Reply)>, k: u64, i: int)
    requires
        w.contains(k),
        0 <= i < rs.len(),
        rs[i].0 == k,
        forall|j: int| 0 <= j < i ==> #[trigger] rs[j].0 != k,
    ensures
        handed_to(w, rs, k) == seq![rs[i].1],
    decreases rs.len(),
{
    if i == 0 {
        finished_call_leaves(w, k);
        late_reply_is_dropped(without(w, k), rs.drop_first(), k);
        assert(handed_to(w, rs, k) == seq![rs[0].1] + Seq::<Reply>::empty());
    } else {
        assert(rs[0].0 != k);
        other_reply_keeps_waiting(w, k, rs[0].0);
        let rest = rs.drop_first();
        assert forall|j: int| 0 <= j < i - 1 implies #[trigger] rest[j].0 != k by {
            assert(rest[j] == rs[j + 1]);
        }
        own_reply_resolves(without(w, rs[0].0), rest, k, i - 1);
    }
}

/// A command that no reply answers gets nothing and keeps waiting (until its own
/// wait gives up and ends it).
pub proof fn unanswered_call_waits(w: Seq<u64>, rs: Seq<(u64, Reply)>, k: u64)
    requires
        w.contains(k),
        forall|j: int| 0 <= j < rs.len() ==> #[trigger] rs[j].0 != k,
    ensures
        handed_to(w, rs, k) == Seq::<Reply>::empty(),
        waiting_after(w, rs).contains(k),
    decreases rs.len(),
{
    if rs.len() > 0 {
        assert(rs[0].0 != k);
        other_reply_keeps_waiting(w, k, rs[0].0);
        let rest = rs.drop_first();
        assert forall|j: int| 0 <= j < rest.len() implies #[trigger] rest[j].0 != k by {
            assert(rest[j] == rs[j + 1]);
        }
        unanswered_call_waits(without(w, rs[0].0), rest, k);
    }
}

} // verus!
