//! The messenger: shaping stored messages for the page and for live delivery,
//! and the list of open live connections.
use vstd::prelude::*;

use std::time::{Duration, UNIX_EPOCH};

use chrono::{DateTime, Utc};

use crate::text::{i64_to_decimal, lemma_signed_decimal_reads_back, signed_decimal, signed_digits_value};

verus! {

/// A chat message as the pages and the live channel show it.
pub struct UserMessage {
    pub user_name: String,
    pub content: String,
    pub datetime: String,
}

/// A stored message joined with its author, as the message query returns it.
/// `datetime` is a Unix timestamp in milliseconds.
pub struct MessageRow {
    pub user_name: Option<String>,
    pub content: String,
    pub datetime: i64,
}

/// The latest timestamp, in milliseconds, that the calendar rendering can
/// show: the last millisecond of the year 262142.
pub const MAX_TIMESTAMP_MILLIS: u64 = 8_210_266_876_799_999;

/// The UTC calendar rendering `%d-%m-%y %H-%M-%S` of a Unix timestamp in
/// milliseconds.
pub uninterp spec fn utc_timestamp_text(millis: u64) -> Seq<char>;

/// Renders a Unix timestamp in milliseconds as UTC day-month-year and time
/// (`%d-%m-%y %H-%M-%S`) with chrono: `DateTime::<Utc>::from` of the system
/// time that far past the epoch, then `format`. The result is named
/// `utc_timestamp_text`. chrono panics past its last year, which `requires`
/// leaves out.
#[verifier::external_body]
pub(crate) fn format_timestamp(millis: u64) -> (text: String)
    requires
        millis <= MAX_TIMESTAMP_MILLIS,
    ensures
        text@ == utc_timestamp_text(millis),
{
    let datetime: DateTime<Utc> = DateTime::from(UNIX_EPOCH + Duration::from_millis(millis));
    datetime.format("%d-%m-%y %H-%M-%S").to_string()
}

/// Whether a row can be shown on the home page: it has an author and a
/// timestamp the calendar rendering covers.
pub open spec fn home_row_ok(row: MessageRow) -> bool {
    &&& row.user_name is Some
    &&& 0 <= row.datetime <= MAX_TIMESTAMP_MILLIS
}

/// Whether `m` shows `row` on the home page.
pub open spec fn shows_on_home(m: UserMessage, row: MessageRow) -> bool {
    &&& row.user_name matches Some(u) && m.user_name@ == u@
    &&& m.content@ == row.content@
    &&& m.datetime@ == utc_timestamp_text(row.datetime as u64)
}

/// The messages of the home page from the newest-first rows of the message
/// query: oldest first, each with its calendar time.
pub fn home_messages(rows: &Vec<MessageRow>) -> (messages: Vec<UserMessage>)
    requires
        forall|i: int| 0 <= i < rows@.len() ==> home_row_ok(#[trigger] rows@[i]),
    ensures
        messages@.len() == rows@.len(),
        forall|i: int| 0 <= i < rows@.len() ==>
            shows_on_home(#[trigger] messages@[i], rows@[rows@.len() - 1 - i]),
        forall|i: int| 0 <= i < rows@.len() ==>
            (#[trigger] messages@[i]).content@ == rows@[rows@.len() - 1 - i].content@,
        forall|i: int| 0 <= i < rows@.len() ==>
            (rows@[rows@.len() - 1 - i].user_name matches Some(u) && (#[trigger] messages@[i]).user_name@ == u@),
{
    let mut messages: Vec<UserMessage> = Vec::new();
    let n = rows.len();
    let mut k: usize = 0;
    while k < n
        invariant
            n == rows@.len(),
            k <= n,
            forall|i: int| 0 <= i < rows@.len() ==> home_row_ok(#[trigger] rows@[i]),
            messages@.len() == k,
            forall|i: int| 0 <= i < k ==> shows_on_home(#[trigger] messages@[i], rows@[n - 1 - i]),
        decreases n - k,
    {
        let row = &rows[n - 1 - k];
        assert(home_row_ok(rows@[n - 1 - k]));
        let user_name = match &row.user_name {
            Some(u) => u.clone(),
            None => String::new(),
        };
        let m = UserMessage {
            user_name,
            content: row.content.clone(),
            datetime: format_timestamp(row.datetime as u64),
        };
        messages.push(m);
        k = k + 1;
    }
    messages
}

/// Whether `m` shows `row` on the live channel: with its timestamp in decimal
/// milliseconds.
pub open spec fn shows_live(m: UserMessage, row: MessageRow) -> bool {
    &&& row.user_name matches Some(u) && m.user_name@ == u@
    &&& m.content@ == row.content@
    &&& m.datetime@ == signed_decimal(row.datetime as int)
}

/// The messages that the poller delivers, from the rows of its query, in the
/// same order.
pub fn poll_messages(rows: &Vec<MessageRow>) -> (messages: Vec<UserMessage>)
    requires
        forall|i: int| 0 <= i < rows@.len() ==> (#[trigger] rows@[i]).user_name is Some,
    ensures
        messages@.len() == rows@.len(),
        forall|i: int| 0 <= i < rows@.len() ==> shows_live(#[trigger] messages@[i], rows@[i]),
        forall|i: int| 0 <= i < rows@.len() ==> signed_digits_value((#[trigger] messages@[i]).datetime@) == rows@[i].datetime,
        forall|i: int| 0 <= i < rows@.len() ==> (#[trigger] messages@[i]).content@ == rows@[i].content@,
        forall|i: int| 0 <= i < rows@.len() ==>
            (rows@[i].user_name matches Some(u) && (#[trigger] messages@[i]).user_name@ == u@),
{
    let mut messages: Vec<UserMessage> = Vec::new();
    let n = rows.len();
    let mut k: usize = 0;
    while k < n
        invariant
            n == rows@.len(),
            k <= n,
            forall|i: int| 0 <= i < rows@.len() ==> (#[trigger] rows@[i]).user_name is Some,
            messages@.len() == k,
            forall|i: int| 0 <= i < k ==> shows_live(#[trigger] messages@[i], rows@[i]),
            forall|i: int| 0 <= i < k ==> signed_digits_value((#[trigger] messages@[i]).datetime@) == rows@[i].datetime,
        decreases n - k,
    {
        let row = &rows[k];
        assert(rows@[k as int].user_name is Some);
        let user_name = match &row.user_name {
            Some(u) => u.clone(),
            None => String::new(),
        };
        let m = UserMessage {
            user_name,
            content: row.content.clone(),
            datetime: i64_to_decimal(row.datetime),
        };
        messages.push(m);
        k = k + 1;
    }
    messages
}

/// Whether a message received on a chat connection is stored: only when it
/// is not empty.
pub fn chat_message_stored(message: &str) -> (stored: bool)
    ensures
        stored == (message@.len() > 0),
{
    !message.is_empty()
}

/// The open live connections, each with the id of its user, in the order
/// they were opened.
pub struct ConnectionList<T> {
    pub entries: Vec<(i64, T)>,
}

/// Whether a connection entry belongs to a user other than `user_id`.
pub open spec fn of_other_user<T>(user_id: i64) -> spec_fn((i64, T)) -> bool {
    |e: (i64, T)| e.0 != user_id
}

/// The entries of `s` that do not belong to `user_id`, in order.
pub open spec fn without_user<T>(s: Seq<(i64, T)>, user_id: i64) -> Seq<(i64, T)> {
    s.filter(of_other_user::<T>(user_id))
}

impl<T> ConnectionList<T> {
    /// An empty list.
    pub fn new() -> (list: Self)
        ensures
            list.entries@ == Seq::<(i64, T)>::empty(),
    {
        ConnectionList { entries: Vec::new() }
    }

    /// Records a newly opened connection of `user_id`.
    pub fn add(&mut self, user_id: i64, connection: T)
        ensures
            final(self).entries@ == old(self).entries@.push((user_id, connection)),
    {
        self.entries.push((user_id, connection));
    }

    /// Drops every connection of `user_id`, keeping the others in order.
    pub fn remove_user(&mut self, user_id: i64)
        ensures
            final(self).entries@ == without_user(old(self).entries@, user_id),
    {
        let ghost old_s = self.entries@;
        let ghost pred = of_other_user::<T>(user_id);
        let ghost mut k: int = 0;
        let mut i: usize = 0;
        assert(old_s.take(0).filter(pred) =~= Seq::<(i64, T)>::empty()) by {
            reveal(Seq::filter);
        }
        assert(old_s.skip(0) =~= old_s);
        assert(self.entries@ =~= old_s.take(0).filter(pred) + old_s.skip(0));
        while i < self.entries.len()
            invariant
                0 <= k <= old_s.len(),
                self.entries@ == old_s.take(k).filter(pred) + old_s.skip(k),
                i == old_s.take(k).filter(pred).len(),
                pred == of_other_user::<T>(user_id),
            decreases old_s.len() - k,
        {
            let ghost before = self.entries@;
            proof {
                assert(before[i as int] == old_s[k]);
                assert(old_s.take(k + 1).drop_last() =~= old_s.take(k));
                assert(old_s.take(k + 1).last() == old_s[k]);
                reveal(Seq::filter);
            }
            if self.entries[i].0 == user_id {
                let _closed = self.entries.remove(i);
                proof {
                    assert(old_s.take(k + 1).filter(pred) == old_s.take(k).filter(pred));
                    assert(self.entries@ =~= old_s.take(k + 1).filter(pred) + old_s.skip(k + 1));
                }
            } else {
                i = i + 1;
                proof {
                    assert(old_s.take(k + 1).filter(pred) == old_s.take(k).filter(pred).push(old_s[k]));
                    assert(self.entries@ =~= old_s.take(k + 1).filter(pred) + old_s.skip(k + 1));
                }
            }
            proof {
                k = k + 1;
            }
        }
        proof {
            assert(k == old_s.len());
            assert(old_s.take(k) =~= old_s);
            assert(old_s.skip(k) =~= Seq::<(i64, T)>::empty());
            assert(self.entries@ =~= old_s.filter(pred));
        }
    }
}

/// After `remove_user`, no connection of that user is left, and every
/// connection of another user is still there.
pub proof fn lemma_remove_user_exact<T>(s: Seq<(i64, T)>, user_id: i64)
    ensures
        forall|i: int| 0 <= i < without_user(s, user_id).len()
            ==> (#[trigger] without_user(s, user_id)[i]).0 != user_id,
        forall|i: int| 0 <= i < s.len() && (#[trigger] s[i]).0 != user_id
            ==> without_user(s, user_id).contains(s[i]),
{
    broadcast use vstd::seq_lib::group_filter_ensures;
    let pred = of_other_user::<T>(user_id);
    assert forall|i: int| 0 <= i < without_user(s, user_id).len()
        implies (#[trigger] without_user(s, user_id)[i]).0 != user_id by {
        s.lemma_filter_pred(pred, i);
    }
    assert forall|i: int| 0 <= i < s.len() && (#[trigger] s[i]).0 != user_id
        implies without_user(s, user_id).contains(s[i]) by {
        s.lemma_filter_contains(pred, i);
    }
}

/// A connection that a user opens and then closes leaves the list as if it
/// had never been opened, once the user's connections are dropped:
/// `remove_user` after `add` for the same user gives what `remove_user`
/// alone gives.
pub proof fn lemma_add_then_remove<T>(s: Seq<(i64, T)>, user_id: i64, connection: T)
    ensures
        without_user(s.push((user_id, connection)), user_id) == without_user(s, user_id),
{
    reveal(Seq::filter);
    assert(s.push((user_id, connection)).drop_last() =~= s);
}

/// A home-page message carries its row's author and content unchanged,
/// whatever their length.
pub proof fn lemma_home_message_fields(m: UserMessage, row: MessageRow)
    requires
        shows_on_home(m, row),
    ensures
        m.content@ == row.content@,
        row.user_name matches Some(u) && m.user_name@ == u@,
{
}

/// A live message carries its row's author and content unchanged, and its
/// time reads back, as a decimal number, as the row's full millisecond
/// timestamp.
pub proof fn lemma_live_message_fields(m: UserMessage, row: MessageRow)
    requires
        shows_live(m, row),
    ensures
        m.content@ == row.content@,
        row.user_name matches Some(u) && m.user_name@ == u@,
        signed_digits_value(m.datetime@) == row.datetime,
{
    lemma_signed_decimal_reads_back(row.datetime as int);
}

} // verus!
