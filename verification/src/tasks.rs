//! Task aggregation: every task found in the workspace's notes, grouped by
//! how its deadline relates to today. Parsing the notes is the note
//! parser's work outside this library; the grouping, ordering and counting
//! stand here.

use crate::strutil::{decimal_of, decimal_string};
use vstd::arithmetic::div_mod::{lemma_fundamental_div_mod, lemma_fundamental_div_mod_converse};
use vstd::prelude::*;
use vstd::seq_lib::group_to_multiset_ensures;

verus! {

/// One task found in a note.
#[derive(Debug, Clone)]
pub struct TaskItem {
    pub file_path: String,
    pub file_name: String,
    pub line_number: usize,
    pub content: String,
    pub status: String,
    pub due_date: Option<String>,
    pub due_timestamp: Option<i64>,
}

/// Tasks grouped by deadline.
#[derive(Debug)]
pub struct TaskAggregation {
    pub overdue: Vec<TaskItem>,
    pub today: Vec<TaskItem>,
    pub this_week: Vec<TaskItem>,
    pub later: Vec<TaskItem>,
    pub no_deadline: Vec<TaskItem>,
    pub done: Vec<TaskItem>,
}

impl Default for TaskAggregation {
    /// An aggregation with every group empty.
    fn default() -> (r: TaskAggregation)
        ensures
            r.overdue@.len() == 0,
            r.today@.len() == 0,
            r.this_week@.len() == 0,
            r.later@.len() == 0,
            r.no_deadline@.len() == 0,
            r.done@.len() == 0,
    {
        TaskAggregation {
            overdue: Vec::new(),
            today: Vec::new(),
            this_week: Vec::new(),
            later: Vec::new(),
            no_deadline: Vec::new(),
            done: Vec::new(),
        }
    }
}

/// Counts of the groups.
#[derive(Debug, Clone)]
pub struct TaskSummary {
    pub total: usize,
    pub overdue: usize,
    pub today: usize,
    pub this_week: usize,
    pub later: usize,
    pub no_deadline: usize,
    pub done: usize,
}

/// The day (whole days since the epoch, UTC) a timestamp falls in.
pub open spec fn day_of(ts: int) -> int {
    ts / 86400
}

pub open spec fn is_done(t: TaskItem) -> bool {
    t.status@ == "done"@
}

pub open spec fn is_overdue(t: TaskItem, today: int) -> bool {
    !is_done(t) && match t.due_timestamp {
        Some(ts) => day_of(ts as int) < today,
        None => false,
    }
}

pub open spec fn is_due_today(t: TaskItem, today: int) -> bool {
    !is_done(t) && match t.due_timestamp {
        Some(ts) => day_of(ts as int) == today,
        None => false,
    }
}

pub open spec fn is_due_this_week(t: TaskItem, today: int) -> bool {
    !is_done(t) && match t.due_timestamp {
        Some(ts) => today < day_of(ts as int) <= today + 7,
        None => false,
    }
}

pub open spec fn is_due_later(t: TaskItem, today: int) -> bool {
    !is_done(t) && match t.due_timestamp {
        Some(ts) => day_of(ts as int) > today + 7,
        None => false,
    }
}

pub open spec fn has_no_deadline(t: TaskItem) -> bool {
    !is_done(t) && t.due_timestamp is None
}

/// The day a timestamp falls in, rounding toward minus infinity.
pub fn day_of_timestamp(ts: i64) -> (r: i64)
    ensures
        r as int == day_of(ts as int),
{
    if ts >= 0 {
        let d = ((ts as u64) / 86400) as i64;
        proof {
            assert(d as int == day_of(ts as int));
        }
        d
    } else {
        let m = (-(ts + 1)) as u64;
        let q = (m / 86400) as i64;
        let d = -1 - q;
        proof {
            let a = ts as int;
            let b = m as int;
            lemma_fundamental_div_mod(b, 86400);
            let qq = b / 86400;
            let rr = b % 86400;
            assert(a == -b - 1);
            assert(a == (-qq - 1) * 86400 + (86400 - rr - 1)) by (nonlinear_arith)
                requires
                    a == -b - 1,
                    b == qq * 86400 + rr,
            ;
            lemma_fundamental_div_mod_converse(a, 86400, -qq - 1, 86400 - rr - 1);
        }
        d
    }
}

/// Whether the task's status text reads "done".
pub fn task_is_done(t: &TaskItem) -> (r: bool)
    ensures
        r == is_done(*t),
{
    crate::strutil::str_eq(t.status.as_str(), "done")
}

/// Group the tasks by deadline: done tasks aside, then overdue (due before
/// today), due today, due within the next seven days, later, and without a
/// deadline. Order within each group is the input order.
pub fn categorize_tasks(tasks: Vec<TaskItem>, today: i64) -> (r: TaskAggregation)
    requires
        today + 7 <= i64::MAX,
    ensures
        r.done@ == tasks@.filter(|t: TaskItem| is_done(t)),
        r.overdue@ == tasks@.filter(|t: TaskItem| is_overdue(t, today as int)),
        r.today@ == tasks@.filter(|t: TaskItem| is_due_today(t, today as int)),
        r.this_week@ == tasks@.filter(|t: TaskItem| is_due_this_week(t, today as int)),
        r.later@ == tasks@.filter(|t: TaskItem| is_due_later(t, today as int)),
        r.no_deadline@ == tasks@.filter(|t: TaskItem| has_no_deadline(t)),
{
    let mut input = tasks;
    let ghost all = input@;
    let mut overdue: Vec<TaskItem> = Vec::new();
    let mut today_v: Vec<TaskItem> = Vec::new();
    let mut this_week: Vec<TaskItem> = Vec::new();
    let mut later: Vec<TaskItem> = Vec::new();
    let mut no_deadline: Vec<TaskItem> = Vec::new();
    let mut done: Vec<TaskItem> = Vec::new();
    let ghost n = all.len();
    let ghost processed = 0int;
    proof {
        reveal(Seq::filter);
        assert(all.subrange(0, 0) =~= Seq::<TaskItem>::empty());
        assert(Seq::<TaskItem>::empty().filter(|t: TaskItem| is_done(t)) =~= Seq::<
            TaskItem,
        >::empty());
        assert(Seq::<TaskItem>::empty().filter(|t: TaskItem| is_overdue(t, today as int)) =~= Seq::<
            TaskItem,
        >::empty());
        assert(Seq::<TaskItem>::empty().filter(|t: TaskItem| is_due_today(t, today as int)) =~= Seq::<
            TaskItem,
        >::empty());
        assert(Seq::<TaskItem>::empty().filter(|t: TaskItem| is_due_this_week(t, today as int))
            =~= Seq::<TaskItem>::empty());
        assert(Seq::<TaskItem>::empty().filter(|t: TaskItem| is_due_later(t, today as int)) =~= Seq::<
            TaskItem,
        >::empty());
        assert(Seq::<TaskItem>::empty().filter(|t: TaskItem| has_no_deadline(t)) =~= Seq::<
            TaskItem,
        >::empty());
    }
    while input.len() > 0
        invariant
            today + 7 <= i64::MAX,
            0 <= processed <= n,
            n == all.len(),
            input@ =~= all.subrange(processed, n as int),
            done@ == all.subrange(0, processed).filter(|t: TaskItem| is_done(t)),
            overdue@ == all.subrange(0, processed).filter(
                |t: TaskItem| is_overdue(t, today as int),
            ),
            today_v@ == all.subrange(0, processed).filter(
                |t: TaskItem| is_due_today(t, today as int),
            ),
            this_week@ == all.subrange(0, processed).filter(
                |t: TaskItem| is_due_this_week(t, today as int),
            ),
            later@ == all.subrange(0, processed).filter(
                |t: TaskItem| is_due_later(t, today as int),
            ),
            no_deadline@ == all.subrange(0, processed).filter(|t: TaskItem| has_no_deadline(t)),
        decreases input@.len(),
    {
        let t = input.remove(0);
        proof {
            reveal(Seq::filter);
            assert(t == all[processed]);
            let pre = all.subrange(0, processed);
            let post = all.subrange(0, processed + 1);
            assert(post.drop_last() =~= pre);
            assert(post.last() == all[processed]);
        }
        let is_done_t = task_is_done(&t);
        if is_done_t {
            done.push(t);
        } else {
            match t.due_timestamp {
                Some(ts) => {
                    let due_day = day_of_timestamp(ts);
                    if due_day < today {
                        overdue.push(t);
                    } else if due_day == today {
                        today_v.push(t);
                    } else if due_day <= today + 7 {
                        this_week.push(t);
                    } else {
                        later.push(t);
                    }
                },
                None => {
                    no_deadline.push(t);
                },
            }
        }
        proof {
            reveal(Seq::filter);
            let pre = all.subrange(0, processed);
            let post = all.subrange(0, processed + 1);
            assert(post.drop_last() =~= pre);
            assert(post.last() == all[processed]);
            processed = processed + 1;
            assert(input@ =~= all.subrange(processed, n as int));
        }
    }
    proof {
        assert(processed == n);
        assert(all.subrange(0, n as int) =~= all);
    }
    TaskAggregation { overdue, today: today_v, this_week, later, no_deadline, done }
}

/// The order tasks are listed in inside a group: earliest deadline first,
/// tasks without a deadline first of all.
pub open spec fn due_le(a: TaskItem, b: TaskItem) -> bool {
    match (a.due_timestamp, b.due_timestamp) {
        (Option::None, _) => true,
        (Option::Some(_), Option::None) => false,
        (Option::Some(x), Option::Some(y)) => x <= y,
    }
}

/// Whether `a` is listed at or before `b`.
fn due_le_exec(a: &TaskItem, b: &TaskItem) -> (r: bool)
    ensures
        r == due_le(*a, *b),
{
    match (&a.due_timestamp, &b.due_timestamp) {
        (Option::None, _) => true,
        (Option::Some(_), Option::None) => false,
        (Option::Some(x), Option::Some(y)) => *x <= *y,
    }
}

/// Inserting an element anywhere adds exactly it to the sequence's
/// multiset.
proof fn lemma_insert_to_multiset(s: Seq<TaskItem>, p: int, e: TaskItem)
    requires
        0 <= p <= s.len(),
    ensures
        s.insert(p, e).to_multiset() =~= s.to_multiset().insert(e),
{
    broadcast use group_to_multiset_ensures;

    let t = s.insert(p, e);
    s.insert_ensures(p, e);
    t.remove_ensures(p);
    assert(t.remove(p) =~= s);
    assert(t[p] == e);
    assert(t.to_multiset().remove(e) =~= s.to_multiset());
    assert(t.to_multiset().contains(e));
    assert(t.to_multiset() =~= s.to_multiset().insert(e)) by {
        assert(t.to_multiset().remove(e).insert(e) =~= t.to_multiset());
        assert(s.to_multiset().insert(e) =~= t.to_multiset().remove(e).insert(e));
    }
}

/// Sort tasks by deadline: the result is a permutation of the input whose
/// neighbours are in order. Equal deadlines keep no particular order.
pub fn sort_tasks_by_due(tasks: Vec<TaskItem>) -> (r: Vec<TaskItem>)
    ensures
        r@.len() == tasks@.len(),
        r@.to_multiset() == tasks@.to_multiset(),
        forall|i: int| 0 <= i && i + 1 < r@.len() ==> due_le(#[trigger] r@[i], r@[i + 1]),
{
    broadcast use group_to_multiset_ensures;

    let mut input = tasks;
    let mut out: Vec<TaskItem> = Vec::new();
    proof {
        assert(out@.to_multiset().add(input@.to_multiset()) =~= input@.to_multiset());
    }
    let ghost all = input@;
    while input.len() > 0
        invariant
            out@.to_multiset().add(input@.to_multiset()) == all.to_multiset(),
            out@.len() + input@.len() == all.len(),
            forall|i: int| 0 <= i && i + 1 < out@.len() ==> due_le(#[trigger] out@[i], out@[i + 1]),
        decreases input@.len(),
    {
        let ghost pre_input = input@;
        let e = input.remove(0);
        proof {
            broadcast use group_to_multiset_ensures;

            pre_input.remove_ensures(0);
            assert(pre_input.remove(0).to_multiset() =~= pre_input.to_multiset().remove(e));
        }
        let mut p: usize = 0;
        while p < out.len() && due_le_exec(&out[p], &e)
            invariant
                p <= out@.len(),
                forall|j: int| 0 <= j < p ==> due_le(#[trigger] out@[j], e),
            decreases out@.len() - p,
        {
            p += 1;
        }
        let ghost pre_out = out@;
        let ghost pp = p as int;
        proof {
            pre_out.insert_ensures(pp, e);
            lemma_insert_to_multiset(pre_out, pp, e);
        }
        out.insert(p, e);
        proof {
            broadcast use group_to_multiset_ensures;

            assert forall|i: int| 0 <= i && i + 1 < out@.len() implies due_le(
                #[trigger] out@[i],
                out@[i + 1],
            ) by {
                if i + 1 < pp {
                    assert(out@[i] == pre_out[i] && out@[i + 1] == pre_out[i + 1]);
                } else if i + 1 == pp {
                    assert(out@[i] == pre_out[i] && out@[i + 1] == e);
                } else if i == pp {
                    assert(out@[i] == e && out@[i + 1] == pre_out[i]);
                } else {
                    assert(out@[i] == pre_out[i - 1] && out@[i + 1] == pre_out[i]);
                }
            }
            assert(out@.to_multiset().add(input@.to_multiset()) =~= all.to_multiset()) by {
                assert(out@.to_multiset() =~= pre_out.to_multiset().insert(e));
                assert(input@.to_multiset() =~= pre_input.to_multiset().remove(e));
                assert(pre_input.to_multiset().contains(e)) by {
                    assert(pre_input[0] == e);
                    assert(pre_input.contains(e));
                }
            }
        }
    }
    proof {
        broadcast use group_to_multiset_ensures;

        assert(input@.to_multiset().len() == 0);
        assert(out@.to_multiset().add(input@.to_multiset()) =~= out@.to_multiset());
    }
    out
}

/// Count the groups; the total leaves the done group out, as the view of
/// open work.
pub fn summarize_tasks(agg: &TaskAggregation) -> (r: TaskSummary)
    requires
        agg.overdue@.len() + agg.today@.len() + agg.this_week@.len() + agg.later@.len()
            + agg.no_deadline@.len() <= usize::MAX,
    ensures
        r.overdue == agg.overdue@.len(),
        r.today == agg.today@.len(),
        r.this_week == agg.this_week@.len(),
        r.later == agg.later@.len(),
        r.no_deadline == agg.no_deadline@.len(),
        r.done == agg.done@.len(),
        r.total == agg.overdue@.len() + agg.today@.len() + agg.this_week@.len() + agg.later@.len()
            + agg.no_deadline@.len(),
{
    let overdue = agg.overdue.len();
    let today = agg.today.len();
    let this_week = agg.this_week.len();
    let later = agg.later.len();
    let no_deadline = agg.no_deadline.len();
    let done = agg.done.len();
    TaskSummary {
        total: overdue + today + this_week + later + no_deadline,
        overdue,
        today,
        this_week,
        later,
        no_deadline,
        done,
    }
}

/// A task deadline as the notes carry it: a calendar date, a date with a
/// time of day, or text that could not be read as either.
#[derive(Debug, Clone)]
pub enum TaskDeadline {
    DateTime { year: i64, month: u8, day: u8, hour: u8, minute: u8 },
    Date { year: i64, month: u8, day: u8 },
    Unparsed { text: String },
}

/// The fields are in calendar range, and the year in the four-digit range
/// the display format carries.
pub open spec fn deadline_valid(d: TaskDeadline) -> bool {
    match d {
        TaskDeadline::DateTime { year, month, day, hour, minute } => 0 <= year <= 9999 && 1
            <= month <= 12 && 1 <= day <= 31 && hour <= 23 && minute <= 59,
        TaskDeadline::Date { year, month, day } => 0 <= year <= 9999 && 1 <= month <= 12 && 1
            <= day <= 31,
        TaskDeadline::Unparsed { .. } => true,
    }
}

/// The day number (days since the epoch) of a calendar date, by the usual
/// closed form over 400-year eras; the year is shifted so every division
/// is on a non-negative value.
pub open spec fn civil_day_number(year: int, month: int, day: int) -> int {
    let yadj = (if month <= 2 {
        year - 1
    } else {
        year
    }) + 400;
    let mp = if month > 2 {
        month - 3
    } else {
        month + 9
    };
    let era = yadj / 400;
    let yoe = yadj - era * 400;
    let doy = (153 * mp + 2) / 5 + day - 1;
    let doe = yoe * 365 + yoe / 4 - yoe / 100 + doy;
    era * 146097 + doe - 719468 - 146097
}

/// The epoch timestamp of a calendar date and time of day, UTC.
pub open spec fn civil_timestamp(
    year: int,
    month: int,
    day: int,
    hour: int,
    minute: int,
    second: int,
) -> int {
    civil_day_number(year, month, day) * 86400 + hour * 3600 + minute * 60 + second
}

/// The day number of a calendar date.
pub fn day_number(year: i64, month: u8, day: u8) -> (r: i64)
    requires
        0 <= year <= 9999,
        1 <= month as int <= 12,
        1 <= day as int <= 31,
    ensures
        r as int == civil_day_number(year as int, month as int, day as int),
{
    let yadj: u64 = if month <= 2 {
        (year - 1 + 400) as u64
    } else {
        (year + 400) as u64
    };
    let mp: u64 = if month > 2 {
        (month - 3) as u64
    } else {
        (month + 9) as u64
    };
    let era: u64 = yadj / 400;
    let yoe: u64 = yadj - era * 400;
    let doy: u64 = (153 * mp + 2) / 5 + (day as u64) - 1;
    let doe: u64 = yoe * 365 + yoe / 4 - yoe / 100 + doy;
    proof {
        assert(yoe < 400) by (nonlinear_arith)
            requires
                era == yadj as int / 400,
                yoe == yadj - era * 400,
                399 <= yadj <= 10399,
        ;
    }
    (era * 146097 + doe) as i64 - 719468 - 146097
}

/// The epoch timestamp of a date and time of day.
pub fn timestamp_of_civil(year: i64, month: u8, day: u8, hour: u8, minute: u8, second: u8) -> (r:
    i64)
    requires
        0 <= year <= 9999,
        1 <= month as int <= 12,
        1 <= day as int <= 31,
        hour as int <= 23,
        minute as int <= 59,
        second as int <= 59,
    ensures
        r as int == civil_timestamp(
            year as int,
            month as int,
            day as int,
            hour as int,
            minute as int,
            second as int,
        ),
{
    let days = day_number(year, month, day);
    days * 86400 + (hour as i64) * 3600 + (minute as i64) * 60 + (second as i64)
}

/// A run of zero characters.
pub open spec fn zeros(k: int) -> Seq<char>
    decreases k,
{
    if k <= 0 {
        Seq::empty()
    } else {
        zeros(k - 1) + seq!['0']
    }
}

/// The decimal text of a number, left-padded with zeros to `width`.
pub open spec fn padded_decimal(n: int, width: int) -> Seq<char> {
    zeros(width - decimal_of(n).len()) + decimal_of(n)
}

/// Render a number zero-padded to the given width.
pub fn padded_decimal_string(n: usize, width: usize) -> (r: String)
    ensures
        r@ == padded_decimal(n as int, width as int),
{
    let digits = decimal_string(n);
    let len = digits.as_str().unicode_len();
    let mut out = String::new();
    let mut k: usize = len;
    while k < width
        invariant
            len == decimal_of(n as int).len(),
            len <= k <= width || (k == len && len >= width),
            out@ == zeros(k as int - len as int),
        decreases width - k,
    {
        out.append("0");
        proof {
            reveal_strlit("0");
            assert(out@ =~= zeros(k + 1 - len as int));
        }
        k += 1;
    }
    proof {
        if len >= width {
            assert(out@ =~= zeros(width - len as int));
        }
    }
    out.append(digits.as_str());
    out
}

/// The display text of a date: year, month and day, zero-padded.
pub open spec fn date_text(year: int, month: int, day: int) -> Seq<char> {
    padded_decimal(year, 4) + "-"@ + padded_decimal(month, 2) + "-"@ + padded_decimal(day, 2)
}

/// The display text of a date with a time of day.
pub open spec fn datetime_text(year: int, month: int, day: int, hour: int, minute: int) -> Seq<
    char,
> {
    date_text(year, month, day) + " "@ + padded_decimal(hour, 2) + ":"@ + padded_decimal(minute, 2)
}

/// What a deadline contributes to its task: the display text and the epoch
/// timestamp, if one can be given. A bare date counts as due at the last
/// second of that day; unreadable text is carried as it stands, with no
/// timestamp.
pub fn deadline_info(d: &TaskDeadline) -> (r: (Option<String>, Option<i64>))
    requires
        deadline_valid(*d),
    ensures
        match *d {
            TaskDeadline::DateTime { year, month, day, hour, minute } => (r.0 matches Some(s)
                && s@ == datetime_text(
                year as int,
                month as int,
                day as int,
                hour as int,
                minute as int,
            )) && (r.1 matches Some(t) && t as int == civil_timestamp(
                year as int,
                month as int,
                day as int,
                hour as int,
                minute as int,
                0,
            )),
            TaskDeadline::Date { year, month, day } => (r.0 matches Some(s) && s@ == date_text(
                year as int,
                month as int,
                day as int,
            )) && (r.1 matches Some(t) && t as int == civil_timestamp(
                year as int,
                month as int,
                day as int,
                23,
                59,
                59,
            )),
            TaskDeadline::Unparsed { text } => (r.0 matches Some(s) && s@ == text@) && r.1
                is None,
        },
{
    match d {
        TaskDeadline::DateTime { year, month, day, hour, minute } => {
            let mut s = padded_decimal_string((*year) as usize, 4);
            s.append("-");
            s.append(padded_decimal_string((*month) as usize, 2).as_str());
            s.append("-");
            s.append(padded_decimal_string((*day) as usize, 2).as_str());
            s.append(" ");
            s.append(padded_decimal_string((*hour) as usize, 2).as_str());
            s.append(":");
            s.append(padded_decimal_string((*minute) as usize, 2).as_str());
            let ts = timestamp_of_civil(*year, *month, *day, *hour, *minute, 0);
            proof {
                assert(s@ =~= datetime_text(
                    *year as int,
                    *month as int,
                    *day as int,
                    *hour as int,
                    *minute as int,
                ));
            }
            (Some(s), Some(ts))
        },
        TaskDeadline::Date { year, month, day } => {
            let mut s = padded_decimal_string((*year) as usize, 4);
            s.append("-");
            s.append(padded_decimal_string((*month) as usize, 2).as_str());
            s.append("-");
            s.append(padded_decimal_string((*day) as usize, 2).as_str());
            let ts = timestamp_of_civil(*year, *month, *day, 23, 59, 59);
            proof {
                assert(s@ =~= date_text(*year as int, *month as int, *day as int));
            }
            (Some(s), Some(ts))
        },
        TaskDeadline::Unparsed { text } => (Some(text.clone()), None),
    }
}

} // verus!
