//! The parse/format round trip: parsing the display rendering of any
//! well-formed date-time yields that date-time back, so repeated
//! parse-then-format cycles are stable from the first rendering on.

use vstd::prelude::*;

use crate::calendar::lemma_days_before_month_bounds;
use crate::calendar::lemma_days_before_month_step;
use crate::calendar::lemma_days_before_year_bounds;
use crate::calendar::lemma_days_before_year_step;
use crate::calendar::lemma_months_sum_to_year;
use crate::calendar::spec_days_before_month;
use crate::calendar::spec_days_before_year;
use crate::calendar::spec_days_in_month;
use crate::datetime::DateTimeView;
use crate::datetime::ord_of;
use crate::datetime::spec_cmp;
use crate::datetime::spec_create;
use crate::datetime::spec_total_seconds;
use crate::datetime::wf_view;
use crate::display::digit_char;
use crate::display::spec_decimal;
use crate::display::spec_display;
use crate::display::spec_two_digits;
use crate::parse::digit_value;
use crate::parse::is_ascii_digit;
use crate::parse::runs_from;
use crate::parse::spec_from_string;
use crate::parse::spec_tokens;
use crate::parse::token_value;

verus! {

/// Every character of `t` is an ASCII decimal digit.
spec fn all_digits(t: Seq<char>) -> bool {
    forall|i: int| 0 <= i < t.len() ==> is_ascii_digit(t[i])
}

proof fn lemma_digit_char(d: int)
    requires
        0 <= d <= 9,
    ensures
        is_ascii_digit(digit_char(d)),
        digit_value(digit_char(d)) == d,
{
}

proof fn lemma_token_value_single(c: char)
    ensures
        token_value(seq![c]) == digit_value(c),
{
    assert(seq![c].last() == c);
    assert(seq![c].drop_last() =~= Seq::<char>::empty());
    assert(token_value(Seq::<char>::empty()) == 0);
}

proof fn lemma_token_value_push(t: Seq<char>, c: char)
    ensures
        token_value(t.push(c)) == 10 * token_value(t) + digit_value(c),
{
    assert(t.push(c).len() == t.len() + 1);
    assert(t.push(c).last() == c);
    assert(t.push(c).drop_last() =~= t);
}

proof fn lemma_decimal_props(n: int)
    requires
        0 <= n,
    ensures
        spec_decimal(n).len() >= 1,
        all_digits(spec_decimal(n)),
        token_value(spec_decimal(n)) == n,
    decreases n,
{
    if n <= 9 {
        lemma_digit_char(n);
        assert(spec_decimal(n) == seq![digit_char(n)]);
        lemma_token_value_single(digit_char(n));
    } else {
        lemma_decimal_props(n / 10);
        lemma_digit_char(n % 10);
        assert(spec_decimal(n) == spec_decimal(n / 10).push(digit_char(n % 10)));
        lemma_token_value_push(spec_decimal(n / 10), digit_char(n % 10));
    }
}

proof fn lemma_two_digits_props(n: int)
    requires
        0 <= n <= 99,
    ensures
        spec_two_digits(n).len() == 2,
        all_digits(spec_two_digits(n)),
        token_value(spec_two_digits(n)) == n,
{
    lemma_digit_char(n / 10);
    lemma_digit_char(n % 10);
    let t = spec_two_digits(n);
    assert(t =~= seq![digit_char(n / 10)].push(digit_char(n % 10)));
    lemma_token_value_single(digit_char(n / 10));
    lemma_token_value_push(seq![digit_char(n / 10)], digit_char(n % 10));
}

/// Reading a run of digits extends the current token with the whole run.
proof fn lemma_runs_digits(t: Seq<char>, rest: Seq<char>, cur: Seq<char>)
    requires
        all_digits(t),
    ensures
        runs_from(t + rest, cur) == runs_from(rest, cur + t),
    decreases t.len(),
{
    if t.len() == 0 {
        assert(t + rest =~= rest);
        assert(cur + t =~= cur);
    } else {
        assert((t + rest)[0] == t[0]);
        assert((t + rest).drop_first() =~= t.drop_first() + rest);
        lemma_runs_digits(t.drop_first(), rest, cur.push(t[0]));
        assert(cur.push(t[0]) + t.drop_first() =~= cur + t);
    }
}

/// A separator closes the non-empty current token.
proof fn lemma_runs_sep(c: char, rest: Seq<char>, cur: Seq<char>)
    requires
        !is_ascii_digit(c),
        cur.len() > 0,
    ensures
        runs_from(seq![c] + rest, cur) == seq![cur] + runs_from(rest, Seq::empty()),
{
    assert((seq![c] + rest)[0] == c);
    assert((seq![c] + rest).drop_first() =~= rest);
}

/// The tokens of the display form are exactly the six rendered fields.
proof fn lemma_tokens_of_display(v: DateTimeView)
    requires
        wf_view(v),
    ensures
        spec_tokens(spec_display(v)) == seq![
            spec_decimal(v.year),
            spec_two_digits(v.month),
            spec_two_digits(v.day),
            spec_two_digits(v.hour),
            spec_two_digits(v.minute),
            spec_two_digits(v.second),
        ],
{
    let d1 = spec_decimal(v.year);
    let d2 = spec_two_digits(v.month);
    let d3 = spec_two_digits(v.day);
    let d4 = spec_two_digits(v.hour);
    let d5 = spec_two_digits(v.minute);
    let d6 = spec_two_digits(v.second);
    lemma_decimal_props(v.year);
    lemma_two_digits_props(v.month);
    lemma_two_digits_props(v.day);
    lemma_two_digits_props(v.hour);
    lemma_two_digits_props(v.minute);
    lemma_two_digits_props(v.second);
    let r5 = seq![':'] + d6;
    let r4 = seq![':'] + (d5 + r5);
    let r3 = seq![' '] + (d4 + r4);
    let r2 = seq!['-'] + (d3 + r3);
    let r1 = seq!['-'] + (d2 + r2);
    assert(spec_display(v) =~= d1 + r1);
    let e = Seq::<char>::empty();

    assert(runs_from(d1 + r1, e) == runs_from(r1, d1)) by {
        lemma_runs_digits(d1, r1, e);
        assert(e + d1 =~= d1);
    }
    assert(runs_from(r1, d1) == seq![d1] + runs_from(d2 + r2, e)) by {
        lemma_runs_sep('-', d2 + r2, d1);
    }
    assert(runs_from(d2 + r2, e) == runs_from(r2, d2)) by {
        lemma_runs_digits(d2, r2, e);
        assert(e + d2 =~= d2);
    }
    assert(runs_from(r2, d2) == seq![d2] + runs_from(d3 + r3, e)) by {
        lemma_runs_sep('-', d3 + r3, d2);
    }
    assert(runs_from(d3 + r3, e) == runs_from(r3, d3)) by {
        lemma_runs_digits(d3, r3, e);
        assert(e + d3 =~= d3);
    }
    assert(runs_from(r3, d3) == seq![d3] + runs_from(d4 + r4, e)) by {
        lemma_runs_sep(' ', d4 + r4, d3);
    }
    assert(runs_from(d4 + r4, e) == runs_from(r4, d4)) by {
        lemma_runs_digits(d4, r4, e);
        assert(e + d4 =~= d4);
    }
    assert(runs_from(r4, d4) == seq![d4] + runs_from(d5 + r5, e)) by {
        lemma_runs_sep(':', d5 + r5, d4);
    }
    assert(runs_from(d5 + r5, e) == runs_from(r5, d5)) by {
        lemma_runs_digits(d5, r5, e);
        assert(e + d5 =~= d5);
    }
    assert(runs_from(r5, d5) == seq![d5] + runs_from(d6, e)) by {
        lemma_runs_sep(':', d6, d5);
        assert(seq![':'] + d6 =~= r5);
    }
    assert(runs_from(d6, e) == runs_from(e, d6)) by {
        lemma_runs_digits(d6, e, e);
        assert(d6 + e =~= d6);
        assert(e + d6 =~= d6);
    }
    assert(runs_from(e, d6) =~= seq![d6]);
    assert(spec_tokens(spec_display(v)) =~= seq![d1, d2, d3, d4, d5, d6]);
}

/// A lexicographically earlier well-formed date-time lies strictly earlier
/// on the epoch-second line.
proof fn lemma_chronology_lt(a: DateTimeView, b: DateTimeView)
    requires
        wf_view(a),
        wf_view(b),
        spec_cmp(a, b) == core::cmp::Ordering::Less,
    ensures
        spec_total_seconds(a) < spec_total_seconds(b),
{
    lemma_days_before_month_bounds(a.year, a.month);
    lemma_days_before_month_bounds(b.year, b.month);
    lemma_days_before_year_bounds(a.year);
    lemma_days_before_year_bounds(b.year);
    if a.year < b.year {
        // Everything after the year start of `a` stays within that year.
        lemma_days_before_month_step(a.year, a.month, 13);
        lemma_months_sum_to_year(a.year);
        lemma_days_before_year_step(a.year, b.year);
        assert(spec_days_before_month(a.year, a.month) + (a.day - 1) < spec_days_before_month(
            a.year,
            13,
        ));
    } else if a.month < b.month {
        lemma_days_before_month_step(a.year, a.month, b.month);
        assert(spec_days_before_month(a.year, a.month) + (a.day - 1) < spec_days_before_month(
            a.year,
            a.month,
        ) + spec_days_in_month(a.year, a.month));
    }
}

/// The fieldwise lexicographic comparison of two well-formed date-times
/// orders them exactly as their epoch-second counts do: the order of the
/// interface is chronological order.
pub proof fn lemma_ordering_is_chronological(a: DateTimeView, b: DateTimeView)
    requires
        wf_view(a),
        wf_view(b),
    ensures
        spec_cmp(a, b) == ord_of(spec_total_seconds(a), spec_total_seconds(b)),
{
    if spec_cmp(a, b) == core::cmp::Ordering::Less {
        lemma_chronology_lt(a, b);
    } else if spec_cmp(a, b) == core::cmp::Ordering::Greater {
        assert(spec_cmp(b, a) == core::cmp::Ordering::Less);
        lemma_chronology_lt(b, a);
    }
}

/// Parsing the display rendering of a well-formed date-time yields exactly
/// that date-time, so formatting is stable under repeated parse/format round
/// trips.
pub proof fn lemma_display_round_trip(v: DateTimeView)
    requires
        wf_view(v),
    ensures
        spec_from_string(spec_display(v)) == Ok::<DateTimeView, crate::datetime::IllegalTimeError>(
            v,
        ),
{
    lemma_tokens_of_display(v);
    lemma_decimal_props(v.year);
    lemma_two_digits_props(v.month);
    lemma_two_digits_props(v.day);
    lemma_two_digits_props(v.hour);
    lemma_two_digits_props(v.minute);
    lemma_two_digits_props(v.second);
    let toks = spec_tokens(spec_display(v));
    assert(toks.len() == 6);
    assert(token_value(toks[0]) == v.year);
    assert(token_value(toks[1]) == v.month);
    assert(token_value(toks[2]) == v.day);
    assert(token_value(toks[3]) == v.hour);
    assert(token_value(toks[4]) == v.minute);
    assert(token_value(toks[5]) == v.second);
    assert(spec_create(v.year, v.month, v.day, v.hour, v.minute, v.second) == Ok::<
        DateTimeView,
        crate::datetime::IllegalTimeError,
    >(v));
}

} // verus!
