use vstd::prelude::*;

use crate::program_monitor as types;
use crate::program_monitor::{FilterView, TimeLimit, TimeOfDay, NANOS_PER_SEC};

use super::time_text::{format_time, parse_time, parse_time_text, time_text};
use super::Error;

verus! {

/// A time of day on the wire: its `HH:MM:SS` text.
#[derive(Debug)]
pub struct NaiveTime(pub String);

impl NaiveTime {
    pub fn from(value: TimeOfDay) -> (r: NaiveTime)
        requires
            value.wf(),
        ensures
            r.0@ == time_text(value),
    {
        NaiveTime(format_time(&value))
    }
}

impl TimeOfDay {
    /// Reads a time of day from its wire text.
    pub fn try_from(value: NaiveTime) -> (r: Result<TimeOfDay, Error>)
        ensures
            match r {
                Ok(t) => parse_time_text(value.0@) == Some(t),
                Err(_) => parse_time_text(value.0@) is None,
            },
    {
        match parse_time(value.0.as_str()) {
            Some(t) => Ok(t),
            None => Err(Error::InvalidZVariant(String::from_str("NaiveTime: expected HH:MM:SS"))),
        }
    }
}

/// A daily window on the wire.
#[derive(Debug)]
pub struct TimeSlice {
    pub start: NaiveTime,
    pub end: NaiveTime,
}

impl View for TimeSlice {
    type V = (Seq<char>, Seq<char>);

    open spec fn view(&self) -> (Seq<char>, Seq<char>) {
        (self.start.0@, self.end.0@)
    }
}

pub open spec fn encode_slice(t: types::TimeSlice) -> (Seq<char>, Seq<char>) {
    (time_text(t.start), time_text(t.end))
}

pub open spec fn decode_slice(w: (Seq<char>, Seq<char>)) -> Option<types::TimeSlice> {
    match (parse_time_text(w.0), parse_time_text(w.1)) {
        (Some(start), Some(end)) => Some(types::TimeSlice { start, end }),
        _ => None,
    }
}

impl TimeSlice {
    pub fn from(value: types::TimeSlice) -> (r: TimeSlice)
        requires
            value.wf(),
        ensures
            r@ == encode_slice(value),
    {
        TimeSlice { start: NaiveTime::from(value.start), end: NaiveTime::from(value.end) }
    }
}

fn read_slice(value: &TimeSlice) -> (r: Option<types::TimeSlice>)
    ensures
        r == decode_slice(value@),
{
    match (parse_time(value.start.0.as_str()), parse_time(value.end.0.as_str())) {
        (Some(start), Some(end)) => Some(types::TimeSlice { start, end }),
        _ => None,
    }
}

impl types::TimeSlice {
    /// Reads a daily window from the wire.
    pub fn try_from(value: TimeSlice) -> (r: Result<types::TimeSlice, Error>)
        ensures
            match r {
                Ok(t) => decode_slice(value@) == Some(t),
                Err(_) => decode_slice(value@) is None,
            },
    {
        let start = TimeOfDay::try_from(value.start)?;
        let end = TimeOfDay::try_from(value.end)?;
        Ok(types::TimeSlice { start, end })
    }
}

/// What a filter carries on the wire, after its case tag.
#[derive(Debug)]
pub enum Payload {
    /// No value (a basic filter).
    Empty,
    /// An array of integers (a time limit: seconds, then nanoseconds).
    Numbers(Vec<u64>),
    /// An array of daily windows (a schedule).
    Slices(Vec<TimeSlice>),
}

pub ghost enum PayloadView {
    Empty,
    Numbers(Seq<u64>),
    Slices(Seq<(Seq<char>, Seq<char>)>),
}

impl View for Payload {
    type V = PayloadView;

    open spec fn view(&self) -> PayloadView {
        match self {
            Payload::Empty => PayloadView::Empty,
            Payload::Numbers(v) => PayloadView::Numbers(v@),
            Payload::Slices(v) => PayloadView::Slices(v@.map_values(|t: TimeSlice| t@)),
        }
    }
}

/// The case tag of a basic filter.
pub const FILTER_BASIC: u8 = 0;

/// The case tag of a time-limited filter.
pub const FILTER_TIME_LIMITED: u8 = 1;

/// The case tag of a scheduled filter.
pub const FILTER_SCHEDULED: u8 = 2;

/// A filter on the wire: a case tag and its payload.
#[derive(Debug)]
pub struct Filter {
    pub case: u8,
    pub inner: Payload,
}

pub ghost struct FilterWire {
    pub case: u8,
    pub inner: PayloadView,
}

impl View for Filter {
    type V = FilterWire;

    open spec fn view(&self) -> FilterWire {
        FilterWire { case: self.case, inner: self.inner@ }
    }
}

pub open spec fn encode_filter(f: FilterView) -> FilterWire {
    match f {
        FilterView::Basic => FilterWire { case: FILTER_BASIC, inner: PayloadView::Empty },
        FilterView::TimeLimited(d) => FilterWire {
            case: FILTER_TIME_LIMITED,
            inner: PayloadView::Numbers(seq![d.secs, d.nanos as u64]),
        },
        FilterView::Scheduled(v) => FilterWire {
            case: FILTER_SCHEDULED,
            inner: PayloadView::Slices(v.map_values(|t: types::TimeSlice| encode_slice(t))),
        },
    }
}

/// The time limit that seconds and nanoseconds on the wire stand for: the
/// nanoseconds must fit in 32 bits, and those over one second are carried.
pub open spec fn decode_time_limit(v: Seq<u64>) -> Option<TimeLimit> {
    if v.len() == 2 && v[1] <= u32::MAX && v[0] as int + v[1] as int / NANOS_PER_SEC as int
        <= u64::MAX {
        Some(
            TimeLimit {
                secs: (v[0] as int + v[1] as int / NANOS_PER_SEC as int) as u64,
                nanos: (v[1] as int % NANOS_PER_SEC as int) as u32,
            },
        )
    } else {
        None
    }
}

pub open spec fn decode_filter(w: FilterWire) -> Option<FilterView> {
    if w.case == FILTER_BASIC {
        Some(FilterView::Basic)
    } else if w.case == FILTER_TIME_LIMITED {
        match w.inner {
            PayloadView::Numbers(v) => match decode_time_limit(v) {
                Some(d) => Some(FilterView::TimeLimited(d)),
                None => None,
            },
            _ => None,
        }
    } else if w.case == FILTER_SCHEDULED {
        match w.inner {
            PayloadView::Slices(v) => if forall|i: int|
                0 <= i < v.len() ==> (#[trigger] decode_slice(v[i])) is Some {
                Some(FilterView::Scheduled(v.map_values(|s| decode_slice(s).unwrap())))
            } else {
                None
            },
            _ => None,
        }
    } else {
        None
    }
}

impl Filter {
    pub fn from(value: types::Filter) -> (r: Filter)
        requires
            value@.wf(),
        ensures
            r@ == encode_filter(value@),
    {
        match value {
            types::Filter::Basic => Filter { case: FILTER_BASIC, inner: Payload::Empty },
            types::Filter::Scheduled(items) => {
                let mut out: Vec<TimeSlice> = Vec::new();
                let mut i: usize = 0;
                while i < items.len()
                    invariant
                        i <= items@.len(),
                        forall|j: int| 0 <= j < items@.len() ==> (#[trigger] items@[j]).wf(),
                        out@.len() == i,
                        forall|j: int| 0 <= j < i ==> (#[trigger] out@[j])@ == encode_slice(items@[j]),
                    decreases items.len() - i,
                {
                    out.push(TimeSlice::from(items[i]));
                    i += 1;
                }
                assert(out@.map_values(|t: TimeSlice| t@) =~= items@.map_values(
                    |t: types::TimeSlice| encode_slice(t),
                ));
                Filter { case: FILTER_SCHEDULED, inner: Payload::Slices(out) }
            },
            types::Filter::TimeLimited(d) => {
                let v: Vec<u64> = vec![d.secs, d.nanos as u64];
                assert(v@ =~= seq![d.secs, d.nanos as u64]);
                Filter { case: FILTER_TIME_LIMITED, inner: Payload::Numbers(v) }
            },
        }
    }
}

impl types::Filter {
    /// Reads a filter from the wire.
    pub fn try_from(value: Filter) -> (r: Result<types::Filter, Error>)
        ensures
            match r {
                Ok(f) => decode_filter(value@) == Some(f@),
                Err(_) => decode_filter(value@) is None,
            },
    {
        if value.case == FILTER_BASIC {
            Ok(types::Filter::Basic)
        } else if value.case == FILTER_TIME_LIMITED {
            match value.inner {
                Payload::Numbers(v) => {
                    if v.len() != 2 {
                        return Err(
                            Error::InvalidZVariant(
                                String::from_str("invalid duration, expected 2 fields"),
                            ),
                        );
                    }
                    if v[1] > u32::MAX as u64 {
                        return Err(
                            Error::InvalidZVariant(
                                String::from_str("invalid duration, expected subsecond nanos"),
                            ),
                        );
                    }
                    match TimeLimit::new(v[0], v[1] as u32) {
                        Some(d) => Ok(types::Filter::TimeLimited(d)),
                        None => Err(
                            Error::InvalidZVariant(String::from_str("invalid duration, too long")),
                        ),
                    }
                },
                _ => Err(Error::InvalidZVariant(String::from_str("invalid Array"))),
            }
        } else if value.case == FILTER_SCHEDULED {
            match value.inner {
                Payload::Slices(items) => {
                    let ghost w = items@.map_values(|t: TimeSlice| t@);
                    assert(value@.inner == PayloadView::Slices(w));
                    let mut out: Vec<types::TimeSlice> = Vec::new();
                    let mut i: usize = 0;
                    while i < items.len()
                        invariant
                            w == items@.map_values(|t: TimeSlice| t@),
                            value@.inner == PayloadView::Slices(w),
                            value.case == FILTER_SCHEDULED,
                            i <= items@.len(),
                            out@.len() == i,
                            forall|j: int|
                                0 <= j < i ==> decode_slice(w[j]) == Some(#[trigger] out@[j]),
                        decreases items.len() - i,
                    {
                        match read_slice(&items[i]) {
                            Some(t) => out.push(t),
                            None => {
                                assert(decode_slice(w[i as int]) is None);
                                return Err(
                                    Error::InvalidZVariant(String::from_str("Expected TimeSlice")),
                                );
                            },
                        }
                        i += 1;
                    }
                    assert forall|j: int| 0 <= j < w.len() implies (#[trigger] decode_slice(
                        w[j],
                    )) is Some by {
                        assert(decode_slice(w[j]) == Some(out@[j]));
                    }
                    assert(out@ =~= w.map_values(|s| decode_slice(s).unwrap()));
                    Ok(types::Filter::Scheduled(out))
                },
                _ => Err(Error::InvalidZVariant(String::from_str("Expected TimeSlice"))),
            }
        } else {
            Err(Error::InvalidZVariant(String::from_str("invalid filter case")))
        }
    }
}

} // verus!

verus! {

/// The case tag of the one action.
pub const ACTION_BLOCK_PROGRAM_EXECUTION: u8 = 0;

/// An action on the wire: a case tag and its inode number.
#[derive(Clone, Copy, Debug, PartialEq, Eq, Structural)]
pub struct Action {
    pub case: u8,
    pub inner: u64,
}

pub open spec fn encode_action(a: types::Action) -> Action {
    match a {
        types::Action::BlockProgramExecution(i) => Action {
            case: ACTION_BLOCK_PROGRAM_EXECUTION,
            inner: i,
        },
    }
}

pub open spec fn decode_action(w: Action) -> Option<types::Action> {
    if w.case == ACTION_BLOCK_PROGRAM_EXECUTION {
        Some(types::Action::BlockProgramExecution(w.inner))
    } else {
        None
    }
}

impl Action {
    pub fn from(value: types::Action) -> (r: Action)
        ensures
            r == encode_action(value),
    {
        match value {
            types::Action::BlockProgramExecution(i) => Action {
                case: ACTION_BLOCK_PROGRAM_EXECUTION,
                inner: i,
            },
        }
    }
}

impl types::Action {
    /// Reads an action from the wire.
    pub fn try_from(value: Action) -> (r: Result<types::Action, Error>)
        ensures
            match r {
                Ok(a) => decode_action(value) == Some(a),
                Err(_) => decode_action(value) is None,
            },
    {
        if value.case == ACTION_BLOCK_PROGRAM_EXECUTION {
            Ok(types::Action::BlockProgramExecution(value.inner))
        } else {
            Err(Error::InvalidZVariant(String::from_str("invalid action case")))
        }
    }
}

/// A program-monitor rule on the wire.
#[derive(Debug)]
pub struct Rule {
    pub filter: Filter,
    pub action: Action,
}

pub ghost struct RuleWire {
    pub filter: FilterWire,
    pub action: Action,
}

impl View for Rule {
    type V = RuleWire;

    open spec fn view(&self) -> RuleWire {
        RuleWire { filter: self.filter@, action: self.action }
    }
}

pub open spec fn encode_rule(r: types::RuleView) -> RuleWire {
    RuleWire { filter: encode_filter(r.filter), action: encode_action(r.action) }
}

pub open spec fn decode_rule(w: RuleWire) -> Option<types::RuleView> {
    match (decode_filter(w.filter), decode_action(w.action)) {
        (Some(filter), Some(action)) => Some(types::RuleView { filter, action }),
        _ => None,
    }
}

impl Rule {
    pub fn from(value: types::Rule) -> (r: Rule)
        requires
            value@.wf(),
        ensures
            r@ == encode_rule(value@),
    {
        Rule { filter: Filter::from(value.filter), action: Action::from(value.action) }
    }
}

impl types::Rule {
    /// Reads a program-monitor rule from the wire.
    pub fn try_from(value: Rule) -> (r: Result<types::Rule, Error>)
        ensures
            match r {
                Ok(v) => decode_rule(value@) == Some(v@),
                Err(_) => decode_rule(value@) is None,
            },
    {
        let filter = types::Filter::try_from(value.filter)?;
        let action = types::Action::try_from(value.action)?;
        Ok(types::Rule { filter, action })
    }
}

/// A valid filter read back from the wire is the filter that was written.
pub proof fn law_filter_round_trip(f: FilterView)
    requires
        f.wf(),
    ensures
        decode_filter(encode_filter(f)) == Some(f),
{
    match f {
        FilterView::Basic => {},
        FilterView::TimeLimited(d) => {
            let v = seq![d.secs, d.nanos as u64];
            assert(v[0] == d.secs && v[1] == d.nanos as u64);
            assert(d.nanos as int / NANOS_PER_SEC as int == 0);
            assert(d.nanos as int % NANOS_PER_SEC as int == d.nanos as int);
        },
        FilterView::Scheduled(v) => {
            let w = v.map_values(|t: types::TimeSlice| encode_slice(t));
            assert forall|i: int| 0 <= i < w.len() implies (#[trigger] decode_slice(w[i])) == Some(
                v[i],
            ) by {
                assert(v[i].wf());
                super::time_text::law_time_round_trip(v[i].start);
                super::time_text::law_time_round_trip(v[i].end);
            }
            assert(w.map_values(|s| decode_slice(s).unwrap()) =~= v);
        },
    }
}

/// A valid program-monitor rule read back from the wire is the rule that was
/// written.
pub proof fn law_rule_round_trip(r: types::RuleView)
    requires
        r.wf(),
    ensures
        decode_rule(encode_rule(r)) == Some(r),
{
    law_filter_round_trip(r.filter);
}

} // verus!
