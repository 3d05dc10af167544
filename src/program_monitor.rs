use vstd::prelude::*;

verus! {

/// Filesystem identity of an executable.
pub type INodeNumber = u64;

/// A time of day, to the second.
#[derive(Clone, Copy, Debug, PartialEq, Eq, Structural)]
pub struct TimeOfDay {
    pub hour: u8,
    pub minute: u8,
    pub second: u8,
}

impl TimeOfDay {
    pub open spec fn wf(self) -> bool {
        self.hour < 24 && self.minute < 60 && self.second < 60
    }

    /// Seconds since midnight.
    pub open spec fn seconds(self) -> int {
        self.hour as int * 3600 + self.minute as int * 60 + self.second as int
    }

    /// A time of day, when the three parts are in range.
    pub fn new(hour: u8, minute: u8, second: u8) -> (r: Option<TimeOfDay>)
        ensures
            r matches Some(t) ==> t.wf() && t.hour == hour && t.minute == minute && t.second
                == second,
            r is None <==> !(hour < 24 && minute < 60 && second < 60),
    {
        if hour < 24 && minute < 60 && second < 60 {
            Some(TimeOfDay { hour, minute, second })
        } else {
            None
        }
    }

    /// Orders two times of day.
    pub fn le(&self, other: &TimeOfDay) -> (r: bool)
        ensures
            r == (self.seconds() <= other.seconds()),
    {
        let a: u32 = self.hour as u32 * 3600 + self.minute as u32 * 60 + self.second as u32;
        let b: u32 = other.hour as u32 * 3600 + other.minute as u32 * 60 + other.second as u32;
        a <= b
    }
}

/// A daily window of time.
#[derive(Clone, Copy, Debug, PartialEq, Eq, Structural)]
pub struct TimeSlice {
    pub start: TimeOfDay,
    pub end: TimeOfDay,
}

impl TimeSlice {
    pub open spec fn wf(self) -> bool {
        self.start.wf() && self.end.wf()
    }

    pub open spec fn spec_contains(self, t: TimeOfDay) -> bool {
        self.start.seconds() <= t.seconds() && t.seconds() <= self.end.seconds()
    }

    /// Whether `t` lies in the window, both ends included.
    pub fn contains(&self, t: &TimeOfDay) -> (r: bool)
        ensures
            r == self.spec_contains(*t),
    {
        self.start.le(t) && t.le(&self.end)
    }
}

/// A span of time: whole seconds and the nanoseconds below one second.
#[derive(Clone, Copy, Debug, PartialEq, Eq, Structural)]
pub struct TimeLimit {
    pub secs: u64,
    pub nanos: u32,
}

pub const NANOS_PER_SEC: u32 = 1_000_000_000;

impl TimeLimit {
    pub open spec fn wf(self) -> bool {
        self.nanos < NANOS_PER_SEC
    }

    /// The span in nanoseconds.
    pub open spec fn total_nanos(self) -> int {
        self.secs as int * NANOS_PER_SEC as int + self.nanos as int
    }

    /// A span from seconds and nanoseconds, the nanoseconds over one second carried
    /// into the seconds; `None` where the seconds would overflow.
    pub fn new(secs: u64, nanos: u32) -> (r: Option<TimeLimit>)
        ensures
            r matches Some(d) ==> d.wf() && d.total_nanos() == secs as int * NANOS_PER_SEC as int
                + nanos as int,
            r is None <==> secs as int + nanos as int / NANOS_PER_SEC as int > u64::MAX as int,
    {
        let carry: u64 = (nanos / NANOS_PER_SEC) as u64;
        if secs > u64::MAX - carry {
            None
        } else {
            Some(TimeLimit { secs: secs + carry, nanos: nanos % NANOS_PER_SEC })
        }
    }
}

/// When a rule applies.
#[derive(Debug)]
pub enum Filter {
    /// Always.
    Basic,
    /// Within any of the daily windows.
    Scheduled(Vec<TimeSlice>),
    /// For a limited time.
    TimeLimited(TimeLimit),
}

pub ghost enum FilterView {
    Basic,
    Scheduled(Seq<TimeSlice>),
    TimeLimited(TimeLimit),
}

impl FilterView {
    /// Every time of day in the filter is a real one, and a time limit keeps
    /// its nanoseconds below one second.
    pub open spec fn wf(self) -> bool {
        match self {
            FilterView::Basic => true,
            FilterView::Scheduled(v) => forall|i: int| 0 <= i < v.len() ==> (#[trigger] v[i]).wf(),
            FilterView::TimeLimited(d) => d.wf(),
        }
    }
}

impl View for Filter {
    type V = FilterView;

    open spec fn view(&self) -> FilterView {
        match self {
            Filter::Basic => FilterView::Basic,
            Filter::Scheduled(v) => FilterView::Scheduled(v@),
            Filter::TimeLimited(d) => FilterView::TimeLimited(*d),
        }
    }
}

fn slices_eq(a: &Vec<TimeSlice>, b: &Vec<TimeSlice>) -> (r: bool)
    ensures
        r == (a@ == b@),
{
    if a.len() != b.len() {
        return false;
    }
    let mut i: usize = 0;
    while i < a.len()
        invariant
            a.len() == b.len(),
            i <= a.len(),
            forall|j: int| 0 <= j < i ==> a@[j] == b@[j],
        decreases a.len() - i,
    {
        if a[i] != b[i] {
            return false;
        }
        i += 1;
    }
    assert(a@ =~= b@);
    true
}

fn slices_clone(a: &Vec<TimeSlice>) -> (r: Vec<TimeSlice>)
    ensures
        r@ == a@,
{
    let mut r: Vec<TimeSlice> = Vec::new();
    let mut i: usize = 0;
    while i < a.len()
        invariant
            i <= a.len(),
            r@ == a@.subrange(0, i as int),
        decreases a.len() - i,
    {
        r.push(a[i]);
        i += 1;
        assert(r@ =~= a@.subrange(0, i as int));
    }
    assert(a@ =~= a@.subrange(0, a.len() as int));
    r
}

impl Filter {
    /// Whether every time of day in the filter is a real one and a time limit
    /// keeps its nanoseconds below one second.
    pub fn is_valid(&self) -> (r: bool)
        ensures
            r == self@.wf(),
    {
        match self {
            Filter::Basic => true,
            Filter::Scheduled(v) => {
                let mut i: usize = 0;
                while i < v.len()
                    invariant
                        self@ == FilterView::Scheduled(v@),
                        i <= v@.len(),
                        forall|j: int| 0 <= j < i ==> (#[trigger] v@[j]).wf(),
                    decreases v.len() - i,
                {
                    let t = v[i];
                    if !(t.start.hour < 24 && t.start.minute < 60 && t.start.second < 60
                        && t.end.hour < 24 && t.end.minute < 60 && t.end.second < 60) {
                        assert(self@->Scheduled_0 == v@);
                        assert(!v@[i as int].wf());
                        return false;
                    }
                    i += 1;
                }
                true
            },
            Filter::TimeLimited(d) => d.nanos < NANOS_PER_SEC,
        }
    }
}

impl Clone for Filter {
    fn clone(&self) -> (r: Filter)
        ensures
            r@ == self@,
    {
        match self {
            Filter::Basic => Filter::Basic,
            Filter::Scheduled(v) => Filter::Scheduled(slices_clone(v)),
            Filter::TimeLimited(d) => Filter::TimeLimited(*d),
        }
    }
}

impl PartialEq for Filter {
    fn eq(&self, o: &Filter) -> (r: bool) {
        match (self, o) {
            (Filter::Basic, Filter::Basic) => true,
            (Filter::Scheduled(a), Filter::Scheduled(b)) => slices_eq(a, b),
            (Filter::TimeLimited(a), Filter::TimeLimited(b)) => *a == *b,
            _ => false,
        }
    }
}

impl vstd::std_specs::cmp::PartialEqSpecImpl for Filter {
    open spec fn obeys_eq_spec() -> bool {
        true
    }

    open spec fn eq_spec(&self, o: &Filter) -> bool {
        self@ == o@
    }
}

/// What a rule does when it applies.
#[derive(Clone, Copy, Debug, PartialEq, Eq, Structural)]
pub enum Action {
    /// Deny execution of the program with this inode number.
    BlockProgramExecution(INodeNumber),
}

/// A rule of the program monitor: when it applies and what it does.
#[derive(Debug)]
pub struct Rule {
    pub filter: Filter,
    pub action: Action,
}

pub ghost struct RuleView {
    pub filter: FilterView,
    pub action: Action,
}

impl RuleView {
    pub open spec fn wf(self) -> bool {
        self.filter.wf()
    }
}

impl View for Rule {
    type V = RuleView;

    open spec fn view(&self) -> RuleView {
        RuleView { filter: self.filter@, action: self.action }
    }
}

impl Clone for Rule {
    fn clone(&self) -> (r: Rule)
        ensures
            r@ == self@,
    {
        Rule { filter: self.filter.clone(), action: self.action }
    }
}

impl PartialEq for Rule {
    fn eq(&self, o: &Rule) -> (r: bool) {
        self.filter == o.filter && self.action == o.action
    }
}

impl vstd::std_specs::cmp::PartialEqSpecImpl for Rule {
    open spec fn obeys_eq_spec() -> bool {
        true
    }

    open spec fn eq_spec(&self, o: &Rule) -> bool {
        self@ == o@
    }
}

} // verus!
