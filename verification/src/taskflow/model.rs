//! Tasks, their status and priority, calendar days and instants.
use vstd::prelude::*;
use crate::taskflow::clock::{
    calendar_day_exists, day_in_calendar, format_iso_date, format_rfc3339, instant_exists,
    instant_in_range, iso_date_text, rfc3339_text,
};

verus! {

/// Where a task stands.
#[derive(Debug, Clone, Copy, PartialEq, Eq, Structural)]
pub enum Status {
    Todo,
    InProgress,
    Done,
}

/// How urgent a task is.
#[derive(Debug, Clone, Copy, PartialEq, Eq, Structural)]
pub enum Priority {
    Low,
    Medium,
    High,
}

/// The label of a status in the CSV export.
pub open spec fn status_label(s: Status) -> Seq<char> {
    match s {
        Status::Todo => "待办"@,
        Status::InProgress => "进行中"@,
        Status::Done => "已完成"@,
    }
}

/// The word a status is shown with in a task's display line and in the task table, where
/// a task still to do reads as not finished.
pub open spec fn shown_status_label(s: Status) -> Seq<char> {
    match s {
        Status::Todo => "未完成"@,
        Status::InProgress => "进行中"@,
        Status::Done => "已完成"@,
    }
}

/// The label a priority is shown with.
pub open spec fn priority_label(p: Priority) -> Seq<char> {
    match p {
        Priority::Low => "低"@,
        Priority::Medium => "中"@,
        Priority::High => "高"@,
    }
}

impl Status {
    /// The label of the status in the CSV export.
    pub fn label(&self) -> (r: &'static str)
        ensures
            r@ == status_label(*self),
    {
        match self {
            Status::Todo => "待办",
            Status::InProgress => "进行中",
            Status::Done => "已完成",
        }
    }

    /// The word the status is shown with in a task's display line and in the task table.
    pub fn shown_label(&self) -> (r: &'static str)
        ensures
            r@ == shown_status_label(*self),
    {
        match self {
            Status::Todo => "未完成",
            Status::InProgress => "进行中",
            Status::Done => "已完成",
        }
    }
}

impl Priority {
    /// The label the priority is shown with.
    pub fn label(&self) -> (r: &'static str)
        ensures
            r@ == priority_label(*self),
    {
        match self {
            Priority::Low => "低",
            Priority::Medium => "中",
            Priority::High => "高",
        }
    }
}

/// A calendar day, numbered from January 1 of year 1 (day 1), that chrono can represent.
#[derive(Debug, Clone, Copy, PartialEq, Eq, Structural)]
pub struct CalendarDay {
    days_from_ce: i32,
}

impl CalendarDay {
    #[verifier::type_invariant]
    closed spec fn representable(&self) -> bool {
        day_in_calendar(self.days_from_ce)
    }

    /// The day number.
    pub closed spec fn days(&self) -> i32 {
        self.days_from_ce
    }

    /// The day with this number, or `None` where chrono has no such date.
    pub fn from_days_from_ce(days_from_ce: i32) -> (r: Option<CalendarDay>)
        ensures
            r.is_some() == day_in_calendar(days_from_ce),
            r matches Some(d) ==> d.days() == days_from_ce,
    {
        if calendar_day_exists(days_from_ce) {
            Some(CalendarDay { days_from_ce })
        } else {
            None
        }
    }

    /// Builds a day from a number already known to be representable.
    pub(crate) fn from_known_day(days_from_ce: i32) -> (r: CalendarDay)
        requires
            day_in_calendar(days_from_ce),
        ensures
            r.days() == days_from_ce,
    {
        CalendarDay { days_from_ce }
    }

    /// The day number.
    pub fn days_from_ce(&self) -> (r: i32)
        ensures
            r == self.days(),
            day_in_calendar(r),
    {
        proof { use_type_invariant(self); }
        self.days_from_ce
    }

    /// The day as chrono writes it, `YYYY-MM-DD` for years 0 to 9999.
    pub fn iso_text(&self) -> (r: String)
        ensures
            r@ == iso_date_text(self.days()),
    {
        proof { use_type_invariant(self); }
        format_iso_date(self.days_from_ce)
    }

    /// Whether this day comes before `other`.
    pub fn is_before(&self, other: &CalendarDay) -> (b: bool)
        ensures
            b == (self.days() < other.days()),
    {
        self.days_from_ce < other.days_from_ce
    }
}

/// An instant given as seconds since 1970-01-01T00:00:00Z and nanoseconds, that chrono can
/// represent.
#[derive(Debug, Clone, Copy, PartialEq, Eq, Structural)]
pub struct Timestamp {
    secs: i64,
    nanos: u32,
}

impl Timestamp {
    #[verifier::type_invariant]
    closed spec fn representable(&self) -> bool {
        instant_in_range(self.secs, self.nanos)
    }

    /// Whole seconds since the Unix epoch.
    pub closed spec fn secs_spec(&self) -> i64 {
        self.secs
    }

    /// Nanoseconds past the whole second.
    pub closed spec fn nanos_spec(&self) -> u32 {
        self.nanos
    }

    /// The instant with these parts, or `None` where chrono has no such instant.
    pub fn from_parts(secs: i64, nanos: u32) -> (r: Option<Timestamp>)
        ensures
            r.is_some() == instant_in_range(secs, nanos),
            r matches Some(t) ==> t.secs_spec() == secs && t.nanos_spec() == nanos,
    {
        if instant_exists(secs, nanos) {
            Some(Timestamp { secs, nanos })
        } else {
            None
        }
    }

    /// Builds an instant from parts already known to be representable.
    pub(crate) fn from_known_parts(secs: i64, nanos: u32) -> (r: Timestamp)
        requires
            instant_in_range(secs, nanos),
        ensures
            r.secs_spec() == secs,
            r.nanos_spec() == nanos,
    {
        Timestamp { secs, nanos }
    }

    /// Whole seconds since the Unix epoch.
    pub fn secs(&self) -> (r: i64)
        ensures
            r == self.secs_spec(),
    {
        self.secs
    }

    /// Nanoseconds past the whole second.
    pub fn nanos(&self) -> (r: u32)
        ensures
            r == self.nanos_spec(),
    {
        self.nanos
    }

    /// The instant in RFC 3339, as chrono writes it.
    pub fn rfc3339(&self) -> (r: String)
        ensures
            r@ == rfc3339_text(self.secs_spec(), self.nanos_spec()),
    {
        proof { use_type_invariant(self); }
        format_rfc3339(self.secs, self.nanos)
    }

    /// Whether this instant comes strictly before `other`.
    pub fn is_before(&self, other: &Timestamp) -> (b: bool)
        ensures
            b == (self.secs_spec() < other.secs_spec() || (self.secs_spec() == other.secs_spec()
                && self.nanos_spec() < other.nanos_spec())),
    {
        self.secs < other.secs || (self.secs == other.secs && self.nanos < other.nanos)
    }
}

/// A task as the manager keeps it.
#[derive(Debug)]
pub struct Task {
    pub id: String,
    pub title: String,
    pub description: Option<String>,
    pub status: Status,
    pub priority: Priority,
    pub tags: Vec<String>,
    pub due_date: Option<CalendarDay>,
    pub created_at: Timestamp,
    pub updated_at: Timestamp,
}

/// The content of a task, with each string taken as its characters.
pub struct TaskView {
    pub id: Seq<char>,
    pub title: Seq<char>,
    pub description: Option<Seq<char>>,
    pub status: Status,
    pub priority: Priority,
    pub tags: Seq<Seq<char>>,
    pub due_date: Option<CalendarDay>,
    pub created_at: Timestamp,
    pub updated_at: Timestamp,
}

/// The characters of an optional string.
pub open spec fn opt_view(s: Option<String>) -> Option<Seq<char>> {
    match s {
        Some(x) => Some(x@),
        None => None,
    }
}

/// The characters of each string.
pub open spec fn strings_view(s: Seq<String>) -> Seq<Seq<char>> {
    s.map_values(|x: String| x@)
}

impl View for Task {
    type V = TaskView;

    open spec fn view(&self) -> TaskView {
        TaskView {
            id: self.id@,
            title: self.title@,
            description: opt_view(self.description),
            status: self.status,
            priority: self.priority,
            tags: strings_view(self.tags@),
            due_date: self.due_date,
            created_at: self.created_at,
            updated_at: self.updated_at,
        }
    }
}

/// The contents of a list of tasks.
pub open spec fn tasks_view(s: Seq<Task>) -> Seq<TaskView> {
    s.map_values(|t: Task| t@)
}

/// A copy of a list of strings.
pub fn copy_strings(v: &Vec<String>) -> (r: Vec<String>)
    ensures
        strings_view(r@) == strings_view(v@),
{
    let mut r: Vec<String> = Vec::new();
    let mut i: usize = 0;
    while i < v.len()
        invariant
            i <= v.len(),
            r@.len() == i,
            forall|k: int| 0 <= k < i ==> #[trigger] r@[k]@ == v@[k]@,
        decreases v.len() - i,
    {
        let c = v[i].clone();
        r.push(c);
        i = i + 1;
    }
    assert(strings_view(r@) =~= strings_view(v@));
    r
}

/// Owned copies of borrowed strings, in the same order.
pub fn own_strings(v: &Vec<&str>) -> (r: Vec<String>)
    ensures
        r@.len() == v@.len(),
        forall|i: int| 0 <= i < v@.len() ==> #[trigger] r@[i]@ == v@[i]@,
{
    let mut r: Vec<String> = Vec::new();
    let mut i: usize = 0;
    while i < v.len()
        invariant
            i <= v.len(),
            r@.len() == i,
            forall|k: int| 0 <= k < i ==> #[trigger] r@[k]@ == v@[k]@,
        decreases v.len() - i,
    {
        r.push(String::from_str(v[i]));
        i = i + 1;
    }
    r
}

/// A copy of an optional string.
pub fn copy_opt_string(s: &Option<String>) -> (r: Option<String>)
    ensures
        opt_view(r) == opt_view(*s),
{
    match s {
        Some(x) => Some(x.clone()),
        None => None,
    }
}

impl Clone for Task {
    /// A copy with the same content.
    fn clone(&self) -> (r: Self)
        ensures
            r@ == self@,
    {
        Task {
            id: self.id.clone(),
            title: self.title.clone(),
            description: copy_opt_string(&self.description),
            status: self.status,
            priority: self.priority,
            tags: copy_strings(&self.tags),
            due_date: self.due_date,
            created_at: self.created_at,
            updated_at: self.updated_at,
        }
    }
}

} // verus!
