//! The task manager: validation, lookup by id prefix, and the operations on the task list.
use vstd::prelude::*;
use crate::taskflow::clock::{
    csv_record, csv_record_text, iso_date_parse, iso_date_text,
    is_uuid_text, new_task_id, parse_iso_date, rfc3339_text, utc_now,
};
use crate::taskflow::error::TaskError;
use crate::taskflow::model::{
    copy_opt_string, own_strings, priority_label, shown_status_label, status_label, tasks_view, CalendarDay,
    Priority, Status, Task, TaskView, Timestamp,
};
use crate::text::{
    chars_of, contains, is_prefix_of, join, joined, lowercase_text, occurs_in, starts_with,
    to_lowercase,
};

verus! {

/// The characters of each borrowed string.
pub open spec fn strs_view(s: Seq<&str>) -> Seq<Seq<char>> {
    s.map_values(|x: &str| x@)
}

/// The characters of an optional borrowed string.
pub open spec fn opt_str_view(s: Option<&str>) -> Option<Seq<char>> {
    match s {
        Some(x) => Some(x@),
        None => None,
    }
}

/// The refusal a title earns, if any: empty, or longer than 100 characters.
pub open spec fn title_error(title: Seq<char>) -> Option<TaskError> {
    if title.len() == 0 {
        Some(TaskError::EmptyTitle)
    } else if title.len() > 100 {
        Some(TaskError::TitleTooLong)
    } else {
        None
    }
}

/// The refusal a number of tags earns, if any: more than 10.
pub open spec fn tags_error(count: int) -> Option<TaskError> {
    if count > 10 {
        Some(TaskError::TooManyTags)
    } else {
        None
    }
}

/// The refusal an optional due date earns, if any: text that is not a `YYYY-MM-DD` date.
pub open spec fn due_error(due: Option<Seq<char>>) -> Option<TaskError> {
    match due {
        Some(s) => if iso_date_parse(s).is_none() {
            Some(TaskError::InvalidDate)
        } else {
            None
        },
        None => None,
    }
}

/// The first refusal a new task earns, checking the title, then the tags, then the due date.
pub open spec fn add_error(title: Seq<char>, tag_count: int, due: Option<Seq<char>>) -> Option<
    TaskError,
> {
    if title_error(title).is_some() {
        title_error(title)
    } else if tags_error(tag_count).is_some() {
        tags_error(tag_count)
    } else {
        due_error(due)
    }
}

/// The first refusal an update earns, checking a new title, then new tags (an empty list
/// keeps the old ones), then a new due date.
pub open spec fn update_error(title: Option<Seq<char>>, tag_count: int, due: Option<Seq<char>>) -> Option<
    TaskError,
> {
    if title.is_some() && title_error(title.unwrap()).is_some() {
        title_error(title.unwrap())
    } else if tag_count > 0 && tags_error(tag_count).is_some() {
        tags_error(tag_count)
    } else {
        due_error(due)
    }
}

/// Whether the id of the task at `i` starts with `id`.
pub open spec fn id_matches(tasks: Seq<TaskView>, id: Seq<char>, i: int) -> bool {
    0 <= i < tasks.len() && is_prefix_of(id, tasks[i].id)
}

/// The task at `i` is the only one whose id starts with `id`.
pub open spec fn id_unique(tasks: Seq<TaskView>, id: Seq<char>, i: int) -> bool {
    id_matches(tasks, id, i) && forall|j: int| j != i ==> !#[trigger] id_matches(tasks, id, j)
}

/// No task id starts with `id`.
pub open spec fn id_missing(tasks: Seq<TaskView>, id: Seq<char>) -> bool {
    forall|j: int| !#[trigger] id_matches(tasks, id, j)
}

/// At least two task ids start with `id`.
pub open spec fn id_ambiguous(tasks: Seq<TaskView>, id: Seq<char>) -> bool {
    exists|i: int, j: int| i < j && #[trigger] id_matches(tasks, id, i) && #[trigger] id_matches(tasks, id, j)
}

/// The outcome of looking up `id`: the index of the only task it is a prefix of, or the
/// refusal that names `id`.
pub open spec fn lookup_outcome(tasks: Seq<TaskView>, id: Seq<char>, r: Result<usize, TaskError>) -> bool {
    match r {
        Ok(i) => id_unique(tasks, id, i as int),
        Err(TaskError::NotFound(s)) => s@ == id && id_missing(tasks, id),
        Err(TaskError::AmbiguousId(s)) => s@ == id && id_ambiguous(tasks, id),
        Err(_) => false,
    }
}


/// Whether a task passes the list filters: the status and priority, when given, are equal,
/// and the tag text, when given, occurs in one of its tags.
pub open spec fn listed(t: TaskView, status: Option<Status>, priority: Option<Priority>, tag: Option<Seq<char>>) -> bool {
    &&& (status matches Some(s) ==> t.status == s)
    &&& (priority matches Some(p) ==> t.priority == p)
    &&& (tag matches Some(g) ==> exists|k: int| 0 <= k < t.tags.len() && occurs_in(g, #[trigger] t.tags[k]))
}

/// Whether a task is found by a search: the lower-cased keyword occurs in the lower-cased
/// title or in the lower-cased description.
pub open spec fn found_by(t: TaskView, keyword: Seq<char>) -> bool {
    ||| occurs_in(lowercase_text(keyword), lowercase_text(t.title))
    ||| (t.description matches Some(d) && occurs_in(lowercase_text(keyword), lowercase_text(d)))
}

/// The task after an update: each given field replaces the old one, an empty tag list keeps
/// the old tags, the due date becomes `due`'s day when a due text is given, and the update
/// time becomes `now`.
pub open spec fn updated_task(
    t: TaskView,
    title: Option<Seq<char>>,
    status: Option<Status>,
    priority: Option<Priority>,
    desc: Option<Seq<char>>,
    tags: Seq<Seq<char>>,
    due: Option<CalendarDay>,
    now: Timestamp,
) -> TaskView {
    TaskView {
        id: t.id,
        title: match title {
            Some(x) => x,
            None => t.title,
        },
        description: match desc {
            Some(d) => Some(d),
            None => t.description,
        },
        status: match status {
            Some(x) => x,
            None => t.status,
        },
        priority: match priority {
            Some(x) => x,
            None => t.priority,
        },
        tags: if tags.len() > 0 {
            tags
        } else {
            t.tags
        },
        due_date: match due {
            Some(d) => Some(d),
            None => t.due_date,
        },
        created_at: t.created_at,
        updated_at: now,
    }
}

/// The number of tasks that satisfy `p`.
pub open spec fn count_where(s: Seq<TaskView>, p: spec_fn(TaskView) -> bool) -> nat
    decreases s.len(),
{
    if s.len() == 0 {
        0
    } else {
        count_where(s.drop_last(), p) + if p(s.last()) {
            1nat
        } else {
            0nat
        }
    }
}

/// Whether a task is overdue on `today`: it has a due date before `today` and is not done.
pub open spec fn overdue_on(t: TaskView, today: CalendarDay) -> bool {
    t.due_date matches Some(d) && d.days() < today.days() && t.status != Status::Done
}

/// Counts of tasks by status and priority, and of overdue tasks.
#[derive(Debug, Clone, Copy, PartialEq, Eq, Structural)]
pub struct TaskStats {
    pub total: usize,
    pub todo: usize,
    pub in_progress: usize,
    pub done: usize,
    pub high: usize,
    pub medium: usize,
    pub low: usize,
    pub overdue: usize,
}

/// The statistics of `tasks` on the day `today`.
pub open spec fn stats_of(tasks: Seq<TaskView>, today: CalendarDay) -> TaskStats {
    TaskStats {
        total: tasks.len() as usize,
        todo: count_where(tasks, |t: TaskView| t.status == Status::Todo) as usize,
        in_progress: count_where(tasks, |t: TaskView| t.status == Status::InProgress) as usize,
        done: count_where(tasks, |t: TaskView| t.status == Status::Done) as usize,
        high: count_where(tasks, |t: TaskView| t.priority == Priority::High) as usize,
        medium: count_where(tasks, |t: TaskView| t.priority == Priority::Medium) as usize,
        low: count_where(tasks, |t: TaskView| t.priority == Priority::Low) as usize,
        overdue: count_where(tasks, |t: TaskView| overdue_on(t, today)) as usize,
    }
}

/// The column names of the CSV export.
pub open spec fn csv_header() -> Seq<Seq<char>> {
    seq!["ID"@, "标题"@, "描述"@, "状态"@, "优先级"@, "标签"@, "截止日期"@, "创建时间"@, "更新时间"@]
}

/// The CSV fields of a task: id, title, description (empty when none), status label,
/// priority label, tags joined with `;`, due date (empty when none), creation and update
/// times in RFC 3339.
pub open spec fn csv_fields(t: TaskView) -> Seq<Seq<char>> {
    seq![
        t.id,
        t.title,
        match t.description {
            Some(d) => d,
            None => Seq::empty(),
        },
        status_label(t.status),
        priority_label(t.priority),
        joined(t.tags, ";"@),
        match t.due_date {
            Some(d) => iso_date_text(d.days()),
            None => Seq::empty(),
        },
        rfc3339_text(t.created_at.secs_spec(), t.created_at.nanos_spec()),
        rfc3339_text(t.updated_at.secs_spec(), t.updated_at.nanos_spec()),
    ]
}

/// The CSV lines of the tasks, one per task, in order.
pub open spec fn csv_rows(tasks: Seq<TaskView>) -> Seq<char>
    decreases tasks.len(),
{
    if tasks.len() == 0 {
        Seq::empty()
    } else {
        csv_rows(tasks.drop_last()) + csv_record_text(csv_fields(tasks.last()))
    }
}

/// The CSV export: a byte-order mark, then, when there are tasks, the header line and one
/// line per task. The header is written with the first row, so no task means no header.
pub open spec fn csv_document(tasks: Seq<TaskView>) -> Seq<char> {
    if tasks.len() == 0 {
        seq!['\u{FEFF}']
    } else {
        seq!['\u{FEFF}'] + csv_record_text(csv_header()) + csv_rows(tasks)
    }
}

/// One task as a row of text fields, as the CSV export writes it.
pub struct TaskCsvRow {
    pub id: String,
    pub title: String,
    pub description: String,
    pub status: String,
    pub priority: String,
    pub tags: String,
    pub due_date: String,
    pub created_at: String,
    pub updated_at: String,
}

impl TaskCsvRow {
    /// The fields in column order.
    pub open spec fn fields(&self) -> Seq<Seq<char>> {
        seq![
            self.id@,
            self.title@,
            self.description@,
            self.status@,
            self.priority@,
            self.tags@,
            self.due_date@,
            self.created_at@,
            self.updated_at@,
        ]
    }

    /// The row of a task.
    pub fn from_task(t: &Task) -> (r: TaskCsvRow)
        ensures
            r.fields() == csv_fields(t@),
    {
        let description = match &t.description {
            Some(d) => d.clone(),
            None => String::new(),
        };
        let due_date = match &t.due_date {
            Some(d) => d.iso_text(),
            None => String::new(),
        };
        TaskCsvRow {
            id: t.id.clone(),
            title: t.title.clone(),
            description,
            status: String::from_str(t.status.label()),
            priority: String::from_str(t.priority.label()),
            tags: join(&t.tags, ";"),
            due_date,
            created_at: t.created_at.rfc3339(),
            updated_at: t.updated_at.rfc3339(),
        }
    }

    /// The fields in column order, as a list.
    pub fn into_record(self) -> (r: Vec<String>)
        ensures
            r@.map_values(|f: String| f@) == self.fields(),
    {
        let ghost fields = self.fields();
        let mut r: Vec<String> = Vec::new();
        r.push(self.id);
        r.push(self.title);
        r.push(self.description);
        r.push(self.status);
        r.push(self.priority);
        r.push(self.tags);
        r.push(self.due_date);
        r.push(self.created_at);
        r.push(self.updated_at);
        assert(r@.map_values(|f: String| f@) =~= fields);
        r
    }
}

/// The text a task is shown with: `(first 8 bytes of the id)[priority] title (status)`,
/// followed by ` - ` and the due date when there is one.
pub open spec fn display_text(t: TaskView, id_head: Seq<char>) -> Seq<char> {
    let base = "("@ + id_head + ")["@ + priority_label(t.priority) + "] "@ + t.title + " ("@
        + shown_status_label(t.status) + ")"@;
    match t.due_date {
        Some(d) => base + " - "@ + iso_date_text(d.days()),
        None => base,
    }
}

impl Task {
    /// The text the task is shown with.
    pub fn display_text(&self) -> (r: String)
        requires
            vstd::utf8::is_char_boundary(vstd::utf8::encode_utf8(self.id@), 8),
        ensures
            exists|head: Seq<char>|
                vstd::utf8::encode_utf8(head) == vstd::utf8::encode_utf8(self.id@).take(8)
                    && r@ == display_text(self@, head),
    {
        let (head, _) = self.id.as_str().split_at(8);
        let ghost h = head@;
        assert(vstd::utf8::encode_utf8(h) == vstd::utf8::encode_utf8(self.id@).take(8));
        let mut r = String::from_str("(");
        r.append(head);
        r.append(")[");
        r.append(self.priority.label());
        r.append("] ");
        r.append(self.title.as_str());
        r.append(" (");
        r.append(self.status.shown_label());
        r.append(")");
        let ghost base = r@;
        assert(base =~= "("@ + h + ")["@ + priority_label(self.priority) + "] "@ + self.title@
            + " ("@ + shown_status_label(self.status) + ")"@);
        match &self.due_date {
            Some(d) => {
                r.append(" - ");
                let text = d.iso_text();
                r.append(text.as_str());
                assert(r@ =~= base + " - "@ + iso_date_text(d.days()));
            },
            None => {},
        }
        assert(r@ == display_text(self@, h));
        r
    }
}

impl Task {
    /// The tags as the task table shows them: joined with commas, or `-` when there is none.
    pub fn tags_cell(&self) -> (r: String)
        ensures
            r@ == (if self.tags@.len() == 0 { "-"@ } else { joined(crate::taskflow::model::strings_view(self.tags@), ","@) }),
    {
        if self.tags.len() == 0 {
            String::from_str("-")
        } else {
            proof {
                assert(crate::taskflow::model::strings_view(self.tags@) =~= self.tags@.map_values(|x: String| x@));
            }
            join(&self.tags, ",")
        }
    }

    /// The due date as the task table shows it: `YYYY-MM-DD`, or `--` when there is none.
    pub fn due_cell(&self) -> (r: String)
        ensures
            r@ == (match self.due_date {
                Some(d) => iso_date_text(d.days()),
                None => "--"@,
            }),
    {
        match &self.due_date {
            Some(d) => d.iso_text(),
            None => String::from_str("--"),
        }
    }
}

/// Whether the text `g` occurs in one of the tags.
fn has_tag_containing(tags: &Vec<String>, g: &str) -> (b: bool)
    ensures
        b == exists|k: int| 0 <= k < tags@.len() && occurs_in(g@, #[trigger] tags@[k]@),
{
    let mut i: usize = 0;
    while i < tags.len()
        invariant
            i <= tags.len(),
            forall|k: int| 0 <= k < i ==> !occurs_in(g@, #[trigger] tags@[k]@),
        decreases tags.len() - i,
    {
        if contains(tags[i].as_str(), g) {
            return true;
        }
        i = i + 1;
    }
    false
}

/// The filter predicate as a closure over task contents.
pub open spec fn listed_by(status: Option<Status>, priority: Option<Priority>, tag: Option<Seq<char>>) -> spec_fn(TaskView) -> bool {
    |t: TaskView| listed(t, status, priority, tag)
}

/// The search predicate as a closure over task contents.
pub open spec fn found_by_keyword(keyword: Seq<char>) -> spec_fn(TaskView) -> bool {
    |t: TaskView| found_by(t, keyword)
}

/// The header fields of the CSV export.
fn header_record() -> (r: Vec<String>)
    ensures
        r@.map_values(|f: String| f@) == csv_header(),
{
    let mut r: Vec<String> = Vec::new();
    r.push(String::from_str("ID"));
    r.push(String::from_str("标题"));
    r.push(String::from_str("描述"));
    r.push(String::from_str("状态"));
    r.push(String::from_str("优先级"));
    r.push(String::from_str("标签"));
    r.push(String::from_str("截止日期"));
    r.push(String::from_str("创建时间"));
    r.push(String::from_str("更新时间"));
    assert(r@.map_values(|f: String| f@) =~= csv_header());
    r
}

/// The manager's task list.
pub struct TaskService {
    tasks: Vec<Task>,
}

impl View for TaskService {
    type V = Seq<TaskView>;

    closed spec fn view(&self) -> Seq<TaskView> {
        tasks_view(self.tasks@)
    }
}

impl TaskService {
    /// A manager with no task.
    pub fn new() -> (s: Self)
        ensures
            s@ == Seq::<TaskView>::empty(),
    {
        let s = TaskService { tasks: Vec::new() };
        assert(s@ =~= Seq::<TaskView>::empty());
        s
    }

    /// A manager holding `tasks`, in their order.
    pub fn with_store(tasks: Vec<Task>) -> (s: Self)
        ensures
            s@ == tasks_view(tasks@),
    {
        TaskService { tasks }
    }

    /// The tasks, in their order.
    pub fn tasks(&self) -> (r: &Vec<Task>)
        ensures
            tasks_view(r@) == self@,
    {
        &self.tasks
    }

    /// Gives up the task list.
    pub fn into_tasks(self) -> (r: Vec<Task>)
        ensures
            tasks_view(r@) == self@,
    {
        self.tasks
    }

    /// Refuses an empty title and one of more than 100 characters.
    pub fn validate_title(title: &str) -> (r: Result<(), TaskError>)
        ensures
            r is Err <==> title_error(title@).is_some(),
            r matches Err(e) ==> Some(e) == title_error(title@),
    {
        if title.is_empty() {
            return Err(TaskError::EmptyTitle);
        }
        let chars = chars_of(title);
        if chars.len() > 100 {
            return Err(TaskError::TitleTooLong);
        }
        Ok(())
    }

    /// Reads an optional `YYYY-MM-DD` due date.
    pub fn validate_due_date(due: Option<&str>) -> (r: Result<Option<CalendarDay>, TaskError>)
        ensures
            r is Err <==> due_error(opt_str_view(due)).is_some(),
            r matches Err(e) ==> e == TaskError::InvalidDate,
            due.is_none() ==> r == Ok::<Option<CalendarDay>, TaskError>(None),
            r matches Ok(Some(d)) ==> due matches Some(s) && iso_date_parse(s@) == Some(d.days()),
            r matches Ok(None) ==> due.is_none(),
    {
        match due {
            None => Ok(None),
            Some(s) => match parse_iso_date(s) {
                Some(days) => Ok(Some(CalendarDay::from_known_day(days))),
                None => Err(TaskError::InvalidDate),
            },
        }
    }

    /// Refuses more than 10 tags.
    pub fn validate_tags(tags: &[&str]) -> (r: Result<(), TaskError>)
        ensures
            r is Err <==> tags_error(tags@.len() as int).is_some(),
            r matches Err(e) ==> e == TaskError::TooManyTags,
    {
        let len = tags.len();
        if len > 10 {
            return Err(TaskError::TooManyTags);
        }
        Ok(())
    }

    /// The index of the only task whose id starts with `id`; refuses an `id` that no task
    /// id starts with, and one that several start with.
    pub fn find_task_by_id(tasks: &Vec<Task>, id: &str) -> (r: Result<usize, TaskError>)
        ensures
            lookup_outcome(tasks_view(tasks@), id@, r),
    {
        let ghost tv = tasks_view(tasks@);
        let mut found: Option<usize> = None;
        let mut i: usize = 0;
        while i < tasks.len()
            invariant
                tv == tasks_view(tasks@),
                i <= tasks.len(),
                found matches Some(f) ==> f < i && id_matches(tv, id@, f as int),
                forall|j: int|
                    0 <= j < i && #[trigger] id_matches(tv, id@, j) ==> found == Some(j as usize),
            decreases tasks.len() - i,
        {
            assert(tv[i as int] == tasks@[i as int]@);
            if starts_with(tasks[i].id.as_str(), id) {
                match found {
                    Some(f) => {
                        assert(id_matches(tv, id@, f as int) && id_matches(tv, id@, i as int));
                        return Err(TaskError::AmbiguousId(String::from_str(id)));
                    },
                    None => {
                        found = Some(i);
                    },
                }
            }
            i = i + 1;
        }
        match found {
            Some(f) => Ok(f),
            None => Err(TaskError::NotFound(String::from_str(id))),
        }
    }

    /// A copy of the only task whose id starts with `id`.
    pub fn get_task_by_id(&self, id: &str) -> (r: Result<Task, TaskError>)
        ensures
            r matches Ok(t) ==> exists|i: int| id_unique(self@, id@, i) && t@ == self@[i],
            r matches Err(e) ==> lookup_outcome(self@, id@, Err(e)),
    {
        match Self::find_task_by_id(&self.tasks, id) {
            Ok(i) => {
                assert(self@[i as int] == self.tasks@[i as int]@);
                Ok(self.tasks[i].clone())
            },
            Err(e) => Err(e),
        }
    }

    /// Removes the only task whose id starts with `id` and returns it.
    pub fn delete_task(&mut self, id: &str) -> (r: Result<Task, TaskError>)
        ensures
            r matches Ok(t) ==> exists|i: int|
                id_unique(old(self)@, id@, i) && t@ == old(self)@[i] && final(self)@ == old(self)@.remove(i),
            r matches Err(e) ==> lookup_outcome(old(self)@, id@, Err(e)) && final(self)@ == old(self)@,
    {
        match Self::find_task_by_id(&self.tasks, id) {
            Ok(i) => {
                let ghost before = self.tasks@;
                let t = self.tasks.remove(i);
                assert(tasks_view(self.tasks@) =~= tasks_view(before).remove(i as int));
                assert(t@ == tasks_view(before)[i as int]);
                assert(id_unique(tasks_view(before), id@, i as int));
                assert(tasks_view(before) == old(self)@);
                assert(self@ == old(self)@.remove(i as int));
                Ok(t)
            },
            Err(e) => Err(e),
        }
    }


    /// The tasks that pass every given filter, in their order: equal status, equal
    /// priority, and a tag in which the tag text occurs.
    pub fn list_tasks(&self, status: Option<Status>, priority: Option<Priority>, tag: Option<&str>) -> (r: Vec<Task>)
        ensures
            tasks_view(r@) == self@.filter(listed_by(status, priority, opt_str_view(tag))),
    {
        let ghost pred = listed_by(status, priority, opt_str_view(tag));
        let mut res: Vec<Task> = Vec::new();
        let mut i: usize = 0;
        while i < self.tasks.len()
            invariant
                i <= self.tasks.len(),
                pred == listed_by(status, priority, opt_str_view(tag)),
                tasks_view(res@) == self@.take(i as int).filter(pred),
            decreases self.tasks.len() - i,
        {
            let t = &self.tasks[i];
            assert(self@[i as int] == t@);
            let status_ok = match status {
                Some(s) => t.status == s,
                None => true,
            };
            let priority_ok = match priority {
                Some(p) => t.priority == p,
                None => true,
            };
            let tag_ok = match tag {
                Some(g) => has_tag_containing(&t.tags, g),
                None => true,
            };
            proof {
                assert(self@.take(i + 1) =~= self@.take(i as int).push(t@));
                self@.take(i as int).lemma_filter_push(t@, pred);
                if tag_ok && tag.is_some() {
                    let k = choose|k: int| 0 <= k < t.tags@.len() && occurs_in(tag.unwrap()@, #[trigger] t.tags@[k]@);
                    assert(t@.tags[k] == t.tags@[k]@);
                }
                if tag.is_some() && (exists|k: int| 0 <= k < t@.tags.len() && occurs_in(tag.unwrap()@, #[trigger] t@.tags[k])) {
                    let k = choose|k: int| 0 <= k < t@.tags.len() && occurs_in(tag.unwrap()@, #[trigger] t@.tags[k]);
                    assert(t@.tags[k] == t.tags@[k]@);
                }
            }
            let ghost before = res@;
            if status_ok && priority_ok && tag_ok {
                res.push(t.clone());
                assert(tasks_view(res@) =~= tasks_view(before).push(t@));
            }
            i = i + 1;
        }
        assert(self@.take(self.tasks.len() as int) =~= self@);
        res
    }

    /// The tasks whose lower-cased title or description contains the lower-cased keyword,
    /// in their order.
    pub fn search_task(&self, keyword: &str) -> (r: Vec<Task>)
        ensures
            tasks_view(r@) == self@.filter(found_by_keyword(keyword@)),
    {
        let ghost pred = found_by_keyword(keyword@);
        let keyword_lower = to_lowercase(keyword);
        let mut res: Vec<Task> = Vec::new();
        let mut i: usize = 0;
        while i < self.tasks.len()
            invariant
                i <= self.tasks.len(),
                pred == found_by_keyword(keyword@),
                keyword_lower@ == lowercase_text(keyword@),
                tasks_view(res@) == self@.take(i as int).filter(pred),
            decreases self.tasks.len() - i,
        {
            let t = &self.tasks[i];
            assert(self@[i as int] == t@);
            let title_lower = to_lowercase(t.title.as_str());
            let desc_match = match &t.description {
                Some(d) => {
                    let d_lower = to_lowercase(d.as_str());
                    contains(d_lower.as_str(), keyword_lower.as_str())
                },
                None => false,
            };
            let hit = contains(title_lower.as_str(), keyword_lower.as_str()) || desc_match;
            proof {
                assert(self@.take(i + 1) =~= self@.take(i as int).push(t@));
                self@.take(i as int).lemma_filter_push(t@, pred);
            }
            let ghost before = res@;
            if hit {
                res.push(t.clone());
                assert(tasks_view(res@) =~= tasks_view(before).push(t@));
            }
            i = i + 1;
        }
        assert(self@.take(self.tasks.len() as int) =~= self@);
        res
    }


    /// Checks an update of the task that `id` names: the lookup first, then a new title, new
    /// tags (an empty list is not checked) and a new due date, in that order. Gives the index
    /// of the task and the day of the new due date, if one is given.
    fn check_update(
        &self,
        id: &str,
        title: Option<&str>,
        tags: &Vec<&str>,
        due: Option<&str>,
    ) -> (r: Result<(usize, Option<CalendarDay>), TaskError>)
        ensures
            r is Ok <==> (exists|i: int| id_unique(self@, id@, i)) && update_error(
                opt_str_view(title),
                tags@.len() as int,
                opt_str_view(due),
            ).is_none(),
            r matches Err(e) ==> lookup_outcome(self@, id@, Err(e)) || ((exists|i: int|
                id_unique(self@, id@, i)) && Some(e) == update_error(
                opt_str_view(title),
                tags@.len() as int,
                opt_str_view(due),
            )),
            r matches Ok((i, day)) ==> {
                &&& id_unique(self@, id@, i as int)
                &&& (match due {
                    None => day.is_none(),
                    Some(s) => day matches Some(d) && iso_date_parse(s@) == Some(d.days()),
                })
            },
    {
        proof {
            law_lookup_outcomes_exclusive(self@, id@);
        }
        let i = match Self::find_task_by_id(&self.tasks, id) {
            Ok(i) => i,
            Err(e) => {
                return Err(e);
            },
        };
        match title {
            Some(t) => {
                Self::validate_title(t)?;
            },
            None => {},
        }
        if tags.len() > 0 {
            Self::validate_tags(tags.as_slice())?;
        }
        let day = Self::validate_due_date(due)?;
        Ok((i, day))
    }

    /// Changes the only task whose id starts with `id` at the instant `now`: each given field
    /// replaces the old one (an empty tag list keeps the old tags), the update time becomes
    /// `now`, and a copy of the changed task is returned. The lookup, a new title, new tags
    /// and a new due date are checked, in that order; a refused update changes nothing.
    pub fn update_task_at(
        &mut self,
        id: &str,
        title: Option<&str>,
        status: Option<Status>,
        priority: Option<Priority>,
        desc: Option<&str>,
        tags: Vec<&str>,
        due: Option<&str>,
        now: Timestamp,
    ) -> (r: Result<Task, TaskError>)
        ensures
            r is Ok <==> (exists|i: int| id_unique(old(self)@, id@, i)) && update_error(
                opt_str_view(title),
                tags@.len() as int,
                opt_str_view(due),
            ).is_none(),
            r matches Err(e) ==> final(self)@ == old(self)@ && (lookup_outcome(old(self)@, id@, Err(e))
                || ((exists|i: int| id_unique(old(self)@, id@, i)) && Some(e) == update_error(
                opt_str_view(title),
                tags@.len() as int,
                opt_str_view(due),
            ))),
            r matches Ok(t) ==> exists|i: int, day: Option<CalendarDay>|
                #![trigger id_unique(old(self)@, id@, i), updated_task(old(self)@[i], opt_str_view(title), status, priority, opt_str_view(desc), strs_view(tags@), day, now)]
                {
                    &&& id_unique(old(self)@, id@, i)
                    &&& (match due {
                        None => day.is_none(),
                        Some(s) => day matches Some(d) && iso_date_parse(s@) == Some(d.days()),
                    })
                    &&& t@ == updated_task(old(self)@[i], opt_str_view(title), status, priority, opt_str_view(desc), strs_view(tags@), day, now)
                    &&& final(self)@ == old(self)@.update(i, t@)
                },
    {
        let (i, day) = self.check_update(id, title, &tags, due)?;
        let old_task = &self.tasks[i];
        assert(old(self)@[i as int] == old_task@);
        let new_tags = if tags.len() > 0 {
            let owned = own_strings(&tags);
            assert(crate::taskflow::model::strings_view(owned@) =~= strs_view(tags@));
            owned
        } else {
            crate::taskflow::model::copy_strings(&old_task.tags)
        };
        let updated = Task {
            id: old_task.id.clone(),
            title: match title {
                Some(t) => String::from_str(t),
                None => old_task.title.clone(),
            },
            description: match desc {
                Some(d) => Some(String::from_str(d)),
                None => copy_opt_string(&old_task.description),
            },
            status: match status {
                Some(s) => s,
                None => old_task.status,
            },
            priority: match priority {
                Some(p) => p,
                None => old_task.priority,
            },
            tags: new_tags,
            due_date: match day {
                Some(d) => Some(d),
                None => old_task.due_date,
            },
            created_at: old_task.created_at,
            updated_at: now,
        };
        assert(updated@ == updated_task(old(self)@[i as int], opt_str_view(title), status, priority, opt_str_view(desc), strs_view(tags@), day, now));
        let copy = updated.clone();
        let ghost before = self.tasks@;
        self.tasks.set(i, updated);
        assert(tasks_view(self.tasks@) =~= tasks_view(before).update(i as int, copy@));
        assert(id_unique(old(self)@, id@, i as int));
        Ok(copy)
    }

    /// Changes the only task whose id starts with `id`, as `update_task_at` does at the
    /// current time. The update is checked first; then the clock is read, and an update for
    /// which the clock gives no reading changes nothing.
    pub fn update_task(
        &mut self,
        id: &str,
        title: Option<&str>,
        status: Option<Status>,
        priority: Option<Priority>,
        desc: Option<&str>,
        tags: Vec<&str>,
        due: Option<&str>,
    ) -> (r: Result<Task, TaskError>)
        ensures
            r matches Err(e) ==> final(self)@ == old(self)@ && (lookup_outcome(old(self)@, id@, Err(e))
                || (exists|i: int| id_unique(old(self)@, id@, i)) && (Some(e) == update_error(
                opt_str_view(title),
                tags@.len() as int,
                opt_str_view(due),
            ) || (update_error(opt_str_view(title), tags@.len() as int, opt_str_view(due)).is_none()
                && e is ClockUnavailable))),
            (exists|i: int| id_unique(old(self)@, id@, i)) && update_error(
                opt_str_view(title),
                tags@.len() as int,
                opt_str_view(due),
            ).is_none() ==> r is Ok || r matches Err(TaskError::ClockUnavailable),
            r matches Ok(t) ==> exists|i: int, day: Option<CalendarDay>|
                #![trigger id_unique(old(self)@, id@, i), updated_task(old(self)@[i], opt_str_view(title), status, priority, opt_str_view(desc), strs_view(tags@), day, t@.updated_at)]
                {
                    &&& id_unique(old(self)@, id@, i)
                    &&& update_error(opt_str_view(title), tags@.len() as int, opt_str_view(due)).is_none()
                    &&& (match due {
                        None => day.is_none(),
                        Some(s) => day matches Some(d) && iso_date_parse(s@) == Some(d.days()),
                    })
                    &&& t@ == updated_task(old(self)@[i], opt_str_view(title), status, priority, opt_str_view(desc), strs_view(tags@), day, t@.updated_at)
                    &&& final(self)@ == old(self)@.update(i, t@)
                },
    {
        self.check_update(id, title, &tags, due)?;
        let now = match utc_now() {
            Some(t) => Timestamp::from_known_parts(t.0, t.1),
            None => {
                return Err(TaskError::ClockUnavailable);
            },
        };
        let r = self.update_task_at(id, title, status, priority, desc, tags, due, now);
        assert(r matches Ok(t) ==> t@.updated_at == now);
        r
    }

    /// The statistics of the tasks on the day `today`.
    pub fn get_stats_on(&self, today: CalendarDay) -> (r: TaskStats)
        ensures
            r == stats_of(self@, today),
    {
        let ghost tv = self@;
        let mut st = TaskStats { total: self.tasks.len(), todo: 0, in_progress: 0, done: 0, high: 0, medium: 0, low: 0, overdue: 0 };
        let mut i: usize = 0;
        while i < self.tasks.len()
            invariant
                tv == self@,
                i <= self.tasks.len(),
                st.total == self.tasks.len(),
                st.todo == count_where(tv.take(i as int), |t: TaskView| t.status == Status::Todo),
                st.in_progress == count_where(tv.take(i as int), |t: TaskView| t.status == Status::InProgress),
                st.done == count_where(tv.take(i as int), |t: TaskView| t.status == Status::Done),
                st.high == count_where(tv.take(i as int), |t: TaskView| t.priority == Priority::High),
                st.medium == count_where(tv.take(i as int), |t: TaskView| t.priority == Priority::Medium),
                st.low == count_where(tv.take(i as int), |t: TaskView| t.priority == Priority::Low),
                st.overdue == count_where(tv.take(i as int), |t: TaskView| overdue_on(t, today)),
                st.todo <= i && st.in_progress <= i && st.done <= i,
                st.high <= i && st.medium <= i && st.low <= i && st.overdue <= i,
            decreases self.tasks.len() - i,
        {
            let t = &self.tasks[i];
            assert(tv[i as int] == t@);
            assert(tv.take(i + 1).drop_last() =~= tv.take(i as int));
            assert(tv.take(i + 1).last() == t@);
            match t.status {
                Status::Done => st.done = st.done + 1,
                Status::InProgress => st.in_progress = st.in_progress + 1,
                Status::Todo => st.todo = st.todo + 1,
            }
            match t.priority {
                Priority::High => st.high = st.high + 1,
                Priority::Medium => st.medium = st.medium + 1,
                Priority::Low => st.low = st.low + 1,
            }
            let overdue = match &t.due_date {
                Some(d) => d.is_before(&today) && t.status != Status::Done,
                None => false,
            };
            if overdue {
                st.overdue = st.overdue + 1;
            }
            i = i + 1;
        }
        assert(tv.take(self.tasks.len() as int) =~= tv);
        st
    }

    /// The statistics of the tasks on the current UTC day; refused when the clock gives no
    /// reading. The day is that of a reading std gives as a time since the Unix epoch, so it
    /// is never before 1970-01-01 (day 719 163).
    pub fn get_stats(&self) -> (r: Result<TaskStats, TaskError>)
        ensures
            r matches Ok(st) ==> exists|today: CalendarDay| st == stats_of(self@, today) && today.days() >= 719_163,
            r matches Err(e) ==> e is ClockUnavailable,
    {
        match utc_now() {
            Some(now) => {
                let today = CalendarDay::from_known_day(now.2);
                Ok(self.get_stats_on(today))
            },
            None => Err(TaskError::ClockUnavailable),
        }
    }

    /// The tasks as CSV: a byte-order mark, then the header line and one line per task when
    /// there is a task. Refuses every format whose lower-case form is not `csv`.
    pub fn export_tasks(&self, format: &str) -> (r: Result<String, TaskError>)
        ensures
            r is Err <==> lowercase_text(format@) != "csv"@,
            r matches Err(e) ==> e matches TaskError::UnsupportedFormat(f) && f@ == format@,
            r matches Ok(text) ==> text@ == csv_document(self@),
    {
        let lowered = to_lowercase(format);
        let csv_name = String::from_str("csv");
        if lowered != csv_name {
            return Err(TaskError::UnsupportedFormat(String::from_str(format)));
        }
        let mut out = String::from_str("\u{FEFF}");
        if self.tasks.len() == 0 {
            proof {
                reveal_strlit("\u{FEFF}");
            }
            assert(out@ =~= seq!['\u{FEFF}']);
            return Ok(out);
        }
        let header = header_record();
        let header_line = csv_record(&header);
        out.append(header_line.as_str());
        let ghost start = out@;
        assert(start == seq!['\u{FEFF}'] + csv_record_text(csv_header())) by {
            reveal_strlit("\u{FEFF}");
        }
        let ghost tv = self@;
        let mut i: usize = 0;
        while i < self.tasks.len()
            invariant
                tv == self@,
                i <= self.tasks.len(),
                start == seq!['\u{FEFF}'] + csv_record_text(csv_header()),
                out@ == start + csv_rows(tv.take(i as int)),
            decreases self.tasks.len() - i,
        {
            let t = &self.tasks[i];
            assert(tv[i as int] == t@);
            assert(tv.take(i + 1).drop_last() =~= tv.take(i as int));
            let row = TaskCsvRow::from_task(t).into_record();
            let line = csv_record(&row);
            out.append(line.as_str());
            assert(out@ =~= start + csv_rows(tv.take(i + 1)));
            i = i + 1;
        }
        assert(tv.take(self.tasks.len() as int) =~= tv);
        Ok(out)
    }

    /// Checks a new task: the title, then the tags, then the due date. Gives the day of the
    /// due date, if one is given.
    fn check_new(title: &str, tags: &Vec<&str>, due: Option<&str>) -> (r: Result<Option<CalendarDay>, TaskError>)
        ensures
            r is Ok <==> add_error(title@, tags@.len() as int, opt_str_view(due)).is_none(),
            r matches Err(e) ==> Some(e) == add_error(title@, tags@.len() as int, opt_str_view(due)),
            r matches Ok(day) ==> (match due {
                None => day.is_none(),
                Some(s) => day matches Some(d) && iso_date_parse(s@) == Some(d.days()),
            }),
    {
        Self::validate_title(title)?;
        Self::validate_tags(tags.as_slice())?;
        Self::validate_due_date(due)
    }

    /// Creates a task with the identifier `id`, status `Todo`, the given priority (`Medium`
    /// when none is given), created at `created` and updated at `updated`, appends it and
    /// returns a copy. The title, the tags and the due date are checked, in that order; a
    /// refused task changes nothing.
    pub fn add_task_with(
        &mut self,
        title: &str,
        desc: Option<&str>,
        priority: Option<Priority>,
        tags: Vec<&str>,
        due: Option<&str>,
        id: String,
        created: Timestamp,
        updated: Timestamp,
    ) -> (r: Result<Task, TaskError>)
        ensures
            r is Ok <==> add_error(title@, tags@.len() as int, opt_str_view(due)).is_none(),
            r matches Err(e) ==> final(self)@ == old(self)@ && Some(e) == add_error(title@, tags@.len() as int, opt_str_view(due)),
            r matches Ok(t) ==> {
                &&& final(self)@ == old(self)@.push(t@)
                &&& t@.id == id@
                &&& t@.title == title@
                &&& t@.description == opt_str_view(desc)
                &&& t@.status == Status::Todo
                &&& t@.priority == (match priority {
                    Some(p) => p,
                    None => Priority::Medium,
                })
                &&& t@.tags == strs_view(tags@)
                &&& (match due {
                    None => t@.due_date.is_none(),
                    Some(s) => t@.due_date matches Some(d) && iso_date_parse(s@) == Some(d.days()),
                })
                &&& t@.created_at == created
                &&& t@.updated_at == updated
            },
    {
        let due_date = Self::check_new(title, &tags, due)?;
        let description = match desc {
            Some(d) => Some(String::from_str(d)),
            None => None,
        };
        let owned_tags = own_strings(&tags);
        assert(crate::taskflow::model::strings_view(owned_tags@) =~= strs_view(tags@));
        let task = Task {
            id,
            title: String::from_str(title),
            description,
            status: Status::Todo,
            priority: match priority {
                Some(p) => p,
                None => Priority::Medium,
            },
            tags: owned_tags,
            due_date,
            created_at: created,
            updated_at: updated,
        };
        let ghost before = self.tasks@;
        self.tasks.push(task.clone());
        assert(tasks_view(self.tasks@) =~= tasks_view(before).push(task@));
        Ok(task)
    }

    /// Creates a task with a fresh random id, status `Todo`, the given priority (`Medium`
    /// when none is given) and the current time, as `add_task_with` does. The title, the
    /// tags and the due date are checked first, in that order; then the id is drawn and the
    /// clock read, and the task is refused when the random source or the clock fails.
    pub fn add_task(
        &mut self,
        title: &str,
        desc: Option<&str>,
        priority: Option<Priority>,
        tags: Vec<&str>,
        due: Option<&str>,
    ) -> (r: Result<Task, TaskError>)
        ensures
            add_error(title@, tags@.len() as int, opt_str_view(due)).is_some() ==> r is Err,
            r matches Err(e) ==> final(self)@ == old(self)@ && (Some(e) == add_error(title@, tags@.len() as int, opt_str_view(due))
                || (add_error(title@, tags@.len() as int, opt_str_view(due)).is_none()
                    && (e is IdUnavailable || e is ClockUnavailable))),
            r matches Ok(t) ==> {
                &&& final(self)@ == old(self)@.push(t@)
                &&& is_uuid_text(t@.id)
                &&& t@.title == title@
                &&& t@.description == opt_str_view(desc)
                &&& t@.status == Status::Todo
                &&& t@.priority == (match priority {
                    Some(p) => p,
                    None => Priority::Medium,
                })
                &&& t@.tags == strs_view(tags@)
                &&& (match due {
                    None => t@.due_date.is_none(),
                    Some(s) => t@.due_date matches Some(d) && iso_date_parse(s@) == Some(d.days()),
                })
            },
    {
        Self::check_new(title, &tags, due)?;
        let id = match new_task_id() {
            Some(id) => id,
            None => {
                return Err(TaskError::IdUnavailable);
            },
        };
        let created = match utc_now() {
            Some(t) => Timestamp::from_known_parts(t.0, t.1),
            None => {
                return Err(TaskError::ClockUnavailable);
            },
        };
        let updated = match utc_now() {
            Some(t) => Timestamp::from_known_parts(t.0, t.1),
            None => {
                return Err(TaskError::ClockUnavailable);
            },
        };
        self.add_task_with(title, desc, priority, tags, due, id, created, updated)
    }
}

/// Looking up an id has exactly one outcome: one task matches, none does, or several do.
pub proof fn law_lookup_outcomes_exclusive(tasks: Seq<TaskView>, id: Seq<char>)
    ensures
        (exists|i: int| id_unique(tasks, id, i)) || id_missing(tasks, id) || id_ambiguous(tasks, id),
        !((exists|i: int| id_unique(tasks, id, i)) && id_missing(tasks, id)),
        !((exists|i: int| id_unique(tasks, id, i)) && id_ambiguous(tasks, id)),
        !(id_missing(tasks, id) && id_ambiguous(tasks, id)),
{
    if !id_missing(tasks, id) && !id_ambiguous(tasks, id) {
        let i = choose|i: int| id_matches(tasks, id, i);
        assert forall|j: int| j != i implies !#[trigger] id_matches(tasks, id, j) by {
            if id_matches(tasks, id, j) {
                if i < j {
                    assert(id_matches(tasks, id, i) && id_matches(tasks, id, j));
                } else {
                    assert(id_matches(tasks, id, j) && id_matches(tasks, id, i));
                }
            }
        }
        assert(id_unique(tasks, id, i));
    }
    if exists|i: int| id_unique(tasks, id, i) {
        let i = choose|i: int| id_unique(tasks, id, i);
        assert(id_matches(tasks, id, i));
        if id_ambiguous(tasks, id) {
            let (a, b) = choose|a: int, b: int| a < b && #[trigger] id_matches(tasks, id, a) && #[trigger] id_matches(tasks, id, b);
            assert(a == i || !id_matches(tasks, id, a));
            assert(b == i || !id_matches(tasks, id, b));
        }
    }
}

/// Once the only task an id matches is removed, the id matches no task.
pub proof fn law_removed_task_not_found(tasks: Seq<TaskView>, id: Seq<char>, i: int)
    requires
        id_unique(tasks, id, i),
    ensures
        id_missing(tasks.remove(i), id),
{
    let r = tasks.remove(i);
    assert forall|j: int| !#[trigger] id_matches(r, id, j) by {
        if 0 <= j < r.len() {
            if j < i {
                assert(r[j] == tasks[j]);
                assert(!id_matches(tasks, id, j));
            } else {
                assert(r[j] == tasks[j + 1]);
                assert(!id_matches(tasks, id, j + 1));
            }
        }
    }
}

/// Every task is counted under exactly one status and exactly one priority, and an overdue
/// task is never a done one.
pub proof fn law_stats_partition(tasks: Seq<TaskView>, today: CalendarDay)
    requires
        tasks.len() <= usize::MAX,
    ensures
        stats_of(tasks, today).todo + stats_of(tasks, today).in_progress + stats_of(tasks, today).done
            == stats_of(tasks, today).total,
        stats_of(tasks, today).high + stats_of(tasks, today).medium + stats_of(tasks, today).low
            == stats_of(tasks, today).total,
        stats_of(tasks, today).done + stats_of(tasks, today).overdue <= stats_of(tasks, today).total,
{
    lemma_partition_counts(tasks, today);
}

/// A task counts as overdue on `today` exactly when it has a due date before `today` and is
/// not done: appending it raises the overdue count by one in that case and leaves it
/// unchanged otherwise.
pub proof fn law_overdue_counts_late_open_tasks(tasks: Seq<TaskView>, t: TaskView, today: CalendarDay)
    requires
        tasks.len() < usize::MAX,
    ensures
        stats_of(tasks.push(t), today).overdue == stats_of(tasks, today).overdue + (if (t.due_date matches Some(
            d,
        ) && d.days() < today.days() && t.status != Status::Done) {
            1int
        } else {
            0int
        }),
{
    let p = |x: TaskView| overdue_on(x, today);
    assert(tasks.push(t).drop_last() =~= tasks);
    lemma_count_where_bound(tasks, p);
}

/// Counting on a later day never finds fewer overdue tasks.
pub proof fn law_overdue_grows_with_the_day(tasks: Seq<TaskView>, earlier: CalendarDay, later: CalendarDay)
    requires
        earlier.days() <= later.days(),
        tasks.len() <= usize::MAX,
    ensures
        stats_of(tasks, earlier).overdue <= stats_of(tasks, later).overdue,
{
    lemma_overdue_monotone(tasks, earlier, later);
    lemma_count_where_bound(tasks, |x: TaskView| overdue_on(x, later));
}

proof fn lemma_overdue_monotone(tasks: Seq<TaskView>, earlier: CalendarDay, later: CalendarDay)
    requires
        earlier.days() <= later.days(),
    ensures
        count_where(tasks, |x: TaskView| overdue_on(x, earlier)) <= count_where(tasks, |x: TaskView| overdue_on(x, later)),
    decreases tasks.len(),
{
    if tasks.len() > 0 {
        lemma_overdue_monotone(tasks.drop_last(), earlier, later);
    }
}

proof fn lemma_count_where_bound(tasks: Seq<TaskView>, p: spec_fn(TaskView) -> bool)
    ensures
        count_where(tasks, p) <= tasks.len(),
    decreases tasks.len(),
{
    if tasks.len() > 0 {
        lemma_count_where_bound(tasks.drop_last(), p);
    }
}

proof fn lemma_partition_counts(tasks: Seq<TaskView>, today: CalendarDay)
    ensures
        count_where(tasks, |t: TaskView| t.status == Status::Todo)
            + count_where(tasks, |t: TaskView| t.status == Status::InProgress)
            + count_where(tasks, |t: TaskView| t.status == Status::Done) == tasks.len(),
        count_where(tasks, |t: TaskView| t.priority == Priority::High)
            + count_where(tasks, |t: TaskView| t.priority == Priority::Medium)
            + count_where(tasks, |t: TaskView| t.priority == Priority::Low) == tasks.len(),
        count_where(tasks, |t: TaskView| t.status == Status::Done)
            + count_where(tasks, |t: TaskView| overdue_on(t, today)) <= tasks.len(),
    decreases tasks.len(),
{
    if tasks.len() > 0 {
        lemma_partition_counts(tasks.drop_last(), today);
    }
}

} // verus!
