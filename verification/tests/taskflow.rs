use chrono::{Datelike, Duration, NaiveDate, TimeZone, Utc};
use rustlab::taskflow::error::TaskError;
use rustlab::taskflow::model::{CalendarDay, Priority, Status, Task, Timestamp};
use rustlab::taskflow::service::{TaskCsvRow, TaskService};

fn jan_first() -> Timestamp {
    let t = Utc.with_ymd_and_hms(2026, 1, 1, 1, 1, 1).unwrap();
    Timestamp::from_parts(t.timestamp(), 0).unwrap()
}

fn day(d: NaiveDate) -> CalendarDay {
    CalendarDay::from_days_from_ce(d.num_days_from_ce()).unwrap()
}

fn mock_task(id: &str, title: &str, desc: Option<&str>, status: Status, priority: Priority, tag: &str) -> Task {
    Task {
        id: id.to_string(),
        title: title.to_string(),
        description: desc.map(|d| d.to_string()),
        status,
        priority,
        due_date: None,
        tags: vec![tag.to_string()],
        created_at: jan_first(),
        updated_at: jan_first(),
    }
}

fn mock_tasks() -> Vec<Task> {
    vec![
        mock_task("1", "任务1", Some("任务1"), Status::Todo, Priority::Low, "1"),
        mock_task("3", "任务3", None, Status::Done, Priority::High, "2"),
        mock_task("2", "任务2", None, Status::InProgress, Priority::Medium, "3"),
    ]
}

#[test]
fn test_add_task() {
    let mut services = TaskService::new();
    let t = services
        .add_task("测试", Some("测试desc"), None, vec!["1"], None)
        .unwrap();
    assert_eq!(t.title, "测试");
    assert!(!t.id.is_empty());
    assert_eq!(t.id.len(), 36);
    assert_eq!(t.priority, Priority::Medium);
    assert_eq!(t.status, Status::Todo);
    let tasks = services.tasks();
    assert_eq!(tasks.len(), 1);
    assert_eq!(tasks[0].id, t.id);
}

#[test]
fn test_list_task() {
    let services = TaskService::with_store(mock_tasks());

    let list1 = services.list_tasks(Some(Status::Done), None, None);
    assert_eq!(list1.len(), 1);
    let list2 = services.list_tasks(None, Some(Priority::High), None);
    assert_eq!(list2.len(), 1);

    let list3 = services.list_tasks(None, None, Some("1"));
    assert_eq!(list3.len(), 1);

    let list4 = services.list_tasks(Some(Status::InProgress), Some(Priority::Medium), Some("3"));
    assert_eq!(list4.len(), 1);
}

#[test]
fn test_del_task() {
    let mock_data = mock_tasks();
    let mut services = TaskService::with_store(mock_tasks());

    let del_item = &mock_data[1];
    let deleted_item = services.delete_task(&del_item.id).unwrap();

    assert_eq!(services.tasks().len(), 2);
    assert_eq!(deleted_item.id, del_item.id);
    assert_eq!(
        services.delete_task(&del_item.id).unwrap_err(),
        TaskError::NotFound(del_item.id.clone())
    );
}

#[test]
fn test_update_task() {
    let mock_data = mock_tasks();
    let mut services = TaskService::with_store(mock_tasks());
    let update_id = &mock_data.get(0).unwrap().id;

    services
        .update_task(
            update_id.as_str(),
            Some("1"),
            Some(Status::Done),
            Some(Priority::Low),
            Some("desc"),
            vec!["2", "3"],
            Some("2026-12-31"),
        )
        .unwrap();
    let tasks = services.tasks();
    let updated_index = TaskService::find_task_by_id(tasks, update_id.as_str()).unwrap();
    let updated_item = &tasks[updated_index];

    assert_eq!(updated_item.title, "1");
    assert_eq!(updated_item.status, Status::Done);
    assert_eq!(updated_item.priority, Priority::Low);
    assert_eq!(updated_item.description, Some(String::from("desc")));
    assert_eq!(updated_item.tags, vec!["2".to_string(), "3".to_string()]);
    assert_eq!(
        updated_item.due_date.unwrap(),
        day(NaiveDate::parse_from_str("2026-12-31", "%Y-%m-%d").unwrap())
    );
    assert!(mock_data[0].updated_at.is_before(&updated_item.updated_at));
    assert_eq!(updated_item.created_at, mock_data[0].created_at);
}

#[test]
fn test_search_task() {
    let mut services = TaskService::with_store(mock_tasks());

    services
        .add_task("务1", Some("任务1描述"), Some(Priority::Low), vec!["tag1"], None)
        .unwrap();
    services
        .add_task("abc", Some("DEF"), Some(Priority::Low), vec!["tag1"], None)
        .unwrap();

    let search_title_res = services.search_task("务1");
    assert_eq!(search_title_res.len(), 2);

    let search_desc_res = services.search_task("描述");
    assert_eq!(search_desc_res.len(), 1);

    let search_none_res = services.search_task("无数据");
    assert!(search_none_res.is_empty());

    let search_ignorecase_res = services.search_task("AB");
    assert_eq!(search_ignorecase_res.len(), 1);

    let search_ignorecase_res = services.search_task("def");
    assert_eq!(search_ignorecase_res.len(), 1);
}

#[test]
fn service_test_stats() {
    let mut services = TaskService::new();
    let today_date = Utc::now().date_naive();
    let today = day(today_date);

    let stats1 = services.get_stats_on(today);
    assert_eq!(stats1.total, 0);
    assert_eq!(stats1.done, 0);

    let todaystr = today_date.format("%Y-%m-%d").to_string();
    let yesterdaystr = (today_date - Duration::days(1)).format("%Y-%m-%d").to_string();
    let tomorrowstr = (today_date + Duration::days(1)).format("%Y-%m-%d").to_string();

    services.add_task("1", None, Some(Priority::High), vec![], None).unwrap();
    services.add_task("2", None, Some(Priority::Medium), vec![], None).unwrap();
    let three = services.add_task("3", None, Some(Priority::Low), vec![], None).unwrap();
    let four = services.add_task("4", None, Some(Priority::Low), vec![], None).unwrap();

    services
        .update_task(&three.id, None, Some(Status::InProgress), None, None, vec![], Some(&yesterdaystr))
        .unwrap();
    services
        .update_task(&four.id, None, Some(Status::Done), None, None, vec![], None)
        .unwrap();

    let stats = services.get_stats_on(today);
    assert_eq!(stats.total, services.tasks().len());
    assert_eq!(stats.todo, 2);
    assert_eq!(stats.in_progress, 1);
    assert_eq!(stats.done, 1);
    assert_eq!(stats.high, 1);
    assert_eq!(stats.medium, 1);
    assert_eq!(stats.low, 2);
    assert_eq!(stats.overdue, 1);

    services
        .update_task(&three.id, None, Some(Status::Todo), None, None, vec![], Some(&todaystr))
        .unwrap();
    assert_eq!(services.get_stats_on(today).overdue, 0);

    services
        .update_task(&three.id, None, Some(Status::Todo), None, None, vec![], None)
        .unwrap();
    assert_eq!(services.get_stats_on(today).overdue, 0);

    services
        .update_task(&three.id, None, Some(Status::Done), None, None, vec![], Some(&yesterdaystr))
        .unwrap();
    assert_eq!(services.get_stats_on(today).overdue, 0);

    services
        .update_task(&three.id, None, Some(Status::Todo), None, None, vec![], Some(&tomorrowstr))
        .unwrap();
    assert_eq!(services.get_stats_on(today).overdue, 0);
}

#[test]
fn service_test_export() {
    let mut services = TaskService::new();

    let a = services.export_tasks("csv").unwrap();
    assert_eq!(a.lines().count(), 1);
    assert!(a.starts_with("\u{FEFF}"));

    let b = services.export_tasks("json");
    assert!(b.is_err());

    let t = services
        .add_task("title1", None, Some(Priority::High), vec!["tag1", "tag2", "tag3"], None)
        .unwrap();
    let c = services.export_tasks("csv").unwrap();
    assert_eq!(c.lines().count(), 2);

    let mut lines = c.lines();
    let l1 = lines.next().unwrap();
    assert!(l1.starts_with("\u{FEFF}"));
    assert!(l1.contains("ID,标题,描述,状态,优先级,标签,截止日期,创建时间,更新时间"));
    let body = c.trim_start_matches('\u{FEFF}');
    let mut rdr = csv::ReaderBuilder::new().has_headers(true).from_reader(body.as_bytes());
    let row = rdr.records().next().unwrap().unwrap();

    assert_eq!(&row[2], "");
    assert_eq!(&row[5], "tag1;tag2;tag3");
    assert_eq!(&row[6], "");
    assert_eq!(&row[7], t.created_at.rfc3339());
    assert_eq!(&row[8], t.updated_at.rfc3339());
}

#[test]
fn export_is_case_insensitive_and_names_refused_format() {
    let services = TaskService::with_store(mock_tasks());
    assert!(services.export_tasks("CSV").is_ok());
    assert_eq!(
        services.export_tasks("xml").unwrap_err(),
        TaskError::UnsupportedFormat("xml".to_string())
    );
}

#[test]
fn test_validate_title() {
    assert!(TaskService::validate_title("").is_err());

    let s100: String = "a".repeat(100);
    assert!(TaskService::validate_title(&s100).is_ok());

    let s101: String = "a".repeat(101);
    assert!(TaskService::validate_title(&s101).is_err());

    let s_cn = "中".repeat(34);
    assert_eq!(s_cn.len(), 102);
    assert!(TaskService::validate_title(&s_cn).is_ok());
}

#[test]
fn validate_title_errors() {
    assert_eq!(TaskService::validate_title(""), Err(TaskError::EmptyTitle));
    assert_eq!(TaskService::validate_title(&"a".repeat(101)), Err(TaskError::TitleTooLong));
}

#[test]
fn test_validate_due_date() {
    assert!(TaskService::validate_due_date(None).unwrap().is_none());

    let d = TaskService::validate_due_date(Some("2026-08-15")).unwrap();
    assert_eq!(d, Some(day(NaiveDate::from_ymd_opt(2026, 8, 15).unwrap())));

    assert!(TaskService::validate_due_date(Some("2026/08/15")).is_err());
    assert!(TaskService::validate_due_date(Some("2026-02-30")).is_err());
    assert_eq!(TaskService::validate_due_date(Some("invalid")), Err(TaskError::InvalidDate));
}

#[test]
fn test_validate_tags() {
    assert!(TaskService::validate_tags(&[]).is_ok());

    let ten: Vec<&str> = vec!["t"; 10];
    assert!(TaskService::validate_tags(&ten).is_ok());

    let eleven: Vec<&str> = vec!["t"; 11];
    assert!(TaskService::validate_tags(&eleven).is_err());
}

#[test]
fn test_add_task_too_many_tags() {
    let mut services = TaskService::new();
    let eleven: Vec<String> = vec!["t".to_string(); 11];
    let tags: Vec<&str> = eleven.iter().map(String::as_str).collect();
    let r = services.add_task("test", None, None, tags, None);
    assert_eq!(r.unwrap_err(), TaskError::TooManyTags);
    assert!(services.tasks().is_empty());
}

#[test]
fn test_update_task_too_many_tags() {
    let mock_data = mock_tasks();
    let mut services = TaskService::with_store(mock_tasks());

    let update_id = &mock_data[0].id;
    let eleven: Vec<String> = vec!["t".to_string(); 11];
    let tags: Vec<&str> = eleven.iter().map(String::as_str).collect();
    let r = services.update_task(update_id, None, None, None, None, tags, None);
    assert!(r.is_err());
    assert_eq!(services.tasks()[0].tags, vec!["1".to_string()]);
}

#[test]
fn find_by_prefix_unique_missing_ambiguous() {
    let mut tasks = mock_tasks();
    tasks.push(mock_task("10", "t", None, Status::Todo, Priority::Low, "x"));
    assert_eq!(TaskService::find_task_by_id(&tasks, "3"), Ok(1));
    assert_eq!(TaskService::find_task_by_id(&tasks, "9"), Err(TaskError::NotFound("9".to_string())));
    assert_eq!(TaskService::find_task_by_id(&tasks, "1"), Err(TaskError::AmbiguousId("1".to_string())));
    let services = TaskService::with_store(tasks);
    assert_eq!(services.get_task_by_id("10").unwrap().title, "t");
}

#[test]
fn csv_row_of_task() {
    let mut t = mock_task("abc", "标题", None, Status::InProgress, Priority::High, "a");
    t.tags.push("b".to_string());
    let row = TaskCsvRow::from_task(&t);
    assert_eq!(row.status, Status::InProgress.label());
    assert_eq!(row.priority, "高");
    assert_eq!(row.tags, "a;b");
    assert_eq!(row.description, "");
    assert_eq!(row.created_at, "2026-01-01T01:01:01+00:00");
    let rec = row.into_record();
    assert_eq!(rec.len(), 9);
    assert_eq!(rec[0], "abc");
}

#[test]
fn error_messages() {
    assert_eq!(TaskError::NotFound("x".to_string()).message(), "任务不存在：x");
    assert_eq!(TaskError::TooManyTags.message(), "最多支持10条标签");
    assert_eq!(TaskError::AmbiguousId("a".to_string()).message(), "ID 匹配到多个任务：a");
}

#[test]
fn status_and_priority_labels() {
    assert_eq!(Status::Todo.label(), "待办");
    assert_eq!(Priority::Low.label(), "低");
    assert_eq!(Priority::Medium.label(), "中");
}

#[test]
fn table_cells_of_task() {
    let mut t = mock_task("abc", "t", None, Status::Todo, Priority::Low, "x");
    assert_eq!(t.tags_cell(), "x");
    assert_eq!(t.due_cell(), "--");
    t.tags.push("y".to_string());
    assert_eq!(t.tags_cell(), "x,y");
    t.tags.clear();
    assert_eq!(t.tags_cell(), "-");
    t.due_date = Some(day(NaiveDate::from_ymd_opt(2026, 3, 9).unwrap()));
    assert_eq!(t.due_cell(), "2026-03-09");
}

#[test]
fn display_text_of_task() {
    let mut t = mock_task("12345678-aaaa", "写代码", None, Status::InProgress, Priority::High, "x");
    assert_eq!(t.display_text(), "(12345678)[高] 写代码 (进行中)");
    t.due_date = Some(day(NaiveDate::from_ymd_opt(2026, 8, 15).unwrap()));
    assert_eq!(t.display_text(), "(12345678)[高] 写代码 (进行中) - 2026-08-15");
}

#[test]
fn display_line_of_todo_task() {
    let t = mock_task("abcdefgh-1", "待删除", None, Status::Todo, Priority::Medium, "x");
    assert_eq!(t.display_text(), "(abcdefgh)[中] 待删除 (未完成)");
    assert_eq!(Status::Todo.shown_label(), "未完成");
    assert_eq!(Status::Done.shown_label(), "已完成");
    let row = TaskCsvRow::from_task(&t);
    assert_eq!(row.status, "待办");
}

#[test]
fn calendar_range_matches_chrono() {
    for d in [-95_746_130, -95_746_129, -95_746_128, 0, 1, 738_000, 95_745_398, 95_745_399, 95_745_400, i32::MIN, i32::MAX] {
        assert_eq!(
            CalendarDay::from_days_from_ce(d).is_some(),
            NaiveDate::from_num_days_from_ce_opt(d).is_some(),
            "day {}",
            d
        );
    }
}

#[test]
fn instant_range_matches_chrono() {
    let secs = [
        i64::MIN,
        -8_334_601_228_801,
        -8_334_601_228_800,
        -1,
        0,
        59,
        60,
        1_767_229_259,
        8_210_266_876_799,
        8_210_266_876_800,
        i64::MAX,
    ];
    let nanos = [0u32, 999_999_999, 1_000_000_000, 1_999_999_999, 2_000_000_000, u32::MAX];
    for s in secs {
        for n in nanos {
            assert_eq!(
                Timestamp::from_parts(s, n).is_some(),
                chrono::DateTime::from_timestamp(s, n).is_some(),
                "instant {} {}",
                s,
                n
            );
        }
    }
}

#[test]
fn clock_and_id_errors_have_messages() {
    assert_eq!(TaskError::ClockUnavailable.message(), "系统时间不可用");
    assert_eq!(TaskError::IdUnavailable.message(), "无法生成任务 ID");
}

#[test]
fn stats_of_current_day() {
    let mut services = TaskService::new();
    services.add_task("a", None, None, vec![], None).unwrap();
    let stats = services.get_stats().unwrap();
    assert_eq!(stats.total, 1);
    assert_eq!(stats.todo, 1);
    assert_eq!(stats.medium, 1);
}

#[test]
fn update_task_at_stamps_the_given_instant() {
    let mut services = TaskService::with_store(mock_tasks());
    let later = Timestamp::from_parts(jan_first().secs() + 3_600, 500).unwrap();
    let t = services
        .update_task_at("2", None, Some(Status::Done), None, None, vec![], None, later)
        .unwrap();
    assert_eq!(t.updated_at, later);
    assert_eq!(t.created_at, jan_first());
    assert_eq!(t.title, "任务2");
    assert_eq!(t.status, Status::Done);
    assert_eq!(t.tags, vec!["3".to_string()]);
    assert_eq!(services.tasks()[2].updated_at, later);
    assert_eq!(services.tasks()[0].updated_at, jan_first());
}

#[test]
fn update_task_at_refusals_change_nothing() {
    let mut services = TaskService::with_store(mock_tasks());
    let later = Timestamp::from_parts(jan_first().secs() + 60, 0).unwrap();
    assert_eq!(
        services.update_task_at("9", Some("x"), None, None, None, vec![], None, later).unwrap_err(),
        TaskError::NotFound("9".to_string())
    );
    assert_eq!(
        services.update_task_at("1", Some(""), None, None, None, vec![], None, later).unwrap_err(),
        TaskError::EmptyTitle
    );
    assert_eq!(
        services.update_task_at("1", None, None, None, None, vec![], Some("2026-02-30"), later).unwrap_err(),
        TaskError::InvalidDate
    );
    assert_eq!(services.tasks()[0].title, "任务1");
    assert_eq!(services.tasks()[0].updated_at, jan_first());
}

#[test]
fn add_task_with_uses_the_given_id_and_times() {
    let mut services = TaskService::with_store(mock_tasks());
    let created = jan_first();
    let updated = Timestamp::from_parts(jan_first().secs(), 7).unwrap();
    let t = services
        .add_task_with("新任务", None, None, vec!["a"], Some("2026-03-01"), "fixed-id".to_string(), created, updated)
        .unwrap();
    assert_eq!(t.id, "fixed-id");
    assert_eq!(t.created_at, created);
    assert_eq!(t.updated_at, updated);
    assert_eq!(t.status, Status::Todo);
    assert_eq!(t.priority, Priority::Medium);
    assert_eq!(t.tags, vec!["a".to_string()]);
    assert_eq!(t.due_date, Some(day(NaiveDate::from_ymd_opt(2026, 3, 1).unwrap())));
    assert_eq!(services.tasks().len(), 4);
    assert_eq!(services.tasks()[3].id, "fixed-id");
}

#[test]
fn add_task_with_refuses_before_changing_anything() {
    let mut services = TaskService::new();
    let r = services.add_task_with("", None, None, vec![], None, "id".to_string(), jan_first(), jan_first());
    assert_eq!(r.unwrap_err(), TaskError::EmptyTitle);
    let eleven = vec!["t"; 11];
    let r = services.add_task_with("ok", None, None, eleven, None, "id".to_string(), jan_first(), jan_first());
    assert_eq!(r.unwrap_err(), TaskError::TooManyTags);
    assert!(services.tasks().is_empty());
}
