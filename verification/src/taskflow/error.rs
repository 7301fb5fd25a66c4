//! Why a task operation was refused.
use vstd::prelude::*;

verus! {

/// Why a task operation was refused.
#[derive(Debug, Clone, PartialEq, Eq)]
pub enum TaskError {
    /// No task id starts with the given text.
    NotFound(String),
    /// The title is empty.
    EmptyTitle,
    /// The title has more than 100 characters.
    TitleTooLong,
    /// The due date is not a `YYYY-MM-DD` date.
    InvalidDate,
    /// More than one task id starts with the given text.
    AmbiguousId(String),
    /// The export format is not CSV.
    UnsupportedFormat(String),
    /// More than 10 tags were given.
    TooManyTags,
    /// The system clock reads before the Unix epoch or beyond the dates chrono can hold.
    ClockUnavailable,
    /// The operating system's random source failed, so no task id could be made.
    IdUnavailable,
}

/// The message shown for an error, with the text it carries.
pub open spec fn error_message(e: TaskError) -> Seq<char> {
    match e {
        TaskError::NotFound(s) => "任务不存在："@ + s@,
        TaskError::EmptyTitle => "标题不能为空"@,
        TaskError::TitleTooLong => "标题长度不能超过 100 个字符"@,
        TaskError::InvalidDate => "日期格式错误，请使用 YYYY-MM-DD 格式"@,
        TaskError::AmbiguousId(s) => "ID 匹配到多个任务："@ + s@,
        TaskError::UnsupportedFormat(s) => "不支持的导出格式："@ + s@,
        TaskError::TooManyTags => "最多支持10条标签"@,
        TaskError::ClockUnavailable => "系统时间不可用"@,
        TaskError::IdUnavailable => "无法生成任务 ID"@,
    }
}

impl TaskError {
    /// The message shown for this error.
    pub fn message(&self) -> (r: String)
        ensures
            r@ == error_message(*self),
    {
        match self {
            TaskError::NotFound(s) => String::from_str("任务不存在：").concat(s.as_str()),
            TaskError::EmptyTitle => String::from_str("标题不能为空"),
            TaskError::TitleTooLong => String::from_str("标题长度不能超过 100 个字符"),
            TaskError::InvalidDate => String::from_str("日期格式错误，请使用 YYYY-MM-DD 格式"),
            TaskError::AmbiguousId(s) => String::from_str("ID 匹配到多个任务：").concat(s.as_str()),
            TaskError::UnsupportedFormat(s) => String::from_str("不支持的导出格式：").concat(
                s.as_str(),
            ),
            TaskError::TooManyTags => String::from_str("最多支持10条标签"),
            TaskError::ClockUnavailable => String::from_str("系统时间不可用"),
            TaskError::IdUnavailable => String::from_str("无法生成任务 ID"),
        }
    }
}

} // verus!
