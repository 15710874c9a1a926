//! What editing a download task asks for, by the task's status: giving it
//! another file name, moving it to another folder, retrying it or deleting
//! it. The caller carries out the plan (stopping the downloader, moving the
//! work directory, writing the record).
use vstd::prelude::*;
use crate::text::{chars_of, is_blank, is_blank_str, owned, same, string_of, trim, trim_str};

verus! {

/// How a change of a task's file name or folder is carried out.
#[derive(Debug, Clone, Copy, PartialEq, Eq, Structural)]
pub enum TaskEditPlan {
    /// The task already has what is asked for: nothing is done.
    Unchanged,
    /// A completed download: its files are renamed, then its record.
    RenameCompletedFiles,
    /// A download that is running, merging or failed: its process is stopped,
    /// its work directory moved where it can be, and the task queued again.
    RestartWithChange,
    /// Any other state: only the record changes.
    UpdateRecord,
}

/// States in which a change restarts the download: downloading (2), merging
/// (3) and failed (7).
pub open spec fn restarts_on_change(status: i32) -> bool {
    status == 2 || status == 3 || status == 7
}

/// A new file name: refused when blank as typed; nothing to do when the
/// task already carries the cleaned name; otherwise by state.
pub open spec fn rename_plan(
    status: i32,
    current: Option<Seq<char>>,
    requested: Seq<char>,
    cleaned: Seq<char>,
) -> Result<TaskEditPlan, Seq<char>> {
    if is_blank(requested) {
        Err("文件名不能为空"@)
    } else if current == Some(cleaned) {
        Ok(TaskEditPlan::Unchanged)
    } else if status == 6 {
        Ok(TaskEditPlan::RenameCompletedFiles)
    } else if restarts_on_change(status) {
        Ok(TaskEditPlan::RestartWithChange)
    } else {
        Ok(TaskEditPlan::UpdateRecord)
    }
}

/// A new folder: refused when blank; nothing to do when it is the current
/// one; refused for a completed download; otherwise by state.
pub open spec fn save_path_plan(status: i32, current: Seq<char>, requested: Seq<char>) -> Result<
    TaskEditPlan,
    Seq<char>,
> {
    if is_blank(requested) {
        Err("保存路径不能为空"@)
    } else if current == requested {
        Ok(TaskEditPlan::Unchanged)
    } else if status == 6 {
        Err("已完成的任务无法修改保存路径"@)
    } else if restarts_on_change(status) {
        Ok(TaskEditPlan::RestartWithChange)
    } else {
        Ok(TaskEditPlan::UpdateRecord)
    }
}

pub open spec fn opt_view(o: Option<&str>) -> Option<Seq<char>> {
    match o {
        Some(s) => Some(s@),
        None => None,
    }
}

fn restarts(status: i32) -> (r: bool)
    ensures
        r == restarts_on_change(status),
{
    status == 2 || status == 3 || status == 7
}

/// Plans a rename: `requested` is the name as given, `cleaned` the name the
/// task will carry, `current` the name it carries now.
pub fn plan_rename(status: i32, current: Option<&str>, requested: &str, cleaned: &str) -> (r: Result<
    TaskEditPlan,
    String,
>)
    ensures
        match r {
            Ok(p) => rename_plan(status, opt_view(current), requested@, cleaned@) == Ok::<
                TaskEditPlan,
                Seq<char>,
            >(p),
            Err(e) => rename_plan(status, opt_view(current), requested@, cleaned@) == Err::<
                TaskEditPlan,
                Seq<char>,
            >(e@),
        },
{
    if is_blank_str(requested) {
        return Err(owned("文件名不能为空"));
    }
    let same_name = match current {
        Some(c) => same(&chars_of(c), &chars_of(cleaned)),
        None => false,
    };
    if same_name {
        Ok(TaskEditPlan::Unchanged)
    } else if status == 6 {
        Ok(TaskEditPlan::RenameCompletedFiles)
    } else if restarts(status) {
        Ok(TaskEditPlan::RestartWithChange)
    } else {
        Ok(TaskEditPlan::UpdateRecord)
    }
}

/// Plans a move of the task to the folder `requested`.
pub fn plan_save_path_change(status: i32, current: &str, requested: &str) -> (r: Result<
    TaskEditPlan,
    String,
>)
    ensures
        match r {
            Ok(p) => save_path_plan(status, current@, requested@) == Ok::<TaskEditPlan, Seq<char>>(
                p,
            ),
            Err(e) => save_path_plan(status, current@, requested@) == Err::<
                TaskEditPlan,
                Seq<char>,
            >(e@),
        },
{
    if is_blank_str(requested) {
        return Err(owned("保存路径不能为空"));
    }
    if same(&chars_of(current), &chars_of(requested)) {
        Ok(TaskEditPlan::Unchanged)
    } else if status == 6 {
        Err(owned("已完成的任务无法修改保存路径"))
    } else if restarts(status) {
        Ok(TaskEditPlan::RestartWithChange)
    } else {
        Ok(TaskEditPlan::UpdateRecord)
    }
}

/// A retry first stops the downloader of a task that is preparing (1),
/// downloading (2) or merging (3), so that it never runs twice.
pub fn retry_stops_process(status: i32) -> (r: bool)
    ensures
        r == (status == 1 || status == 2 || status == 3),
{
    status == 1 || status == 2 || status == 3
}

/// The name of a task's work directory: its file name trimmed, when there is
/// a non-blank one.
pub open spec fn work_dir_name_of(filename: Option<Seq<char>>) -> Option<Seq<char>> {
    match filename {
        Some(f) => if trim(f).len() > 0 {
            Some(trim(f))
        } else {
            None
        },
        None => None,
    }
}

pub fn work_dir_name(filename: Option<&str>) -> (r: Option<String>)
    ensures
        match r {
            Some(s) => work_dir_name_of(opt_view(filename)) == Some(s@),
            None => work_dir_name_of(opt_view(filename)) is None,
        },
{
    match filename {
        Some(f) => {
            let t = trim_str(f);
            if t.len() > 0 {
                Some(string_of(&t))
            } else {
                None
            }
        },
        None => None,
    }
}

/// Deleting a task that did not complete clears its work directory (leftover
/// segments); a completed download keeps its video. The name of the
/// directory to clear, if any.
pub fn work_dir_to_clear_on_delete(status: i32, filename: Option<&str>) -> (r: Option<String>)
    ensures
        match r {
            Some(s) => status != 6 && work_dir_name_of(opt_view(filename)) == Some(s@),
            None => status == 6 || work_dir_name_of(opt_view(filename)) is None,
        },
{
    if status == 6 {
        None
    } else {
        work_dir_name(filename)
    }
}

} // verus!
