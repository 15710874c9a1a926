//! Decisions of the batch scrape queue: how many tasks run at once, and what
//! becomes of a task whose run ended in an error.
use vstd::prelude::*;
use crate::text::{chars_of, contains, contains_str, list_contains, string_views};

verus! {

/// Most scrape tasks that run at once.
pub const MAX_QUEUE_CONCURRENCY: u32 = 10;

/// Tasks run at once: the configured number, kept between 1 and
/// [`MAX_QUEUE_CONCURRENCY`] (1 runs the queue one task after another).
pub fn queue_concurrency(concurrent: u32) -> (r: usize)
    ensures
        1 <= r <= MAX_QUEUE_CONCURRENCY,
        r == (if concurrent < 1 {
            1
        } else if concurrent > MAX_QUEUE_CONCURRENCY {
            MAX_QUEUE_CONCURRENCY as int
        } else {
            concurrent as int
        }),
{
    if concurrent < 1 {
        1
    } else if concurrent > MAX_QUEUE_CONCURRENCY {
        MAX_QUEUE_CONCURRENCY as usize
    } else {
        concurrent as usize
    }
}

/// What a task whose run ended in an error becomes.
#[derive(Debug, Clone, Copy, PartialEq, Eq, Structural)]
pub enum FailedRunOutcome {
    /// The queue or the task was stopped: the task waits again, at progress
    /// 0, to be run next time.
    BackToWaiting,
    /// Any other error: the task is marked failed and the error reported.
    Failed,
}

/// A run stopped on request ends with an error that says `stopped`.
pub fn failed_run_outcome(error: &str) -> (r: FailedRunOutcome)
    ensures
        (r == FailedRunOutcome::BackToWaiting) == contains(error@, "stopped"@),
{
    let e = chars_of(error);
    if contains_str(&e, "stopped") {
        FailedRunOutcome::BackToWaiting
    } else {
        FailedRunOutcome::Failed
    }
}

/// Does a file of a folder get a scrape task? Not when an unfinished task
/// has its path, nor when it is already scraped and its NFO is on disk.
pub open spec fn needs_scrape_task(file: Seq<char>, active: Seq<Seq<char>>, scraped: Seq<Seq<char>>, has_nfo: bool) -> bool {
    !active.contains(file) && !(scraped.contains(file) && has_nfo)
}

/// The files that get a task, in the order of the folder listing.
pub open spec fn files_to_queue_of(
    files: Seq<Seq<char>>,
    has_nfo: Seq<bool>,
    active: Seq<Seq<char>>,
    scraped: Seq<Seq<char>>,
) -> Seq<Seq<char>>
    decreases files.len(),
{
    if files.len() == 0 {
        Seq::empty()
    } else {
        let rest = files_to_queue_of(files.drop_last(), has_nfo.take(files.len() - 1), active, scraped);
        if needs_scrape_task(files.last(), active, scraped, has_nfo[files.len() - 1]) {
            rest.push(files.last())
        } else {
            rest
        }
    }
}

/// The files of a folder listing that get a scrape task. `has_nfo[i]` says
/// whether the NFO of `files[i]` is on disk; `active` lists the paths of the
/// unfinished tasks, `scraped` those of the videos already scraped.
pub fn files_to_queue(files: &Vec<String>, has_nfo: &Vec<bool>, active: &Vec<String>, scraped: &Vec<String>) -> (r: Vec<String>)
    requires
        has_nfo.len() == files.len(),
    ensures
        string_views(r@) == files_to_queue_of(string_views(files@), has_nfo@, string_views(active@), string_views(scraped@)),
{
    let ghost fv = string_views(files@);
    let ghost av = string_views(active@);
    let ghost sv = string_views(scraped@);
    let mut out: Vec<String> = Vec::new();
    let mut i: usize = 0;
    while i < files.len()
        invariant
            i <= files.len(),
            has_nfo.len() == files.len(),
            fv == string_views(files@),
            av == string_views(active@),
            sv == string_views(scraped@),
            string_views(out@) == files_to_queue_of(fv.take(i as int), has_nfo@.take(i as int), av, sv),
        decreases files.len() - i,
    {
        let f = chars_of(files[i].as_str());
        let keep = !list_contains(active, &f) && !(list_contains(scraped, &f) && has_nfo[i]);
        proof {
            assert(fv.take(i + 1).drop_last() =~= fv.take(i as int));
            assert(has_nfo@.take(i + 1).take(i as int) =~= has_nfo@.take(i as int));
            assert(fv.take(i + 1).last() == fv[i as int]);
        }
        if keep {
            out.push(files[i].clone());
            proof {
                assert(string_views(out@) =~= string_views(out@).drop_last().push(fv[i as int]));
            }
        }
        i += 1;
    }
    assert(fv.take(files.len() as int) =~= fv);
    assert(has_nfo@.take(files.len() as int) =~= has_nfo@);
    out
}

} // verus!
