use scheduled_tasks::human::cron_to_human;
use scheduled_tasks::human::format_local_time;
use scheduled_tasks::notice::build_missed_task_notification;
use scheduled_tasks::notice::cron_task_summary_line;
use scheduled_tasks::notice::fence_for;
use scheduled_tasks::notice::truncate_prompt;
use scheduled_tasks::task::CronTask;

fn task(cron: &str, prompt: &str) -> CronTask {
    CronTask {
        id: "abc12345".to_string(),
        cron: cron.to_string(),
        prompt: prompt.to_string(),
        created_at: 1,
        last_fired_at: None,
        recurring: false,
        permanent: false,
        durable: true,
    }
}

#[test]
fn missed_notification_fences_prompt() {
    let task = CronTask {
        id: "abc12345".to_string(),
        cron: "0 * * * *".to_string(),
        prompt: "run ``` nested".to_string(),
        created_at: 1,
        last_fired_at: None,
        recurring: false,
        permanent: false,
        durable: true,
    };

    let text = build_missed_task_notification(&[task]);
    assert!(text.contains("````\nrun ``` nested\n````"));
}

#[test]
fn one_missed_job_is_announced_in_the_singular() {
    let text = build_missed_task_notification(&[task("30 14 * * *", "hello")]);
    assert_eq!(
        text,
        "The following one-shot scheduled task was missed while Codex was not running. It has already been removed from .codex/scheduled_tasks.json.\n\nDo NOT execute this prompt yet. First ask the user whether to run it now. Only execute if the user confirms.\n\n[Every day at 2:30 PM, created 1]\n```\nhello\n```"
    );
}

#[test]
fn several_missed_jobs_are_announced_together() {
    let mut late = task("0 0 1 1 *", "b");
    late.created_at = -5;
    let text = build_missed_task_notification(&[task("* * * * *", "a"), late]);
    assert_eq!(
        text,
        "The following one-shot scheduled tasks were missed while Codex was not running. They have already been removed from .codex/scheduled_tasks.json.\n\nDo NOT execute these prompts yet. First ask the user whether to run each one now. Only execute if the user confirms.\n\n[* * * * *, created 1]\n```\na\n```\n\n[0 0 1 1 *, created -5]\n```\nb\n```"
    );
}

#[test]
fn no_missed_jobs_leave_the_heading() {
    let text = build_missed_task_notification(&[]);
    assert!(text.starts_with("The following one-shot scheduled task was missed"));
    assert!(text.ends_with("Only execute if the user confirms."));
}

#[test]
fn fences_are_longer_than_any_row_of_ticks() {
    assert_eq!(fence_for(""), "```");
    assert_eq!(fence_for("`"), "```");
    assert_eq!(fence_for("``"), "```");
    assert_eq!(fence_for("a```b"), "````");
    assert_eq!(fence_for("````` ``"), "``````");
    assert_eq!(fence_for("`a``b`"), "```");
    for text in ["x", "`````", "a``b````c"] {
        assert!(!text.contains(&fence_for(text)));
    }
}

#[test]
fn long_prompts_lose_their_end() {
    assert_eq!(truncate_prompt("hello", 5), "hello");
    assert_eq!(truncate_prompt("hello!", 5), "hell...");
    assert_eq!(truncate_prompt("h\u{e9}llo w\u{f6}rld", 3), "h\u{e9}...");
    assert_eq!(truncate_prompt("", 0), "");
    assert_eq!(truncate_prompt("x", 0), "...");
    assert_eq!(truncate_prompt(&"x".repeat(81), 80).chars().count(), 82);
}

#[test]
fn summary_lines_tell_kind_and_place() {
    let mut job = task("0 9 * * 1-5", "stand-up");
    assert_eq!(
        cron_task_summary_line(&job),
        "abc12345 - Weekdays at 9:00 AM (one-shot): stand-up"
    );
    job.recurring = true;
    job.durable = false;
    job.prompt = "y".repeat(90);
    assert_eq!(
        cron_task_summary_line(&job),
        format!(
            "abc12345 - Weekdays at 9:00 AM (recurring) [session-only]: {}...",
            "y".repeat(79)
        )
    );
}

#[test]
fn schedules_are_put_in_words() {
    for (cron, words) in [
        ("*/1 * * * *", "Every minute"),
        ("*/5 * * * *", "Every 5 minutes"),
        ("*/0 * * * *", "Every 0 minutes"),
        ("0 * * * *", "Every hour"),
        ("7 * * * *", "Every hour at :07"),
        ("0 */1 * * *", "Every hour"),
        ("15 */1 * * *", "Every hour at :15"),
        ("0 */6 * * *", "Every 6 hours"),
        ("5 */6 * * *", "Every 6 hours at :05"),
        ("0 0 * * *", "Every day at 12:00 AM"),
        ("5 12 * * *", "Every day at 12:05 PM"),
        ("59 23 * * *", "Every day at 11:59 PM"),
        ("0 9 * * 0", "Every Sunday at 9:00 AM"),
        ("0 9 * * 1", "Every Monday at 9:00 AM"),
        ("0 9 * * 2", "Every Tuesday at 9:00 AM"),
        ("0 9 * * 3", "Every Wednesday at 9:00 AM"),
        ("0 9 * * 4", "Every Thursday at 9:00 AM"),
        ("0 9 * * 5", "Every Friday at 9:00 AM"),
        ("0 9 * * 6", "Every Saturday at 9:00 AM"),
        ("0 9 * * 7", "Every Sunday at 9:00 AM"),
        ("0 9 * * 1-5", "Weekdays at 9:00 AM"),
        ("0 9 1 * *", "0 9 1 * *"),
        ("0 9 * 1 *", "0 9 * 1 *"),
        ("0 9 * * 1,2", "0 9 * * 1,2"),
        ("*/5 9 * * *", "*/5 9 * * *"),
        ("0 9", "0 9"),
        ("", ""),
        ("  0   9 * *  *", "Every day at 9:00 AM"),
        ("  1 2 3 4 5", "  1 2 3 4 5"),
    ] {
        assert_eq!(cron_to_human(cron), words);
    }
}

#[test]
fn times_are_shown_on_a_twelve_hour_clock() {
    assert_eq!(format_local_time(0, 0), "12:00 AM");
    assert_eq!(format_local_time(5, 11), "11:05 AM");
    assert_eq!(format_local_time(30, 12), "12:30 PM");
    assert_eq!(format_local_time(9, 25), "1:09 PM");
    assert_eq!(format_local_time(100, 1), "1:100 AM");
}
