//! Scheduled prompts: cron expressions, jobs, wakeups and the texts around them.

pub mod arguments;
pub mod calendar;
pub mod cron;
pub mod handlers;
pub mod human;
pub mod ids;
pub mod jitter;
pub mod laws;
pub mod laws_calls;
pub mod laws_jitter;
pub mod laws_jobs;
pub mod laws_operations;
pub mod laws_parts;
pub mod laws_schedule;
pub mod laws_text;
pub mod laws_words;
pub mod next_run;
pub mod notice;
pub mod number;
pub mod scheduler;
pub mod store;
pub mod task;
pub mod text;
pub mod tools;
