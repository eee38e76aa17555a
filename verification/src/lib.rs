//! Core of an interval time tracker: a clock-aligned interval scheduler that
//! classifies each tick as idle or active, books away spans, and prompts the
//! user to categorise the interval that just ended; together with the typed
//! settings accessor, the persistence models and the CSV export logic.

pub mod clock;
pub mod export;
pub mod idle;
pub mod models;
pub mod notify;
pub mod scheduler;
pub mod settings;
pub mod text;

pub use export::{escape_csv_field, export_entries_to_csv};
pub use idle::is_user_idle;
pub use models::{bool_to_int, int_to_bool, Category, MissedPrompt, RepositoryError, Setting,
    TimeEntry};
pub use scheduler::{align_timestamp, process_tick, seconds_until_next_boundary, AwaySpan,
    CommandOutcome, EntryLog, PromptNotification, Scheduler, TickInput, TickOutcome,
    TimerCommand, MAX_INTERVAL_MINUTES};
pub use settings::SettingsStore;
