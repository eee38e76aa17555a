//! Data model of the tracker: time entries, missed prompts, settings rows and
//! the fixed set of entry categories, with the 0/1 integer encoding that the
//! persistence layer uses for booleans.

use vstd::prelude::*;
use vstd::string::StringExecFns;

verus! {

/// One logged interval. `is_away` marks entries the scheduler booked on its
/// own while the user was idle; `is_retroactive` marks entries filled in
/// after the fact. `id` and `created_at` are assigned by the persistence
/// layer and absent on freshly built entries.
pub struct TimeEntry {
    pub id: Option<i64>,
    pub timestamp: i64,
    pub category: String,
    pub duration_minutes: i32,
    pub is_away: bool,
    pub is_retroactive: bool,
    pub notes: Option<String>,
    pub created_at: Option<i64>,
}

/// A prompt the user did not answer, keyed by the interval's timestamp.
pub struct MissedPrompt {
    pub id: Option<i64>,
    pub timestamp: i64,
    pub reason: Option<String>,
    pub created_at: Option<i64>,
}

/// One key/value row of the settings store.
pub struct Setting {
    pub key: String,
    pub value: String,
}

/// The categories a time entry can carry.
#[derive(Clone, Copy, PartialEq, Eq, Structural, Debug)]
pub enum Category {
    DeepWork,
    Meetings,
    Admin,
    Break,
    Away,
}

/// The canonical text of a category, as stored in persistence.
pub open spec fn category_text(c: Category) -> Seq<char> {
    match c {
        Category::DeepWork => "deep_work"@,
        Category::Meetings => "meetings"@,
        Category::Admin => "admin"@,
        Category::Break => "break"@,
        Category::Away => "away"@,
    }
}

/// The category a text denotes, if any; inverse of `category_text`.
pub open spec fn category_of_text(s: Seq<char>) -> Option<Category> {
    if s == "deep_work"@ {
        Some(Category::DeepWork)
    } else if s == "meetings"@ {
        Some(Category::Meetings)
    } else if s == "admin"@ {
        Some(Category::Admin)
    } else if s == "break"@ {
        Some(Category::Break)
    } else if s == "away"@ {
        Some(Category::Away)
    } else {
        None
    }
}

impl Category {
    /// The stored text of this category.
    pub fn as_str(&self) -> (r: &'static str)
        ensures
            r@ == category_text(*self),
    {
        match self {
            Category::DeepWork => "deep_work",
            Category::Meetings => "meetings",
            Category::Admin => "admin",
            Category::Break => "break",
            Category::Away => "away",
        }
    }

    /// Parses a stored text back into a category; `None` on any other text.
    pub fn from_str(s: &str) -> (r: Option<Category>)
        ensures
            r == category_of_text(s@),
    {
        if str_eq(s, "deep_work") {
            Some(Category::DeepWork)
        } else if str_eq(s, "meetings") {
            Some(Category::Meetings)
        } else if str_eq(s, "admin") {
            Some(Category::Admin)
        } else if str_eq(s, "break") {
            Some(Category::Break)
        } else if str_eq(s, "away") {
            Some(Category::Away)
        } else {
            None
        }
    }
}

/// Parsing the stored text of a category gives that category back.
pub proof fn lemma_category_text_roundtrip(c: Category)
    ensures
        category_of_text(category_text(c)) == Some(c),
{
    reveal_strlit("deep_work");
    reveal_strlit("meetings");
    reveal_strlit("admin");
    reveal_strlit("break");
    reveal_strlit("away");
    assert("deep_work"@.len() == 9 && "meetings"@.len() == 8 && "admin"@.len() == 5
        && "break"@.len() == 5 && "away"@.len() == 4);
    assert("admin"@[0] == 'a' && "break"@[0] == 'b');
}

/// What a persistence operation can fail with. The underlying store's own
/// errors arrive already rendered as text.
pub enum RepositoryError {
    DatabaseError(String),
    LockError(String),
    NotFound(String),
    InvalidData(String),
}

/// The message a repository error shows: its kind, then its detail.
pub open spec fn repository_error_text(e: RepositoryError) -> Seq<char> {
    match e {
        RepositoryError::DatabaseError(m) => "Database error: "@ + m@,
        RepositoryError::LockError(m) => "Lock error: "@ + m@,
        RepositoryError::NotFound(m) => "Not found: "@ + m@,
        RepositoryError::InvalidData(m) => "Invalid data: "@ + m@,
    }
}

impl RepositoryError {
    /// Renders the error for display.
    pub fn message(&self) -> (r: String)
        ensures
            r@ == repository_error_text(*self),
    {
        let mut s: String;
        match self {
            RepositoryError::DatabaseError(m) => {
                s = "Database error: ".to_owned();
                s.append(m.as_str());
            },
            RepositoryError::LockError(m) => {
                s = "Lock error: ".to_owned();
                s.append(m.as_str());
            },
            RepositoryError::NotFound(m) => {
                s = "Not found: ".to_owned();
                s.append(m.as_str());
            },
            RepositoryError::InvalidData(m) => {
                s = "Invalid data: ".to_owned();
                s.append(m.as_str());
            },
        }
        s
    }
}

/// Character-for-character equality of two string slices.
pub fn str_eq(a: &str, b: &str) -> (r: bool)
    ensures
        r == (a@ == b@),
{
    let x: String = a.to_owned();
    let y: String = b.to_owned();
    x == y
}

/// Decodes the persistence layer's integer encoding of a boolean: any
/// non-zero value counts as true.
pub fn int_to_bool(val: i32) -> (r: bool)
    ensures
        r == (val != 0),
{
    val != 0
}

/// Encodes a boolean for the persistence layer as 1 or 0.
pub fn bool_to_int(val: bool) -> (r: i32)
    ensures
        r == (if val { 1int } else { 0int }),
{
    if val {
        1
    } else {
        0
    }
}

} // verus!
