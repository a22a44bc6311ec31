//! What is chosen when the engine is started.

use crate::command_history::CommandHistory;
use crate::database::{AnyDatabase, Database, DatabaseView};
use crate::floats::{is_reader, readings, FloatValue, Readings};
use crate::handlers::{handle_input_any_db, step, turn_for, turn_of, Turn, TurnView};
use crate::text::{to_chars, to_text, trim, trimmed};
use vstd::prelude::*;
use vstd::string::*;

verus! {

/// The kind of primary keys of the database, fixed for its lifetime.
#[derive(Debug, Clone, Copy, PartialEq, Eq, Structural)]
pub enum KeyType {
    String,
    Int,
}

/// The front end that drives the engine.
#[derive(Debug, Clone, Copy, PartialEq, Eq, Structural)]
pub enum UiType {
    Command,
    Graphic,
}

/// The choices made at start.
#[derive(Debug, Clone, Copy, PartialEq, Eq, Structural)]
pub struct Args {
    pub key_type: KeyType,
    pub ui_type: UiType,
}

impl Default for Args {
    /// Text keys and the graphic front end.
    fn default() -> (r: Self)
        ensures
            r == (Args { key_type: KeyType::String, ui_type: UiType::Graphic }),
    {
        Args { key_type: KeyType::String, ui_type: UiType::Graphic }
    }
}

impl KeyType {
    /// The empty database with keys of this kind.
    pub fn to_database(&self) -> (r: AnyDatabase)
        ensures
            r.text_keys() == (*self == KeyType::String),
            r.tables() == DatabaseView::empty(),
            r.wf(),
    {
        match self {
            KeyType::String => AnyDatabase::StringDatabase(Database::<String>::new()),
            KeyType::Int => AnyDatabase::IntDatabase(Database::<i64>::new()),
        }
    }
}

/// What one round of the line-oriented front end makes of the database
/// and the history, and what the front end does next. `line` is the line
/// that was read, or nothing at the end of the input. The end of the input
/// and a line that is empty after trimming end the front end; any other
/// line is a command.
pub open spec fn command_line_round(
    db: DatabaseView,
    history: Seq<Seq<char>>,
    line: Option<String>,
    floats: Readings,
    text_keys: bool,
) -> (DatabaseView, Seq<Seq<char>>, TurnView) {
    match line {
        None => (db, history, TurnView::Leave("EOF received, exiting."@)),
        Some(text) => if trim(text@).len() == 0 {
            (db, history, TurnView::Leave("Empty line -> exiting."@))
        } else {
            let (after, log, outcome) = step(db, history, trim(text@), floats, text_keys);
            (after, log, turn_of(outcome))
        },
    }
}

/// One round of the line-oriented front end.
pub fn run_command_line<F: Fn(&str) -> Option<FloatValue>>(
    line: Option<String>,
    database: &mut AnyDatabase,
    history: &mut CommandHistory,
    reader: &F,
) -> (r: Turn)
    requires
        old(database).wf(),
        is_reader(reader),
    ensures
        final(database).wf(),
        final(database).text_keys() == old(database).text_keys(),
        (final(database).tables(), final(history)@, r@) == command_line_round(
            old(database).tables(),
            old(history)@,
            line,
            readings(reader),
            old(database).text_keys(),
        ),
{
    match line {
        None => Turn::Leave(String::from_str("EOF received, exiting.")),
        Some(text) => {
            let command: Vec<char> = trimmed(&to_chars(text.as_str()));
            if command.len() == 0 {
                Turn::Leave(String::from_str("Empty line -> exiting."))
            } else {
                turn_for(handle_input_any_db(to_text(&command), database, history, reader))
            }
        },
    }
}

} // verus!
