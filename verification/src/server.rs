//! The request responder: one request in, one response out.

use crate::command_history::CommandHistory;
use crate::database::{AnyDatabase, DatabaseView};
use crate::floats::{is_reader, readings, FloatValue, Readings};
use crate::handlers::{handle_input_any_db, step, turn_for, turn_of, Turn, TurnView};
use crate::text::{to_chars, to_text, trim, trimmed};
use vstd::prelude::*;
use vstd::string::*;

verus! {

/// What one request makes of the database and the history, and what is
/// sent back. `request` is the text of the datagram, or why its bytes are
/// no text. A request that is no text is answered without reaching the
/// engine; any other is trimmed and is one command.
pub open spec fn response(
    db: DatabaseView,
    history: Seq<Seq<char>>,
    request: Result<String, String>,
    floats: Readings,
    text_keys: bool,
) -> (DatabaseView, Seq<Seq<char>>, TurnView) {
    match request {
        Err(why) => (db, history, TurnView::Say("Bad input : "@ + why@ + "\n"@)),
        Ok(text) => {
            let (after, log, outcome) = step(db, history, trim(text@), floats, text_keys);
            (after, log, turn_of(outcome))
        },
    }
}

/// Answers one request. The responder never ends on a request.
pub fn handle_client<F: Fn(&str) -> Option<FloatValue>>(
    request: Result<String, String>,
    db: &mut AnyDatabase,
    history: &mut CommandHistory,
    reader: &F,
) -> (r: Turn)
    requires
        old(db).wf(),
        is_reader(reader),
    ensures
        final(db).wf(),
        final(db).text_keys() == old(db).text_keys(),
        (final(db).tables(), final(history)@, r@) == response(
            old(db).tables(),
            old(history)@,
            request,
            readings(reader),
            old(db).text_keys(),
        ),
        !(r is Leave),
{
    match request {
        Err(why) => {
            let mut text: String = String::from_str("Bad input : ");
            text.append(why.as_str());
            text.append("\n");
            Turn::Say(text)
        },
        Ok(text) => {
            let command: String = to_text(&trimmed(&to_chars(text.as_str())));
            turn_for(handle_input_any_db(command, db, history, reader))
        },
    }
}

} // verus!
