//! The pipeline: one command text in, the database and the history
//! changed, one result out.

use crate::command_history::CommandHistory;
use crate::commands::{
    create_of_text, create_text, delete_for, delete_text, insert_for, insert_text, load_of_text,
    run_create, run_delete, run_insert, run_select, save_of_text, select_for, select_text, Command,
    Create, Delete, Insert, ReadFrom, SaveAs, Select, Serialize,
};
use crate::custom_error::{text_result, CustomError, ErrorView};
use crate::database::{
    database_create, database_wf, empty_table, has_table, holds_key, key_declared,
    lemma_add_keeps_order, lemma_create, lemma_record_of_parts_distinct,
    lemma_remove_keeps_order, lemma_table_index, record_key, record_of_text, record_text,
    table_add, table_index, table_remove, AnyDatabase, Database, DatabaseKey, DatabaseView,
    KeyModel, RecordView,
};
use crate::floats::{is_reader, readings, FloatValue, Readings};
use crate::parsers::{lemma_fields_of_parts_distinct, texts};
use crate::text::{
    cut, has_prefix, split, starts_with, strip_prefix, to_chars, to_text, trim, trimmed,
};
use crate::text_map::Entries;
use vstd::prelude::*;
use vstd::string::*;

verus! {

/// What a `CREATE` command text makes of the database and the history,
/// and what it reports. A text that spells no command changes nothing; a
/// command that is read enters the history, however it goes.
pub open spec fn step_create(
    db: DatabaseView,
    history: Seq<Seq<char>>,
    input: Seq<char>,
    text_keys: bool,
) -> (DatabaseView, Seq<Seq<char>>, Result<Seq<char>, ErrorView>) {
    match create_of_text(input) {
        Err(e) => (db, history, Err(e)),
        Ok(c) => {
            let (after, reply) = run_create(db, c, text_keys);
            (after, history.push(create_text(c)), reply)
        },
    }
}

/// Reads and carries out a `CREATE` command.
pub fn handle_create<K: DatabaseKey, F: Fn(&str) -> Option<FloatValue>>(
    input: &str,
    database: &mut Database<K>,
    history: &mut CommandHistory,
    reader: &F,
) -> (r: Result<String, CustomError>)
    requires
        old(database).wf(),
        is_reader(reader),
    ensures
        final(database).wf(),
        (final(database)@, final(history)@, text_result(r)) == step_create(
            old(database)@,
            old(history)@,
            input@,
            K::text_keys(),
        ),
{
    let mut command = match Create::new(database, input) {
        Ok(c) => c,
        Err(e) => {
            return Err(e);
        },
    };
    history.push(command.serialize());
    command.execute(reader)
}

/// What an `INSERT` command text makes of the database and the history,
/// and what it reports.
pub open spec fn step_insert(
    db: DatabaseView,
    history: Seq<Seq<char>>,
    input: Seq<char>,
    floats: Readings,
    text_keys: bool,
) -> (DatabaseView, Seq<Seq<char>>, Result<Seq<char>, ErrorView>) {
    match insert_for(db, input) {
        Err(e) => (db, history, Err(e)),
        Ok(c) => {
            let i = table_index(db, c.table_name);
            let (after, reply) = run_insert(db[i], c.record_string, floats, text_keys);
            (db.update(i, after), history.push(insert_text(c)), reply)
        },
    }
}

/// What a `DELETE` command text makes of the database and the history,
/// and what it reports.
pub open spec fn step_delete(
    db: DatabaseView,
    history: Seq<Seq<char>>,
    input: Seq<char>,
    floats: Readings,
    text_keys: bool,
) -> (DatabaseView, Seq<Seq<char>>, Result<Seq<char>, ErrorView>) {
    match delete_for(db, input) {
        Err(e) => (db, history, Err(e)),
        Ok(c) => {
            let i = table_index(db, c.table_name);
            let (after, reply) = run_delete(db[i], c.key_string, floats, text_keys);
            (db.update(i, after), history.push(delete_text(c)), reply)
        },
    }
}

/// What a `SELECT` command text makes of the history, and what it
/// reports; the database stays as it is.
pub open spec fn step_select(
    db: DatabaseView,
    history: Seq<Seq<char>>,
    input: Seq<char>,
    floats: Readings,
) -> (Seq<Seq<char>>, Result<Seq<char>, ErrorView>) {
    match select_for(db, input) {
        Err(e) => (history, Err(e)),
        Ok(c) => (
            history.push(select_text(c)),
            run_select(db[table_index(db, c.table_name)], c.fields, c.cond_string, floats),
        ),
    }
}

/// Reads and carries out an `INSERT` command.
pub fn handle_insert<K: DatabaseKey, F: Fn(&str) -> Option<FloatValue>>(
    input: &str,
    database: &mut Database<K>,
    history: &mut CommandHistory,
    reader: &F,
) -> (r: Result<String, CustomError>)
    requires
        old(database).wf(),
        is_reader(reader),
    ensures
        final(database).wf(),
        (final(database)@, final(history)@, text_result(r)) == step_insert(
            old(database)@,
            old(history)@,
            input@,
            readings(reader),
            K::text_keys(),
        ),
{
    let ghost before = database@;
    let mut command = match Insert::new(database, input) {
        Ok(c) => c,
        Err(e) => {
            return Err(e);
        },
    };
    let ghost i = table_index(before, command@.table_name);
    proof {
        lemma_table_index(before, command@.table_name);
    }
    history.push(command.serialize());
    let r = command.execute(reader);
    proof {
        let after = command.table@;
        assert(database@ =~= before.update(i, after));
    }
    r
}

/// Reads and carries out a `DELETE` command.
pub fn handle_delete<K: DatabaseKey, F: Fn(&str) -> Option<FloatValue>>(
    input: &str,
    database: &mut Database<K>,
    history: &mut CommandHistory,
    reader: &F,
) -> (r: Result<String, CustomError>)
    requires
        old(database).wf(),
        is_reader(reader),
    ensures
        final(database).wf(),
        (final(database)@, final(history)@, text_result(r)) == step_delete(
            old(database)@,
            old(history)@,
            input@,
            readings(reader),
            K::text_keys(),
        ),
{
    let ghost before = database@;
    let mut command = match Delete::new(database, input) {
        Ok(c) => c,
        Err(e) => {
            return Err(e);
        },
    };
    let ghost i = table_index(before, command@.table_name);
    proof {
        lemma_table_index(before, command@.table_name);
    }
    history.push(command.serialize());
    let r = command.execute(reader);
    proof {
        let after = command.table@;
        assert(database@ =~= before.update(i, after));
    }
    r
}

/// Reads and carries out a `SELECT` command.
pub fn handle_select<K: DatabaseKey, F: Fn(&str) -> Option<FloatValue>>(
    input: &str,
    database: &mut Database<K>,
    history: &mut CommandHistory,
    reader: &F,
) -> (r: Result<String, CustomError>)
    requires
        old(database).wf(),
        is_reader(reader),
    ensures
        final(database)@ == old(database)@,
        (final(history)@, text_result(r)) == step_select(
            old(database)@,
            old(history)@,
            input@,
            readings(reader),
        ),
{
    let ghost before = database@;
    let mut command = match Select::new(database, input) {
        Ok(c) => c,
        Err(e) => {
            return Err(e);
        },
    };
    proof {
        lemma_table_index(before, command@.table_name);
    }
    history.push(command.serialize());
    let r = command.execute(reader);
    r
}

/// How a command ended, or what is left to do for whoever reaches the
/// files.
pub enum Outcome {
    /// The command is done; this is its result.
    Reply(String),
    /// `SAVE_AS`: `lines` are to be written to `file_path`, one entry per
    /// line, in place of what the file held. `SaveAs::finish` then gives the
    /// result.
    Save { file_path: String, lines: Vec<String> },
    /// `READ_FROM`: the lines of `file_path` are to go through
    /// `replay_line` one by one, in the file's order, for as long as it asks
    /// for the next.
    Load { file_path: String },
}

/// An outcome as the contracts see it.
pub ghost enum OutcomeView {
    Reply(Seq<char>),
    Save { file_path: Seq<char>, lines: Seq<Seq<char>> },
    Load { file_path: Seq<char> },
}

impl View for Outcome {
    type V = OutcomeView;

    open spec fn view(&self) -> OutcomeView {
        match self {
            Outcome::Reply(s) => OutcomeView::Reply(s@),
            Outcome::Save { file_path, lines } => OutcomeView::Save {
                file_path: file_path@,
                lines: texts(lines@),
            },
            Outcome::Load { file_path } => OutcomeView::Load { file_path: file_path@ },
        }
    }
}

/// A result of the pipeline with its texts as character sequences.
pub open spec fn outcome_result(r: Result<Outcome, CustomError>) -> Result<
    OutcomeView,
    ErrorView,
> {
    match r {
        Ok(o) => Ok(o@),
        Err(e) => Err(e@),
    }
}

/// The outcome of a command that is done.
pub open spec fn done(r: Result<Seq<char>, ErrorView>) -> Result<OutcomeView, ErrorView> {
    match r {
        Ok(s) => Ok(OutcomeView::Reply(s)),
        Err(e) => Err(e),
    }
}

/// What a `SAVE_AS` command text asks for: the history as it stands, to
/// be written to the path that the text gives. The command itself does
/// not enter the history.
pub open spec fn step_save(history: Seq<Seq<char>>, input: Seq<char>) -> Result<
    OutcomeView,
    ErrorView,
> {
    match save_of_text(input) {
        Ok(file_path) => Ok(OutcomeView::Save { file_path, lines: history }),
        Err(e) => Err(e),
    }
}

/// What a `READ_FROM` command text asks for: the lines of the file at
/// the path that the text gives. The command itself does not enter the
/// history.
pub open spec fn step_load(input: Seq<char>) -> Result<OutcomeView, ErrorView> {
    match load_of_text(input) {
        Ok(file_path) => Ok(OutcomeView::Load { file_path }),
        Err(e) => Err(e),
    }
}

/// What one command text makes of the database and the history, and how
/// it ends. The text is trimmed and told by the keyword that it begins
/// with, tried in the order `CREATE`, `INSERT`, `DELETE`, `SELECT`,
/// `SAVE_AS`, `READ_FROM`.
pub open spec fn step(
    db: DatabaseView,
    history: Seq<Seq<char>>,
    input: Seq<char>,
    floats: Readings,
    text_keys: bool,
) -> (DatabaseView, Seq<Seq<char>>, Result<OutcomeView, ErrorView>) {
    let text = trim(input);
    if starts_with(text, "CREATE"@) {
        let (after, log, reply) = step_create(db, history, text, text_keys);
        (after, log, done(reply))
    } else if starts_with(text, "INSERT"@) {
        let (after, log, reply) = step_insert(db, history, text, floats, text_keys);
        (after, log, done(reply))
    } else if starts_with(text, "DELETE"@) {
        let (after, log, reply) = step_delete(db, history, text, floats, text_keys);
        (after, log, done(reply))
    } else if starts_with(text, "SELECT"@) {
        let (log, reply) = step_select(db, history, text, floats);
        (db, log, done(reply))
    } else if starts_with(text, "SAVE_AS"@) {
        (db, history, step_save(history, text))
    } else if starts_with(text, "READ_FROM"@) {
        (db, history, step_load(text))
    } else {
        (db, history, Err(ErrorView::UnknownCommand(text)))
    }
}

/// What the replay of a file does next.
pub enum Replay {
    /// The next line is to be read and handed to `replay_line`.
    Next,
    /// The line has left work with a file: it is to be done, and how it
    /// ended handed to `replay_resume`.
    Work(Outcome),
    /// The replay is over, with this result.
    Stop(Result<String, CustomError>),
}

/// The next move of a replay as the contracts see it.
pub ghost enum ReplayView {
    Next,
    Work(OutcomeView),
    Stop(Result<Seq<char>, ErrorView>),
}

impl View for Replay {
    type V = ReplayView;

    open spec fn view(&self) -> ReplayView {
        match self {
            Replay::Next => ReplayView::Next,
            Replay::Work(o) => ReplayView::Work(o@),
            Replay::Stop(r) => ReplayView::Stop(text_result(*r)),
        }
    }
}

/// How a replay goes on after a line that ended as `outcome`: the first
/// line that fails ends the replay with its failure.
pub open spec fn replay_after(outcome: Result<OutcomeView, ErrorView>) -> ReplayView {
    match outcome {
        Ok(OutcomeView::Reply(_)) => ReplayView::Next,
        Ok(work) => ReplayView::Work(work),
        Err(e) => ReplayView::Stop(Err(e)),
    }
}

/// How a replay goes on after the work that a line had left with a file
/// ended as `ended`.
pub open spec fn replay_resumed(ended: Result<String, CustomError>) -> ReplayView {
    match ended {
        Ok(_) => ReplayView::Next,
        Err(e) => ReplayView::Stop(Err(e@)),
    }
}

/// What one step of a replay makes of the database and the history, and
/// how the replay goes on. `line` is the next line of the file, or the text
/// of the failure to open the file or to read the line, or nothing at the
/// end of the file. A line is a command like any other. The end of the file
/// ends the replay in success, a failure to read in `IoError`.
pub open spec fn step_line(
    db: DatabaseView,
    history: Seq<Seq<char>>,
    line: Option<Result<String, String>>,
    floats: Readings,
    text_keys: bool,
) -> (DatabaseView, Seq<Seq<char>>, ReplayView) {
    match line {
        None => (db, history, ReplayView::Stop(Ok("Data read succesfully"@))),
        Some(Err(why)) => (db, history, ReplayView::Stop(Err(ErrorView::IoError(why@)))),
        Some(Ok(text)) => {
            let (after, log, outcome) = step(db, history, text@, floats, text_keys);
            (after, log, replay_after(outcome))
        },
    }
}

/// Reads a `SAVE_AS` command: what is to be written, and where.
pub fn handle_save_as(input: &str, history: &mut CommandHistory) -> (r: Result<
    Outcome,
    CustomError,
>)
    ensures
        final(history)@ == old(history)@,
        outcome_result(r) == step_save(old(history)@, input@),
{
    let mut command = match SaveAs::new(input, history) {
        Ok(c) => c,
        Err(e) => {
            return Err(e);
        },
    };
    let lines: Vec<String> = command.lines();
    Ok(Outcome::Save { file_path: command.file_path, lines })
}

/// Reads a `READ_FROM` command: which file is to be replayed.
pub fn handle_read_from<K: DatabaseKey>(
    input: &str,
    database: &mut Database<K>,
    history: &mut CommandHistory,
) -> (r: Result<Outcome, CustomError>)
    ensures
        *final(database) == *old(database),
        final(history)@ == old(history)@,
        outcome_result(r) == step_load(input@),
{
    let command = match ReadFrom::new(input, history, database) {
        Ok(c) => c,
        Err(e) => {
            return Err(e);
        },
    };
    Ok(Outcome::Load { file_path: command.file_path })
}

fn reply(r: Result<String, CustomError>) -> (o: Result<Outcome, CustomError>)
    ensures
        outcome_result(o) == done(text_result(r)),
{
    match r {
        Ok(s) => Ok(Outcome::Reply(s)),
        Err(e) => Err(e),
    }
}

/// Reads and carries out one command.
pub fn handle_input<K: DatabaseKey, F: Fn(&str) -> Option<FloatValue>>(
    input: String,
    database: &mut Database<K>,
    history: &mut CommandHistory,
    reader: &F,
) -> (r: Result<Outcome, CustomError>)
    requires
        old(database).wf(),
        is_reader(reader),
    ensures
        final(database).wf(),
        (final(database)@, final(history)@, outcome_result(r)) == step(
            old(database)@,
            old(history)@,
            input@,
            readings(reader),
            K::text_keys(),
        ),
{
    let text: Vec<char> = trimmed(&to_chars(input.as_str()));
    let command: String = to_text(&text);
    if has_prefix(&text, &to_chars("CREATE")) {
        reply(handle_create(command.as_str(), database, history, reader))
    } else if has_prefix(&text, &to_chars("INSERT")) {
        reply(handle_insert(command.as_str(), database, history, reader))
    } else if has_prefix(&text, &to_chars("DELETE")) {
        reply(handle_delete(command.as_str(), database, history, reader))
    } else if has_prefix(&text, &to_chars("SELECT")) {
        reply(handle_select(command.as_str(), database, history, reader))
    } else if has_prefix(&text, &to_chars("SAVE_AS")) {
        handle_save_as(command.as_str(), history)
    } else if has_prefix(&text, &to_chars("READ_FROM")) {
        handle_read_from(command.as_str(), database, history)
    } else {
        Err(CustomError::UnknownCommand(command))
    }
}

/// One step of the replay of a file: carries out the next line, if
/// there is one and it could be read, and says how the replay goes on.
pub fn replay_line<K: DatabaseKey, F: Fn(&str) -> Option<FloatValue>>(
    line: Option<Result<String, String>>,
    database: &mut Database<K>,
    history: &mut CommandHistory,
    reader: &F,
) -> (r: Replay)
    requires
        old(database).wf(),
        is_reader(reader),
    ensures
        final(database).wf(),
        (final(database)@, final(history)@, r@) == step_line(
            old(database)@,
            old(history)@,
            line,
            readings(reader),
            K::text_keys(),
        ),
{
    match line {
        None => Replay::Stop(Ok(ReadFrom::<K>::finish())),
        Some(Err(why)) => Replay::Stop(Err(CustomError::IoError(why))),
        Some(Ok(text)) => match handle_input(text, database, history, reader) {
            Ok(Outcome::Reply(_)) => Replay::Next,
            Ok(work) => Replay::Work(work),
            Err(e) => Replay::Stop(Err(e)),
        },
    }
}

/// How a replay goes on after the work that a line had left with a file
/// has ended: with the next line, or not at all where the work failed.
pub fn replay_resume(ended: Result<String, CustomError>) -> (r: Replay)
    ensures
        r@ == replay_resumed(ended),
{
    match ended {
        Ok(_) => Replay::Next,
        Err(e) => Replay::Stop(Err(e)),
    }
}

/// Reads and carries out one command on a database of either kind.
pub fn handle_input_any_db<F: Fn(&str) -> Option<FloatValue>>(
    input: String,
    database: &mut AnyDatabase,
    history: &mut CommandHistory,
    reader: &F,
) -> (r: Result<Outcome, CustomError>)
    requires
        old(database).wf(),
        is_reader(reader),
    ensures
        final(database).wf(),
        final(database).text_keys() == old(database).text_keys(),
        (final(database).tables(), final(history)@, outcome_result(r)) == step(
            old(database).tables(),
            old(history)@,
            input@,
            readings(reader),
            old(database).text_keys(),
        ),
{
    match database {
        AnyDatabase::StringDatabase(db) => handle_input(input, db, history, reader),
        AnyDatabase::IntDatabase(db) => handle_input(input, db, history, reader),
    }
}

/// One step of the replay of a file into a database of either kind.
pub fn replay_line_any_db<F: Fn(&str) -> Option<FloatValue>>(
    line: Option<Result<String, String>>,
    database: &mut AnyDatabase,
    history: &mut CommandHistory,
    reader: &F,
) -> (r: Replay)
    requires
        old(database).wf(),
        is_reader(reader),
    ensures
        final(database).wf(),
        final(database).text_keys() == old(database).text_keys(),
        (final(database).tables(), final(history)@, r@) == step_line(
            old(database).tables(),
            old(history)@,
            line,
            readings(reader),
            old(database).text_keys(),
        ),
{
    match database {
        AnyDatabase::StringDatabase(db) => replay_line(line, db, history, reader),
        AnyDatabase::IntDatabase(db) => replay_line(line, db, history, reader),
    }
}

/// What is shown for a command that has ended: its reply, or the
/// message of its failure.
pub open spec fn shown(r: Result<String, CustomError>) -> Seq<char> {
    match r {
        Ok(reply) => reply@,
        Err(e) => e@.message(),
    }
}

/// The text that is shown for a command that has ended.
pub fn result_text(r: Result<String, CustomError>) -> (text: String)
    ensures
        text@ == shown(r),
{
    match r {
        Ok(reply) => reply,
        Err(e) => e.to_string(),
    }
}

/// What a front end does next after it has handed over one input.
pub enum Turn {
    /// It shows this text and goes on.
    Say(String),
    /// It does what the command has left to do with a file, shows the
    /// `result_text` of how that ended, and goes on.
    Work(Outcome),
    /// It shows this text and ends.
    Leave(String),
}

/// A turn as the contracts see it.
pub ghost enum TurnView {
    Say(Seq<char>),
    Work(OutcomeView),
    Leave(Seq<char>),
}

impl View for Turn {
    type V = TurnView;

    open spec fn view(&self) -> TurnView {
        match self {
            Turn::Say(s) => TurnView::Say(s@),
            Turn::Work(o) => TurnView::Work(o@),
            Turn::Leave(s) => TurnView::Leave(s@),
        }
    }
}

/// The turn that the end of a command asks for: its reply or the message
/// of its failure is shown, or its work with a file is done first.
pub open spec fn turn_of(outcome: Result<OutcomeView, ErrorView>) -> TurnView {
    match outcome {
        Ok(OutcomeView::Reply(reply)) => TurnView::Say(reply),
        Ok(work) => TurnView::Work(work),
        Err(e) => TurnView::Say(e.message()),
    }
}

/// The turn that the end of a command asks for.
pub fn turn_for(outcome: Result<Outcome, CustomError>) -> (r: Turn)
    ensures
        r@ == turn_of(outcome_result(outcome)),
{
    match outcome {
        Ok(Outcome::Reply(reply)) => Turn::Say(reply),
        Ok(work) => Turn::Work(work),
        Err(e) => Turn::Say(e.to_string()),
    }
}

/// A command that fails leaves the database as it was.
pub proof fn lemma_failure_keeps_database(
    db: DatabaseView,
    history: Seq<Seq<char>>,
    input: Seq<char>,
    floats: Readings,
    text_keys: bool,
)
    ensures
        step(db, history, input, floats, text_keys).2 is Err ==> step(
            db,
            history,
            input,
            floats,
            text_keys,
        ).0 == db,
{
    let text = trim(input);
    if let Ok(c) = insert_for(db, text) {
        lemma_table_index(db, c.table_name);
    }
    if let Ok(c) = delete_for(db, text) {
        lemma_table_index(db, c.table_name);
    }
}

/// The history only grows, and by one entry at most: after a command it
/// is what it was, or what it was with one entry added at the end. It
/// stays what it was for `SAVE_AS` and `READ_FROM`.
pub proof fn lemma_history_grows(
    db: DatabaseView,
    history: Seq<Seq<char>>,
    input: Seq<char>,
    floats: Readings,
    text_keys: bool,
)
    ensures
        ({
            let after = step(db, history, input, floats, text_keys).1;
            after == history || (after.len() == history.len() + 1 && after.drop_last()
                == history)
        }),
        step(db, history, input, floats, text_keys).2 matches Ok(OutcomeView::Save { .. })
            ==> step(db, history, input, floats, text_keys).1 == history,
        step(db, history, input, floats, text_keys).2 matches Ok(OutcomeView::Load { .. })
            ==> step(db, history, input, floats, text_keys).1 == history,
{
}

/// Every command keeps the database in order: whatever the text, after
/// it no two tables have one name, and every table has its key field
/// declared, its records in ascending order of their keys, no key twice,
/// and each record under the key that its key field holds.
pub proof fn lemma_step_keeps_order(
    db: DatabaseView,
    history: Seq<Seq<char>>,
    input: Seq<char>,
    floats: Readings,
    text_keys: bool,
)
    requires
        database_wf(db, text_keys),
    ensures
        database_wf(step(db, history, input, floats, text_keys).0, text_keys),
{
    let text = trim(input);
    if starts_with(text, "CREATE"@) {
        if let Ok(c) = create_of_text(text) {
            if let Ok(after) = database_create(db, c.name, c.key_field, c.fields, text_keys) {
                let list = strip_prefix(text, "CREATE"@)->Some_0;
                let tail = cut(list, "KEY"@)->Some_0.1;
                let declared = cut(tail, "FIELDS"@)->Some_0.1;
                lemma_fields_of_parts_distinct(
                    split(trim(declared), ','),
                    Entries::<Seq<char>>::empty(),
                );
                lemma_table_index(db, c.name);
            }
        }
    } else if starts_with(text, "INSERT"@) {
        if let Ok(c) = insert_for(db, text) {
            lemma_table_index(db, c.table_name);
            let i = table_index(db, c.table_name);
            if let Ok(rec) = record_of_text(c.record_string, db[i].fields, floats) {
                lemma_record_of_parts_distinct(
                    split(c.record_string, ','),
                    db[i].fields,
                    floats,
                    RecordView::empty(),
                );
                if table_add(db[i], rec, text_keys) is Ok {
                    lemma_add_keeps_order(db[i], rec, text_keys);
                }
            }
        }
    } else if starts_with(text, "DELETE"@) {
        if let Ok(c) = delete_for(db, text) {
            lemma_table_index(db, c.table_name);
            let i = table_index(db, c.table_name);
            if table_remove(db[i], c.key_string, floats, text_keys) is Ok {
                lemma_remove_keeps_order(db[i], c.key_string, floats, text_keys);
            }
        }
    }
}

/// A `CREATE` command for a name that is free. Where its key field is
/// declared with the type of the database's keys, the table exists
/// afterwards, empty and with exactly the declared schema, and the other
/// tables stay; where it is not, the command fails with `WrongKeyType` and
/// creates nothing. Either way the command enters the history.
pub proof fn lemma_create_command(
    db: DatabaseView,
    history: Seq<Seq<char>>,
    input: Seq<char>,
    text_keys: bool,
)
    requires
        create_of_text(input) is Ok,
        !has_table(db, create_of_text(input)->Ok_0.name),
    ensures
        ({
            let c = create_of_text(input)->Ok_0;
            let table = empty_table(c.name, c.key_field, c.fields);
            let (after, log, reply) = step_create(db, history, input, text_keys);
            &&& log == history.push(create_text(c))
            &&& key_declared(c.fields, c.key_field, text_keys) ==> {
                &&& reply == Ok::<Seq<char>, ErrorView>("Table created succesfully"@)
                &&& after == db.push(table)
                &&& has_table(after, c.name)
                &&& after[table_index(after, c.name)] == table
            }
            &&& !key_declared(c.fields, c.key_field, text_keys) ==> {
                &&& reply == Err::<Seq<char>, ErrorView>(ErrorView::WrongKeyType)
                &&& after == db
            }
        }),
{
    let c = create_of_text(input)->Ok_0;
    lemma_create(db, c.name, c.key_field, c.fields, text_keys);
}

/// An `INSERT` command whose record has a key that its table holds
/// fails with `RecordAlreadyExists` and leaves the database, and so the
/// number of records, as it was.
pub proof fn lemma_insert_command_taken(
    db: DatabaseView,
    history: Seq<Seq<char>>,
    input: Seq<char>,
    floats: Readings,
    text_keys: bool,
    rec: RecordView,
    k: KeyModel,
)
    requires
        insert_for(db, input) is Ok,
        ({
            let c = insert_for(db, input)->Ok_0;
            let t = db[table_index(db, c.table_name)];
            &&& record_of_text(c.record_string, t.fields, floats) == Ok::<RecordView, ErrorView>(
                rec,
            )
            &&& record_key(rec, t.key_field, text_keys) == Some(k)
            &&& holds_key(t.records, k)
        }),
    ensures
        step_insert(db, history, input, floats, text_keys) == (
            db,
            history.push(insert_text(insert_for(db, input)->Ok_0)),
            Err::<Seq<char>, ErrorView>(ErrorView::RecordAlreadyExists(record_text(rec))),
        ),
{
    let c = insert_for(db, input)->Ok_0;
    lemma_table_index(db, c.table_name);
}

} // verus!
