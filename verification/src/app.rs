//! The state of the interactive front end: which command is being put
//! together on which screen, what has been entered so far, and what a step
//! to the next screen does.

use crate::command_history::CommandHistory;
use crate::custom_error::{CustomError, ErrorView};
use crate::database::{fields_of_table, text_view, AnyDatabase, DatabaseView};
use crate::floats::{is_reader, readings, FloatValue, Readings};
use crate::handlers::{handle_input_any_db, step, Outcome, OutcomeView};
use crate::parsers::texts;
use crate::text::{append, join, joined, to_chars, to_text, views};
use crate::text_map::{Entries, TextMap};
use vstd::prelude::*;
use vstd::string::*;

verus! {

/// The screens of the front end.
#[derive(Debug, Clone, Copy, PartialEq, Eq, Structural)]
pub enum CurrentScreen {
    Main,
    SelectTable,
    SelectField,
    Results,
    SelectKeyField,
    InputTableName,
    InputFieldTypePair,
    InputFieldValuePair,
    InputKeyValue,
    InputFilePath,
    SelectCondition,
}

/// The command that is being put together.
#[derive(Debug, Clone, Copy, PartialEq, Eq, Structural)]
pub enum CurrentCommand {
    /// No command has been chosen.
    NoCommand,
    Create,
    Insert,
    Select,
    Delete,
    SaveAs,
    ReadFrom,
}

/// Which of two input boxes the typing goes to.
#[derive(Debug, Clone, Copy, PartialEq, Eq, Structural)]
pub enum FieldType {
    Field,
    Value,
}

impl CurrentScreen {
    /// The name of the screen.
    pub open spec fn name(self) -> Seq<char> {
        match self {
            CurrentScreen::Main => "Main"@,
            CurrentScreen::SelectTable => "SelectTable"@,
            CurrentScreen::SelectField => "SelectField"@,
            CurrentScreen::Results => "Results"@,
            CurrentScreen::SelectKeyField => "SelectKeyField"@,
            CurrentScreen::InputTableName => "InputTableName"@,
            CurrentScreen::InputFieldTypePair => "InputFieldTypePair"@,
            CurrentScreen::InputFieldValuePair => "InputFieldValuePair"@,
            CurrentScreen::InputKeyValue => "InputKeyValue"@,
            CurrentScreen::InputFilePath => "InputFilePath"@,
            CurrentScreen::SelectCondition => "SelectCondition"@,
        }
    }

    /// The name of the screen.
    pub fn to_string(&self) -> (r: String)
        ensures
            r@ == self.name(),
    {
        match self {
            CurrentScreen::Main => String::from_str("Main"),
            CurrentScreen::SelectTable => String::from_str("SelectTable"),
            CurrentScreen::SelectField => String::from_str("SelectField"),
            CurrentScreen::Results => String::from_str("Results"),
            CurrentScreen::SelectKeyField => String::from_str("SelectKeyField"),
            CurrentScreen::InputTableName => String::from_str("InputTableName"),
            CurrentScreen::InputFieldTypePair => String::from_str("InputFieldTypePair"),
            CurrentScreen::InputFieldValuePair => String::from_str("InputFieldValuePair"),
            CurrentScreen::InputKeyValue => String::from_str("InputKeyValue"),
            CurrentScreen::InputFilePath => String::from_str("InputFilePath"),
            CurrentScreen::SelectCondition => String::from_str("SelectCondition"),
        }
    }
}

impl CurrentCommand {
    /// The name of the command.
    pub open spec fn name(self) -> Seq<char> {
        match self {
            CurrentCommand::NoCommand => "None"@,
            CurrentCommand::Create => "Create"@,
            CurrentCommand::Insert => "Insert"@,
            CurrentCommand::Select => "Select"@,
            CurrentCommand::Delete => "Delete"@,
            CurrentCommand::SaveAs => "SaveAs"@,
            CurrentCommand::ReadFrom => "ReadFrom"@,
        }
    }

    /// The name of the command.
    pub fn to_string(&self) -> (r: String)
        ensures
            r@ == self.name(),
    {
        match self {
            CurrentCommand::NoCommand => String::from_str("None"),
            CurrentCommand::Create => String::from_str("Create"),
            CurrentCommand::Insert => String::from_str("Insert"),
            CurrentCommand::Select => String::from_str("Select"),
            CurrentCommand::Delete => String::from_str("Delete"),
            CurrentCommand::SaveAs => String::from_str("SaveAs"),
            CurrentCommand::ReadFrom => String::from_str("ReadFrom"),
        }
    }

    /// The command at position `index` of the main menu.
    pub open spec fn at(index: usize) -> CurrentCommand {
        if index == 0 {
            CurrentCommand::Create
        } else if index == 1 {
            CurrentCommand::Insert
        } else if index == 2 {
            CurrentCommand::Select
        } else if index == 3 {
            CurrentCommand::Delete
        } else if index == 4 {
            CurrentCommand::SaveAs
        } else if index == 5 {
            CurrentCommand::ReadFrom
        } else {
            CurrentCommand::NoCommand
        }
    }

    /// The screen on which the command begins.
    pub open spec fn first_screen(self) -> CurrentScreen {
        match self {
            CurrentCommand::Create => CurrentScreen::InputTableName,
            CurrentCommand::Insert => CurrentScreen::SelectTable,
            CurrentCommand::Select => CurrentScreen::SelectTable,
            CurrentCommand::Delete => CurrentScreen::SelectTable,
            CurrentCommand::SaveAs => CurrentScreen::InputFilePath,
            CurrentCommand::ReadFrom => CurrentScreen::InputFilePath,
            CurrentCommand::NoCommand => CurrentScreen::Main,
        }
    }
}

/// The state of the front end.
pub struct App {
    pub history: CommandHistory,
    pub database: AnyDatabase,
    pub current_input: String,
    pub input_table_name: Option<String>,
    pub selected_type: Option<String>,
    pub generic_hashmap: TextMap<String>,
    pub input_field: Option<String>,
    pub input_value: Option<String>,
    pub key_value: Option<String>,
    pub selected_fields: Vec<String>,
    pub selected_condition: Option<String>,
    pub condition_field: Option<String>,
    pub condition_value: Option<String>,
    pub file_path: Option<String>,
    pub current_screen: CurrentScreen,
    pub current_command: CurrentCommand,
    pub field_or_value: FieldType,
    pub current_index: usize,
    pub possibilities: Vec<String>,
    pub key_possibilities: Vec<String>,
    pub result: String,
    /// What a command has left to do with a file, until it is taken.
    pub pending: Option<Outcome>,
}

/// The state of the front end as the contracts see it.
pub ghost struct AppView {
    pub history: Seq<Seq<char>>,
    pub tables: DatabaseView,
    pub text_keys: bool,
    pub current_input: Seq<char>,
    pub input_table_name: Option<Seq<char>>,
    pub selected_type: Option<Seq<char>>,
    pub generic_hashmap: Entries<Seq<char>>,
    pub input_field: Option<Seq<char>>,
    pub input_value: Option<Seq<char>>,
    pub key_value: Option<Seq<char>>,
    pub selected_fields: Seq<Seq<char>>,
    pub selected_condition: Option<Seq<char>>,
    pub condition_field: Option<Seq<char>>,
    pub condition_value: Option<Seq<char>>,
    pub file_path: Option<Seq<char>>,
    pub current_screen: CurrentScreen,
    pub current_command: CurrentCommand,
    pub field_or_value: FieldType,
    pub current_index: usize,
    pub possibilities: Seq<Seq<char>>,
    pub key_possibilities: Seq<Seq<char>>,
    pub result: Seq<char>,
    pub pending: Option<OutcomeView>,
}

/// The view of an outcome that may be absent.
pub open spec fn pending_view(o: Option<Outcome>) -> Option<OutcomeView> {
    match o {
        Some(o) => Some(o@),
        None => None,
    }
}

/// The text, or the empty text where there is none.
pub open spec fn or_empty(s: Option<Seq<char>>) -> Seq<char> {
    match s {
        Some(t) => t,
        None => Seq::<char>::empty(),
    }
}

/// The entries of a map, each shown as name, `between`, value, with `, `
/// between entries.
pub open spec fn listing(map: Entries<Seq<char>>, between: Seq<char>) -> Seq<char> {
    join(map.map_values(|e: (Seq<char>, Seq<char>)| e.0 + between + e.1), ", "@)
}

/// What the step from a screen to the next one consists in.
#[derive(Debug, Clone, Copy, PartialEq, Eq, Structural)]
pub enum Plan {
    /// The next screen of the command is shown.
    Turn(CurrentScreen),
    /// The fields of the chosen table are listed, then the next screen is
    /// shown.
    ListFields,
    /// The command is complete: it is submitted and the results are shown.
    Submit,
    /// The results were shown: back to the main screen.
    Leave,
    /// The command does not pass this screen.
    Refuse,
}

impl CurrentCommand {
    /// What the step from `screen` consists in while this command is
    /// being put together.
    pub open spec fn plan(self, screen: CurrentScreen) -> Plan {
        match screen {
            CurrentScreen::Results => Plan::Leave,
            CurrentScreen::InputTableName => match self {
                CurrentCommand::Create => Plan::Turn(CurrentScreen::InputFieldTypePair),
                _ => Plan::Refuse,
            },
            CurrentScreen::InputFieldTypePair => match self {
                CurrentCommand::Create => Plan::Turn(CurrentScreen::SelectKeyField),
                _ => Plan::Refuse,
            },
            CurrentScreen::SelectKeyField => match self {
                CurrentCommand::Create => Plan::Submit,
                _ => Plan::Refuse,
            },
            CurrentScreen::SelectTable => match self {
                CurrentCommand::Insert => Plan::Turn(CurrentScreen::InputFieldValuePair),
                CurrentCommand::Select => Plan::ListFields,
                CurrentCommand::Delete => Plan::Turn(CurrentScreen::InputKeyValue),
                _ => Plan::Refuse,
            },
            CurrentScreen::InputFieldValuePair => match self {
                CurrentCommand::Insert => Plan::Submit,
                _ => Plan::Refuse,
            },
            CurrentScreen::SelectField => match self {
                CurrentCommand::Select => Plan::Turn(CurrentScreen::SelectCondition),
                _ => Plan::Refuse,
            },
            CurrentScreen::SelectCondition => match self {
                CurrentCommand::Select => Plan::Submit,
                _ => Plan::Refuse,
            },
            CurrentScreen::InputKeyValue => match self {
                CurrentCommand::Delete => Plan::Submit,
                _ => Plan::Refuse,
            },
            CurrentScreen::InputFilePath => match self {
                CurrentCommand::SaveAs => Plan::Submit,
                CurrentCommand::ReadFrom => Plan::Submit,
                _ => Plan::Refuse,
            },
            CurrentScreen::Main => Plan::Refuse,
        }
    }

    /// What the step from `screen` consists in while this command is
    /// being put together.
    pub fn plan_for(&self, screen: CurrentScreen) -> (r: Plan)
        ensures
            r == self.plan(screen),
    {
        match screen {
            CurrentScreen::Results => Plan::Leave,
            CurrentScreen::InputTableName => match self {
                CurrentCommand::Create => Plan::Turn(CurrentScreen::InputFieldTypePair),
                _ => Plan::Refuse,
            },
            CurrentScreen::InputFieldTypePair => match self {
                CurrentCommand::Create => Plan::Turn(CurrentScreen::SelectKeyField),
                _ => Plan::Refuse,
            },
            CurrentScreen::SelectKeyField => match self {
                CurrentCommand::Create => Plan::Submit,
                _ => Plan::Refuse,
            },
            CurrentScreen::SelectTable => match self {
                CurrentCommand::Insert => Plan::Turn(CurrentScreen::InputFieldValuePair),
                CurrentCommand::Select => Plan::ListFields,
                CurrentCommand::Delete => Plan::Turn(CurrentScreen::InputKeyValue),
                _ => Plan::Refuse,
            },
            CurrentScreen::InputFieldValuePair => match self {
                CurrentCommand::Insert => Plan::Submit,
                _ => Plan::Refuse,
            },
            CurrentScreen::SelectField => match self {
                CurrentCommand::Select => Plan::Turn(CurrentScreen::SelectCondition),
                _ => Plan::Refuse,
            },
            CurrentScreen::SelectCondition => match self {
                CurrentCommand::Select => Plan::Submit,
                _ => Plan::Refuse,
            },
            CurrentScreen::InputKeyValue => match self {
                CurrentCommand::Delete => Plan::Submit,
                _ => Plan::Refuse,
            },
            CurrentScreen::InputFilePath => match self {
                CurrentCommand::SaveAs => Plan::Submit,
                CurrentCommand::ReadFrom => Plan::Submit,
                _ => Plan::Refuse,
            },
            CurrentScreen::Main => Plan::Refuse,
        }
    }
}

impl View for App {
    type V = AppView;

    open spec fn view(&self) -> AppView {
        AppView {
            history: self.history@,
            tables: self.database.tables(),
            text_keys: self.database.text_keys(),
            current_input: self.current_input@,
            input_table_name: text_view(self.input_table_name),
            selected_type: text_view(self.selected_type),
            generic_hashmap: self.generic_hashmap@,
            input_field: text_view(self.input_field),
            input_value: text_view(self.input_value),
            key_value: text_view(self.key_value),
            selected_fields: texts(self.selected_fields@),
            selected_condition: text_view(self.selected_condition),
            condition_field: text_view(self.condition_field),
            condition_value: text_view(self.condition_value),
            file_path: text_view(self.file_path),
            current_screen: self.current_screen,
            current_command: self.current_command,
            field_or_value: self.field_or_value,
            current_index: self.current_index,
            possibilities: texts(self.possibilities@),
            key_possibilities: texts(self.key_possibilities@),
            result: self.result@,
            pending: pending_view(self.pending),
        }
    }
}

impl AppView {
    /// The state with everything entered for the current command
    /// forgotten, back on the main screen.
    pub open spec fn cleared(self) -> AppView {
        AppView {
            current_input: Seq::<char>::empty(),
            input_table_name: None,
            selected_type: None,
            generic_hashmap: Entries::<Seq<char>>::empty(),
            key_value: None,
            selected_fields: Seq::<Seq<char>>::empty(),
            selected_condition: None,
            condition_value: None,
            condition_field: None,
            file_path: None,
            current_screen: CurrentScreen::Main,
            current_command: CurrentCommand::NoCommand,
            ..self
        }
    }

    /// The state on another screen, with the input box empty and the
    /// first entry of any list marked.
    pub open spec fn turned_to(self, screen: CurrentScreen) -> AppView {
        AppView {
            current_screen: screen,
            current_input: Seq::<char>::empty(),
            current_index: 0,
            ..self
        }
    }

    /// The state after the command `text` has gone through the pipeline:
    /// the result screen shows its reply or the message of its failure; what
    /// it has left to do with a file is pending.
    pub open spec fn submitted(self, text: Seq<char>, floats: Readings) -> AppView {
        let (tables, history, outcome) = step(
            self.tables,
            self.history,
            text,
            floats,
            self.text_keys,
        );
        AppView {
            tables,
            history,
            result: match outcome {
                Ok(OutcomeView::Reply(reply)) => reply,
                Ok(_) => Seq::<char>::empty(),
                Err(e) => e.message(),
            },
            pending: match outcome {
                Ok(OutcomeView::Reply(_)) => None,
                Ok(o) => Some(o),
                Err(_) => None,
            },
            ..self
        }.turned_to(CurrentScreen::Results)
    }

    /// The `CREATE` command that was put together.
    pub open spec fn create_command(self) -> Seq<char> {
        "CREATE "@ + or_empty(self.input_table_name) + " KEY "@ + or_empty(self.key_value)
            + " FIELDS "@ + listing(self.generic_hashmap, ": "@)
    }

    /// The `INSERT` command that was put together.
    pub open spec fn insert_command(self) -> Seq<char> {
        "INSERT "@ + listing(self.generic_hashmap, " = "@) + " INTO "@ + or_empty(
            self.input_table_name,
        )
    }

    /// The `SELECT` command that was put together; it has a condition
    /// where field, operator and value were all given.
    pub open spec fn select_command(self) -> Seq<char> {
        let head = "SELECT "@ + join(self.selected_fields, ", "@) + " FROM "@ + or_empty(
            self.input_table_name,
        );
        let field = or_empty(self.condition_field);
        let op = or_empty(self.selected_condition);
        let value = or_empty(self.condition_value);
        if field.len() > 0 && op.len() > 0 && value.len() > 0 {
            head + " WHERE "@ + field + " "@ + op + " "@ + value
        } else {
            head
        }
    }

    /// The `DELETE` command that was put together.
    pub open spec fn delete_command(self) -> Seq<char> {
        "DELETE "@ + or_empty(self.key_value) + " FROM "@ + or_empty(self.input_table_name)
    }

    /// The `SAVE_AS` command that was put together.
    pub open spec fn save_command(self) -> Seq<char> {
        "SAVE_AS "@ + or_empty(self.file_path) + " "@
    }

    /// The `READ_FROM` command that was put together.
    pub open spec fn read_command(self) -> Seq<char> {
        "READ_FROM "@ + or_empty(self.file_path) + " "@
    }

    /// The command that was put together.
    pub open spec fn command_text(self) -> Seq<char> {
        match self.current_command {
            CurrentCommand::Create => self.create_command(),
            CurrentCommand::Insert => self.insert_command(),
            CurrentCommand::Select => self.select_command(),
            CurrentCommand::Delete => self.delete_command(),
            CurrentCommand::SaveAs => self.save_command(),
            CurrentCommand::ReadFrom => self.read_command(),
            CurrentCommand::NoCommand => Seq::<char>::empty(),
        }
    }

    /// The state after the step from the current screen to the next one of
    /// the current command. The last screen of a command submits the
    /// command and leads to the results; the results lead back to the main
    /// screen. A screen that the command does not pass fails the step and
    /// leaves the state as it is.
    pub open spec fn next_page(self, floats: Readings) -> (AppView, Result<(), ErrorView>) {
        match self.current_command.plan(self.current_screen) {
            Plan::Turn(screen) => (self.turned_to(screen), Ok(())),
            Plan::ListFields => match self.input_table_name {
                None => (self, Err(ErrorView::YouGotLost)),
                Some(name) => match fields_of_table(self.tables, name) {
                    Err(e) => (self, Err(e)),
                    Ok(names) => (
                        AppView { possibilities: names, ..self }.turned_to(
                            CurrentScreen::SelectField,
                        ),
                        Ok(()),
                    ),
                },
            },
            Plan::Submit => (self.submitted(self.command_text(), floats), Ok(())),
            Plan::Leave => (self.cleared().turned_to(CurrentScreen::Main), Ok(())),
            Plan::Refuse => (
                self,
                Err(
                    ErrorView::ScreenInvalidForCommand(
                        self.current_command.name(),
                        self.current_screen.name(),
                    ),
                ),
            ),
        }
    }
}

/// A result without a value, with the texts of its failure as character
/// sequences.
pub open spec fn unit_result(r: Result<(), CustomError>) -> Result<(), ErrorView> {
    match r {
        Ok(_) => Ok(()),
        Err(e) => Err(e@),
    }
}

pub(crate) fn text_or_empty(s: &Option<String>) -> (r: &str)
    ensures
        r@ == or_empty(text_view(*s)),
{
    match s {
        Some(t) => t.as_str(),
        None => {
            let r: &str = "";
            proof {
                reveal_strlit("");
            }
            r
        },
    }
}

/// The entries of `map`, each shown as name, `between`, value, with `, `
/// between entries.
pub(crate) fn listed(map: &TextMap<String>, between: &str) -> (r: String)
    ensures
        r@ == listing(map@, between@),
{
    let mut parts: Vec<Vec<char>> = Vec::new();
    let mut i: usize = 0;
    let ghost shown = map@.map_values(|e: (Seq<char>, Seq<char>)| e.0 + between@ + e.1);
    while i < map.len()
        invariant
            i <= map@.len(),
            shown == map@.map_values(|e: (Seq<char>, Seq<char>)| e.0 + between@ + e.1),
            parts@.len() == i,
            views(parts@) == shown.subrange(0, i as int),
        decreases map@.len() - i,
    {
        let mut part: Vec<char> = to_chars(map.name_at(i).as_str());
        append(&mut part, &to_chars(between));
        append(&mut part, &to_chars(map.value_at(i).as_str()));
        proof {
            let next = parts@.push(part);
            assert forall|j: int| 0 <= j < i + 1 implies views(next)[j] == shown[j] by {
                if j < i {
                    assert(views(parts@)[j] == shown.subrange(0, i as int)[j]);
                }
            }
        }
        parts.push(part);
        i += 1;
    }
    assert(shown.subrange(0, shown.len() as int) =~= shown);
    to_text(&joined(&parts, &to_chars(", ")))
}

/// The texts with `, ` between them.
pub(crate) fn listed_names(names: &Vec<String>) -> (r: String)
    ensures
        r@ == join(texts(names@), ", "@),
{
    let mut parts: Vec<Vec<char>> = Vec::new();
    let mut i: usize = 0;
    while i < names.len()
        invariant
            i <= names@.len(),
            parts@.len() == i,
            forall|j: int| 0 <= j < i ==> (#[trigger] parts@[j])@ == names@[j]@,
        decreases names@.len() - i,
    {
        parts.push(to_chars(names[i].as_str()));
        i += 1;
    }
    assert(views(parts@) =~= texts(names@));
    to_text(&joined(&parts, &to_chars(", ")))
}

impl App {
    /// The front end at its start, on the main screen.
    pub fn new(database: AnyDatabase, history: CommandHistory) -> (r: Self)
        ensures
            r.database == database,
            r.history == history,
            r@.cleared() == r@,
            r@.current_index == 0,
            r@.field_or_value == FieldType::Field,
            r@.input_field is None,
            r@.input_value is None,
            r@.possibilities == Seq::<Seq<char>>::empty(),
            r@.key_possibilities == Seq::<Seq<char>>::empty(),
            r@.result == Seq::<char>::empty(),
            r@.pending is None,
    {
        let r = App {
            history,
            current_input: String::new(),
            input_table_name: None,
            selected_type: None,
            generic_hashmap: TextMap::new(),
            key_value: None,
            selected_fields: Vec::new(),
            selected_condition: None,
            condition_value: None,
            condition_field: None,
            file_path: None,
            current_screen: CurrentScreen::Main,
            current_command: CurrentCommand::NoCommand,
            current_index: 0,
            database,
            field_or_value: FieldType::Field,
            input_field: None,
            input_value: None,
            possibilities: Vec::new(),
            key_possibilities: Vec::new(),
            result: String::new(),
            pending: None,
        };
        proof {
            assert(r@.selected_fields =~= Seq::<Seq<char>>::empty());
        }
        r
    }

    /// Forgets what was entered for the current command and goes back to
    /// the main screen.
    pub fn reset(&mut self)
        ensures
            final(self)@ == old(self)@.cleared(),
            final(self).database == old(self).database,
    {
        self.current_input = String::new();
        self.input_table_name = None;
        self.selected_type = None;
        self.generic_hashmap = TextMap::new();
        self.key_value = None;
        self.selected_fields = Vec::new();
        self.selected_condition = None;
        self.condition_value = None;
        self.condition_field = None;
        self.file_path = None;
        self.current_screen = CurrentScreen::Main;
        self.current_command = CurrentCommand::NoCommand;
        proof {
            assert(self@.selected_fields =~= Seq::<Seq<char>>::empty());
        }
    }

    /// Makes the marked entry of the main menu the current command and
    /// goes to the screen on which that command begins.
    pub fn select_current_command(&mut self)
        ensures
            final(self)@ == (AppView {
                current_command: CurrentCommand::at(old(self)@.current_index),
                current_screen: CurrentCommand::at(old(self)@.current_index).first_screen(),
                current_index: 0,
                ..old(self)@
            }),
            final(self).database == old(self).database,
    {
        self.current_command =
        if self.current_index == 0 {
            CurrentCommand::Create
        } else if self.current_index == 1 {
            CurrentCommand::Insert
        } else if self.current_index == 2 {
            CurrentCommand::Select
        } else if self.current_index == 3 {
            CurrentCommand::Delete
        } else if self.current_index == 4 {
            CurrentCommand::SaveAs
        } else if self.current_index == 5 {
            CurrentCommand::ReadFrom
        } else {
            CurrentCommand::NoCommand
        };
        self.current_index = 0;
        self.current_screen =
        match self.current_command {
            CurrentCommand::Create => CurrentScreen::InputTableName,
            CurrentCommand::Insert => CurrentScreen::SelectTable,
            CurrentCommand::Select => CurrentScreen::SelectTable,
            CurrentCommand::Delete => CurrentScreen::SelectTable,
            CurrentCommand::SaveAs => CurrentScreen::InputFilePath,
            CurrentCommand::ReadFrom => CurrentScreen::InputFilePath,
            CurrentCommand::NoCommand => CurrentScreen::Main,
        };
    }

    fn turn_to(&mut self, screen: CurrentScreen)
        ensures
            final(self)@ == old(self)@.turned_to(screen),
            final(self).database == old(self).database,
    {
        self.current_screen = screen;
        self.current_input = String::new();
        self.current_index = 0;
    }

    /// Sends a command text through the pipeline and shows how it went.
    fn submit<F: Fn(&str) -> Option<FloatValue>>(&mut self, input: String, reader: &F)
        requires
            old(self).database.wf(),
            is_reader(reader),
        ensures
            final(self).database.wf(),
            final(self)@ == old(self)@.submitted(input@, readings(reader)),
    {
        match handle_input_any_db(input, &mut self.database, &mut self.history, reader) {
            Ok(Outcome::Reply(reply)) => {
                self.result = reply;
                self.pending = None;
            },
            Ok(outcome) => {
                self.result = String::new();
                self.pending = Some(outcome);
            },
            Err(e) => {
                self.result = e.to_string();
                self.pending = None;
            },
        }
        self.turn_to(CurrentScreen::Results);
    }

    fn create_command(&self) -> (r: String)
        ensures
            r@ == self@.create_command(),
    {
        let mut r: String = String::from_str("CREATE ");
        r.append(text_or_empty(&self.input_table_name));
        r.append(" KEY ");
        r.append(text_or_empty(&self.key_value));
        r.append(" FIELDS ");
        r.append(listed(&self.generic_hashmap, ": ").as_str());
        r
    }

    fn insert_command(&self) -> (r: String)
        ensures
            r@ == self@.insert_command(),
    {
        let mut r: String = String::from_str("INSERT ");
        r.append(listed(&self.generic_hashmap, " = ").as_str());
        r.append(" INTO ");
        r.append(text_or_empty(&self.input_table_name));
        r
    }

    fn select_command(&self) -> (r: String)
        ensures
            r@ == self@.select_command(),
    {
        let mut r: String = String::from_str("SELECT ");
        r.append(listed_names(&self.selected_fields).as_str());
        r.append(" FROM ");
        r.append(text_or_empty(&self.input_table_name));
        let field: &str = text_or_empty(&self.condition_field);
        let op: &str = text_or_empty(&self.selected_condition);
        let value: &str = text_or_empty(&self.condition_value);
        if !field.is_empty() && !op.is_empty() && !value.is_empty() {
            r.append(" WHERE ");
            r.append(field);
            r.append(" ");
            r.append(op);
            r.append(" ");
            r.append(value);
        }
        r
    }

    fn delete_command(&self) -> (r: String)
        ensures
            r@ == self@.delete_command(),
    {
        let mut r: String = String::from_str("DELETE ");
        r.append(text_or_empty(&self.key_value));
        r.append(" FROM ");
        r.append(text_or_empty(&self.input_table_name));
        r
    }

    fn file_command(&self, keyword: &str) -> (r: String)
        ensures
            r@ == keyword@ + or_empty(self@.file_path) + " "@,
    {
        let mut r: String = String::from_str(keyword);
        r.append(text_or_empty(&self.file_path));
        r.append(" ");
        r
    }

    /// The command that was put together.
    fn command_text(&self) -> (r: String)
        ensures
            r@ == self@.command_text(),
    {
        match self.current_command {
            CurrentCommand::Create => self.create_command(),
            CurrentCommand::Insert => self.insert_command(),
            CurrentCommand::Select => self.select_command(),
            CurrentCommand::Delete => self.delete_command(),
            CurrentCommand::SaveAs => self.file_command("SAVE_AS "),
            CurrentCommand::ReadFrom => self.file_command("READ_FROM "),
            CurrentCommand::NoCommand => String::new(),
        }
    }

    /// Lists the fields of the chosen table and goes on to their choice.
    fn list_fields(&mut self) -> (r: Result<(), CustomError>)
        ensures
            final(self).database == old(self).database,
            (final(self)@, unit_result(r)) == match old(self)@.input_table_name {
                None => (old(self)@, Err(ErrorView::YouGotLost)),
                Some(name) => match fields_of_table(old(self)@.tables, name) {
                    Err(e) => (old(self)@, Err(e)),
                    Ok(names) => (
                        AppView { possibilities: names, ..old(self)@ }.turned_to(
                            CurrentScreen::SelectField,
                        ),
                        Ok(()),
                    ),
                },
            },
    {
        let names: Vec<String> = match &self.input_table_name {
            Some(name) => match self.database.get_fields(name.as_str()) {
                Ok(names) => names,
                Err(e) => {
                    return Err(e);
                },
            },
            None => {
                return Err(CustomError::YouGotLost());
            },
        };
        self.possibilities = names;
        self.turn_to(CurrentScreen::SelectField);
        Ok(())
    }

    /// Steps from the current screen to the next one of the current
    /// command; from its last screen the command is submitted.
    pub fn go_to_next_page<F: Fn(&str) -> Option<FloatValue>>(&mut self, reader: &F) -> (r: Result<
        (),
        CustomError,
    >)
        requires
            old(self).database.wf(),
            is_reader(reader),
        ensures
            final(self).database.wf(),
            (final(self)@, unit_result(r)) == old(self)@.next_page(readings(reader)),
    {
        match self.current_command.plan_for(self.current_screen) {
            Plan::Turn(screen) => {
                self.turn_to(screen);
                Ok(())
            },
            Plan::ListFields => self.list_fields(),
            Plan::Submit => {
                let input: String = self.command_text();
                self.submit(input, reader);
                Ok(())
            },
            Plan::Leave => {
                self.reset();
                self.turn_to(CurrentScreen::Main);
                Ok(())
            },
            Plan::Refuse => Err(
                CustomError::ScreenInvalidForCommand(
                    self.current_command.to_string(),
                    self.current_screen.to_string(),
                ),
            ),
        }
    }

    /// Hands out what the last command has left to do with a file, once.
    pub fn take_pending(&mut self) -> (r: Option<Outcome>)
        ensures
            pending_view(r) == old(self)@.pending,
            final(self)@ == (AppView { pending: None, ..old(self)@ }),
            final(self).database == old(self).database,
    {
        let mut taken: Option<Outcome> = None;
        std::mem::swap(&mut self.pending, &mut taken);
        taken
    }

    /// Shows how the work with a file ended: the reply, or the message
    /// of the failure.
    pub fn settle(&mut self, ended: Result<String, CustomError>)
        ensures
            final(self)@ == (AppView {
                result: match ended {
                    Ok(reply) => reply@,
                    Err(e) => e@.message(),
                },
                ..old(self)@
            }),
            final(self).database == old(self).database,
    {
        self.result =
        match ended {
            Ok(reply) => reply,
            Err(e) => e.to_string(),
        };
    }
}

} // verus!
