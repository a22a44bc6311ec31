//! What a key does on each screen of the front end.

use crate::app::{or_empty, App, AppView, CurrentCommand, CurrentScreen, FieldType};
use crate::condition::Op;
use crate::custom_error::{CustomError, ErrorView};
use crate::database::{names_of, text_view};
use crate::floats::{is_reader, readings, FloatValue, Readings};
use crate::numerals::{nat_text, write_u64};
use crate::parsers::texts;
use crate::text::{to_chars, to_text};
use crate::text_map::{put, Entries, TextMap};
use vstd::prelude::*;
use vstd::string::*;

verus! {

/// A key pressed by the user.
#[derive(Debug, Clone, Copy, PartialEq, Eq, Structural)]
pub enum Key {
    PageUp,
    Up,
    Down,
    Right,
    Left,
    Char(char),
    Backspace,
    Enter,
    Esc,
    /// Any key that the front end does not react to.
    Other,
}

impl CurrentScreen {
    /// The screen has an input box that takes typed characters.
    pub open spec fn takes_text(self) -> bool {
        match self {
            CurrentScreen::InputTableName => true,
            CurrentScreen::InputFieldTypePair => true,
            CurrentScreen::InputFieldValuePair => true,
            CurrentScreen::SelectCondition => true,
            CurrentScreen::InputFilePath => true,
            CurrentScreen::InputKeyValue => true,
            CurrentScreen::SelectField => true,
            _ => false,
        }
    }

    /// The screen has a list in which a mark moves up and down.
    pub open spec fn has_list(self) -> bool {
        match self {
            CurrentScreen::Main => true,
            CurrentScreen::SelectKeyField => true,
            CurrentScreen::SelectTable => true,
            CurrentScreen::SelectCondition => true,
            CurrentScreen::InputFieldTypePair => true,
            _ => false,
        }
    }

    fn text_taken(&self) -> (r: bool)
        ensures
            r == self.takes_text(),
    {
        match self {
            CurrentScreen::InputTableName => true,
            CurrentScreen::InputFieldTypePair => true,
            CurrentScreen::InputFieldValuePair => true,
            CurrentScreen::SelectCondition => true,
            CurrentScreen::InputFilePath => true,
            CurrentScreen::InputKeyValue => true,
            CurrentScreen::SelectField => true,
            _ => false,
        }
    }

    fn list_shown(&self) -> (r: bool)
        ensures
            r == self.has_list(),
    {
        match self {
            CurrentScreen::Main => true,
            CurrentScreen::SelectKeyField => true,
            CurrentScreen::SelectTable => true,
            CurrentScreen::SelectCondition => true,
            CurrentScreen::InputFieldTypePair => true,
            _ => false,
        }
    }
}

/// The name of the type at position `index` of the list of types.
pub open spec fn type_at(index: usize) -> Option<Seq<char>> {
    if index == 0 {
        Some("Int"@)
    } else if index == 1 {
        Some("String"@)
    } else if index == 2 {
        Some("Float"@)
    } else if index == 3 {
        Some("Bool"@)
    } else {
        None
    }
}

/// The spelling of the operator at position `index` of the list of
/// operators.
pub open spec fn operator_at(index: usize) -> Option<Seq<char>> {
    if index == 0 {
        Some("="@)
    } else if index == 1 {
        Some("!="@)
    } else if index == 2 {
        Some("<"@)
    } else if index == 3 {
        Some("<="@)
    } else if index == 4 {
        Some(">"@)
    } else if index == 5 {
        Some(">="@)
    } else {
        None
    }
}

/// The names of the entered fields whose type is `key_type`, in order.
pub open spec fn fields_of_type(map: Entries<Seq<char>>, key_type: Seq<char>) -> Seq<Seq<char>> {
    names_of(map.filter(|e: (Seq<char>, Seq<char>)| e.1 == key_type))
}

/// The name of the type of the keys.
pub open spec fn key_type_name(text_keys: bool) -> Seq<char> {
    if text_keys {
        "String"@
    } else {
        "Int"@
    }
}

impl AppView {
    /// The length of the list in which `Down` moves the mark.
    pub open spec fn list_len(self) -> int {
        match self.current_screen {
            CurrentScreen::Main => 6,
            CurrentScreen::SelectKeyField => self.generic_hashmap.len() as int,
            CurrentScreen::SelectTable => self.tables.len() as int,
            CurrentScreen::InputFieldTypePair => 4,
            CurrentScreen::SelectCondition => 6,
            _ => 0,
        }
    }

    /// The state with the input box empty.
    pub open spec fn emptied(self) -> AppView {
        AppView { current_input: Seq::<char>::empty(), ..self }
    }

    /// `PageUp`: what stands in the input box is added to what the screen
    /// collects.
    pub open spec fn after_page_up(self) -> (AppView, Result<bool, ErrorView>) {
        match self.current_screen {
            CurrentScreen::InputFieldTypePair => match type_at(self.current_index) {
                Some(declared) => (
                    AppView {
                        generic_hashmap: put(self.generic_hashmap, self.current_input, declared),
                        ..self
                    }.emptied(),
                    Ok(false),
                ),
                None => (
                    self,
                    Err(
                        ErrorView::ItemWithIndexNotFound(
                            "Type"@,
                            nat_text(self.current_index as nat),
                        ),
                    ),
                ),
            },
            CurrentScreen::SelectField => (
                AppView {
                    selected_fields: self.selected_fields.push(self.current_input),
                    ..self
                }.emptied(),
                Ok(false),
            ),
            CurrentScreen::InputFieldValuePair => {
                let kept = self.kept();
                match (kept.input_field, kept.input_value) {
                    (None, _) => (kept, Err(ErrorView::MissingField("field"@))),
                    (Some(_), None) => (kept, Err(ErrorView::MissingField("type"@))),
                    (Some(field), Some(value)) => (
                        AppView {
                            input_field: None,
                            input_value: None,
                            generic_hashmap: put(kept.generic_hashmap, field, value),
                            ..kept
                        }.emptied(),
                        Ok(false),
                    ),
                }
            },
            _ => (self, Ok(false)),
        }
    }

    /// The state with what stands in the input box kept as the field or
    /// as the value of a pair, whichever the typing goes to.
    pub open spec fn kept(self) -> AppView {
        match self.field_or_value {
            FieldType::Field => AppView { input_field: Some(self.current_input), ..self },
            FieldType::Value => AppView { input_value: Some(self.current_input), ..self },
        }
    }

    /// `Up`: the mark moves up, if it is not at the top.
    pub open spec fn after_up(self) -> AppView {
        if self.current_screen.has_list() && self.current_index > 0 {
            AppView { current_index: (self.current_index - 1) as usize, ..self }
        } else {
            self
        }
    }

    /// `Down`: the mark moves down, if it is not at the bottom.
    pub open spec fn after_down(self) -> AppView {
        if self.current_index + 1 < self.list_len() {
            AppView { current_index: (self.current_index + 1) as usize, ..self }
        } else {
            self
        }
    }

    /// `Right`: the typing goes on in the value box.
    pub open spec fn after_right(self) -> AppView {
        if self.field_or_value != FieldType::Field {
            self
        } else {
            match self.current_screen {
                CurrentScreen::InputFieldValuePair => AppView {
                    field_or_value: FieldType::Value,
                    input_field: Some(self.current_input),
                    current_input: or_empty(self.input_value),
                    ..self
                },
                CurrentScreen::SelectCondition => AppView {
                    field_or_value: FieldType::Value,
                    condition_field: Some(self.current_input),
                    current_input: or_empty(self.condition_value),
                    ..self
                },
                _ => self,
            }
        }
    }

    /// `Left`: the typing goes on in the field box.
    pub open spec fn after_left(self) -> AppView {
        if self.field_or_value != FieldType::Value {
            self
        } else {
            match self.current_screen {
                CurrentScreen::InputFieldValuePair => AppView {
                    field_or_value: FieldType::Field,
                    input_value: Some(self.current_input),
                    current_input: or_empty(self.input_field),
                    ..self
                },
                CurrentScreen::SelectCondition => AppView {
                    field_or_value: FieldType::Field,
                    condition_value: Some(self.current_input),
                    current_input: or_empty(self.condition_field),
                    ..self
                },
                _ => self,
            }
        }
    }

    /// A character: it is added to the input box, where there is one.
    pub open spec fn after_char(self, c: char) -> AppView {
        if self.current_screen.takes_text() {
            AppView { current_input: self.current_input.push(c), ..self }
        } else {
            self
        }
    }

    /// `Backspace`: the last character leaves the input box.
    pub open spec fn after_backspace(self) -> AppView {
        if self.current_screen.takes_text() && self.current_input.len() > 0 {
            AppView { current_input: self.current_input.drop_last(), ..self }
        } else {
            self
        }
    }

    /// What `Enter` keeps of the screen before the step to the next one;
    /// `InvalidIndex` where the mark stands on no entry of the list.
    pub open spec fn entered(self) -> Result<AppView, ErrorView> {
        match self.current_screen {
            CurrentScreen::InputTableName => Ok(
                AppView { input_table_name: Some(self.current_input), ..self },
            ),
            CurrentScreen::InputKeyValue => Ok(
                AppView { key_value: Some(self.current_input), ..self },
            ),
            CurrentScreen::SelectKeyField => if self.current_index < self.key_possibilities.len() {
                Ok(
                    AppView {
                        key_value: Some(self.key_possibilities[self.current_index as int]),
                        ..self
                    },
                )
            } else {
                Err(ErrorView::InvalidIndex(self.current_index as nat))
            },
            CurrentScreen::SelectTable => if self.current_index < self.tables.len() {
                Ok(
                    AppView {
                        input_table_name: Some(self.tables[self.current_index as int].name),
                        ..self
                    },
                )
            } else {
                Err(ErrorView::InvalidIndex(self.current_index as nat))
            },
            CurrentScreen::InputFieldTypePair => Ok(
                AppView {
                    key_value: Some(self.current_input),
                    key_possibilities: fields_of_type(
                        self.generic_hashmap,
                        key_type_name(self.text_keys),
                    ),
                    ..self
                },
            ),
            CurrentScreen::SelectCondition => {
                let kept = match self.field_or_value {
                    FieldType::Field => AppView {
                        condition_field: Some(self.current_input),
                        ..self
                    },
                    FieldType::Value => AppView {
                        condition_value: Some(self.current_input),
                        ..self
                    },
                };
                Ok(AppView { selected_condition: operator_at(self.current_index), ..kept })
            },
            CurrentScreen::InputFilePath => Ok(
                AppView { file_path: Some(self.current_input), ..self },
            ),
            _ => Ok(self),
        }
    }

    /// `Enter`: on the main screen the marked command is chosen; on any
    /// other the screen's entry is kept and the step to the next screen
    /// made.
    pub open spec fn after_enter(self, floats: Readings) -> (AppView, Result<bool, ErrorView>) {
        if self.current_screen == CurrentScreen::Main {
            (
                AppView {
                    current_command: CurrentCommand::at(self.current_index),
                    current_screen: CurrentCommand::at(self.current_index).first_screen(),
                    current_index: 0,
                    ..self
                },
                Ok(false),
            )
        } else {
            match self.entered() {
                Err(e) => (self, Err(e)),
                Ok(kept) => {
                    let (after, went) = kept.next_page(floats);
                    match went {
                        Ok(_) => (after, Ok(false)),
                        Err(e) => (after, Err(e)),
                    }
                },
            }
        }
    }

    /// The state after a key, and whether the front end is to end. On the
    /// main screen `Esc` ends it; elsewhere `Esc` abandons the command.
    pub open spec fn after_key(self, key: Key, floats: Readings) -> (
        AppView,
        Result<bool, ErrorView>,
    ) {
        match key {
            Key::PageUp => self.after_page_up(),
            Key::Up => (self.after_up(), Ok(false)),
            Key::Down => (self.after_down(), Ok(false)),
            Key::Right => (self.after_right(), Ok(false)),
            Key::Left => (self.after_left(), Ok(false)),
            Key::Char(c) => (self.after_char(c), Ok(false)),
            Key::Backspace => (self.after_backspace(), Ok(false)),
            Key::Enter => self.after_enter(floats),
            Key::Esc => if self.current_screen == CurrentScreen::Main {
                (self, Ok(true))
            } else {
                (self.cleared(), Ok(false))
            },
            Key::Other => (self, Ok(false)),
        }
    }
}

/// A result that says whether to end, with the texts of its failure as
/// character sequences.
pub open spec fn flag_result(r: Result<bool, CustomError>) -> Result<bool, ErrorView> {
    match r {
        Ok(b) => Ok(b),
        Err(e) => Err(e@),
    }
}

/// A copy of a text.
fn copy_of(s: &String) -> (r: String)
    ensures
        r@ == s@,
{
    s.clone()
}

fn or_empty_text(s: &Option<String>) -> (r: String)
    ensures
        r@ == or_empty(text_view(*s)),
{
    match s {
        Some(t) => t.clone(),
        None => String::new(),
    }
}

fn names_of_type(map: &TextMap<String>, key_type: &String) -> (r: Vec<String>)
    ensures
        texts(r@) == fields_of_type(map@, key_type@),
{
    let mut r: Vec<String> = Vec::new();
    let mut i: usize = 0;
    let ghost wanted = |e: (Seq<char>, Seq<char>)| e.1 == key_type@;
    while i < map.len()
        invariant
            i <= map@.len(),
            wanted == |e: (Seq<char>, Seq<char>)| e.1 == key_type@,
            texts(r@) == names_of(map@.subrange(0, i as int).filter(wanted)),
        decreases map@.len() - i,
    {
        let ghost done = map@.subrange(0, i as int);
        proof {
            assert(done.push(map@[i as int]) =~= map@.subrange(0, i + 1));
            done.lemma_filter_push(map@[i as int], wanted);
        }
        if *map.value_at(i) == *key_type {
            let name: String = map.name_at(i).clone();
            proof {
                assert(names_of(done.filter(wanted).push(map@[i as int])) =~= names_of(
                    done.filter(wanted),
                ).push(map@[i as int].0));
            }
            r.push(name);
        }
        i += 1;
    }
    assert(map@.subrange(0, map@.len() as int) =~= map@);
    r
}

impl App {
    fn page_up(&mut self) -> (r: Result<bool, CustomError>)
        ensures
            final(self).database == old(self).database,
            (final(self)@, flag_result(r)) == old(self)@.after_page_up(),
    {
        match self.current_screen {
            CurrentScreen::InputFieldTypePair => {
                let types: Vec<&'static str> = self.database.get_possible_types();
                if self.current_index >= types.len() {
                    return Err(
                        CustomError::ItemWithIndexNotFound(
                            String::from_str("Type"),
                            to_text(&write_u64(self.current_index as u64)),
                        ),
                    );
                }
                let declared: String = String::from_str(types[self.current_index]);
                self.generic_hashmap.insert(copy_of(&self.current_input), declared);
                self.current_input = String::new();
            },
            CurrentScreen::SelectField => {
                let name: String = copy_of(&self.current_input);
                proof {
                    assert(texts(self.selected_fields@.push(name)) =~= texts(
                        self.selected_fields@,
                    ).push(name@));
                }
                self.selected_fields.push(name);
                self.current_input = String::new();
            },
            CurrentScreen::InputFieldValuePair => {
                match self.field_or_value {
                    FieldType::Field => {
                        self.input_field = Some(copy_of(&self.current_input));
                    },
                    FieldType::Value => {
                        self.input_value = Some(copy_of(&self.current_input));
                    },
                }
                let field: String = match &self.input_field {
                    Some(v) => v.clone(),
                    None => {
                        return Err(CustomError::MissingField(String::from_str("field")));
                    },
                };
                let value: String = match &self.input_value {
                    Some(v) => v.clone(),
                    None => {
                        return Err(CustomError::MissingField(String::from_str("type")));
                    },
                };
                self.input_field = None;
                self.input_value = None;
                self.current_input = String::new();
                self.generic_hashmap.insert(field, value);
            },
            _ => {},
        }
        Ok(false)
    }

    fn up(&mut self)
        ensures
            final(self).database == old(self).database,
            final(self)@ == old(self)@.after_up(),
    {
        if self.current_screen.list_shown() && self.current_index > 0 {
            self.current_index -= 1;
        }
    }

    fn down(&mut self)
        ensures
            final(self).database == old(self).database,
            final(self)@ == old(self)@.after_down(),
    {
        let len: usize = match self.current_screen {
            CurrentScreen::Main => 6,
            CurrentScreen::SelectKeyField => self.generic_hashmap.len(),
            CurrentScreen::SelectTable => {
                let names: Vec<String> = self.database.get_table_names();
                assert(texts(names@).len() == names@.len());
                names.len()
            },
            CurrentScreen::InputFieldTypePair => self.database.get_possible_types().len(),
            CurrentScreen::SelectCondition => Op::get_options().len(),
            _ => 0,
        };
        if self.current_index < len && self.current_index + 1 < len {
            self.current_index += 1;
        }
    }

    fn right(&mut self)
        ensures
            final(self).database == old(self).database,
            final(self)@ == old(self)@.after_right(),
    {
        match (self.field_or_value, self.current_screen) {
            (FieldType::Field, CurrentScreen::InputFieldValuePair) => {
                self.field_or_value = FieldType::Value;
                self.input_field = Some(copy_of(&self.current_input));
                self.current_input = or_empty_text(&self.input_value);
            },
            (FieldType::Field, CurrentScreen::SelectCondition) => {
                self.field_or_value = FieldType::Value;
                self.condition_field = Some(copy_of(&self.current_input));
                self.current_input = or_empty_text(&self.condition_value);
            },
            _ => {},
        }
    }

    fn left(&mut self)
        ensures
            final(self).database == old(self).database,
            final(self)@ == old(self)@.after_left(),
    {
        match (self.field_or_value, self.current_screen) {
            (FieldType::Value, CurrentScreen::InputFieldValuePair) => {
                self.field_or_value = FieldType::Field;
                self.input_value = Some(copy_of(&self.current_input));
                self.current_input = or_empty_text(&self.input_field);
            },
            (FieldType::Value, CurrentScreen::SelectCondition) => {
                self.field_or_value = FieldType::Field;
                self.condition_value = Some(copy_of(&self.current_input));
                self.current_input = or_empty_text(&self.condition_field);
            },
            _ => {},
        }
    }

    fn typed(&mut self, c: char)
        ensures
            final(self).database == old(self).database,
            final(self)@ == old(self)@.after_char(c),
    {
        if self.current_screen.text_taken() {
            self.current_input.push(c);
        }
    }

    fn backspace(&mut self)
        ensures
            final(self).database == old(self).database,
            final(self)@ == old(self)@.after_backspace(),
    {
        if self.current_screen.text_taken() {
            let mut text: Vec<char> = to_chars(self.current_input.as_str());
            if text.len() > 0 {
                text.pop();
                self.current_input = to_text(&text);
            }
        }
    }

    /// Keeps the entry of the current screen, as `Enter` does before the
    /// step to the next screen.
    fn keep_entry(&mut self) -> (r: Result<(), CustomError>)
        ensures
            final(self).database == old(self).database,
            match r {
                Ok(_) => old(self)@.entered() == Ok::<AppView, ErrorView>(final(self)@),
                Err(e) => old(self)@.entered() == Err::<AppView, ErrorView>(e@) && final(self)@
                    == old(self)@,
            },
    {
        match self.current_screen {
            CurrentScreen::InputTableName => {
                self.input_table_name = Some(copy_of(&self.current_input));
            },
            CurrentScreen::InputKeyValue => {
                self.key_value = Some(copy_of(&self.current_input));
            },
            CurrentScreen::SelectKeyField => {
                if self.current_index < self.key_possibilities.len() {
                    self.key_value = Some(copy_of(&self.key_possibilities[self.current_index]));
                } else {
                    return Err(CustomError::InvalidIndex(self.current_index));
                }
            },
            CurrentScreen::SelectTable => {
                let names: Vec<String> = self.database.get_table_names();
                assert(texts(names@).len() == names@.len());
                if self.current_index < names.len() {
                    assert(texts(names@)[self.current_index as int]
                        == names@[self.current_index as int]@);
                    self.input_table_name = Some(copy_of(&names[self.current_index]));
                } else {
                    return Err(CustomError::InvalidIndex(self.current_index));
                }
            },
            CurrentScreen::InputFieldTypePair => {
                self.key_value = Some(copy_of(&self.current_input));
                let key_type: String = self.database.get_key_type();
                self.key_possibilities = names_of_type(&self.generic_hashmap, &key_type);
            },
            CurrentScreen::SelectCondition => {
                match self.field_or_value {
                    FieldType::Field => {
                        self.condition_field = Some(copy_of(&self.current_input));
                    },
                    FieldType::Value => {
                        self.condition_value = Some(copy_of(&self.current_input));
                    },
                }
                let options: Vec<String> = Op::get_options();
                self.selected_condition =
                if self.current_index < options.len() {
                    Some(copy_of(&options[self.current_index]))
                } else {
                    None
                };
            },
            CurrentScreen::InputFilePath => {
                self.file_path = Some(copy_of(&self.current_input));
            },
            _ => {},
        }
        Ok(())
    }

    fn enter<F: Fn(&str) -> Option<FloatValue>>(&mut self, reader: &F) -> (r: Result<
        bool,
        CustomError,
    >)
        requires
            old(self).database.wf(),
            is_reader(reader),
        ensures
            final(self).database.wf(),
            (final(self)@, flag_result(r)) == old(self)@.after_enter(readings(reader)),
    {
        if self.current_screen == CurrentScreen::Main {
            self.select_current_command();
            return Ok(false);
        }
        match self.keep_entry() {
            Ok(_) => {},
            Err(e) => {
                return Err(e);
            },
        }
        match self.go_to_next_page(reader) {
            Ok(_) => Ok(false),
            Err(e) => Err(e),
        }
    }
}

/// Reacts to one key: changes the state of the front end as the key asks
/// on the current screen, and says whether the front end is to end.
pub fn handle_events<F: Fn(&str) -> Option<FloatValue>>(app: &mut App, key: Key, reader: &F) -> (r:
    Result<bool, CustomError>)
    requires
        old(app).database.wf(),
        is_reader(reader),
    ensures
        final(app).database.wf(),
        (final(app)@, flag_result(r)) == old(app)@.after_key(key, readings(reader)),
{
    match key {
        Key::PageUp => app.page_up(),
        Key::Up => {
            app.up();
            Ok(false)
        },
        Key::Down => {
            app.down();
            Ok(false)
        },
        Key::Right => {
            app.right();
            Ok(false)
        },
        Key::Left => {
            app.left();
            Ok(false)
        },
        Key::Char(c) => {
            app.typed(c);
            Ok(false)
        },
        Key::Backspace => {
            app.backspace();
            Ok(false)
        },
        Key::Enter => app.enter(reader),
        Key::Esc => {
            if app.current_screen == CurrentScreen::Main {
                Ok(true)
            } else {
                app.reset();
                Ok(false)
            }
        },
        Key::Other => Ok(false),
    }
}

} // verus!
