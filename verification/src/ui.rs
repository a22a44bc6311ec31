//! What the interactive front end shows on each screen, and one round of
//! its loop.

use crate::app::{
    listed, listed_names, listing, or_empty, text_or_empty, App, AppView, CurrentCommand,
    CurrentScreen, FieldType,
};
use crate::commands::copy_texts;
use crate::condition::Op;
use crate::database::{text_view, TableView};
use crate::event_handler::{handle_events, Key};
use crate::floats::{is_reader, readings, FloatValue, Readings};
use crate::parsers::texts;
use crate::text::join;
use vstd::prelude::*;
use vstd::string::*;

verus! {

/// How a text box is set off.
#[derive(Debug, Clone, Copy, PartialEq, Eq, Structural)]
pub enum Emphasis {
    Plain,
    /// White text.
    White,
    /// The box that the typing goes to.
    Marked,
}

/// One part of a screen.
pub enum Panel {
    /// A list under a title, with one entry marked.
    List { title: String, items: Vec<String>, marked: usize },
    /// A text, in a box with a title or bare.
    Paragraph { heading: Option<String>, text: String, emphasis: Emphasis },
}

/// A part of a screen as the contracts see it.
pub ghost enum PanelView {
    List { title: Seq<char>, items: Seq<Seq<char>>, marked: usize },
    Paragraph { heading: Option<Seq<char>>, text: Seq<char>, emphasis: Emphasis },
}

impl View for Panel {
    type V = PanelView;

    open spec fn view(&self) -> PanelView {
        match self {
            Panel::List { title, items, marked } => PanelView::List {
                title: title@,
                items: texts(items@),
                marked: *marked,
            },
            Panel::Paragraph { heading, text, emphasis } => PanelView::Paragraph {
                heading: text_view(*heading),
                text: text@,
                emphasis: *emphasis,
            },
        }
    }
}

/// The views of a vector of panels.
pub open spec fn panel_views(panels: Seq<Panel>) -> Seq<PanelView> {
    panels.map_values(|p: Panel| p@)
}

/// The entries of the main menu.
pub open spec fn menu() -> Seq<Seq<char>> {
    seq!["Create"@, "Insert"@, "Select"@, "Delete"@, "Save As"@, "Read From"@]
}

/// The names of the types that a field can be declared with.
pub open spec fn type_names() -> Seq<Seq<char>> {
    seq!["Int"@, "String"@, "Float"@, "Bool"@]
}

/// The spellings of the operators.
pub open spec fn operator_names() -> Seq<Seq<char>> {
    seq!["="@, "!="@, "<"@, "<="@, ">"@, ">="@]
}

/// A box with a title.
pub open spec fn boxed(title: Seq<char>, text: Seq<char>, emphasis: Emphasis) -> PanelView {
    PanelView::Paragraph { heading: Some(title), text, emphasis }
}

impl AppView {
    /// The first of two input boxes: what is being typed while the typing
    /// goes to it, else what was kept for it.
    pub open spec fn field_box(self, kept: Option<Seq<char>>) -> PanelView {
        if self.field_or_value == FieldType::Field {
            boxed("Field"@, self.current_input, Emphasis::Marked)
        } else {
            boxed("Field"@, or_empty(kept), Emphasis::Plain)
        }
    }

    /// The second of two input boxes.
    pub open spec fn value_box(self, kept: Option<Seq<char>>) -> PanelView {
        if self.field_or_value == FieldType::Value {
            boxed("Value"@, self.current_input, Emphasis::Marked)
        } else {
            boxed("Value"@, or_empty(kept), Emphasis::Plain)
        }
    }

    /// The title over the input box for a key.
    pub open spec fn key_title(self) -> Seq<char> {
        match self.current_command {
            CurrentCommand::Delete => "Enter Key Of The Record You Want To Delete"@,
            CurrentCommand::Insert => "Enter Key Field Name"@,
            CurrentCommand::Select => "Enter Key Field Name"@,
            _ => "Enter Key"@,
        }
    }

    /// The parts of the current screen, in the order in which the screen
    /// arranges them.
    pub open spec fn picture(self) -> Seq<PanelView> {
        match self.current_screen {
            CurrentScreen::Main => seq![
                PanelView::List { title: "Menu"@, items: menu(), marked: self.current_index },
            ],
            CurrentScreen::SelectTable => seq![
                PanelView::List {
                    title: "Select Table"@,
                    items: self.tables.map_values(|t: TableView| t.name),
                    marked: self.current_index,
                },
            ],
            CurrentScreen::Results => seq![
                PanelView::Paragraph { heading: None, text: self.result, emphasis: Emphasis::Plain },
            ],
            CurrentScreen::InputKeyValue => seq![
                boxed(self.key_title(), self.current_input, Emphasis::White),
            ],
            CurrentScreen::SelectKeyField => seq![
                PanelView::List {
                    title: "Key"@,
                    items: self.key_possibilities,
                    marked: self.current_index,
                },
            ],
            CurrentScreen::InputTableName => seq![
                boxed("Enter Table Name"@, self.current_input, Emphasis::White),
            ],
            CurrentScreen::InputFieldTypePair => seq![
                boxed("Field"@, self.current_input, Emphasis::Plain),
                PanelView::List { title: "Type"@, items: type_names(), marked: self.current_index },
                boxed("Fields "@, listing(self.generic_hashmap, ": "@), Emphasis::Plain),
            ],
            CurrentScreen::InputFieldValuePair => seq![
                self.field_box(self.input_field),
                self.value_box(self.input_value),
                boxed("Fields "@, listing(self.generic_hashmap, ": "@), Emphasis::Plain),
            ],
            CurrentScreen::SelectField => seq![
                boxed("Field"@, self.current_input, Emphasis::Plain),
                boxed("Fields"@, join(self.selected_fields, ", "@), Emphasis::Plain),
            ],
            CurrentScreen::SelectCondition => seq![
                self.field_box(self.condition_field),
                PanelView::List {
                    title: "Opertion"@,
                    items: operator_names(),
                    marked: self.current_index,
                },
                self.value_box(self.condition_value),
            ],
            CurrentScreen::InputFilePath => seq![
                boxed("Enter File Path"@, self.current_input, Emphasis::White),
            ],
        }
    }

    /// The state after one round of the loop, and whether the loop ends:
    /// the key is reacted to, and the message of a failure is shown as the
    /// result.
    pub open spec fn after_round(self, key: Key, floats: Readings) -> (AppView, bool) {
        let (after, went) = self.after_key(key, floats);
        match went {
            Ok(end) => (after, end),
            Err(e) => (AppView { result: e.message(), ..after }, false),
        }
    }
}

fn in_box(title: &str, text: String, emphasis: Emphasis) -> (r: Panel)
    ensures
        r@ == boxed(title@, text@, emphasis),
{
    Panel::Paragraph { heading: Some(String::from_str(title)), text, emphasis }
}

fn list(title: &str, items: Vec<String>, marked: usize) -> (r: Panel)
    ensures
        r@ == (PanelView::List { title: title@, items: texts(items@), marked }),
{
    Panel::List { title: String::from_str(title), items, marked }
}

fn owned(names: Vec<&'static str>) -> (r: Vec<String>)
    ensures
        r@.len() == names@.len(),
        forall|i: int| 0 <= i < r@.len() ==> (#[trigger] r@[i])@ == names@[i]@,
{
    let mut r: Vec<String> = Vec::new();
    let mut i: usize = 0;
    while i < names.len()
        invariant
            i <= names@.len(),
            r@.len() == i,
            forall|j: int| 0 <= j < i ==> (#[trigger] r@[j])@ == names@[j]@,
        decreases names@.len() - i,
    {
        r.push(String::from_str(names[i]));
        i += 1;
    }
    r
}

fn field_box(app: &App, kept: &Option<String>) -> (r: Panel)
    ensures
        r@ == app@.field_box(text_view(*kept)),
{
    if app.field_or_value == FieldType::Field {
        in_box("Field", app.current_input.clone(), Emphasis::Marked)
    } else {
        in_box("Field", String::from_str(text_or_empty(kept)), Emphasis::Plain)
    }
}

fn value_box(app: &App, kept: &Option<String>) -> (r: Panel)
    ensures
        r@ == app@.value_box(text_view(*kept)),
{
    if app.field_or_value == FieldType::Value {
        in_box("Value", app.current_input.clone(), Emphasis::Marked)
    } else {
        in_box("Value", String::from_str(text_or_empty(kept)), Emphasis::Plain)
    }
}

/// The parts of the current screen.
pub fn ui(app: &App) -> (r: Vec<Panel>)
    ensures
        panel_views(r@) == app@.picture(),
{
    let mut r: Vec<Panel> = Vec::new();
    match app.current_screen {
        CurrentScreen::Main => {
            let mut names: Vec<&'static str> = Vec::new();
            names.push("Create");
            names.push("Insert");
            names.push("Select");
            names.push("Delete");
            names.push("Save As");
            names.push("Read From");
            let items: Vec<String> = owned(names);
            assert(texts(items@) =~= menu());
            r.push(list("Menu", items, app.current_index));
        },
        CurrentScreen::SelectTable => {
            r.push(list("Select Table", app.database.get_table_names(), app.current_index));
        },
        CurrentScreen::Results => {
            r.push(
                Panel::Paragraph {
                    heading: None,
                    text: app.result.clone(),
                    emphasis: Emphasis::Plain,
                },
            );
        },
        CurrentScreen::InputKeyValue => {
            let title: &str = match app.current_command {
                CurrentCommand::Delete => "Enter Key Of The Record You Want To Delete",
                CurrentCommand::Insert => "Enter Key Field Name",
                CurrentCommand::Select => "Enter Key Field Name",
                _ => "Enter Key",
            };
            r.push(in_box(title, app.current_input.clone(), Emphasis::White));
        },
        CurrentScreen::SelectKeyField => {
            r.push(list("Key", copy_texts(&app.key_possibilities), app.current_index));
        },
        CurrentScreen::InputTableName => {
            r.push(in_box("Enter Table Name", app.current_input.clone(), Emphasis::White));
        },
        CurrentScreen::InputFieldTypePair => {
            let items: Vec<String> = owned(app.database.get_possible_types());
            assert(texts(items@) =~= type_names());
            r.push(in_box("Field", app.current_input.clone(), Emphasis::Plain));
            r.push(list("Type", items, app.current_index));
            r.push(in_box("Fields ", listed(&app.generic_hashmap, ": "), Emphasis::Plain));
        },
        CurrentScreen::InputFieldValuePair => {
            r.push(field_box(app, &app.input_field));
            r.push(value_box(app, &app.input_value));
            r.push(in_box("Fields ", listed(&app.generic_hashmap, ": "), Emphasis::Plain));
        },
        CurrentScreen::SelectField => {
            r.push(in_box("Field", app.current_input.clone(), Emphasis::Plain));
            r.push(in_box("Fields", listed_names(&app.selected_fields), Emphasis::Plain));
        },
        CurrentScreen::SelectCondition => {
            let items: Vec<String> = Op::get_options();
            assert(texts(items@) =~= operator_names());
            r.push(field_box(app, &app.condition_field));
            r.push(list("Opertion", items, app.current_index));
            r.push(value_box(app, &app.condition_value));
        },
        CurrentScreen::InputFilePath => {
            r.push(in_box("Enter File Path", app.current_input.clone(), Emphasis::White));
        },
    }
    r
}

/// One round of the loop of the front end, after the screen was drawn
/// and a key read: says whether the loop ends.
pub fn run<F: Fn(&str) -> Option<FloatValue>>(app: &mut App, key: Key, reader: &F) -> (end: bool)
    requires
        old(app).database.wf(),
        is_reader(reader),
    ensures
        final(app).database.wf(),
        (final(app)@, end) == old(app)@.after_round(key, readings(reader)),
{
    match handle_events(app, key, reader) {
        Ok(end) => end,
        Err(e) => {
            app.result = e.to_string();
            false
        },
    }
}

} // verus!
