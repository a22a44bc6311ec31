use r_sql_database::app::{App, CurrentCommand, CurrentScreen, FieldType, Plan};
use r_sql_database::arguments::{run_command_line, Args, KeyType, UiType};
use r_sql_database::command_history::CommandHistory;
use r_sql_database::custom_error::CustomError;
use r_sql_database::database::AnyDatabase;
use r_sql_database::event_handler::{handle_events, Key};
use r_sql_database::floats::FloatValue;
use r_sql_database::handlers::{
    handle_input_any_db, replay_line_any_db, result_text, turn_for, Outcome, Replay, Turn,
};
use r_sql_database::server::handle_client;
use r_sql_database::ui::{run, ui, Emphasis, Panel};

fn read_float(s: &str) -> Option<FloatValue> {
    match s.parse::<f64>() {
        Ok(v) => Some(FloatValue { bits: v.to_bits(), text: v.to_string() }),
        Err(_) => None,
    }
}

fn fresh(key_type: KeyType) -> App {
    App::new(key_type.to_database(), CommandHistory::new())
}

fn press(app: &mut App, key: Key) -> Result<bool, CustomError> {
    handle_events(app, key, &read_float)
}

fn type_text(app: &mut App, text: &str) {
    for c in text.chars() {
        assert_eq!(press(app, Key::Char(c)).ok(), Some(false));
    }
}

fn presses(app: &mut App, key: Key, times: usize) {
    for _ in 0..times {
        assert_eq!(press(app, key).ok(), Some(false));
    }
}

fn said(turn: Turn) -> String {
    match turn {
        Turn::Say(text) => text,
        _ => panic!("the front end goes on with a text"),
    }
}

/// Puts together `CREATE t KEY id FIELDS id: Int, name: String` key by key.
fn create_table(app: &mut App) {
    presses(app, Key::Enter, 1);
    type_text(app, "t");
    presses(app, Key::Enter, 1);
    type_text(app, "id");
    presses(app, Key::PageUp, 1);
    type_text(app, "name");
    presses(app, Key::Down, 1);
    presses(app, Key::PageUp, 1);
    presses(app, Key::Enter, 1);
    presses(app, Key::Enter, 1);
}

#[test]
fn the_choices_at_start_have_their_defaults() {
    let args = Args::default();
    assert_eq!(args.key_type, KeyType::String);
    assert_eq!(args.ui_type, UiType::Graphic);
    assert!(matches!(KeyType::String.to_database(), AnyDatabase::StringDatabase(_)));
    assert!(matches!(KeyType::Int.to_database(), AnyDatabase::IntDatabase(_)));
    assert!(KeyType::Int.to_database().get_table_names().is_empty());
}

#[test]
fn the_front_end_starts_on_the_main_screen() {
    let app = fresh(KeyType::Int);
    assert_eq!(app.current_screen, CurrentScreen::Main);
    assert_eq!(app.current_command, CurrentCommand::NoCommand);
    assert_eq!(app.current_index, 0);
    assert_eq!(app.field_or_value, FieldType::Field);
    assert_eq!(app.current_input, "");
    assert_eq!(app.result, "");
    assert!(app.pending.is_none());
}

#[test]
fn the_menu_leads_to_the_first_screen_of_each_command() {
    let expected = [
        (CurrentCommand::Create, CurrentScreen::InputTableName),
        (CurrentCommand::Insert, CurrentScreen::SelectTable),
        (CurrentCommand::Select, CurrentScreen::SelectTable),
        (CurrentCommand::Delete, CurrentScreen::SelectTable),
        (CurrentCommand::SaveAs, CurrentScreen::InputFilePath),
        (CurrentCommand::ReadFrom, CurrentScreen::InputFilePath),
    ];
    for (index, (command, screen)) in expected.iter().enumerate() {
        let mut app = fresh(KeyType::Int);
        presses(&mut app, Key::Down, index);
        assert_eq!(app.current_index, index);
        presses(&mut app, Key::Enter, 1);
        assert_eq!(app.current_command, *command);
        assert_eq!(app.current_screen, *screen);
        assert_eq!(app.current_index, 0);
    }
    let mut app = fresh(KeyType::Int);
    app.current_index = 6;
    app.select_current_command();
    assert_eq!(app.current_command, CurrentCommand::NoCommand);
    assert_eq!(app.current_screen, CurrentScreen::Main);
}

#[test]
fn the_mark_stays_inside_its_list() {
    let mut app = fresh(KeyType::Int);
    presses(&mut app, Key::Up, 2);
    assert_eq!(app.current_index, 0);
    presses(&mut app, Key::Down, 9);
    assert_eq!(app.current_index, 5);
    presses(&mut app, Key::Up, 2);
    assert_eq!(app.current_index, 3);
    let mut app = fresh(KeyType::Int);
    presses(&mut app, Key::Down, 1);
    presses(&mut app, Key::Enter, 1);
    assert_eq!(app.current_screen, CurrentScreen::SelectTable);
    presses(&mut app, Key::Down, 3);
    assert_eq!(app.current_index, 0);
}

#[test]
fn escape_ends_on_the_main_screen_and_abandons_elsewhere() {
    let mut app = fresh(KeyType::Int);
    assert_eq!(press(&mut app, Key::Esc).ok(), Some(true));
    presses(&mut app, Key::Enter, 1);
    type_text(&mut app, "abc");
    assert_eq!(press(&mut app, Key::Esc).ok(), Some(false));
    assert_eq!(app.current_screen, CurrentScreen::Main);
    assert_eq!(app.current_command, CurrentCommand::NoCommand);
    assert_eq!(app.current_input, "");
    assert_eq!(press(&mut app, Key::Other).ok(), Some(false));
}

#[test]
fn typing_goes_to_the_input_box() {
    let mut app = fresh(KeyType::Int);
    type_text(&mut app, "x");
    assert_eq!(app.current_input, "");
    presses(&mut app, Key::Enter, 1);
    type_text(&mut app, "books");
    presses(&mut app, Key::Backspace, 2);
    assert_eq!(app.current_input, "boo");
    presses(&mut app, Key::Backspace, 5);
    assert_eq!(app.current_input, "");
}

#[test]
fn a_table_is_created_screen_by_screen() {
    let mut app = fresh(KeyType::Int);
    presses(&mut app, Key::Enter, 1);
    type_text(&mut app, "t");
    presses(&mut app, Key::Enter, 1);
    assert_eq!(app.current_screen, CurrentScreen::InputFieldTypePair);
    assert_eq!(app.input_table_name, Some("t".to_string()));
    type_text(&mut app, "id");
    presses(&mut app, Key::PageUp, 1);
    type_text(&mut app, "name");
    presses(&mut app, Key::Down, 1);
    presses(&mut app, Key::PageUp, 1);
    assert_eq!(app.generic_hashmap.len(), 2);
    assert_eq!(app.generic_hashmap.get(&"id".to_string()), Some(&"Int".to_string()));
    assert_eq!(app.generic_hashmap.get(&"name".to_string()), Some(&"String".to_string()));
    presses(&mut app, Key::Enter, 1);
    assert_eq!(app.current_screen, CurrentScreen::SelectKeyField);
    assert_eq!(app.key_possibilities, vec!["id"]);
    presses(&mut app, Key::Enter, 1);
    assert_eq!(app.current_screen, CurrentScreen::Results);
    assert_eq!(app.result, "Table created succesfully");
    assert_eq!(app.history.list(), ["CREATE t KEY id FIELDS id: Int, name: String "]);
    assert_eq!(app.database.get_table_names(), vec!["t"]);
    presses(&mut app, Key::Enter, 1);
    assert_eq!(app.current_screen, CurrentScreen::Main);
    assert_eq!(app.current_command, CurrentCommand::NoCommand);
    assert_eq!(app.generic_hashmap.len(), 0);
    assert_eq!(app.input_table_name, None);
}

#[test]
fn a_type_beyond_the_list_is_not_found() {
    let mut app = fresh(KeyType::Int);
    presses(&mut app, Key::Enter, 1);
    presses(&mut app, Key::Enter, 1);
    app.current_index = 9;
    match press(&mut app, Key::PageUp) {
        Err(CustomError::ItemWithIndexNotFound(what, index)) => {
            assert_eq!(what, "Type");
            assert_eq!(index, "9");
        }
        _ => panic!("there is no such type"),
    }
}

#[test]
fn a_mark_beyond_the_list_is_an_invalid_index() {
    let mut app = fresh(KeyType::Int);
    presses(&mut app, Key::Down, 1);
    presses(&mut app, Key::Enter, 1);
    assert!(matches!(press(&mut app, Key::Enter), Err(CustomError::InvalidIndex(0))));
    assert_eq!(app.current_screen, CurrentScreen::SelectTable);
}

#[test]
fn records_are_inserted_selected_and_deleted_screen_by_screen() {
    let mut app = fresh(KeyType::Int);
    create_table(&mut app);
    presses(&mut app, Key::Enter, 1);

    presses(&mut app, Key::Down, 1);
    presses(&mut app, Key::Enter, 2);
    assert_eq!(app.current_screen, CurrentScreen::InputFieldValuePair);
    type_text(&mut app, "id");
    presses(&mut app, Key::Right, 1);
    assert_eq!(app.field_or_value, FieldType::Value);
    type_text(&mut app, "7");
    presses(&mut app, Key::PageUp, 1);
    presses(&mut app, Key::Left, 1);
    type_text(&mut app, "name");
    presses(&mut app, Key::Right, 1);
    type_text(&mut app, "Ann");
    presses(&mut app, Key::PageUp, 1);
    presses(&mut app, Key::Enter, 1);
    assert_eq!(app.result, "Data inserted succesfully");
    assert_eq!(app.history.list()[1], "INSERT id = 7, name = Ann INTO t");
    presses(&mut app, Key::Enter, 1);
    presses(&mut app, Key::Left, 1);

    presses(&mut app, Key::Down, 2);
    presses(&mut app, Key::Enter, 2);
    assert_eq!(app.current_screen, CurrentScreen::SelectField);
    assert_eq!(app.possibilities, vec!["id", "name"]);
    type_text(&mut app, "name");
    presses(&mut app, Key::PageUp, 1);
    presses(&mut app, Key::Enter, 1);
    assert_eq!(app.current_screen, CurrentScreen::SelectCondition);
    app.field_or_value = FieldType::Field;
    type_text(&mut app, "id");
    presses(&mut app, Key::Right, 1);
    type_text(&mut app, "5");
    presses(&mut app, Key::Down, 4);
    presses(&mut app, Key::Enter, 1);
    assert_eq!(app.history.list()[2], "SELECT name FROM t WHERE id > 5");
    assert_eq!(app.result, "name=Ann");
    presses(&mut app, Key::Enter, 1);

    presses(&mut app, Key::Down, 3);
    presses(&mut app, Key::Enter, 2);
    assert_eq!(app.current_screen, CurrentScreen::InputKeyValue);
    type_text(&mut app, "7");
    presses(&mut app, Key::Enter, 1);
    assert_eq!(app.result, "Data deleted succesfully");
    assert_eq!(app.history.list()[3], "DELETE 7 FROM t");
}

#[test]
fn a_failure_is_shown_as_the_result() {
    let mut app = fresh(KeyType::String);
    create_table(&mut app);
    assert_eq!(app.current_screen, CurrentScreen::Results);
    assert_eq!(app.result, "Table created succesfully");
    assert_eq!(app.history.list(), ["CREATE t KEY name FIELDS id: Int, name: String "]);
    presses(&mut app, Key::Enter, 1);
    create_table(&mut app);
    assert_eq!(app.result, "Table already exists: t");
    let mut app = fresh(KeyType::Int);
    presses(&mut app, Key::Enter, 2);
    type_text(&mut app, "flag");
    presses(&mut app, Key::Down, 3);
    presses(&mut app, Key::PageUp, 1);
    presses(&mut app, Key::Enter, 1);
    assert!(app.key_possibilities.is_empty());
    assert!(!run(&mut app, Key::Enter, &read_float));
    assert_eq!(app.result, "Invalid index: 0");
    assert_eq!(app.current_screen, CurrentScreen::SelectKeyField);
    let mut app = fresh(KeyType::Int);
    app.current_command = CurrentCommand::Insert;
    app.current_screen = CurrentScreen::InputFilePath;
    assert!(!run(&mut app, Key::Enter, &read_float));
    assert_eq!(app.result, "Invalid COmmand Screen Combination: Insert InputFilePath");
    assert!(run(&mut fresh(KeyType::Int), Key::Esc, &read_float));
}

#[test]
fn work_with_files_is_left_pending() {
    let mut app = fresh(KeyType::Int);
    presses(&mut app, Key::Down, 4);
    presses(&mut app, Key::Enter, 1);
    type_text(&mut app, "out.txt");
    presses(&mut app, Key::Enter, 1);
    assert_eq!(app.current_screen, CurrentScreen::Results);
    assert_eq!(app.result, "");
    match app.take_pending() {
        Some(Outcome::Save { file_path, lines }) => {
            assert_eq!(file_path, "out.txt");
            assert!(lines.is_empty());
        }
        _ => panic!("the history is to be saved"),
    }
    assert!(app.take_pending().is_none());
    app.settle(Ok("Data saved succesfully".to_string()));
    assert_eq!(app.result, "Data saved succesfully");
    app.settle(Err(CustomError::IoError("denied".to_string())));
    assert_eq!(app.result, "Failed to read file: denied");

    let mut app = fresh(KeyType::Int);
    presses(&mut app, Key::Down, 5);
    presses(&mut app, Key::Enter, 1);
    type_text(&mut app, "in.txt");
    presses(&mut app, Key::Enter, 1);
    assert!(matches!(app.take_pending(), Some(Outcome::Load { .. })));
}

#[test]
fn the_steps_of_each_command_are_planned() {
    assert_eq!(
        CurrentCommand::Create.plan_for(CurrentScreen::InputTableName),
        Plan::Turn(CurrentScreen::InputFieldTypePair)
    );
    assert_eq!(CurrentCommand::Create.plan_for(CurrentScreen::SelectKeyField), Plan::Submit);
    assert_eq!(CurrentCommand::Select.plan_for(CurrentScreen::SelectTable), Plan::ListFields);
    assert_eq!(CurrentCommand::Delete.plan_for(CurrentScreen::Results), Plan::Leave);
    assert_eq!(CurrentCommand::NoCommand.plan_for(CurrentScreen::Results), Plan::Leave);
    assert_eq!(CurrentCommand::Delete.plan_for(CurrentScreen::Main), Plan::Refuse);
    assert_eq!(CurrentCommand::SaveAs.plan_for(CurrentScreen::SelectTable), Plan::Refuse);
    assert_eq!(CurrentCommand::ReadFrom.to_string(), "ReadFrom");
    assert_eq!(CurrentCommand::NoCommand.to_string(), "None");
    assert_eq!(CurrentScreen::InputFieldValuePair.to_string(), "InputFieldValuePair");
}

#[test]
fn selecting_fields_needs_a_table() {
    let mut app = fresh(KeyType::Int);
    app.current_command = CurrentCommand::Select;
    app.current_screen = CurrentScreen::SelectTable;
    assert!(matches!(app.go_to_next_page(&read_float), Err(CustomError::YouGotLost())));
    app.input_table_name = Some("nowhere".to_string());
    assert!(matches!(app.go_to_next_page(&read_float), Err(CustomError::TableNotFound(_))));
    assert_eq!(app.current_screen, CurrentScreen::SelectTable);
}

#[test]
fn a_pair_needs_both_of_its_parts() {
    let mut app = fresh(KeyType::Int);
    app.current_command = CurrentCommand::Insert;
    app.current_screen = CurrentScreen::InputFieldValuePair;
    type_text(&mut app, "id");
    match press(&mut app, Key::PageUp) {
        Err(CustomError::MissingField(what)) => assert_eq!(what, "type"),
        _ => panic!("the value is missing"),
    }
    assert_eq!(app.input_field, Some("id".to_string()));
    let mut app = fresh(KeyType::Int);
    app.current_command = CurrentCommand::Insert;
    app.current_screen = CurrentScreen::InputFieldValuePair;
    app.field_or_value = FieldType::Value;
    match press(&mut app, Key::PageUp) {
        Err(CustomError::MissingField(what)) => assert_eq!(what, "field"),
        _ => panic!("the field is missing"),
    }
}

fn list_of(panel: &Panel) -> (&str, Vec<String>, usize) {
    match panel {
        Panel::List { title, items, marked } => (title.as_str(), items.clone(), *marked),
        _ => panic!("a list was expected"),
    }
}

fn box_of(panel: &Panel) -> (Option<&str>, &str, Emphasis) {
    match panel {
        Panel::Paragraph { heading, text, emphasis } => {
            (heading.as_deref(), text.as_str(), *emphasis)
        },
        _ => panic!("a text was expected"),
    }
}

#[test]
fn each_screen_shows_its_parts() {
    let mut app = fresh(KeyType::Int);
    presses(&mut app, Key::Down, 2);
    let picture = ui(&app);
    assert_eq!(picture.len(), 1);
    let (title, items, marked) = list_of(&picture[0]);
    assert_eq!(title, "Menu");
    assert_eq!(items, vec!["Create", "Insert", "Select", "Delete", "Save As", "Read From"]);
    assert_eq!(marked, 2);

    let mut app = fresh(KeyType::Int);
    presses(&mut app, Key::Enter, 1);
    type_text(&mut app, "t");
    assert_eq!(box_of(&ui(&app)[0]), (Some("Enter Table Name"), "t", Emphasis::White));
    presses(&mut app, Key::Enter, 1);
    type_text(&mut app, "id");
    presses(&mut app, Key::PageUp, 1);
    type_text(&mut app, "n");
    let picture = ui(&app);
    assert_eq!(picture.len(), 3);
    assert_eq!(box_of(&picture[0]), (Some("Field"), "n", Emphasis::Plain));
    assert_eq!(list_of(&picture[1]), ("Type", vec!["Int".into(), "String".into(), "Float".into(), "Bool".into()], 0));
    assert_eq!(box_of(&picture[2]), (Some("Fields "), "id: Int", Emphasis::Plain));
    presses(&mut app, Key::Enter, 1);
    assert_eq!(list_of(&ui(&app)[0]), ("Key", vec!["id".to_string()], 0));
    presses(&mut app, Key::Enter, 1);
    assert_eq!(box_of(&ui(&app)[0]), (None, "Table created succesfully", Emphasis::Plain));
    presses(&mut app, Key::Enter, 1);

    presses(&mut app, Key::Down, 1);
    presses(&mut app, Key::Enter, 1);
    assert_eq!(list_of(&ui(&app)[0]), ("Select Table", vec!["t".to_string()], 0));
    presses(&mut app, Key::Enter, 1);
    type_text(&mut app, "id");
    presses(&mut app, Key::Right, 1);
    type_text(&mut app, "1");
    let picture = ui(&app);
    assert_eq!(box_of(&picture[0]), (Some("Field"), "id", Emphasis::Plain));
    assert_eq!(box_of(&picture[1]), (Some("Value"), "1", Emphasis::Marked));
    assert_eq!(box_of(&picture[2]), (Some("Fields "), "", Emphasis::Plain));

    let mut app = fresh(KeyType::Int);
    app.current_screen = CurrentScreen::SelectCondition;
    app.current_index = 3;
    type_text(&mut app, "age");
    let picture = ui(&app);
    assert_eq!(box_of(&picture[0]), (Some("Field"), "age", Emphasis::Marked));
    assert_eq!(list_of(&picture[1]).0, "Opertion");
    assert_eq!(list_of(&picture[1]).1, vec!["=", "!=", "<", "<=", ">", ">="]);
    assert_eq!(list_of(&picture[1]).2, 3);
    assert_eq!(box_of(&picture[2]), (Some("Value"), "", Emphasis::Plain));

    app.current_screen = CurrentScreen::SelectField;
    app.selected_fields = vec!["a".to_string(), "b".to_string()];
    let picture = ui(&app);
    assert_eq!(box_of(&picture[0]), (Some("Field"), "age", Emphasis::Plain));
    assert_eq!(box_of(&picture[1]), (Some("Fields"), "a, b", Emphasis::Plain));

    app.current_screen = CurrentScreen::InputFilePath;
    assert_eq!(box_of(&ui(&app)[0]), (Some("Enter File Path"), "age", Emphasis::White));
    app.current_screen = CurrentScreen::InputKeyValue;
    assert_eq!(box_of(&ui(&app)[0]).0, Some("Enter Key"));
    app.current_command = CurrentCommand::Delete;
    assert_eq!(box_of(&ui(&app)[0]).0, Some("Enter Key Of The Record You Want To Delete"));
    app.current_command = CurrentCommand::Select;
    assert_eq!(box_of(&ui(&app)[0]).0, Some("Enter Key Field Name"));
}

#[test]
fn the_line_front_end_ends_on_an_empty_line_and_at_the_end_of_input() {
    let mut db = KeyType::Int.to_database();
    let mut history = CommandHistory::new();
    match run_command_line(None, &mut db, &mut history, &read_float) {
        Turn::Leave(text) => assert_eq!(text, "EOF received, exiting."),
        _ => panic!("the input has ended"),
    }
    for line in ["", "\n", "  \t\r\n"] {
        match run_command_line(Some(line.to_string()), &mut db, &mut history, &read_float) {
            Turn::Leave(text) => assert_eq!(text, "Empty line -> exiting."),
            _ => panic!("the line is empty"),
        }
    }
}

#[test]
fn the_line_front_end_says_how_each_command_went() {
    let mut db = KeyType::Int.to_database();
    let mut history = CommandHistory::new();
    let mut round = |line: &str| {
        run_command_line(Some(line.to_string()), &mut db, &mut history, &read_float)
    };
    assert_eq!(said(round("CREATE t KEY id FIELDS id: Int\n")), "Table created succesfully");
    assert_eq!(said(round("INSERT id = 1 INTO t\n")), "Data inserted succesfully");
    assert_eq!(said(round("INSERT id = 1 INTO t\n")), "Record already exists: id=1");
    assert_eq!(said(round("SELECT id FROM t\n")), "id=1");
    assert_eq!(said(round("DROP t\n")), "Unknown Command: DROP t");
    assert!(matches!(round("SAVE_AS a.txt\n"), Turn::Work(Outcome::Save { .. })));
    assert!(matches!(round("READ_FROM a.txt\n"), Turn::Work(Outcome::Load { .. })));
}

#[test]
fn the_responder_answers_every_request() {
    let mut db = KeyType::String.to_database();
    let mut history = CommandHistory::new();
    let mut answer = |request: Result<&str, &str>| {
        let request = request.map(|s| s.to_string()).map_err(|s| s.to_string());
        handle_client(request, &mut db, &mut history, &read_float)
    };
    assert_eq!(said(answer(Err("invalid utf-8 sequence"))), "Bad input : invalid utf-8 sequence\n");
    assert_eq!(said(answer(Ok("  CREATE t KEY k FIELDS k: String \n"))), "Table created succesfully");
    assert_eq!(said(answer(Ok("INSERT k = a INTO t"))), "Data inserted succesfully");
    assert_eq!(said(answer(Ok("SELECT k FROM t WHERE k = a"))), "k=a");
    assert_eq!(said(answer(Ok(""))), "Unknown Command: ");
    assert_eq!(said(answer(Ok("DELETE b FROM t"))), "b is empty");
    assert!(matches!(answer(Ok("SAVE_AS x")), Turn::Work(Outcome::Save { .. })));
    assert_eq!(history.list().len(), 4);
}

#[test]
fn results_turn_into_what_is_shown() {
    assert_eq!(result_text(Ok("done".to_string())), "done");
    assert_eq!(result_text(Err(CustomError::WrongKeyType())), "Invalid Key Type");
    assert_eq!(said(turn_for(Ok(Outcome::Reply("r".to_string())))), "r");
    assert_eq!(said(turn_for(Err(CustomError::YouGotLost()))), "You somehow got lost");
    assert!(matches!(
        turn_for(Ok(Outcome::Load { file_path: "f".to_string() })),
        Turn::Work(Outcome::Load { .. })
    ));
}

#[test]
fn a_database_of_either_kind_goes_through_the_pipeline() {
    let mut db = KeyType::Int.to_database();
    let mut history = CommandHistory::new();
    assert!(matches!(
        handle_input_any_db(
            "CREATE t KEY id FIELDS id: Int".to_string(),
            &mut db,
            &mut history,
            &read_float
        ),
        Ok(Outcome::Reply(_))
    ));
    let line = Some(Ok("INSERT id = 3 INTO t".to_string()));
    assert!(matches!(
        replay_line_any_db(line, &mut db, &mut history, &read_float),
        Replay::Next
    ));
    assert!(matches!(
        replay_line_any_db(Some(Err("gone".to_string())), &mut db, &mut history, &read_float),
        Replay::Stop(Err(CustomError::IoError(_)))
    ));
    assert!(matches!(
        replay_line_any_db(None, &mut db, &mut history, &read_float),
        Replay::Stop(Ok(_))
    ));
    assert_eq!(db.get_table_names(), vec!["t"]);
    assert_eq!(db.get_fields("t").ok(), Some(vec!["id".to_string()]));
    assert!(matches!(db.get_fields("u"), Err(CustomError::TableNotFound(_))));
    assert_eq!(history.list().len(), 2);
}
