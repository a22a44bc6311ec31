use r_sql_database::command_history::CommandHistory;
use r_sql_database::custom_error::CustomError;
use r_sql_database::database::Database;
use r_sql_database::floats::FloatValue;
use r_sql_database::handlers::{handle_input, replay_line, replay_resume, Outcome, Replay};

fn read_float(s: &str) -> Option<FloatValue> {
    match s.parse::<f64>() {
        Ok(v) => Some(FloatValue { bits: v.to_bits(), text: v.to_string() }),
        Err(_) => None,
    }
}

fn submit(
    input: &str,
    database: &mut Database<i64>,
    history: &mut CommandHistory,
) -> Result<String, CustomError> {
    match handle_input(input.to_string(), database, history, &read_float)? {
        Outcome::Reply(text) => Ok(text),
        _ => panic!("a data command needs no file"),
    }
}

#[test]
fn create_insert_select_delete_select() {
    let mut database: Database<i64> = Database::new();
    let mut history = CommandHistory::new();
    assert_eq!(
        submit("CREATE t KEY id FIELDS id: Int, name: String", &mut database, &mut history)
            .ok(),
        Some("Table created succesfully".to_string())
    );
    assert_eq!(
        submit("INSERT id = 1, name = \"a\" INTO t", &mut database, &mut history).ok(),
        Some("Data inserted succesfully".to_string())
    );
    assert_eq!(
        submit("SELECT id, name FROM t", &mut database, &mut history).ok(),
        Some("id=1, name=\"a\"".to_string())
    );
    assert_eq!(
        submit("DELETE 1 FROM t", &mut database, &mut history).ok(),
        Some("Data deleted succesfully".to_string())
    );
    assert_eq!(
        submit("SELECT id, name FROM t", &mut database, &mut history).ok(),
        Some(String::new())
    );
    assert_eq!(database.tables.len(), 1);
    assert_eq!(database.tables[0].records.len(), 0);
}

#[test]
fn saved_history_replays_into_a_fresh_engine() {
    let mut database: Database<i64> = Database::new();
    let mut history = CommandHistory::new();
    for command in [
        "CREATE t KEY id FIELDS id: Int, name: String",
        "INSERT id = 1, name = a INTO t",
        "SELECT id, name FROM t",
        "DELETE 1 FROM t",
        "SELECT id, name FROM t",
    ] {
        assert!(submit(command, &mut database, &mut history).is_ok());
    }
    let saved = match handle_input(
        "SAVE_AS out.txt".to_string(),
        &mut database,
        &mut history,
        &read_float,
    ) {
        Ok(Outcome::Save { file_path, lines }) => {
            assert_eq!(file_path, "out.txt");
            lines
        }
        _ => panic!("SAVE_AS asks for a file to be written"),
    };
    assert_eq!(saved.len(), 5);

    let mut fresh: Database<i64> = Database::new();
    let mut fresh_history = CommandHistory::new();
    match handle_input(
        "READ_FROM out.txt".to_string(),
        &mut fresh,
        &mut fresh_history,
        &read_float,
    ) {
        Ok(Outcome::Load { file_path }) => assert_eq!(file_path, "out.txt"),
        _ => panic!("READ_FROM asks for a file to be read"),
    }
    for line in saved.iter() {
        let next = replay_line(Some(Ok(line.clone())), &mut fresh, &mut fresh_history, &read_float);
        assert!(matches!(next, Replay::Next));
    }
    match replay_line(None, &mut fresh, &mut fresh_history, &read_float) {
        Replay::Stop(Ok(text)) => assert_eq!(text, "Data read succesfully"),
        _ => panic!("the file has ended"),
    }
    assert_eq!(fresh.tables.len(), 1);
    assert_eq!(fresh.tables[0].table_name, "t");
    assert_eq!(fresh.tables[0].key_field, "id");
    assert_eq!(fresh.tables[0].fields.len(), 2);
    assert_eq!(fresh.tables[0].records.len(), 0);
    assert_eq!(fresh_history.list(), saved.as_slice());
}

fn history_of(history: &CommandHistory) -> Vec<String> {
    history.list().to_vec()
}

#[test]
fn the_command_is_told_by_its_first_word() {
    let mut database: Database<i64> = Database::new();
    let mut history = CommandHistory::new();
    for text in ["", "   ", "create t KEY id FIELDS id: Int", "DROP t", "SAVE out.txt", "X CREATE"] {
        match handle_input(text.to_string(), &mut database, &mut history, &read_float) {
            Err(CustomError::UnknownCommand(command)) => assert_eq!(command, text.trim()),
            _ => panic!("{:?} is no command", text),
        }
    }
    assert!(history.list().is_empty());
    assert!(database.tables.is_empty());
}

#[test]
fn the_command_text_is_trimmed_first() {
    let mut database: Database<i64> = Database::new();
    let mut history = CommandHistory::new();
    assert!(submit("  \tCREATE t KEY id FIELDS id: Int\n", &mut database, &mut history).is_ok());
    assert_eq!(history_of(&history), vec!["CREATE t KEY id FIELDS id: Int "]);
}

#[test]
fn a_text_that_spells_no_command_leaves_no_trace() {
    let mut database: Database<i64> = Database::new();
    let mut history = CommandHistory::new();
    assert!(submit("CREATE t KEY id FIELDS id: Int", &mut database, &mut history).is_ok());
    for text in [
        "CREATE u",
        "CREATE KEY id FIELDS id: Int",
        "CREATE u KEY id FIELDS id",
        "INSERT id = 1",
        "INSERT INTO t",
        "INSERT id = 1 INTO u",
        "DELETE 1",
        "DELETE 1 FROM u",
        "SELECT id",
        "SELECT id FROM u",
    ] {
        assert!(submit(text, &mut database, &mut history).is_err(), "{:?}", text);
    }
    assert_eq!(history.list().len(), 1);
    assert_eq!(database.tables.len(), 1);
    assert_eq!(database.tables[0].records.len(), 0);
}

#[test]
fn a_command_that_is_read_enters_the_history_however_it_goes() {
    let mut database: Database<i64> = Database::new();
    let mut history = CommandHistory::new();
    assert!(submit("CREATE t KEY id FIELDS id: Int", &mut database, &mut history).is_ok());
    assert!(submit("CREATE t KEY id FIELDS id: Int", &mut database, &mut history).is_err());
    assert!(submit("CREATE u KEY id FIELDS id: Bool", &mut database, &mut history).is_err());
    assert!(submit("INSERT id = 1 INTO t", &mut database, &mut history).is_ok());
    assert!(submit("INSERT id = 1 INTO t", &mut database, &mut history).is_err());
    assert!(submit("INSERT id = x INTO t", &mut database, &mut history).is_err());
    assert!(submit("DELETE 2 FROM t", &mut database, &mut history).is_err());
    assert!(submit("SELECT id FROM t WHERE id", &mut database, &mut history).is_err());
    assert_eq!(
        history_of(&history),
        vec![
            "CREATE t KEY id FIELDS id: Int ",
            "CREATE t KEY id FIELDS id: Int ",
            "CREATE u KEY id FIELDS id: Bool ",
            "INSERT id = 1 INTO t",
            "INSERT id = 1 INTO t",
            "INSERT id = x INTO t",
            "DELETE 2 FROM t",
            "SELECT id FROM t WHERE id",
        ]
    );
    assert_eq!(database.tables.len(), 1);
    assert_eq!(database.tables[0].records.len(), 1);
}

#[test]
fn saving_and_reading_do_not_enter_the_history() {
    let mut database: Database<i64> = Database::new();
    let mut history = CommandHistory::new();
    assert!(submit("CREATE t KEY id FIELDS id: Int", &mut database, &mut history).is_ok());
    assert!(matches!(
        handle_input("SAVE_AS a.txt".to_string(), &mut database, &mut history, &read_float),
        Ok(Outcome::Save { .. })
    ));
    assert!(matches!(
        handle_input(" READ_FROM  a.txt ".to_string(), &mut database, &mut history, &read_float),
        Ok(Outcome::Load { .. })
    ));
    assert_eq!(history.list().len(), 1);
}

#[test]
fn a_line_that_cannot_be_read_ends_in_an_io_error() {
    let mut database: Database<i64> = Database::new();
    let mut history = CommandHistory::new();
    let failed = Some(Err("stream broke".to_string()));
    match replay_line(failed, &mut database, &mut history, &read_float) {
        Replay::Stop(Err(CustomError::IoError(text))) => assert_eq!(text, "stream broke"),
        _ => panic!("the line could not be read"),
    }
    assert!(history.list().is_empty());
}

#[test]
fn a_replayed_line_is_a_command_like_any_other() {
    let mut database: Database<i64> = Database::new();
    let mut history = CommandHistory::new();
    let line = "CREATE t KEY id FIELDS id: Int ".to_string();
    assert!(matches!(
        replay_line(Some(Ok(line.clone())), &mut database, &mut history, &read_float),
        Replay::Next
    ));
    assert!(matches!(
        replay_line(Some(Ok(line)), &mut database, &mut history, &read_float),
        Replay::Stop(Err(CustomError::TableAlreadyExists(_)))
    ));
    let nested = Some(Ok("READ_FROM b.txt".to_string()));
    assert!(matches!(
        replay_line(nested, &mut database, &mut history, &read_float),
        Replay::Work(Outcome::Load { .. })
    ));
    assert_eq!(history.list().len(), 2);
    assert!(matches!(replay_resume(Ok("Data read succesfully".to_string())), Replay::Next));
    assert!(matches!(
        replay_resume(Err(CustomError::IoError("gone".to_string()))),
        Replay::Stop(Err(CustomError::IoError(_)))
    ));
}

#[test]
fn floating_point_fields_go_through_the_reader() {
    let mut database: Database<i64> = Database::new();
    let mut history = CommandHistory::new();
    assert!(submit("CREATE m KEY id FIELDS id: Int, x: Float", &mut database, &mut history).is_ok());
    assert!(submit("INSERT id = 1, x = 1e2 INTO m", &mut database, &mut history).is_ok());
    assert!(submit("INSERT id = 2, x = -0.50 INTO m", &mut database, &mut history).is_ok());
    assert!(submit("INSERT id = 3, x = NaN INTO m", &mut database, &mut history).is_ok());
    assert!(submit("INSERT id = 4, x = 1,5 INTO m", &mut database, &mut history).is_err());
    assert_eq!(
        submit("SELECT x FROM m", &mut database, &mut history).ok(),
        Some("x=100 | x=-0.5 | x=NaN".to_string())
    );
    assert_eq!(
        submit("SELECT id FROM m WHERE x < 0", &mut database, &mut history).ok(),
        Some("id=2".to_string())
    );
    assert_eq!(
        submit("SELECT id FROM m WHERE x != NaN", &mut database, &mut history).ok(),
        Some("id=1 | id=2 | id=3".to_string())
    );
    assert_eq!(
        submit("SELECT id FROM m WHERE x = NaN", &mut database, &mut history).ok(),
        Some(String::new())
    );
}

#[test]
fn text_keys_keep_their_tables_apart_from_integer_keys() {
    let mut database: Database<String> = Database::new();
    let mut history = CommandHistory::new();
    let run = |text: &str, database: &mut Database<String>, history: &mut CommandHistory| {
        match handle_input(text.to_string(), database, history, &read_float) {
            Ok(Outcome::Reply(reply)) => Ok(reply),
            Ok(_) => panic!("a data command needs no file"),
            Err(e) => Err(e),
        }
    };
    assert!(matches!(
        run("CREATE t KEY id FIELDS id: Int", &mut database, &mut history),
        Err(CustomError::WrongKeyType())
    ));
    assert!(run("CREATE t KEY id FIELDS id: String", &mut database, &mut history).is_ok());
    assert!(run("INSERT id = b INTO t", &mut database, &mut history).is_ok());
    assert!(run("INSERT id = a INTO t", &mut database, &mut history).is_ok());
    assert_eq!(
        run("SELECT id FROM t", &mut database, &mut history).ok(),
        Some("id=a | id=b".to_string())
    );
    assert!(run("DELETE a FROM t", &mut database, &mut history).is_ok());
    assert_eq!(run("SELECT id FROM t", &mut database, &mut history).ok(), Some("id=b".to_string()));
}

#[test]
fn a_replay_stops_at_the_first_entry_that_fails() {
    let mut database: Database<i64> = Database::new();
    let mut history = CommandHistory::new();
    assert!(submit("CREATE t KEY id FIELDS id: Int", &mut database, &mut history).is_ok());
    assert!(submit("INSERT id = 1 INTO t", &mut database, &mut history).is_ok());
    assert!(submit("INSERT id = 1 INTO t", &mut database, &mut history).is_err());
    assert!(submit("INSERT id = 2 INTO t", &mut database, &mut history).is_ok());
    let saved = history_of(&history);
    assert_eq!(saved.len(), 4);

    let mut fresh: Database<i64> = Database::new();
    let mut fresh_history = CommandHistory::new();
    let mut carried_out = 0;
    for line in saved.iter() {
        match replay_line(Some(Ok(line.clone())), &mut fresh, &mut fresh_history, &read_float) {
            Replay::Next => carried_out += 1,
            Replay::Stop(Err(CustomError::RecordAlreadyExists(record))) => {
                assert_eq!(record, "id=1");
                break;
            }
            _ => panic!("an entry is carried out or fails"),
        }
    }
    assert_eq!(carried_out, 2);
    assert_eq!(fresh.tables[0].records.len(), 1);
    assert_eq!(history_of(&fresh_history), saved[..3].to_vec());
}

#[test]
fn every_entry_sent_through_again_rebuilds_the_database() {
    let mut database: Database<i64> = Database::new();
    let mut history = CommandHistory::new();
    for text in [
        "  CREATE  t KEY id FIELDS id : int , name:String ",
        "INSERT id = 3 , name = c INTO t",
        "INSERT id = 1, name = a INTO t",
        "INSERT id = 3 INTO t",
        "nonsense",
        "DELETE 7 FROM t",
        "INSERT id = 2 INTO t",
        "DELETE 3 FROM t",
        "SELECT name FROM t WHERE id > 0",
    ] {
        let _ = submit(text, &mut database, &mut history);
    }
    let mut again: Database<i64> = Database::new();
    let mut again_history = CommandHistory::new();
    for entry in history_of(&history) {
        let _ = submit(&entry, &mut again, &mut again_history);
    }
    assert_eq!(history_of(&again_history), history_of(&history));
    assert_eq!(again.tables.len(), database.tables.len());
    let shown = |d: &Database<i64>| -> Vec<String> {
        d.tables[0].records.iter().map(|r| format!("{}:{}", r.0, r.1.to_string())).collect()
    };
    assert_eq!(shown(&again), shown(&database));
    assert_eq!(shown(&again), vec!["1:id=1, name=a", "2:id=2"]);
}
