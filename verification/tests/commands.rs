use r_sql_database::command_history::CommandHistory;
use r_sql_database::commands::{
    Command, Create, Delete, Insert, ReadFrom, SaveAs, Select, Serialize,
};
use r_sql_database::custom_error::CustomError;
use r_sql_database::database::Database;
use r_sql_database::floats::FloatValue;
use r_sql_database::parsers::parse_fields;

fn read_float(s: &str) -> Option<FloatValue> {
    match s.parse::<f64>() {
        Ok(v) => Some(FloatValue { bits: v.to_bits(), text: v.to_string() }),
        Err(_) => None,
    }
}

fn database() -> Database<i64> {
    let mut database: Database<i64> = Database::new();
    let fields = parse_fields("id: Int, name: String").ok().unwrap();
    assert!(database.create_table("t".to_string(), "id".to_string(), fields).is_ok());
    database
}

fn keyword(e: Option<CustomError>) -> String {
    match e {
        Some(CustomError::MissingKeyword(k)) => k,
        _ => panic!("a keyword is missing"),
    }
}

fn field(e: Option<CustomError>) -> String {
    match e {
        Some(CustomError::MissingField(k)) => k,
        _ => panic!("a field is missing"),
    }
}

fn table(e: Option<CustomError>) -> String {
    match e {
        Some(CustomError::TableNotFound(k)) => k,
        _ => panic!("a table is missing"),
    }
}

#[test]
fn create_is_read_between_its_keywords() {
    let mut db: Database<i64> = Database::new();
    let mut c = Create::new(&mut db, "CREATE  books KEY  isbn  FIELDS isbn: Int , title :String")
        .ok()
        .unwrap();
    assert_eq!(c.name, "books");
    assert_eq!(c.key_field, "isbn");
    assert_eq!(c.fields.len(), 2);
    assert_eq!(c.serialize(), "CREATE books KEY isbn FIELDS isbn: Int, title: String ");
    assert_eq!(c.execute(&read_float).ok(), Some("Table created succesfully".to_string()));
    assert_eq!(db.tables.len(), 1);
    assert_eq!(db.tables[0].table_name, "books");
}

#[test]
fn create_says_what_it_lacks() {
    let mut db: Database<i64> = Database::new();
    assert_eq!(keyword(Create::new(&mut db, "MAKE t KEY id FIELDS id: Int").err()), "CREATE");
    assert_eq!(keyword(Create::new(&mut db, "CREATE t").err()), "KEY");
    assert_eq!(keyword(Create::new(&mut db, "CREATE t key id FIELDS id: Int").err()), "KEY");
    assert_eq!(field(Create::new(&mut db, "CREATE KEY id FIELDS id: Int").err()), "Table name");
    assert_eq!(keyword(Create::new(&mut db, "CREATE t KEY id id: Int").err()), "FIELDS");
    assert_eq!(field(Create::new(&mut db, "CREATE t KEY FIELDS id: Int").err()), "Key field");
    assert_eq!(keyword(Create::new(&mut db, "CREATE FIELDS KEY").err()), "FIELDS");
    assert_eq!(field(Create::new(&mut db, "CREATEKEY FIELDS").err()), "Table name");
    assert!(matches!(
        Create::new(&mut db, "CREATE t KEY id FIELDS id").err(),
        Some(CustomError::FieldParseError(_))
    ));
    assert_eq!(db.tables.len(), 0);
}

#[test]
fn create_reports_what_the_database_refuses() {
    let mut db = database();
    let mut again = Create::new(&mut db, "CREATE t KEY id FIELDS id: Int").ok().unwrap();
    assert!(matches!(again.execute(&read_float), Err(CustomError::TableAlreadyExists(_))));
    let mut wrong = Create::new(&mut db, "CREATE u KEY id FIELDS id: String").ok().unwrap();
    assert!(matches!(wrong.execute(&read_float), Err(CustomError::WrongKeyType())));
    let mut absent = Create::new(&mut db, "CREATE u KEY id FIELDS name: String").ok().unwrap();
    assert!(matches!(absent.execute(&read_float), Err(CustomError::WrongKeyType())));
    let mut none = Create::new(&mut db, "CREATE u KEY id FIELDS ").ok().unwrap();
    assert_eq!(none.serialize(), "CREATE u KEY id FIELDS  ");
    assert!(matches!(none.execute(&read_float), Err(CustomError::WrongKeyType())));
    assert_eq!(db.tables.len(), 1);
}

#[test]
fn insert_is_read_and_bound_to_its_table() {
    let mut db = database();
    let mut c = Insert::new(&mut db, "INSERT  id = 1,name = a  INTO  t ").ok().unwrap();
    assert_eq!(c.record_string, "id = 1,name = a");
    assert_eq!(c.table.table_name, "t");
    assert_eq!(c.serialize(), "INSERT id = 1,name = a INTO t");
    assert_eq!(c.execute(&read_float).ok(), Some("Data inserted succesfully".to_string()));
    assert!(matches!(c.execute(&read_float), Err(CustomError::RecordAlreadyExists(_))));
    assert_eq!(db.tables[0].records.len(), 1);
}

#[test]
fn insert_says_what_it_lacks() {
    let mut db = database();
    assert_eq!(keyword(Insert::new(&mut db, "PUT id = 1 INTO t").err()), "INSERT");
    assert_eq!(keyword(Insert::new(&mut db, "INSERT id = 1 t").err()), "INTO");
    assert_eq!(field(Insert::new(&mut db, "INSERT  INTO t").err()), "Record data");
    assert_eq!(field(Insert::new(&mut db, "INSERT id = 1 INTO ").err()), "Table name");
    assert_eq!(table(Insert::new(&mut db, "INSERT id = 1 INTO u").err()), "u");
    assert_eq!(table(Insert::new(&mut db, "INSERT id = 1 INTO t INTO t").err()), "t INTO t");
    assert_eq!(db.tables[0].records.len(), 0);
}

#[test]
fn insert_reports_a_record_that_cannot_be_read() {
    let mut db = database();
    let mut c = Insert::new(&mut db, "INSERT id = x INTO t").ok().unwrap();
    assert!(matches!(c.execute(&read_float), Err(CustomError::FieldParseError(_))));
    let mut c = Insert::new(&mut db, "INSERT name = x INTO t").ok().unwrap();
    assert!(matches!(c.execute(&read_float), Err(CustomError::MissingField(_))));
    assert_eq!(db.tables[0].records.len(), 0);
}

#[test]
fn delete_is_read_and_bound_to_its_table() {
    let mut db = database();
    assert!(Insert::new(&mut db, "INSERT id = 4 INTO t").ok().unwrap().execute(&read_float).is_ok());
    let mut c = Delete::new(&mut db, "DELETE  4  FROM  t").ok().unwrap();
    assert_eq!(c.key_string, "4");
    assert_eq!(c.serialize(), "DELETE 4 FROM t");
    assert_eq!(c.execute(&read_float).ok(), Some("Data deleted succesfully".to_string()));
    match c.execute(&read_float) {
        Err(CustomError::InvalidKey(key)) => assert_eq!(key, "4"),
        _ => panic!("the record is gone"),
    }
    assert_eq!(db.tables[0].records.len(), 0);
}

#[test]
fn delete_says_what_it_lacks() {
    let mut db = database();
    assert_eq!(keyword(Delete::new(&mut db, "REMOVE 1 FROM t").err()), "DELETE");
    assert_eq!(keyword(Delete::new(&mut db, " DELETE 1 FROM t").err()), "DELETE");
    assert_eq!(keyword(Delete::new(&mut db, "DELETE 1 t").err()), "FROM");
    assert_eq!(table(Delete::new(&mut db, "DELETE 1 FROM u").err()), "u");
    assert_eq!(table(Delete::new(&mut db, "DELETE 1 FROM").err()), "");
    let c = Delete::new(&mut db, "DELETE FROM t").ok().unwrap();
    assert_eq!(c.key_string, "");
}

#[test]
fn select_is_read_and_bound_to_its_table() {
    let mut db = database();
    for text in ["INSERT id = 1, name = a INTO t", "INSERT id = 2, name = b INTO t"] {
        assert!(Insert::new(&mut db, text).ok().unwrap().execute(&read_float).is_ok());
    }
    let mut c = Select::new(&mut db, "SELECT  name , id FROM t  WHERE  id > 1 ").ok().unwrap();
    assert_eq!(c.fields, vec!["name", "id"]);
    assert_eq!(c.cond_string, Some("id > 1".to_string()));
    assert_eq!(c.serialize(), "SELECT name, id FROM t WHERE id > 1");
    assert_eq!(c.execute(&read_float).ok(), Some("id=2, name=b".to_string()));
    let mut all = Select::new(&mut db, "SELECT id FROM t").ok().unwrap();
    assert_eq!(all.cond_string, None);
    assert_eq!(all.serialize(), "SELECT id FROM t");
    assert_eq!(all.execute(&read_float).ok(), Some("id=1 | id=2".to_string()));
    assert_eq!(db.tables[0].records.len(), 2);
}

#[test]
fn select_says_what_it_lacks() {
    let mut db = database();
    assert_eq!(keyword(Select::new(&mut db, "SHOW id FROM t").err()), "SELECT");
    assert_eq!(keyword(Select::new(&mut db, "SELECT id t").err()), "FROM");
    assert_eq!(table(Select::new(&mut db, "SELECT id FROM u").err()), "u");
    assert_eq!(table(Select::new(&mut db, "SELECT id FROM WHERE id = 1").err()), "");
    let mut empty = Select::new(&mut db, "SELECT id FROM t WHERE").ok().unwrap();
    assert_eq!(empty.cond_string, Some(String::new()));
    assert!(matches!(empty.execute(&read_float), Err(CustomError::ConditionParseError(_))));
}

#[test]
fn conditions_begin_after_the_table() {
    let mut db = database();
    let c = Select::new(&mut db, "SELECT a WHERE b FROM t WHERE c WHERE d").ok().unwrap();
    assert_eq!(c.fields, vec!["a WHERE b"]);
    assert_eq!(c.table.table_name, "t");
    assert_eq!(c.cond_string, Some("c WHERE d".to_string()));
}

#[test]
fn canonical_texts_spell_their_commands_again() {
    let mut db = database();
    let first = Create::new(&mut db, "CREATE  a  KEY k FIELDS  k : Int ,, v:String: x , k: INT")
        .ok()
        .unwrap()
        .serialize();
    assert_eq!(first, "CREATE a KEY k FIELDS k: INT, v: String ");
    assert_eq!(Create::new(&mut db, &first).ok().unwrap().serialize(), first);

    let first = Insert::new(&mut db, "INSERT\tid=1 ,  name = x y \n INTO\tt").ok().unwrap().serialize();
    assert_eq!(first, "INSERT id=1 ,  name = x y INTO t");
    assert_eq!(Insert::new(&mut db, &first).ok().unwrap().serialize(), first);

    let first = Delete::new(&mut db, "DELETE FROM t").ok().unwrap().serialize();
    assert_eq!(first, "DELETE  FROM t");
    assert_eq!(Delete::new(&mut db, &first).ok().unwrap().serialize(), first);

    let first = Select::new(&mut db, "SELECT , a ,,b FROM t WHERE").ok().unwrap().serialize();
    assert_eq!(first, "SELECT , a, , b FROM t WHERE ");
    let again = Select::new(&mut db, &first).ok().unwrap();
    assert_eq!(again.fields, vec!["", "a", "", "b"]);
    assert_eq!(again.cond_string, Some(String::new()));
}

#[test]
fn save_as_takes_the_history_as_it_stands() {
    let mut history = CommandHistory::new();
    history.push("first".to_string());
    history.push("second".to_string());
    let mut c = SaveAs::new("SAVE_AS  out.txt ", &mut history).ok().unwrap();
    assert_eq!(c.file_path, "out.txt");
    assert_eq!(c.lines(), vec!["first", "second"]);
    assert_eq!(keyword(SaveAs::new("SAVE out.txt", &mut history).err()), "SAVE_AS");
    assert_eq!(SaveAs::new("SAVE_AS", &mut history).ok().unwrap().file_path, "");
    assert_eq!(history.list().len(), 2);
}

#[test]
fn save_as_reports_how_the_writing_went() {
    assert_eq!(SaveAs::finish(Ok(())).ok(), Some("Data saved succesfully".to_string()));
    match SaveAs::finish(Err("disk full".to_string())) {
        Err(CustomError::IoError(text)) => assert_eq!(text, "disk full"),
        _ => panic!("the writing failed"),
    }
}

#[test]
fn read_from_names_its_file() {
    let mut db = database();
    let mut history = CommandHistory::new();
    let c = ReadFrom::new("READ_FROM in.txt", &mut history, &mut db).ok().unwrap();
    assert_eq!(c.file_path, "in.txt");
    assert_eq!(
        keyword(ReadFrom::new("READ in.txt", &mut history, &mut db).err()),
        "READ_FROM"
    );
    assert_eq!(ReadFrom::<i64>::finish(), "Data read succesfully");
}

#[test]
fn the_history_keeps_what_is_pushed_in_order() {
    let mut history = CommandHistory::new();
    assert!(history.list().is_empty());
    history.push("a".to_string());
    history.push("b".to_string());
    history.push("a".to_string());
    assert_eq!(history.list(), ["a", "b", "a"]);
}
