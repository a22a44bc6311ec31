use r_sql_database::custom_error::CustomError;
use r_sql_database::database::{AnyDatabase, Database, DatabaseKey, Record, Table, Value};
use r_sql_database::floats::FloatValue;
use r_sql_database::parsers::{parse_conditions, parse_fields, parse_fields_list};
use r_sql_database::text_map::TextMap;

fn read_float(s: &str) -> Option<FloatValue> {
    match s.parse::<f64>() {
        Ok(v) => Some(FloatValue { bits: v.to_bits(), text: v.to_string() }),
        Err(_) => None,
    }
}

fn fields(list: &str) -> TextMap<String> {
    parse_fields(list).ok().unwrap()
}

fn people() -> Database<i64> {
    let mut database: Database<i64> = Database::new();
    let created = database.create_table(
        "people".to_string(),
        "id".to_string(),
        fields("id: Int, name: String, age: Int, score: Float, member: Bool"),
    );
    assert!(created.is_ok());
    database
}

fn table(database: &mut Database<i64>) -> &mut Table<i64> {
    database.get_table_mut("people").ok().unwrap()
}

fn insert(database: &mut Database<i64>, text: &str) -> Result<(), CustomError> {
    let t = table(database);
    let record = t.parse_record(text, &read_float)?;
    t.add_record(record)
}

fn shown(records: &[Record]) -> Vec<String> {
    records.iter().map(|r| r.to_string()).collect()
}

fn names(list: &[&str]) -> Vec<String> {
    list.iter().map(|s| s.to_string()).collect()
}

#[test]
fn field_lists_are_read_in_order() {
    let f = fields(" id : Int ,name:String,, extra: a: b ");
    assert_eq!(f.len(), 3);
    assert_eq!(f.name_at(0), "id");
    assert_eq!(f.value_at(0), "Int");
    assert_eq!(f.name_at(1), "name");
    assert_eq!(f.value_at(1), "String");
    assert_eq!(f.name_at(2), "extra");
    assert_eq!(f.value_at(2), "a");
    assert_eq!(f.get(&"name".to_string()), Some(&"String".to_string()));
    assert_eq!(f.get(&"other".to_string()), None);
    assert!(f.contains_key(&"id".to_string()));
    assert_eq!(fields("").len(), 0);
    assert_eq!(fields(" , ,").len(), 0);
}

#[test]
fn a_field_declared_twice_keeps_its_place_and_takes_the_later_type() {
    let f = fields("a: Int, b: Bool, a: String");
    assert_eq!(f.len(), 2);
    assert_eq!(f.name_at(0), "a");
    assert_eq!(f.value_at(0), "String");
    assert_eq!(f.name_at(1), "b");
}

#[test]
fn a_field_without_a_type_fails_the_list() {
    match parse_fields("id: Int, name") {
        Err(CustomError::FieldParseError(part)) => assert_eq!(part, "name"),
        _ => panic!("the second field has no type"),
    }
}

#[test]
fn requested_names_are_trimmed() {
    assert_eq!(parse_fields_list(" a , b,c "), names(&["a", "b", "c"]));
    assert_eq!(parse_fields_list(""), names(&[""]));
    assert_eq!(parse_fields_list("a,,b"), names(&["a", "", "b"]));
}

#[test]
fn a_table_is_created_with_its_schema() {
    let database = people();
    assert_eq!(database.tables.len(), 1);
    let t = &database.tables[0];
    assert_eq!(t.table_name, "people");
    assert_eq!(t.key_field, "id");
    assert_eq!(t.fields.len(), 5);
    assert_eq!(t.fields.get(&"score".to_string()), Some(&"Float".to_string()));
    assert_eq!(t.records.len(), 0);
}

#[test]
fn the_type_of_the_key_field_is_compared_in_upper_case() {
    for declared in ["int", "INT", " Int ", "iNt"] {
        let mut database: Database<i64> = Database::new();
        let list = format!("id: {}", declared);
        assert!(database.create_table("t".to_string(), "id".to_string(), fields(&list)).is_ok());
        assert_eq!(database.tables.len(), 1);
    }
    for declared in ["string", "STRING", "String"] {
        let mut database: Database<String> = Database::new();
        let list = format!("id: {}", declared);
        assert!(database.create_table("t".to_string(), "id".to_string(), fields(&list)).is_ok());
    }
}

#[test]
fn a_key_field_of_another_type_is_refused() {
    for declared in ["String", "Float", "Bool", "Integer", ""] {
        let mut database: Database<i64> = Database::new();
        let list = format!("id: {}, name: String", declared);
        let r = database.create_table("t".to_string(), "id".to_string(), fields(&list));
        assert!(matches!(r, Err(CustomError::WrongKeyType())));
        assert_eq!(database.tables.len(), 0);
    }
    let mut database: Database<String> = Database::new();
    let r = database.create_table("t".to_string(), "id".to_string(), fields("id: Int"));
    assert!(matches!(r, Err(CustomError::WrongKeyType())));
    assert_eq!(database.tables.len(), 0);
}

#[test]
fn a_key_field_that_is_not_declared_is_refused() {
    let mut database: Database<i64> = Database::new();
    let r = database.create_table("t".to_string(), "id".to_string(), fields("name: String"));
    assert!(matches!(r, Err(CustomError::WrongKeyType())));
    assert_eq!(database.tables.len(), 0);
}

#[test]
fn a_table_name_is_taken_once() {
    let mut database = people();
    let r = database.create_table("people".to_string(), "id".to_string(), fields("id: Int"));
    match r {
        Err(CustomError::TableAlreadyExists(name)) => assert_eq!(name, "people"),
        _ => panic!("the name is taken"),
    }
    assert_eq!(database.tables.len(), 1);
    assert_eq!(database.tables[0].fields.len(), 5);
    assert!(database.create_table("pets".to_string(), "id".to_string(), fields("id: Int")).is_ok());
    assert_eq!(database.tables.len(), 2);
}

#[test]
fn a_taken_name_is_reported_before_a_wrong_key_type() {
    let mut database = people();
    let r = database.create_table("people".to_string(), "id".to_string(), fields("id: Bool"));
    assert!(matches!(r, Err(CustomError::TableAlreadyExists(_))));
}

#[test]
fn a_missing_table_is_reported() {
    let mut database = people();
    match database.get_table_mut("pets") {
        Err(CustomError::TableNotFound(name)) => assert_eq!(name, "pets"),
        _ => panic!("there is no such table"),
    }
}

#[test]
fn records_are_read_field_by_field() {
    let mut database = people();
    let record = table(&mut database)
        .parse_record("id = 7, name = Ann Lee , member = true, score = 2.50, age = -3", &read_float)
        .ok()
        .unwrap();
    assert_eq!(record.to_string(), "id=7, name=Ann Lee, member=true, score=2.5, age=-3");
    assert!(record.values.get(&"id".to_string()) == Some(&Value::Int(7)));
    assert!(record.values.get(&"member".to_string()) == Some(&Value::Bool(true)));
}

#[test]
fn a_field_given_twice_takes_the_later_value() {
    let mut database = people();
    let record = table(&mut database).parse_record("id = 1, age = 2, id = 3", &read_float).ok().unwrap();
    assert_eq!(record.to_string(), "id=3, age=2");
}

#[test]
fn empty_pieces_of_a_record_are_passed_over() {
    let mut database = people();
    let record = table(&mut database).parse_record(", id = 1, ,", &read_float).ok().unwrap();
    assert_eq!(record.to_string(), "id=1");
    let empty = table(&mut database).parse_record("", &read_float).ok().unwrap();
    assert_eq!(empty.to_string(), "");
}

#[test]
fn a_record_that_cannot_be_read_is_refused_whole() {
    let mut database = people();
    let t = table(&mut database);
    match t.parse_record("id = 1, name", &read_float) {
        Err(CustomError::FieldParseError(part)) => assert_eq!(part, "name"),
        _ => panic!("the second piece has no value"),
    }
    match t.parse_record("id = 1, colour = red", &read_float) {
        Err(CustomError::FieldParseError(name)) => assert_eq!(name, "colour "),
        _ => panic!("the field is not declared"),
    }
    match t.parse_record("id = one", &read_float) {
        Err(CustomError::FieldParseError(name)) => assert_eq!(name, "id "),
        _ => panic!("the value is no integer"),
    }
    match t.parse_record("id = 1, score = high", &read_float) {
        Err(CustomError::FieldParseError(name)) => assert_eq!(name, "score "),
        _ => panic!("the value is no number"),
    }
    match t.parse_record("id = 1, member = yes", &read_float) {
        Err(CustomError::FieldParseError(name)) => assert_eq!(name, "member "),
        _ => panic!("the value is no truth value"),
    }
}

#[test]
fn a_record_needs_its_key() {
    let mut database = people();
    match insert(&mut database, "name = Ann") {
        Err(CustomError::MissingField(name)) => assert_eq!(name, "id"),
        _ => panic!("the record has no key"),
    }
    assert_eq!(table(&mut database).records.len(), 0);
}

#[test]
fn a_key_of_the_wrong_kind_is_refused() {
    let mut database: Database<String> = Database::new();
    assert!(
        database
            .create_table("t".to_string(), "id".to_string(), fields("id: String, n: Int"))
            .is_ok()
    );
    let t = database.get_table_mut("t").ok().unwrap();
    let mut record = Record::new();
    record.values.insert("id".to_string(), Value::Int(12));
    match t.add_record(record) {
        Err(CustomError::ValueParseError(text)) => assert_eq!(text, "12"),
        _ => panic!("the key is no text"),
    }
    assert_eq!(t.records.len(), 0);
}

#[test]
fn a_key_is_stored_once() {
    let mut database = people();
    assert!(insert(&mut database, "id = 1, name = Ann").is_ok());
    match insert(&mut database, "id = 1, name = Bob") {
        Err(CustomError::RecordAlreadyExists(record)) => assert_eq!(record, "id=1, name=Bob"),
        _ => panic!("the key is taken"),
    }
    let t = table(&mut database);
    assert_eq!(t.records.len(), 1);
    assert_eq!(t.records[0].1.to_string(), "id=1, name=Ann");
}

#[test]
fn records_stand_in_the_order_of_their_keys() {
    let mut database = people();
    for id in [5, -2, 9, 0, 3] {
        assert!(insert(&mut database, &format!("id = {}", id)).is_ok());
    }
    let keys: Vec<i64> = table(&mut database).records.iter().map(|r| r.0).collect();
    assert_eq!(keys, vec![-2, 0, 3, 5, 9]);

    let mut words: Database<String> = Database::new();
    assert!(words.create_table("w".to_string(), "k".to_string(), fields("k: String")).is_ok());
    let t = words.get_table_mut("w").ok().unwrap();
    for k in ["pear", "apple", "Zoo", "app", ""] {
        let record = t.parse_record(&format!("k = {}", k), &read_float).ok().unwrap();
        assert!(t.add_record(record).is_ok());
    }
    let keys: Vec<String> = t.records.iter().map(|r| r.0.clone()).collect();
    assert_eq!(keys, vec!["", "Zoo", "app", "apple", "pear"]);
}

#[test]
fn a_record_is_removed_by_its_key() {
    let mut database = people();
    for id in [1, 2, 3] {
        assert!(insert(&mut database, &format!("id = {}", id)).is_ok());
    }
    let t = table(&mut database);
    assert!(t.remove_record("2", &read_float).is_ok());
    let keys: Vec<i64> = t.records.iter().map(|r| r.0).collect();
    assert_eq!(keys, vec![1, 3]);
    match t.remove_record("2", &read_float) {
        Err(CustomError::InvalidKey(key)) => assert_eq!(key, "2"),
        _ => panic!("the record is gone"),
    }
    match t.remove_record("two", &read_float) {
        Err(CustomError::InvalidKey(key)) => assert_eq!(key, "two"),
        _ => panic!("the text names no key"),
    }
    assert_eq!(t.records.len(), 2);
}

#[test]
fn a_removed_key_can_be_stored_again() {
    let mut database = people();
    assert!(insert(&mut database, "id = 1, name = Ann").is_ok());
    assert!(table(&mut database).remove_record("1", &read_float).is_ok());
    assert!(insert(&mut database, "id = 1, name = Bob").is_ok());
    assert_eq!(table(&mut database).records[0].1.to_string(), "id=1, name=Bob");
}

fn filled() -> Database<i64> {
    let mut database = people();
    for text in [
        "id = 1, name = Ann, age = 30, score = 1.5, member = true",
        "id = 2, name = Bob, age = 40, score = 2.5, member = false",
        "id = 3, name = Cid, age = 50",
    ] {
        assert!(insert(&mut database, text).is_ok());
    }
    database
}

#[test]
fn without_conditions_every_record_is_selected() {
    let mut database = filled();
    let records = table(&mut database)
        .select_records(names(&["name", "id"]), None, &read_float)
        .ok()
        .unwrap();
    assert_eq!(shown(&records), vec!["id=1, name=Ann", "id=2, name=Bob", "id=3, name=Cid"]);
}

#[test]
fn only_requested_fields_are_shown_and_missing_ones_left_out() {
    let mut database = filled();
    let records = table(&mut database)
        .select_records(names(&["score", "nothing", "name"]), None, &read_float)
        .ok()
        .unwrap();
    assert_eq!(shown(&records), vec!["name=Ann, score=1.5", "name=Bob, score=2.5", "name=Cid"]);
    let none = table(&mut database).select_records(names(&[""]), None, &read_float).ok().unwrap();
    assert_eq!(shown(&none), vec!["", "", ""]);
}

#[test]
fn one_satisfied_condition_is_enough() {
    let mut database = filled();
    let records = table(&mut database)
        .select_records(
            names(&["id"]),
            Some("name = Ann, age = 40".to_string()),
            &read_float,
        )
        .ok()
        .unwrap();
    assert_eq!(shown(&records), vec!["id=1", "id=2"]);
    let records = table(&mut database)
        .select_records(names(&["id"]), Some("name = Ann, age = 31".to_string()), &read_float)
        .ok()
        .unwrap();
    assert_eq!(shown(&records), vec!["id=1"]);
}

#[test]
fn conditions_compare_by_the_type_of_the_field() {
    let mut database = filled();
    let t = table(&mut database);
    let select = |t: &mut Table<i64>, c: &str| -> Vec<String> {
        shown(&t.select_records(names(&["id"]), Some(c.to_string()), &read_float).ok().unwrap())
    };
    assert_eq!(select(t, "age > 30"), vec!["id=2", "id=3"]);
    assert_eq!(select(t, "age >= 30"), vec!["id=1", "id=2", "id=3"]);
    assert_eq!(select(t, "age < 30"), Vec::<String>::new());
    assert_eq!(select(t, "age <= 30"), vec!["id=1"]);
    assert_eq!(select(t, "age != 30"), vec!["id=2", "id=3"]);
    assert_eq!(select(t, "score < 2"), vec!["id=1"]);
    assert_eq!(select(t, "score = 2.50"), vec!["id=2"]);
    assert_eq!(select(t, "score != 1.5"), vec!["id=2"]);
    assert_eq!(select(t, "name < Bob"), vec!["id=1"]);
    assert_eq!(select(t, "name >= Bob"), vec!["id=2", "id=3"]);
    assert_eq!(select(t, "member = true"), vec!["id=1"]);
    assert_eq!(select(t, "member != true"), vec!["id=2"]);
    assert_eq!(select(t, "member < true"), Vec::<String>::new());
    assert_eq!(select(t, "  id   =   3  "), vec!["id=3"]);
}

#[test]
fn conditions_that_cannot_be_read_fail_the_selection() {
    let mut database = filled();
    let t = table(&mut database);
    let failure = |t: &mut Table<i64>, c: &str| -> String {
        match t.select_records(names(&["id"]), Some(c.to_string()), &read_float) {
            Err(CustomError::ConditionParseError(text)) => text,
            _ => panic!("the conditions cannot be read"),
        }
    };
    assert_eq!(failure(t, ""), "Invalid condition format");
    assert_eq!(failure(t, "age >"), "Invalid condition format");
    assert_eq!(failure(t, "age > 1 2"), "Invalid condition format");
    assert_eq!(failure(t, "age > 1,"), "Invalid condition format");
    assert_eq!(failure(t, "age => 1"), "Unknown operator");
    assert_eq!(failure(t, "colour = red"), "Field not found");
    assert_eq!(failure(t, "colour => red"), "Unknown operator");
    assert_eq!(failure(t, "age = old"), "Failed to parse value for condition");
    assert_eq!(failure(t, "age = 1, colour = red"), "Field not found");
}

#[test]
fn conditions_are_read_in_order() {
    let f = fields("age: Int, name: String");
    let c = parse_conditions("age > 1, name != x", &f, &read_float).ok().unwrap();
    assert_eq!(c.len(), 2);
    assert_eq!(c[0].field_name, "age");
    assert!(c[0].value == Value::Int(1));
    assert_eq!(c[1].field_name, "name");
    assert!(c[1].value == Value::String("x".to_string()));
}

#[test]
fn keys_offer_what_a_table_needs() {
    assert_eq!(<i64 as DatabaseKey>::key_type_name(), "INT");
    assert_eq!(<String as DatabaseKey>::key_type_name(), "STRING");
    assert_eq!(5i64.to_string_2(), "5");
    assert_eq!("ab".to_string().to_string_2(), "ab");
    assert!(3i64.is_equal_to(&3) && !3i64.is_equal_to(&4));
    assert!(3i64.is_less_than(&4) && !4i64.is_less_than(&4));
    assert!("a".to_string().is_less_than(&"b".to_string()));
    assert_eq!(<i64 as DatabaseKey>::from_value(&Value::Int(9)).ok(), Some(9));
    match <i64 as DatabaseKey>::from_value(&Value::Bool(true)) {
        Err(CustomError::ValueParseError(text)) => assert_eq!(text, "true"),
        _ => panic!("a truth value is no integer key"),
    }
    assert_eq!(
        <String as DatabaseKey>::from_value(&Value::String("k".to_string())).ok(),
        Some("k".to_string())
    );
    assert!(<String as DatabaseKey>::from_value(&Value::Int(1)).is_err());
}

#[test]
fn a_database_of_either_kind_names_its_tables_and_types() {
    let any = AnyDatabase::IntDatabase(filled());
    assert_eq!(any.get_table_names(), vec!["people"]);
    assert_eq!(any.get_possible_types(), vec!["Int", "String", "Float", "Bool"]);
    assert_eq!(any.get_key_type(), "Int");
    let any = AnyDatabase::StringDatabase(Database::new());
    assert!(any.get_table_names().is_empty());
    assert_eq!(any.get_key_type(), "String");
}

#[test]
fn a_record_is_built_from_values() {
    let mut values: TextMap<Value> = TextMap::new();
    values.insert("b".to_string(), Value::Bool(false));
    values.insert("a".to_string(), Value::Int(1));
    values.insert("b".to_string(), Value::Bool(true));
    let record = Record::with_values(values);
    assert_eq!(record.to_string(), "b=true, a=1");
    assert_eq!(record.clone().to_string(), "b=true, a=1");
    assert_eq!(Record::new().to_string(), "");
}
