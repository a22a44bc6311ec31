//! The commands: how each is read from its text, what it does, and the
//! canonical text under which it enters the history.

use crate::command_history::CommandHistory;
use crate::custom_error::{text_result, CustomError, ErrorView};
use crate::database::{
    database_create, has_table, lemma_table_index, record_of_text, record_text, record_views,
    table_add, table_index, table_remove, table_select, text_view, Database, DatabaseKey,
    DatabaseView, Record, RecordView, Table, TableView,
};
use crate::floats::{is_reader, readings, FloatValue, Readings};
use crate::parsers::{fields_of_text, names_of_text, parse_fields, parse_fields_list, texts};
use crate::text::{
    append, cut, cut_at, join, joined, strip_prefix, to_chars, to_text, trim, trimmed, views,
    without_prefix,
};
use crate::text_map::{Entries, TextMap};
use vstd::prelude::*;
use vstd::string::*;

verus! {

/// A command that can be carried out.
pub trait Command {
    /// What the command needs to find in order before it is carried out.
    spec fn ready(&self) -> bool;

    /// Carries the command out and says how it went.
    fn execute<F: Fn(&str) -> Option<FloatValue>>(&mut self, reader: &F) -> (r: Result<
        String,
        CustomError,
    >)
        requires
            old(self).ready(),
            is_reader(reader),
    ;
}

/// A command that has a canonical text.
pub trait Serialize {
    /// The canonical text of the command.
    fn serialize(&mut self) -> (r: String);
}

/// `CREATE <table> KEY <key_field> FIELDS <name: TYPE, ...>`
pub struct Create<'a, K: DatabaseKey> {
    pub database: &'a mut Database<K>,
    pub name: String,
    pub key_field: String,
    pub fields: TextMap<String>,
}

/// A `CREATE` command as the contracts see it.
pub ghost struct CreateView {
    pub name: Seq<char>,
    pub key_field: Seq<char>,
    pub fields: Entries<Seq<char>>,
}

impl<'a, K: DatabaseKey> View for Create<'a, K> {
    type V = CreateView;

    open spec fn view(&self) -> CreateView {
        CreateView { name: self.name@, key_field: self.key_field@, fields: self.fields@ }
    }
}

/// The `CREATE` command that a text spells, or what it lacks.
pub open spec fn create_of_text(input: Seq<char>) -> Result<CreateView, ErrorView> {
    match strip_prefix(input, "CREATE"@) {
        None => Err(ErrorView::MissingKeyword("CREATE"@)),
        Some(rest) => match cut(rest, "KEY"@) {
            None => Err(ErrorView::MissingKeyword("KEY"@)),
            Some((name, tail)) => if trim(name).len() == 0 {
                Err(ErrorView::MissingField("Table name"@))
            } else {
                match cut(tail, "FIELDS"@) {
                    None => Err(ErrorView::MissingKeyword("FIELDS"@)),
                    Some((key_field, list)) => if trim(key_field).len() == 0 {
                        Err(ErrorView::MissingField("Key field"@))
                    } else {
                        match fields_of_text(trim(list)) {
                            Err(e) => Err(e),
                            Ok(fields) => Ok(
                                CreateView { name: trim(name), key_field: trim(key_field), fields },
                            ),
                        }
                    },
                }
            },
        },
    }
}

/// The text that shows one declared field: its name, `: `, its type.
pub open spec fn field_text(e: (Seq<char>, Seq<char>)) -> Seq<char> {
    e.0 + ": "@ + e.1
}

/// The canonical text of a `CREATE` command.
pub open spec fn create_text(c: CreateView) -> Seq<char> {
    "CREATE "@ + c.name + " KEY "@ + c.key_field + " FIELDS "@ + join(
        c.fields.map_values(|e: (Seq<char>, Seq<char>)| field_text(e)),
        ", "@,
    ) + " "@
}

/// What carrying out a `CREATE` command makes of the database and what
/// it reports.
pub open spec fn run_create(db: DatabaseView, c: CreateView, text_keys: bool) -> (
    DatabaseView,
    Result<Seq<char>, ErrorView>,
) {
    match database_create(db, c.name, c.key_field, c.fields, text_keys) {
        Ok(after) => (after, Ok("Table created succesfully"@)),
        Err(e) => (db, Err(e)),
    }
}

impl<'a, K: DatabaseKey> Create<'a, K> {
    /// Reads a `CREATE` command for `database`.
    pub fn new(database: &'a mut Database<K>, input: &str) -> (r: Result<Self, CustomError>)
        ensures
            match r {
                Ok(c) => {
                    &&& create_of_text(input@) == Ok::<CreateView, ErrorView>(c@)
                    &&& c.fields.wf()
                    &&& *c.database == *old(database)
                    &&& *final(c.database) == *final(database)
                },
                Err(e) => {
                    &&& create_of_text(input@) == Err::<CreateView, ErrorView>(e@)
                    &&& *final(database) == *old(database)
                },
            },
    {
        let text: Vec<char> = to_chars(input);
        let rest: Vec<char> = match without_prefix(&text, "CREATE") {
            Some(rest) => rest,
            None => {
                return Err(CustomError::MissingKeyword(String::from_str("CREATE")));
            },
        };
        let (name, tail) = match cut_at(&rest, "KEY") {
            Some(pair) => pair,
            None => {
                return Err(CustomError::MissingKeyword(String::from_str("KEY")));
            },
        };
        let name: Vec<char> = trimmed(&name);
        if name.len() == 0 {
            return Err(CustomError::MissingField(String::from_str("Table name")));
        }
        let (key_field, list) = match cut_at(&tail, "FIELDS") {
            Some(pair) => pair,
            None => {
                return Err(CustomError::MissingKeyword(String::from_str("FIELDS")));
            },
        };
        let key_field: Vec<char> = trimmed(&key_field);
        if key_field.len() == 0 {
            return Err(CustomError::MissingField(String::from_str("Key field")));
        }
        let fields: TextMap<String> = match parse_fields(to_text(&trimmed(&list)).as_str()) {
            Ok(fields) => fields,
            Err(e) => {
                return Err(e);
            },
        };
        Ok(Create { database, name: to_text(&name), key_field: to_text(&key_field), fields })
    }
}

impl<'a, K: DatabaseKey> Command for Create<'a, K> {
    open spec fn ready(&self) -> bool {
        self.database.wf() && self.fields.wf()
    }

    /// Creates the table. The database is left as it is where that fails.
    fn execute<F: Fn(&str) -> Option<FloatValue>>(&mut self, reader: &F) -> (r: Result<
        String,
        CustomError,
    >)
        ensures
            final(self)@ == old(self)@,
            final(self).ready(),
            *final(final(self).database) == *final(old(self).database),
            (final(self).database@, text_result(r)) == run_create(
                old(self).database@,
                old(self)@,
                K::text_keys(),
            ),
    {
        match self.database.create_table(
            self.name.clone(),
            self.key_field.clone(),
            duplicate(&self.fields),
        ) {
            Ok(_) => Ok(String::from_str("Table created succesfully")),
            Err(e) => Err(e),
        }
    }
}

/// A copy of a map from names to texts.
pub fn duplicate(fields: &TextMap<String>) -> (r: TextMap<String>)
    ensures
        r@ == fields@,
{
    let mut r: TextMap<String> = TextMap { entries: Vec::new() };
    let mut i: usize = 0;
    while i < fields.len()
        invariant
            i <= fields@.len(),
            r.entries@.len() == i,
            r@ == fields@.subrange(0, i as int),
        decreases fields@.len() - i,
    {
        let ghost before = r@;
        let name: String = fields.name_at(i).clone();
        let value: String = fields.value_at(i).clone();
        r.entries.push((name, value));
        proof {
            assert forall|j: int| 0 <= j < i + 1 implies r@[j] == fields@[j] by {
                if j < i {
                    assert(r@[j] == before[j]);
                }
            }
        }
        i += 1;
    }
    r
}

impl<'a, K: DatabaseKey> Serialize for Create<'a, K> {
    fn serialize(&mut self) -> (r: String)
        ensures
            *final(self) == *old(self),
            r@ == create_text(old(self)@),
    {
        let mut parts: Vec<Vec<char>> = Vec::new();
        let mut i: usize = 0;
        let ghost shown = self@.fields.map_values(|e: (Seq<char>, Seq<char>)| field_text(e));
        while i < self.fields.len()
            invariant
                i <= self@.fields.len(),
                *self == *old(self),
                shown == self@.fields.map_values(|e: (Seq<char>, Seq<char>)| field_text(e)),
                parts@.len() == i,
                views(parts@) == shown.subrange(0, i as int),
            decreases self@.fields.len() - i,
        {
            let mut part: Vec<char> = to_chars(self.fields.name_at(i).as_str());
            append(&mut part, &to_chars(": "));
            append(&mut part, &to_chars(self.fields.value_at(i).as_str()));
            proof {
                let next = parts@.push(part);
                assert forall|j: int| 0 <= j < i + 1 implies views(next)[j] == shown[j] by {
                    if j < i {
                        assert(views(parts@)[j] == shown.subrange(0, i as int)[j]);
                    }
                }
            }
            parts.push(part);
            i += 1;
        }
        assert(shown.subrange(0, shown.len() as int) =~= shown);
        let mut r: String = String::from_str("CREATE ");
        r.append(self.name.as_str());
        r.append(" KEY ");
        r.append(self.key_field.as_str());
        r.append(" FIELDS ");
        r.append(to_text(&joined(&parts, &to_chars(", "))).as_str());
        r.append(" ");
        r
    }
}

/// `INSERT <name = value, ...> INTO <table>`
pub struct Insert<'a, K: DatabaseKey> {
    pub table: &'a mut Table<K>,
    pub record_string: String,
}

/// An `INSERT` command as the contracts see it: the name of its table
/// and the text of its record.
pub ghost struct InsertView {
    pub table_name: Seq<char>,
    pub record_string: Seq<char>,
}

impl<'a, K: DatabaseKey> View for Insert<'a, K> {
    type V = InsertView;

    open spec fn view(&self) -> InsertView {
        InsertView { table_name: self.table.table_name@, record_string: self.record_string@ }
    }
}

/// The `INSERT` command that a text spells, or what it lacks.
pub open spec fn insert_of_text(input: Seq<char>) -> Result<InsertView, ErrorView> {
    match strip_prefix(input, "INSERT"@) {
        None => Err(ErrorView::MissingKeyword("INSERT"@)),
        Some(rest) => match cut(rest, "INTO"@) {
            None => Err(ErrorView::MissingKeyword("INTO"@)),
            Some((record, name)) => if trim(record).len() == 0 {
                Err(ErrorView::MissingField("Record data"@))
            } else if trim(name).len() == 0 {
                Err(ErrorView::MissingField("Table name"@))
            } else {
                Ok(InsertView { table_name: trim(name), record_string: trim(record) })
            },
        },
    }
}

/// The `INSERT` command that a text spells for the database `db`:
/// `TableNotFound` where `db` has no table of the name that it gives.
pub open spec fn insert_for(db: DatabaseView, input: Seq<char>) -> Result<InsertView, ErrorView> {
    match insert_of_text(input) {
        Err(e) => Err(e),
        Ok(c) => if has_table(db, c.table_name) {
            Ok(c)
        } else {
            Err(ErrorView::TableNotFound(c.table_name))
        },
    }
}

/// The canonical text of an `INSERT` command.
pub open spec fn insert_text(c: InsertView) -> Seq<char> {
    "INSERT "@ + c.record_string + " INTO "@ + c.table_name
}

/// What carrying out an `INSERT` command makes of its table and what it
/// reports.
pub open spec fn run_insert(
    t: TableView,
    record_string: Seq<char>,
    floats: Readings,
    text_keys: bool,
) -> (TableView, Result<Seq<char>, ErrorView>) {
    match record_of_text(record_string, t.fields, floats) {
        Err(e) => (t, Err(e)),
        Ok(rec) => match table_add(t, rec, text_keys) {
            Ok(after) => (after, Ok("Data inserted succesfully"@)),
            Err(e) => (t, Err(e)),
        },
    }
}

impl<'a, K: DatabaseKey> Insert<'a, K> {
    /// Reads an `INSERT` command and binds it to its table in `database`.
    pub fn new(database: &'a mut Database<K>, input: &str) -> (r: Result<Self, CustomError>)
        ensures
            match r {
                Ok(c) => {
                    let i = table_index(old(database)@, c@.table_name);
                    &&& insert_for(old(database)@, input@) == Ok::<InsertView, ErrorView>(c@)
                    &&& *c.table == old(database).tables@[i]
                    &&& final(database).tables@ == old(database).tables@.update(
                        i,
                        *final(c.table),
                    )
                },
                Err(e) => {
                    &&& insert_for(old(database)@, input@) == Err::<InsertView, ErrorView>(e@)
                    &&& *final(database) == *old(database)
                },
            },
    {
        let text: Vec<char> = to_chars(input);
        let rest: Vec<char> = match without_prefix(&text, "INSERT") {
            Some(rest) => rest,
            None => {
                return Err(CustomError::MissingKeyword(String::from_str("INSERT")));
            },
        };
        let (record, name) = match cut_at(&rest, "INTO") {
            Some(pair) => pair,
            None => {
                return Err(CustomError::MissingKeyword(String::from_str("INTO")));
            },
        };
        let record: Vec<char> = trimmed(&record);
        if record.len() == 0 {
            return Err(CustomError::MissingField(String::from_str("Record data")));
        }
        let name: Vec<char> = trimmed(&name);
        if name.len() == 0 {
            return Err(CustomError::MissingField(String::from_str("Table name")));
        }
        let table_name: String = to_text(&name);
        proof {
            lemma_table_index(database@, table_name@);
        }
        match database.get_table_mut(table_name.as_str()) {
            Ok(table) => Ok(Insert { table, record_string: to_text(&record) }),
            Err(e) => Err(e),
        }
    }
}

impl<'a, K: DatabaseKey> Command for Insert<'a, K> {
    open spec fn ready(&self) -> bool {
        self.table.wf()
    }

    /// Reads the record and stores it. The table is left as it is where
    /// that fails.
    fn execute<F: Fn(&str) -> Option<FloatValue>>(&mut self, reader: &F) -> (r: Result<
        String,
        CustomError,
    >)
        ensures
            final(self)@ == old(self)@,
            final(self).ready(),
            *final(final(self).table) == *final(old(self).table),
            (final(self).table@, text_result(r)) == run_insert(
                old(self).table@,
                old(self).record_string@,
                readings(reader),
                K::text_keys(),
            ),
    {
        let record: Record = match self.table.parse_record(self.record_string.as_str(), reader) {
            Ok(record) => record,
            Err(e) => {
                return Err(e);
            },
        };
        match self.table.add_record(record) {
            Ok(_) => Ok(String::from_str("Data inserted succesfully")),
            Err(e) => Err(e),
        }
    }
}

impl<'a, K: DatabaseKey> Serialize for Insert<'a, K> {
    fn serialize(&mut self) -> (r: String)
        ensures
            *final(self) == *old(self),
            r@ == insert_text(old(self)@),
    {
        let mut r: String = String::from_str("INSERT ");
        r.append(self.record_string.as_str());
        r.append(" INTO ");
        r.append(self.table.table_name.as_str());
        r
    }
}

/// `DELETE <key_literal> FROM <table>`
pub struct Delete<'a, K: DatabaseKey> {
    pub table: &'a mut Table<K>,
    pub key_string: String,
}

/// A `DELETE` command as the contracts see it: the name of its table
/// and the text of its key.
pub ghost struct DeleteView {
    pub table_name: Seq<char>,
    pub key_string: Seq<char>,
}

impl<'a, K: DatabaseKey> View for Delete<'a, K> {
    type V = DeleteView;

    open spec fn view(&self) -> DeleteView {
        DeleteView { table_name: self.table.table_name@, key_string: self.key_string@ }
    }
}

/// The `DELETE` command that a text spells, or what it lacks.
pub open spec fn delete_of_text(input: Seq<char>) -> Result<DeleteView, ErrorView> {
    match strip_prefix(input, "DELETE"@) {
        None => Err(ErrorView::MissingKeyword("DELETE"@)),
        Some(rest) => match cut(rest, "FROM"@) {
            None => Err(ErrorView::MissingKeyword("FROM"@)),
            Some((key, name)) => Ok(DeleteView { table_name: trim(name), key_string: trim(key) }),
        },
    }
}

/// The `DELETE` command that a text spells for the database `db`:
/// `TableNotFound` where `db` has no table of the name that it gives.
pub open spec fn delete_for(db: DatabaseView, input: Seq<char>) -> Result<DeleteView, ErrorView> {
    match delete_of_text(input) {
        Err(e) => Err(e),
        Ok(c) => if has_table(db, c.table_name) {
            Ok(c)
        } else {
            Err(ErrorView::TableNotFound(c.table_name))
        },
    }
}

/// The canonical text of a `DELETE` command.
pub open spec fn delete_text(c: DeleteView) -> Seq<char> {
    "DELETE "@ + c.key_string + " FROM "@ + c.table_name
}

/// What carrying out a `DELETE` command makes of its table and what it
/// reports.
pub open spec fn run_delete(
    t: TableView,
    key_string: Seq<char>,
    floats: Readings,
    text_keys: bool,
) -> (TableView, Result<Seq<char>, ErrorView>) {
    match table_remove(t, key_string, floats, text_keys) {
        Ok(after) => (after, Ok("Data deleted succesfully"@)),
        Err(e) => (t, Err(e)),
    }
}

impl<'a, K: DatabaseKey> Delete<'a, K> {
    /// Reads a `DELETE` command and binds it to its table in `database`.
    pub fn new(database: &'a mut Database<K>, input: &str) -> (r: Result<Self, CustomError>)
        ensures
            match r {
                Ok(c) => {
                    let i = table_index(old(database)@, c@.table_name);
                    &&& delete_for(old(database)@, input@) == Ok::<DeleteView, ErrorView>(c@)
                    &&& *c.table == old(database).tables@[i]
                    &&& final(database).tables@ == old(database).tables@.update(
                        i,
                        *final(c.table),
                    )
                },
                Err(e) => {
                    &&& delete_for(old(database)@, input@) == Err::<DeleteView, ErrorView>(e@)
                    &&& *final(database) == *old(database)
                },
            },
    {
        let text: Vec<char> = to_chars(input);
        let rest: Vec<char> = match without_prefix(&text, "DELETE") {
            Some(rest) => rest,
            None => {
                return Err(CustomError::MissingKeyword(String::from_str("DELETE")));
            },
        };
        let (key, name) = match cut_at(&rest, "FROM") {
            Some(pair) => pair,
            None => {
                return Err(CustomError::MissingKeyword(String::from_str("FROM")));
            },
        };
        let table_name: String = to_text(&trimmed(&name));
        proof {
            lemma_table_index(database@, table_name@);
        }
        match database.get_table_mut(table_name.as_str()) {
            Ok(table) => Ok(Delete { table, key_string: to_text(&trimmed(&key)) }),
            Err(e) => Err(e),
        }
    }
}

impl<'a, K: DatabaseKey> Command for Delete<'a, K> {
    open spec fn ready(&self) -> bool {
        self.table.wf()
    }

    /// Removes the record. The table is left as it is where that fails.
    fn execute<F: Fn(&str) -> Option<FloatValue>>(&mut self, reader: &F) -> (r: Result<
        String,
        CustomError,
    >)
        ensures
            final(self)@ == old(self)@,
            final(self).ready(),
            *final(final(self).table) == *final(old(self).table),
            (final(self).table@, text_result(r)) == run_delete(
                old(self).table@,
                old(self).key_string@,
                readings(reader),
                K::text_keys(),
            ),
    {
        match self.table.remove_record(self.key_string.as_str(), reader) {
            Ok(_) => Ok(String::from_str("Data deleted succesfully")),
            Err(e) => Err(e),
        }
    }
}

impl<'a, K: DatabaseKey> Serialize for Delete<'a, K> {
    fn serialize(&mut self) -> (r: String)
        ensures
            *final(self) == *old(self),
            r@ == delete_text(old(self)@),
    {
        let mut r: String = String::from_str("DELETE ");
        r.append(self.key_string.as_str());
        r.append(" FROM ");
        r.append(self.table.table_name.as_str());
        r
    }
}

/// `SELECT <field, ...> FROM <table> [WHERE <field op value, ...>]`
pub struct Select<'a, K: DatabaseKey> {
    pub table: &'a mut Table<K>,
    pub fields: Vec<String>,
    pub cond_string: Option<String>,
}

/// A `SELECT` command as the contracts see it: the name of its table,
/// the requested fields and the text of its conditions, if it has any.
pub ghost struct SelectView {
    pub table_name: Seq<char>,
    pub fields: Seq<Seq<char>>,
    pub cond_string: Option<Seq<char>>,
}

impl<'a, K: DatabaseKey> View for Select<'a, K> {
    type V = SelectView;

    open spec fn view(&self) -> SelectView {
        SelectView {
            table_name: self.table.table_name@,
            fields: texts(self.fields@),
            cond_string: text_view(self.cond_string),
        }
    }
}

/// The `SELECT` command that a text spells, or what it lacks. The
/// conditions begin after the first `WHERE` that follows `FROM`.
pub open spec fn select_of_text(input: Seq<char>) -> Result<SelectView, ErrorView> {
    match strip_prefix(input, "SELECT"@) {
        None => Err(ErrorView::MissingKeyword("SELECT"@)),
        Some(rest) => match cut(rest, "FROM"@) {
            None => Err(ErrorView::MissingKeyword("FROM"@)),
            Some((list, tail)) => match cut(tail, "WHERE"@) {
                Some((name, conditions)) => Ok(
                    SelectView {
                        table_name: trim(name),
                        fields: names_of_text(trim(list)),
                        cond_string: Some(trim(conditions)),
                    },
                ),
                None => Ok(
                    SelectView {
                        table_name: trim(tail),
                        fields: names_of_text(trim(list)),
                        cond_string: None,
                    },
                ),
            },
        },
    }
}

/// The `SELECT` command that a text spells for the database `db`:
/// `TableNotFound` where `db` has no table of the name that it gives.
pub open spec fn select_for(db: DatabaseView, input: Seq<char>) -> Result<SelectView, ErrorView> {
    match select_of_text(input) {
        Err(e) => Err(e),
        Ok(c) => if has_table(db, c.table_name) {
            Ok(c)
        } else {
            Err(ErrorView::TableNotFound(c.table_name))
        },
    }
}

/// The canonical text of a `SELECT` command.
pub open spec fn select_text(c: SelectView) -> Seq<char> {
    let head = "SELECT "@ + join(c.fields, ", "@) + " FROM "@ + c.table_name;
    match c.cond_string {
        Some(conditions) => head + " WHERE "@ + conditions,
        None => head,
    }
}

/// The text that shows the selected records: ` | ` between them.
pub open spec fn records_text(records: Seq<RecordView>) -> Seq<char> {
    join(records.map_values(|r: RecordView| record_text(r)), " | "@)
}

/// What carrying out a `SELECT` command on the table `t` reports.
pub open spec fn run_select(
    t: TableView,
    fields: Seq<Seq<char>>,
    cond_string: Option<Seq<char>>,
    floats: Readings,
) -> Result<Seq<char>, ErrorView> {
    match table_select(t, fields, cond_string, floats) {
        Ok(records) => Ok(records_text(records)),
        Err(e) => Err(e),
    }
}

/// A copy of a vector of strings.
pub fn copy_texts(v: &Vec<String>) -> (r: Vec<String>)
    ensures
        texts(r@) == texts(v@),
{
    let mut r: Vec<String> = Vec::new();
    let mut i: usize = 0;
    while i < v.len()
        invariant
            i <= v@.len(),
            r@.len() == i,
            forall|j: int| 0 <= j < i ==> (#[trigger] r@[j])@ == v@[j]@,
        decreases v@.len() - i,
    {
        r.push(v[i].clone());
        i += 1;
    }
    r
}

impl<'a, K: DatabaseKey> Select<'a, K> {
    /// Reads a `SELECT` command and binds it to its table in `database`.
    pub fn new(database: &'a mut Database<K>, input: &str) -> (r: Result<Self, CustomError>)
        ensures
            match r {
                Ok(c) => {
                    let i = table_index(old(database)@, c@.table_name);
                    &&& select_for(old(database)@, input@) == Ok::<SelectView, ErrorView>(c@)
                    &&& *c.table == old(database).tables@[i]
                    &&& final(database).tables@ == old(database).tables@.update(
                        i,
                        *final(c.table),
                    )
                },
                Err(e) => {
                    &&& select_for(old(database)@, input@) == Err::<SelectView, ErrorView>(e@)
                    &&& *final(database) == *old(database)
                },
            },
    {
        let text: Vec<char> = to_chars(input);
        let rest: Vec<char> = match without_prefix(&text, "SELECT") {
            Some(rest) => rest,
            None => {
                return Err(CustomError::MissingKeyword(String::from_str("SELECT")));
            },
        };
        let (list, tail) = match cut_at(&rest, "FROM") {
            Some(pair) => pair,
            None => {
                return Err(CustomError::MissingKeyword(String::from_str("FROM")));
            },
        };
        let fields: Vec<String> = parse_fields_list(to_text(&trimmed(&list)).as_str());
        let (name, cond_string) = match cut_at(&tail, "WHERE") {
            Some((name, conditions)) => (trimmed(&name), Some(to_text(&trimmed(&conditions)))),
            None => (trimmed(&tail), None),
        };
        let table_name: String = to_text(&name);
        proof {
            lemma_table_index(database@, table_name@);
        }
        match database.get_table_mut(table_name.as_str()) {
            Ok(table) => Ok(Select { table, fields, cond_string }),
            Err(e) => Err(e),
        }
    }
}

impl<'a, K: DatabaseKey> Command for Select<'a, K> {
    open spec fn ready(&self) -> bool {
        self.table.wf()
    }

    /// Selects the records and shows them. The table stays as it is.
    fn execute<F: Fn(&str) -> Option<FloatValue>>(&mut self, reader: &F) -> (r: Result<
        String,
        CustomError,
    >)
        ensures
            final(self)@ == old(self)@,
            final(self).ready(),
            *final(final(self).table) == *final(old(self).table),
            *final(self).table == *old(self).table,
            text_result(r) == run_select(
                old(self).table@,
                old(self)@.fields,
                old(self)@.cond_string,
                readings(reader),
            ),
    {
        let conditions: Option<String> = match &self.cond_string {
            Some(s) => Some(s.clone()),
            None => None,
        };
        let records: Vec<Record> = match self.table.select_records(
            copy_texts(&self.fields),
            conditions,
            reader,
        ) {
            Ok(records) => records,
            Err(e) => {
                return Err(e);
            },
        };
        let mut parts: Vec<Vec<char>> = Vec::new();
        let mut i: usize = 0;
        let ghost shown = record_views(records@).map_values(|r: RecordView| record_text(r));
        while i < records.len()
            invariant
                i <= records@.len(),
                shown == record_views(records@).map_values(|r: RecordView| record_text(r)),
                parts@.len() == i,
                views(parts@) == shown.subrange(0, i as int),
            decreases records@.len() - i,
        {
            let part: Vec<char> = to_chars(records[i].to_string().as_str());
            proof {
                let next = parts@.push(part);
                assert forall|j: int| 0 <= j < i + 1 implies views(next)[j] == shown[j] by {
                    if j < i {
                        assert(views(parts@)[j] == shown.subrange(0, i as int)[j]);
                    }
                }
            }
            parts.push(part);
            i += 1;
        }
        assert(shown.subrange(0, shown.len() as int) =~= shown);
        Ok(to_text(&joined(&parts, &to_chars(" | "))))
    }
}

impl<'a, K: DatabaseKey> Serialize for Select<'a, K> {
    fn serialize(&mut self) -> (r: String)
        ensures
            *final(self) == *old(self),
            r@ == select_text(old(self)@),
    {
        let mut names: Vec<Vec<char>> = Vec::new();
        let mut i: usize = 0;
        while i < self.fields.len()
            invariant
                i <= self.fields@.len(),
                *self == *old(self),
                names@.len() == i,
                forall|j: int| 0 <= j < i ==> (#[trigger] names@[j])@ == self.fields@[j]@,
            decreases self.fields@.len() - i,
        {
            names.push(to_chars(self.fields[i].as_str()));
            i += 1;
        }
        assert(views(names@) =~= texts(self.fields@));
        let mut r: String = String::from_str("SELECT ");
        r.append(to_text(&joined(&names, &to_chars(", "))).as_str());
        r.append(" FROM ");
        r.append(self.table.table_name.as_str());
        match &self.cond_string {
            Some(conditions) => {
                r.append(" WHERE ");
                r.append(conditions.as_str());
            },
            None => {},
        }
        r
    }
}

/// `SAVE_AS <file_path>`
pub struct SaveAs<'a> {
    pub file_path: String,
    pub history: &'a mut CommandHistory,
}

/// The path that a `SAVE_AS` command text gives, or what the text lacks.
pub open spec fn save_of_text(input: Seq<char>) -> Result<Seq<char>, ErrorView> {
    match strip_prefix(input, "SAVE_AS"@) {
        None => Err(ErrorView::MissingKeyword("SAVE_AS"@)),
        Some(rest) => Ok(trim(rest)),
    }
}

/// What writing the history reports: success, or the failure of the
/// file operation.
pub open spec fn save_report(written: Result<(), String>) -> Result<Seq<char>, ErrorView> {
    match written {
        Ok(_) => Ok("Data saved succesfully"@),
        Err(e) => Err(ErrorView::IoError(e@)),
    }
}

impl<'a> SaveAs<'a> {
    /// Reads a `SAVE_AS` command for `history`.
    pub fn new(input: &str, history: &'a mut CommandHistory) -> (r: Result<Self, CustomError>)
        ensures
            match r {
                Ok(c) => {
                    &&& save_of_text(input@) == Ok::<Seq<char>, ErrorView>(c.file_path@)
                    &&& *c.history == *old(history)
                    &&& *final(c.history) == *final(history)
                },
                Err(e) => {
                    &&& save_of_text(input@) == Err::<Seq<char>, ErrorView>(e@)
                    &&& *final(history) == *old(history)
                },
            },
    {
        let text: Vec<char> = to_chars(input);
        match without_prefix(&text, "SAVE_AS") {
            Some(rest) => Ok(SaveAs { file_path: to_text(&trimmed(&rest)), history }),
            None => Err(CustomError::MissingKeyword(String::from_str("SAVE_AS"))),
        }
    }

    /// The lines to be written to the file: the whole history, oldest
    /// entry first.
    pub fn lines(&mut self) -> (r: Vec<String>)
        ensures
            *final(self) == *old(self),
            texts(r@) == old(self).history@,
    {
        let entries: &[String] = self.history.list();
        let mut r: Vec<String> = Vec::new();
        let mut i: usize = 0;
        while i < entries.len()
            invariant
                i <= entries@.len(),
                r@.len() == i,
                forall|j: int| 0 <= j < i ==> (#[trigger] r@[j])@ == entries@[j]@,
            decreases entries@.len() - i,
        {
            r.push(entries[i].clone());
            i += 1;
        }
        r
    }

    /// What the command reports once the file operation has ended:
    /// `IoError` with the failure's text where it failed.
    pub fn finish(written: Result<(), String>) -> (r: Result<String, CustomError>)
        ensures
            text_result(r) == save_report(written),
    {
        match written {
            Ok(_) => Ok(String::from_str("Data saved succesfully")),
            Err(e) => Err(CustomError::IoError(e)),
        }
    }
}

/// `READ_FROM <file_path>`
pub struct ReadFrom<'a, K: DatabaseKey> {
    pub database: &'a mut Database<K>,
    pub file_path: String,
    pub history: &'a mut CommandHistory,
}

/// The path that a `READ_FROM` command text gives, or what the text lacks.
pub open spec fn load_of_text(input: Seq<char>) -> Result<Seq<char>, ErrorView> {
    match strip_prefix(input, "READ_FROM"@) {
        None => Err(ErrorView::MissingKeyword("READ_FROM"@)),
        Some(rest) => Ok(trim(rest)),
    }
}

impl<'a, K: DatabaseKey> ReadFrom<'a, K> {
    /// Reads a `READ_FROM` command for `database` and `history`.
    pub fn new(input: &str, history: &'a mut CommandHistory, database: &'a mut Database<K>) -> (r:
        Result<Self, CustomError>)
        ensures
            match r {
                Ok(c) => {
                    &&& load_of_text(input@) == Ok::<Seq<char>, ErrorView>(c.file_path@)
                    &&& *c.history == *old(history)
                    &&& *final(c.history) == *final(history)
                    &&& *c.database == *old(database)
                    &&& *final(c.database) == *final(database)
                },
                Err(e) => {
                    &&& load_of_text(input@) == Err::<Seq<char>, ErrorView>(e@)
                    &&& *final(history) == *old(history)
                    &&& *final(database) == *old(database)
                },
            },
    {
        let text: Vec<char> = to_chars(input);
        match without_prefix(&text, "READ_FROM") {
            Some(rest) => Ok(ReadFrom { database, file_path: to_text(&trimmed(&rest)), history }),
            None => Err(CustomError::MissingKeyword(String::from_str("READ_FROM"))),
        }
    }

    /// What the command reports once every line of the file has been
    /// carried out.
    pub fn finish() -> (r: String)
        ensures
            r@ == "Data read succesfully"@,
    {
        String::from_str("Data read succesfully")
    }
}

} // verus!
