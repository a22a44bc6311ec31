//! The canonical text of a command spells that command again.

use crate::commands::{
    create_of_text, create_text, delete_of_text, delete_text, field_text, insert_of_text,
    insert_text, select_of_text, select_text, CreateView, DeleteView, InsertView, SelectView,
};
use crate::custom_error::ErrorView;
use crate::parsers::{fields_of_parts, names_of_text};
use crate::text::{
    cut, find, join, lemma_index_of_is, lemma_index_of_none, split, strip_prefix, trim,
};
use crate::text_lemmas::{
    all_spaces, disjoint, is_trimmed, lacks, lacks_char, lemma_before_first_lacks,
    lemma_find_padded, lemma_lacks_char_trim, lemma_lacks_concat, lemma_lacks_not_found,
    lemma_lacks_padded, lemma_lacks_part, lemma_lacks_trim, lemma_not_found_lacks, lemma_split_join,
    lemma_split_piece, lemma_split_trim, lemma_trim_is_trimmed, lemma_trim_of_trimmed,
    lemma_trim_padded, list_separator, trim_each,
};
use crate::text_map::{distinct_names, lemma_position, lemma_position_is, put, Entries};
use vstd::prelude::*;

verus! {

/// One space.
pub open spec fn space() -> Seq<char> {
    seq![' ']
}

/// A text that begins with a keyword and goes on: the keyword is its
/// prefix and the rest is what follows.
proof fn lemma_strip(keyword: Seq<char>, rest: Seq<char>)
    ensures
        strip_prefix(keyword + rest, keyword) == Some(rest),
{
    let s = keyword + rest;
    assert(s.subrange(0, keyword.len() as int) =~= keyword);
}

/// In ` x keyword w`, where `x` lacks the keyword and the keyword has no
/// space, the cut falls at the keyword.
proof fn lemma_cut_spaced(x: Seq<char>, keyword: Seq<char>, w: Seq<char>)
    requires
        keyword.len() > 0,
        lacks(x, keyword),
        disjoint(keyword, space()),
    ensures
        cut(space() + x + space() + keyword + w, keyword) == Some((space() + x + space(), w)),
{
    lemma_find_padded(space(), x, space(), keyword, w);
}

/// What the keywords of the grammar are made of.
proof fn lemma_keywords()
    ensures
        "INSERT "@ == "INSERT"@ + space(),
        "DELETE "@ == "DELETE"@ + space(),
        "SELECT "@ == "SELECT"@ + space(),
        "CREATE "@ == "CREATE"@ + space(),
        " INTO "@ == space() + "INTO"@ + space(),
        " FROM "@ == space() + "FROM"@ + space(),
        " WHERE "@ == space() + "WHERE"@ + space(),
        " KEY "@ == space() + "KEY"@ + space(),
        " FIELDS "@ == space() + "FIELDS"@ + space(),
        " "@ == space(),
        ", "@ == list_separator(),
        ": "@ == seq![':', ' '],
        "INTO"@.len() == 4,
        "FROM"@.len() == 4,
        "WHERE"@.len() == 5,
        "KEY"@.len() == 3,
        "FIELDS"@.len() == 6,
        disjoint("INTO"@, space()),
        disjoint("FROM"@, space()),
        disjoint("WHERE"@, space()),
        disjoint("KEY"@, space()),
        disjoint("FIELDS"@, space()),
        disjoint("FROM"@, list_separator()),
        all_spaces(space()),
{
    reveal_strlit("INSERT ");
    reveal_strlit("INSERT");
    reveal_strlit("DELETE ");
    reveal_strlit("DELETE");
    reveal_strlit("SELECT ");
    reveal_strlit("SELECT");
    reveal_strlit("CREATE ");
    reveal_strlit("CREATE");
    reveal_strlit(" INTO ");
    reveal_strlit("INTO");
    reveal_strlit(" FROM ");
    reveal_strlit("FROM");
    reveal_strlit(" WHERE ");
    reveal_strlit("WHERE");
    reveal_strlit(" KEY ");
    reveal_strlit("KEY");
    reveal_strlit(" FIELDS ");
    reveal_strlit("FIELDS");
    reveal_strlit(" ");
    reveal_strlit(", ");
    reveal_strlit(": ");
}

/// What is known of an `INSERT` command that was read from a text.
pub open spec fn insert_canonical(c: InsertView) -> bool {
    &&& is_trimmed(c.record_string)
    &&& c.record_string.len() > 0
    &&& lacks(c.record_string, "INTO"@)
    &&& is_trimmed(c.table_name)
    &&& c.table_name.len() > 0
}

/// An `INSERT` command that was read from a text is canonical.
pub proof fn lemma_insert_read(input: Seq<char>)
    requires
        insert_of_text(input) is Ok,
    ensures
        insert_canonical(insert_of_text(input)->Ok_0),
{
    lemma_keywords();
    let rest = strip_prefix(input, "INSERT"@)->Some_0;
    let at = find(rest, "INTO"@)->Some_0;
    lemma_before_first_lacks(rest, "INTO"@, at);
    let (record, name) = cut(rest, "INTO"@)->Some_0;
    lemma_lacks_trim(record, "INTO"@);
    lemma_trim_is_trimmed(record);
    lemma_trim_is_trimmed(name);
}

/// The words of an `INSERT` command up to and with `INTO`.
pub open spec fn insert_head(c: InsertView) -> Seq<char> {
    "INSERT"@ + space() + c.record_string + space() + "INTO"@
}

/// A text that has the words of a canonical `INSERT` command up to
/// `INTO`, and then what trims to the name of its table, spells the command.
pub proof fn lemma_insert_spelled(c: InsertView, w: Seq<char>)
    requires
        insert_canonical(c),
        trim(w) == c.table_name,
    ensures
        insert_of_text(insert_head(c) + w) == Ok::<InsertView, ErrorView>(c),
{
    lemma_keywords();
    let rest = space() + c.record_string + space() + "INTO"@ + w;
    assert(insert_head(c) + w =~= "INSERT"@ + rest);
    lemma_strip("INSERT"@, rest);
    lemma_cut_spaced(c.record_string, "INTO"@, w);
    lemma_trim_of_trimmed(space(), c.record_string, space());
}

/// The canonical text of a canonical `INSERT` command spells the
/// command.
pub proof fn lemma_insert_written(c: InsertView)
    requires
        insert_canonical(c),
    ensures
        insert_of_text(insert_text(c)) == Ok::<InsertView, ErrorView>(c),
{
    lemma_keywords();
    let none = Seq::<char>::empty();
    let w = space() + c.table_name;
    lemma_trim_of_trimmed(space(), c.table_name, none);
    lemma_insert_spelled(c, w);
    assert(insert_text(c) =~= insert_head(c) + w);
}

/// Round trip of `INSERT`: the canonical text of a command that was read
/// spells the same command.
pub proof fn lemma_insert_round_trip(input: Seq<char>)
    requires
        insert_of_text(input) is Ok,
    ensures
        insert_of_text(insert_text(insert_of_text(input)->Ok_0)) == insert_of_text(input),
{
    lemma_insert_read(input);
    lemma_insert_written(insert_of_text(input)->Ok_0);
}

/// What is known of a `DELETE` command that was read from a text.
pub open spec fn delete_canonical(c: DeleteView) -> bool {
    &&& is_trimmed(c.key_string)
    &&& lacks(c.key_string, "FROM"@)
    &&& is_trimmed(c.table_name)
}

/// A `DELETE` command that was read from a text is canonical.
pub proof fn lemma_delete_read(input: Seq<char>)
    requires
        delete_of_text(input) is Ok,
    ensures
        delete_canonical(delete_of_text(input)->Ok_0),
{
    lemma_keywords();
    let rest = strip_prefix(input, "DELETE"@)->Some_0;
    let at = find(rest, "FROM"@)->Some_0;
    lemma_before_first_lacks(rest, "FROM"@, at);
    let (key, name) = cut(rest, "FROM"@)->Some_0;
    lemma_lacks_trim(key, "FROM"@);
    lemma_trim_is_trimmed(key);
    lemma_trim_is_trimmed(name);
}

/// The words of a `DELETE` command up to and with `FROM`.
pub open spec fn delete_head(c: DeleteView) -> Seq<char> {
    "DELETE"@ + space() + c.key_string + space() + "FROM"@
}

/// A text that has the words of a canonical `DELETE` command up to
/// `FROM`, and then what trims to the name of its table, spells the command.
pub proof fn lemma_delete_spelled(c: DeleteView, w: Seq<char>)
    requires
        delete_canonical(c),
        trim(w) == c.table_name,
    ensures
        delete_of_text(delete_head(c) + w) == Ok::<DeleteView, ErrorView>(c),
{
    lemma_keywords();
    let rest = space() + c.key_string + space() + "FROM"@ + w;
    assert(delete_head(c) + w =~= "DELETE"@ + rest);
    lemma_strip("DELETE"@, rest);
    lemma_cut_spaced(c.key_string, "FROM"@, w);
    lemma_trim_of_trimmed(space(), c.key_string, space());
}

/// The canonical text of a canonical `DELETE` command spells the
/// command.
pub proof fn lemma_delete_written(c: DeleteView)
    requires
        delete_canonical(c),
    ensures
        delete_of_text(delete_text(c)) == Ok::<DeleteView, ErrorView>(c),
{
    lemma_keywords();
    let none = Seq::<char>::empty();
    let w = space() + c.table_name;
    lemma_trim_of_trimmed(space(), c.table_name, none);
    lemma_delete_spelled(c, w);
    assert(delete_text(c) =~= delete_head(c) + w);
}

/// Round trip of `DELETE`: the canonical text of a command that was read
/// spells the same command.
pub proof fn lemma_delete_round_trip(input: Seq<char>)
    requires
        delete_of_text(input) is Ok,
    ensures
        delete_of_text(delete_text(delete_of_text(input)->Ok_0)) == delete_of_text(input),
{
    lemma_delete_read(input);
    lemma_delete_written(delete_of_text(input)->Ok_0);
}

/// Texts that lack a keyword, joined by a separator that shares no
/// character with it, lack it together.
pub proof fn lemma_join_lacks(parts: Seq<Seq<char>>, sep: Seq<char>, keyword: Seq<char>)
    requires
        keyword.len() > 0,
        sep.len() > 0,
        disjoint(keyword, sep),
        forall|k: int| 0 <= k < parts.len() ==> lacks(#[trigger] parts[k], keyword),
    ensures
        lacks(join(parts, sep), keyword),
    decreases parts.len(),
{
    if parts.len() > 1 {
        let rest = parts.drop_first();
        lemma_join_lacks(rest, sep, keyword);
        lemma_lacks_concat(parts[0], sep, join(rest, sep), keyword);
    }
}

/// Trimmed texts stay as they are when each is trimmed.
pub proof fn lemma_trim_each_trimmed(parts: Seq<Seq<char>>)
    requires
        forall|k: int| 0 <= k < parts.len() ==> is_trimmed(#[trigger] parts[k]),
    ensures
        trim_each(parts) == parts,
{
}

/// What is known of a `SELECT` command that was read from a text.
pub open spec fn select_canonical(c: SelectView) -> bool {
    &&& c.fields.len() >= 1
    &&& forall|k: int|
        0 <= k < c.fields.len() ==> {
            &&& is_trimmed(#[trigger] c.fields[k])
            &&& lacks_char(c.fields[k], ',')
            &&& lacks(c.fields[k], "FROM"@)
        }
    &&& is_trimmed(c.table_name)
    &&& lacks(c.table_name, "WHERE"@)
    &&& c.cond_string matches Some(conditions) ==> is_trimmed(conditions)
}

/// The names of a list that lacks a keyword are trimmed, lack the comma
/// and lack the keyword; there is at least one.
pub proof fn lemma_names_read(list: Seq<char>, keyword: Seq<char>)
    requires
        lacks(list, keyword),
    ensures
        names_of_text(list).len() >= 1,
        forall|k: int|
            0 <= k < names_of_text(list).len() ==> {
                &&& is_trimmed(#[trigger] names_of_text(list)[k])
                &&& lacks_char(names_of_text(list)[k], ',')
                &&& lacks(names_of_text(list)[k], keyword)
            },
{
    let names = names_of_text(list);
    assert forall|k: int| 0 <= k < names.len() implies {
        &&& is_trimmed(#[trigger] names[k])
        &&& lacks_char(names[k], ',')
        &&& lacks(names[k], keyword)
    } by {
        let piece = split(list, ',')[k];
        let r = lemma_split_piece(list, ',', k);
        lemma_lacks_part(list, keyword, r.0, r.1);
        lemma_lacks_trim(piece, keyword);
        lemma_lacks_char_trim(piece, ',');
        lemma_trim_is_trimmed(piece);
    }
}

/// A `SELECT` command that was read from a text is canonical.
pub proof fn lemma_select_read(input: Seq<char>)
    requires
        select_of_text(input) is Ok,
    ensures
        select_canonical(select_of_text(input)->Ok_0),
{
    lemma_keywords();
    let rest = strip_prefix(input, "SELECT"@)->Some_0;
    let at = find(rest, "FROM"@)->Some_0;
    lemma_before_first_lacks(rest, "FROM"@, at);
    let (list, tail) = cut(rest, "FROM"@)->Some_0;
    lemma_lacks_trim(list, "FROM"@);
    lemma_names_read(trim(list), "FROM"@);
    match find(tail, "WHERE"@) {
        Some(w) => {
            lemma_before_first_lacks(tail, "WHERE"@, w);
            let (name, conditions) = cut(tail, "WHERE"@)->Some_0;
            lemma_lacks_trim(name, "WHERE"@);
            lemma_trim_is_trimmed(name);
            lemma_trim_is_trimmed(conditions);
        },
        None => {
            lemma_not_found_lacks(tail, "WHERE"@);
            lemma_lacks_trim(tail, "WHERE"@);
            lemma_trim_is_trimmed(tail);
        },
    }
}

/// The words of a `SELECT` command up to and with `FROM`.
pub open spec fn select_head(c: SelectView) -> Seq<char> {
    "SELECT"@ + space() + join(c.fields, list_separator()) + space() + "FROM"@
}

/// What follows `FROM` in the canonical text of a `SELECT` command, up
/// to and with `WHERE` if it has conditions.
pub open spec fn select_middle(c: SelectView) -> Seq<char> {
    match c.cond_string {
        Some(_) => space() + c.table_name + space() + "WHERE"@,
        None => Seq::<char>::empty(),
    }
}

/// A text that has the words of a canonical `SELECT` command up to its
/// last keyword, and then what trims to its last part, spells the command.
pub proof fn lemma_select_spelled(c: SelectView, w: Seq<char>)
    requires
        select_canonical(c),
        trim(w) == match c.cond_string {
            Some(conditions) => conditions,
            None => c.table_name,
        },
        c.cond_string is None ==> lacks(w, "WHERE"@),
    ensures
        select_of_text(select_head(c) + select_middle(c) + w) == Ok::<SelectView, ErrorView>(c),
{
    lemma_keywords();
    let list = join(c.fields, list_separator());
    let tail = select_middle(c) + w;
    let rest = space() + list + space() + "FROM"@ + tail;
    assert(select_head(c) + select_middle(c) + w =~= "SELECT"@ + rest);
    lemma_strip("SELECT"@, rest);
    lemma_join_lacks(c.fields, list_separator(), "FROM"@);
    lemma_cut_spaced(list, "FROM"@, tail);
    let padded = space() + list + space();
    lemma_split_trim(padded, ',');
    lemma_split_join(space(), c.fields, space());
    lemma_trim_each_trimmed(c.fields);
    match c.cond_string {
        Some(conditions) => {
            lemma_cut_spaced(c.table_name, "WHERE"@, w);
            lemma_trim_of_trimmed(space(), c.table_name, space());
        },
        None => {
            lemma_lacks_not_found(w, "WHERE"@);
        },
    }
}

/// The canonical text of a canonical `SELECT` command spells the
/// command.
pub proof fn lemma_select_written(c: SelectView)
    requires
        select_canonical(c),
    ensures
        select_of_text(select_text(c)) == Ok::<SelectView, ErrorView>(c),
{
    lemma_keywords();
    let none = Seq::<char>::empty();
    match c.cond_string {
        Some(conditions) => {
            let w = space() + conditions;
            lemma_trim_of_trimmed(space(), conditions, none);
            lemma_select_spelled(c, w);
            assert(select_text(c) =~= select_head(c) + select_middle(c) + w);
        },
        None => {
            let w = space() + c.table_name;
            lemma_trim_of_trimmed(space(), c.table_name, none);
            lemma_lacks_padded(space(), c.table_name, "WHERE"@);
            lemma_select_spelled(c, w);
            assert(select_text(c) =~= select_head(c) + select_middle(c) + w);
        },
    }
}

/// Round trip of `SELECT`: the canonical text of a command that was read
/// spells the same command.
pub proof fn lemma_select_round_trip(input: Seq<char>)
    requires
        select_of_text(input) is Ok,
    ensures
        select_of_text(select_text(select_of_text(input)->Ok_0)) == select_of_text(input),
{
    lemma_select_read(input);
    lemma_select_written(select_of_text(input)->Ok_0);
}

/// A declared field as reading leaves it: name and type trimmed, and
/// without comma or colon.
pub open spec fn entry_canonical(e: (Seq<char>, Seq<char>)) -> bool {
    &&& is_trimmed(e.0)
    &&& is_trimmed(e.1)
    &&& lacks_char(e.0, ',')
    &&& lacks_char(e.0, ':')
    &&& lacks_char(e.1, ',')
    &&& lacks_char(e.1, ':')
}

/// Declared fields as reading leaves them: no name twice, and each field
/// canonical.
pub open spec fn entries_canonical(m: Entries<Seq<char>>) -> bool {
    &&& distinct_names(m)
    &&& forall|k: int| 0 <= k < m.len() ==> entry_canonical(#[trigger] m[k])
}

/// What is known of a `CREATE` command that was read from a text.
pub open spec fn create_canonical(c: CreateView) -> bool {
    &&& is_trimmed(c.name)
    &&& c.name.len() > 0
    &&& lacks(c.name, "KEY"@)
    &&& is_trimmed(c.key_field)
    &&& c.key_field.len() > 0
    &&& lacks(c.key_field, "FIELDS"@)
    &&& entries_canonical(c.fields)
}

/// The fields read from pieces without commas are canonical.
pub proof fn lemma_fields_read(parts: Seq<Seq<char>>, acc: Entries<Seq<char>>)
    requires
        forall|k: int| 0 <= k < parts.len() ==> lacks_char(#[trigger] parts[k], ','),
        entries_canonical(acc),
        fields_of_parts(parts, acc) is Ok,
    ensures
        entries_canonical(fields_of_parts(parts, acc)->Ok_0),
    decreases parts.len(),
{
    if parts.len() > 0 {
        let rest = parts.drop_first();
        let part = trim(parts[0]);
        let kv = split(part, ':');
        if part.len() == 0 {
            lemma_fields_read(rest, acc);
        } else {
            lemma_lacks_char_trim(parts[0], ',');
            let r0 = lemma_split_piece(part, ':', 0);
            let r1 = lemma_split_piece(part, ':', 1);
            lemma_lacks_char_trim(kv[0], ',');
            lemma_lacks_char_trim(kv[0], ':');
            lemma_lacks_char_trim(kv[1], ',');
            lemma_lacks_char_trim(kv[1], ':');
            lemma_trim_is_trimmed(kv[0]);
            lemma_trim_is_trimmed(kv[1]);
            let e = (trim(kv[0]), trim(kv[1]));
            let next = put(acc, e.0, e.1);
            lemma_position(acc, e.0);
            lemma_fields_read(rest, next);
        }
    }
}

/// A `CREATE` command that was read from a text is canonical.
pub proof fn lemma_create_read(input: Seq<char>)
    requires
        create_of_text(input) is Ok,
    ensures
        create_canonical(create_of_text(input)->Ok_0),
{
    lemma_keywords();
    let rest = strip_prefix(input, "CREATE"@)->Some_0;
    let at = find(rest, "KEY"@)->Some_0;
    lemma_before_first_lacks(rest, "KEY"@, at);
    let (name, tail) = cut(rest, "KEY"@)->Some_0;
    lemma_lacks_trim(name, "KEY"@);
    lemma_trim_is_trimmed(name);
    let f = find(tail, "FIELDS"@)->Some_0;
    lemma_before_first_lacks(tail, "FIELDS"@, f);
    let (key_field, list) = cut(tail, "FIELDS"@)->Some_0;
    lemma_lacks_trim(key_field, "FIELDS"@);
    lemma_trim_is_trimmed(key_field);
    let parts = split(trim(list), ',');
    assert forall|k: int| 0 <= k < parts.len() implies lacks_char(#[trigger] parts[k], ',') by {
        lemma_split_piece(trim(list), ',', k);
    }
    lemma_fields_read(parts, Entries::<Seq<char>>::empty());
}

/// The fields read from pieces depend only on what the pieces trim to.
pub proof fn lemma_fields_of_trimmed(
    p: Seq<Seq<char>>,
    q: Seq<Seq<char>>,
    acc: Entries<Seq<char>>,
)
    requires
        trim_each(p) == trim_each(q),
    ensures
        fields_of_parts(p, acc) == fields_of_parts(q, acc),
    decreases p.len(),
{
    assert(p.len() == trim_each(p).len());
    if p.len() > 0 {
        assert(trim(p[0]) == trim_each(p)[0]);
        let p1 = p.drop_first();
        let q1 = q.drop_first();
        assert forall|k: int| 0 <= k < p1.len() implies trim_each(p1)[k] == trim_each(q1)[k] by {
            assert(trim_each(p1)[k] == trim_each(p)[k + 1]);
        }
        assert(trim_each(p1) =~= trim_each(q1));
        let part = trim(p[0]);
        let kv = split(part, ':');
        if part.len() == 0 {
            lemma_fields_of_trimmed(p1, q1, acc);
        } else if kv.len() >= 2 {
            lemma_fields_of_trimmed(p1, q1, put(acc, trim(kv[0]), trim(kv[1])));
        }
    }
}

/// The text of a canonical field reads as its name and its type.
pub proof fn lemma_field_written(e: (Seq<char>, Seq<char>))
    requires
        entry_canonical(e),
    ensures
        trim(field_text(e)).len() > 0,
        split(trim(field_text(e)), ':').len() == 2,
        trim(split(trim(field_text(e)), ':')[0]) == e.0,
        trim(split(trim(field_text(e)), ':')[1]) == e.1,
        lacks_char(field_text(e), ','),
{
    lemma_keywords();
    let text = field_text(e);
    let none = Seq::<char>::empty();
    lemma_index_of_is(text, ':', e.0.len() as int);
    let tail = text.subrange(e.0.len() as int + 1, text.len() as int);
    assert(tail =~= space() + e.1);
    lemma_index_of_none(tail, ':');
    assert(split(tail, ':') =~= seq![tail]);
    lemma_split_trim(text, ':');
    let kv = split(trim(text), ':');
    assert(trim_each(kv).len() == kv.len());
    assert(trim_each(kv)[0] == trim(kv[0]));
    assert(trim_each(kv)[1] == trim(kv[1]));
    lemma_trim_of_trimmed(space(), e.1, none);
}

/// The texts of canonical fields, read in order into the fields before
/// them, give the fields back.
pub proof fn lemma_fields_written(fields: Entries<Seq<char>>, i: int)
    requires
        entries_canonical(fields),
        0 <= i <= fields.len(),
    ensures
        fields_of_parts(
            fields.map_values(|e: (Seq<char>, Seq<char>)| field_text(e)).subrange(
                i,
                fields.len() as int,
            ),
            fields.subrange(0, i),
        ) == Ok::<Entries<Seq<char>>, ErrorView>(fields),
    decreases fields.len() - i,
{
    let texts = fields.map_values(|e: (Seq<char>, Seq<char>)| field_text(e));
    let parts = texts.subrange(i, fields.len() as int);
    let acc = fields.subrange(0, i);
    if i == fields.len() {
        assert(acc =~= fields);
    } else {
        let e = fields[i];
        lemma_field_written(e);
        lemma_position_is(acc, e.0, acc.len() as int);
        assert(put(acc, e.0, e.1) =~= fields.subrange(0, i + 1));
        assert(parts.drop_first() =~= texts.subrange(i + 1, fields.len() as int));
        lemma_fields_written(fields, i + 1);
    }
}

/// The words of a `CREATE` command up to and with `FIELDS`.
pub open spec fn create_head(c: CreateView) -> Seq<char> {
    "CREATE"@ + space() + c.name + space() + "KEY"@ + space() + c.key_field + space() + "FIELDS"@
}

/// The declared fields of a `CREATE` command as its canonical text lists
/// them.
pub open spec fn create_list(c: CreateView) -> Seq<char> {
    space() + join(
        c.fields.map_values(|e: (Seq<char>, Seq<char>)| field_text(e)),
        list_separator(),
    ) + space()
}

/// A text that has the words of a canonical `CREATE` command up to
/// `FIELDS`, and then what trims to the list of its fields, spells the
/// command.
pub proof fn lemma_create_spelled(c: CreateView, w: Seq<char>)
    requires
        create_canonical(c),
        trim(w) == trim(create_list(c)),
    ensures
        create_of_text(create_head(c) + w) == Ok::<CreateView, ErrorView>(c),
{
    lemma_keywords();
    let none = Seq::<char>::empty();
    let texts = c.fields.map_values(|e: (Seq<char>, Seq<char>)| field_text(e));
    let list = create_list(c);
    let tail = space() + c.key_field + space() + "FIELDS"@ + w;
    let rest = space() + c.name + space() + "KEY"@ + tail;
    assert(create_head(c) + w =~= "CREATE"@ + rest);
    lemma_strip("CREATE"@, rest);
    lemma_cut_spaced(c.name, "KEY"@, tail);
    lemma_trim_of_trimmed(space(), c.name, space());
    lemma_cut_spaced(c.key_field, "FIELDS"@, w);
    lemma_trim_of_trimmed(space(), c.key_field, space());
    let start = Entries::<Seq<char>>::empty();
    if c.fields.len() == 0 {
        lemma_trim_padded(space(), none, space());
        assert(seq![none].drop_first() =~= Seq::<Seq<char>>::empty());
        assert(fields_of_parts(Seq::<Seq<char>>::empty(), start) == Ok::<
            Entries<Seq<char>>,
            ErrorView,
        >(start));
        assert(c.fields =~= start);
    } else {
        lemma_split_trim(list, ',');
        lemma_split_join(space(), texts, space());
        lemma_fields_of_trimmed(split(trim(list), ','), texts, start);
        lemma_fields_written(c.fields, 0);
        assert(texts.subrange(0, texts.len() as int) =~= texts);
        assert(c.fields.subrange(0, 0) =~= start);
    }
}

/// The canonical text of a canonical `CREATE` command spells the
/// command.
pub proof fn lemma_create_written(c: CreateView)
    requires
        create_canonical(c),
    ensures
        create_of_text(create_text(c)) == Ok::<CreateView, ErrorView>(c),
{
    lemma_keywords();
    lemma_create_spelled(c, create_list(c));
    assert(create_text(c) =~= create_head(c) + create_list(c));
}

/// Round trip of `CREATE`: the canonical text of a command that was read
/// spells the same command.
pub proof fn lemma_create_round_trip(input: Seq<char>)
    requires
        create_of_text(input) is Ok,
    ensures
        create_of_text(create_text(create_of_text(input)->Ok_0)) == create_of_text(input),
{
    lemma_create_read(input);
    lemma_create_written(create_of_text(input)->Ok_0);
}

} // verus!
