//! The history can be replayed: an entry that a command left in the
//! history, handed to the pipeline again, is read as that command.

use crate::commands::{
    create_of_text, create_text, delete_of_text, delete_text, insert_of_text, insert_text,
    select_of_text, select_text, CreateView, DeleteView, InsertView, SelectView,
};
use crate::custom_error::ErrorView;
use crate::database::DatabaseView;
use crate::floats::Readings;
use crate::handlers::{step, step_create, step_delete, step_insert};
use crate::round_trip::{
    create_canonical, create_head, create_list, delete_canonical, delete_head, insert_canonical,
    insert_head, lemma_create_read, lemma_create_spelled, lemma_delete_read,
    lemma_delete_spelled, lemma_insert_read, lemma_insert_spelled, lemma_select_read,
    lemma_select_spelled, select_canonical, select_head, select_middle, space,
};
use crate::text::{join, starts_with, trim};
use crate::text_lemmas::{
    lemma_lacks_padded, lemma_trim_followed, lemma_trim_of_trimmed, lemma_trim_tail, list_separator,
};
use vstd::prelude::*;

verus! {

/// A text that begins with `head` begins with what `head` begins with.
proof fn lemma_starts(head: Seq<char>, more: Seq<char>, rest: Seq<char>, keyword: Seq<char>)
    requires
        head =~= keyword + more,
    ensures
        starts_with(head + rest, keyword),
{
    let s = head + rest;
    assert(s.subrange(0, keyword.len() as int) =~= keyword);
}

/// The entry of an `INSERT` command, trimmed, is read as the command.
pub proof fn lemma_insert_replayed(c: InsertView)
    requires
        insert_canonical(c),
    ensures
        starts_with(trim(insert_text(c)), "INSERT"@),
        insert_of_text(trim(insert_text(c))) == Ok::<InsertView, ErrorView>(c),
{
    reveal_strlit("INSERT");
    reveal_strlit("INTO");
    reveal_strlit("INSERT ");
    reveal_strlit(" INTO ");
    let none = Seq::<char>::empty();
    let head = insert_head(c);
    let w = space() + c.table_name;
    assert(insert_text(c) =~= head + w);
    let r = lemma_trim_tail(head, w);
    lemma_trim_of_trimmed(space(), c.table_name, none);
    lemma_insert_spelled(c, r.0);
}

/// The entry of a `DELETE` command, trimmed, is read as the command.
pub proof fn lemma_delete_replayed(c: DeleteView)
    requires
        delete_canonical(c),
    ensures
        starts_with(trim(delete_text(c)), "DELETE"@),
        delete_of_text(trim(delete_text(c))) == Ok::<DeleteView, ErrorView>(c),
{
    reveal_strlit("DELETE");
    reveal_strlit("FROM");
    reveal_strlit("DELETE ");
    reveal_strlit(" FROM ");
    let none = Seq::<char>::empty();
    let head = delete_head(c);
    let w = space() + c.table_name;
    assert(delete_text(c) =~= head + w);
    let r = lemma_trim_tail(head, w);
    lemma_trim_followed(r.0, r.1);
    lemma_trim_of_trimmed(space(), c.table_name, none);
    lemma_delete_spelled(c, r.0);
}

/// The entry of a `SELECT` command, trimmed, is read as the command.
pub proof fn lemma_select_replayed(c: SelectView)
    requires
        select_canonical(c),
    ensures
        starts_with(trim(select_text(c)), "SELECT"@),
        select_of_text(trim(select_text(c))) == Ok::<SelectView, ErrorView>(c),
{
    reveal_strlit("SELECT");
    reveal_strlit("FROM");
    reveal_strlit("WHERE");
    reveal_strlit("SELECT ");
    reveal_strlit(" FROM ");
    reveal_strlit(" WHERE ");
    reveal_strlit(", ");
    let none = Seq::<char>::empty();
    let head = select_head(c) + select_middle(c);
    let last = match c.cond_string {
        Some(conditions) => conditions,
        None => c.table_name,
    };
    let w = space() + last;
    assert(", "@ =~= list_separator());
    assert(select_text(c) =~= head + w);
    assert(head.last() == if c.cond_string is Some {
        'E'
    } else {
        'M'
    });
    let r = lemma_trim_tail(head, w);
    lemma_trim_followed(r.0, r.1);
    lemma_trim_of_trimmed(space(), last, none);
    if c.cond_string is None {
        lemma_lacks_padded(space(), c.table_name, "WHERE"@);
    }
    lemma_select_spelled(c, r.0);
    lemma_starts(
        head,
        space() + join(c.fields, list_separator()) + space() + "FROM"@ + select_middle(c),
        r.0,
        "SELECT"@,
    );
}

/// The entry of a `CREATE` command, trimmed, is read as the command.
pub proof fn lemma_create_replayed(c: CreateView)
    requires
        create_canonical(c),
    ensures
        starts_with(trim(create_text(c)), "CREATE"@),
        create_of_text(trim(create_text(c))) == Ok::<CreateView, ErrorView>(c),
{
    reveal_strlit("CREATE");
    reveal_strlit("KEY");
    reveal_strlit("FIELDS");
    reveal_strlit("CREATE ");
    reveal_strlit(" KEY ");
    reveal_strlit(" FIELDS ");
    reveal_strlit(", ");
    reveal_strlit(" ");
    let head = create_head(c);
    let w = create_list(c);
    assert(", "@ =~= list_separator());
    assert(create_text(c) =~= head + w);
    let r = lemma_trim_tail(head, w);
    lemma_trim_followed(r.0, r.1);
    lemma_create_spelled(c, r.0);
    lemma_starts(
        head,
        space() + c.name + space() + "KEY"@ + space() + c.key_field + space() + "FIELDS"@,
        r.0,
        "CREATE"@,
    );
}

/// An entry added to a log is the last of the log.
proof fn lemma_pushed(log: Seq<Seq<char>>, a: Seq<char>, b: Seq<char>)
    requires
        log.push(a) == log.push(b),
    ensures
        a == b,
{
    assert(log.push(a).last() == a);
}

/// The history can be replayed. Where a command text lets the history
/// grow by an entry, that entry, handed to the pipeline in the same state,
/// does what the text did: the same change to the database, the same entry
/// in the history, the same result.
pub proof fn lemma_replay(
    db: DatabaseView,
    history: Seq<Seq<char>>,
    input: Seq<char>,
    floats: Readings,
    text_keys: bool,
    entry: Seq<char>,
)
    requires
        step(db, history, input, floats, text_keys).1 == history.push(entry),
    ensures
        step(db, history, entry, floats, text_keys) == step(db, history, input, floats, text_keys),
{
    reveal_strlit("CREATE");
    reveal_strlit("INSERT");
    reveal_strlit("DELETE");
    reveal_strlit("SELECT");
    let text = trim(input);
    let again = trim(entry);
    assert(history.push(entry).len() == history.len() + 1);
    if starts_with(text, "CREATE"@) {
        let c = create_of_text(text)->Ok_0;
        lemma_pushed(history, create_text(c), entry);
        lemma_create_read(text);
        lemma_create_replayed(c);
        assert(step_create(db, history, again, text_keys) == step_create(
            db,
            history,
            text,
            text_keys,
        ));
    } else if starts_with(text, "INSERT"@) {
        let c = insert_of_text(text)->Ok_0;
        lemma_pushed(history, insert_text(c), entry);
        lemma_insert_read(text);
        lemma_insert_replayed(c);
        assert(step_insert(db, history, again, floats, text_keys) == step_insert(
            db,
            history,
            text,
            floats,
            text_keys,
        ));
    } else if starts_with(text, "DELETE"@) {
        let c = delete_of_text(text)->Ok_0;
        lemma_pushed(history, delete_text(c), entry);
        lemma_delete_read(text);
        lemma_delete_replayed(c);
        assert(step_delete(db, history, again, floats, text_keys) == step_delete(
            db,
            history,
            text,
            floats,
            text_keys,
        ));
    } else if starts_with(text, "SELECT"@) {
        let c = select_of_text(text)->Ok_0;
        lemma_pushed(history, select_text(c), entry);
        lemma_select_read(text);
        lemma_select_replayed(c);
    }
}

} // verus!

verus! {

/// What one text makes of the database and the history, whatever its
/// outcome.
#[verifier::opaque]
pub open spec fn advance(
    db: DatabaseView,
    history: Seq<Seq<char>>,
    input: Seq<char>,
    floats: Readings,
    text_keys: bool,
) -> (DatabaseView, Seq<Seq<char>>) {
    let (after, log, _) = step(db, history, input, floats, text_keys);
    (after, log)
}

/// The database and the history after the texts of `inputs` have gone
/// through the pipeline one after another.
pub open spec fn run(
    db: DatabaseView,
    history: Seq<Seq<char>>,
    inputs: Seq<Seq<char>>,
    floats: Readings,
    text_keys: bool,
) -> (DatabaseView, Seq<Seq<char>>)
    decreases inputs.len(),
{
    if inputs.len() == 0 {
        (db, history)
    } else {
        let (after, log) = advance(db, history, inputs[0], floats, text_keys);
        run(after, log, inputs.drop_first(), floats, text_keys)
    }
}

/// What one text does, seen from any history. Either it adds nothing to
/// the history and leaves the database as it was; or it adds one entry,
/// and then that entry does to the database what the text did and is added
/// in its turn. Neither depends on what the history holds.
pub proof fn lemma_advance(
    db: DatabaseView,
    history: Seq<Seq<char>>,
    other: Seq<Seq<char>>,
    input: Seq<char>,
    floats: Readings,
    text_keys: bool,
)
    ensures
        advance(db, history, input, floats, text_keys) == (
            step(db, history, input, floats, text_keys).0,
            step(db, history, input, floats, text_keys).1,
        ),
        ({
            let (after, log) = advance(db, history, input, floats, text_keys);
            ||| log == history && after == db && advance(db, other, input, floats, text_keys) == (
                db,
                other,
            )
            ||| log == history.push(log.last()) && advance(db, other, input, floats, text_keys)
                == (after, other.push(log.last())) && advance(
                db,
                other,
                log.last(),
                floats,
                text_keys,
            ) == (after, other.push(log.last()))
        }),
{
    reveal(advance);
    let (after, log) = advance(db, history, input, floats, text_keys);
    if log != history {
        let entry = log.last();
        lemma_replay(db, history, input, floats, text_keys, entry);
    }
}

/// What a run adds to the history.
pub open spec fn added(
    db: DatabaseView,
    inputs: Seq<Seq<char>>,
    floats: Readings,
    text_keys: bool,
) -> Seq<Seq<char>> {
    run(db, Seq::<Seq<char>>::empty(), inputs, floats, text_keys).1
}

/// A run adds to the history what it would add to an empty one, and
/// its database does not depend on what the history held.
pub proof fn lemma_run_whatever_history(
    db: DatabaseView,
    history: Seq<Seq<char>>,
    inputs: Seq<Seq<char>>,
    floats: Readings,
    text_keys: bool,
)
    ensures
        run(db, history, inputs, floats, text_keys) == (
            run(db, Seq::<Seq<char>>::empty(), inputs, floats, text_keys).0,
            history + added(db, inputs, floats, text_keys),
        ),
    decreases inputs.len(),
{
    let none = Seq::<Seq<char>>::empty();
    if inputs.len() > 0 {
        let rest = inputs.drop_first();
        let (d1, h1) = advance(db, history, inputs[0], floats, text_keys);
        let (d2, h2) = advance(db, none, inputs[0], floats, text_keys);
        lemma_advance(db, none, history, inputs[0], floats, text_keys);
        lemma_run_whatever_history(d1, h1, rest, floats, text_keys);
        lemma_run_whatever_history(d2, h2, rest, floats, text_keys);
    }
}

/// The history rebuilds the database. Whatever texts have gone through
/// the pipeline, the entries that they added to the history, sent through
/// the pipeline from the database as it was at the outset, lead to the same
/// database and add the same entries again.
pub proof fn lemma_history_rebuilds(
    db: DatabaseView,
    inputs: Seq<Seq<char>>,
    floats: Readings,
    text_keys: bool,
)
    ensures
        run(
            db,
            Seq::<Seq<char>>::empty(),
            added(db, inputs, floats, text_keys),
            floats,
            text_keys,
        ) == run(db, Seq::<Seq<char>>::empty(), inputs, floats, text_keys),
    decreases inputs.len(),
{
    let none = Seq::<Seq<char>>::empty();
    if inputs.len() > 0 {
        let rest = inputs.drop_first();
        let (d1, h1) = advance(db, none, inputs[0], floats, text_keys);
        lemma_advance(db, none, none, inputs[0], floats, text_keys);
        lemma_run_whatever_history(d1, h1, rest, floats, text_keys);
        lemma_history_rebuilds(d1, rest, floats, text_keys);
        let tail = added(d1, rest, floats, text_keys);
        if h1 != none {
            let entries = h1 + tail;
            assert(entries.drop_first() =~= tail);
            lemma_run_whatever_history(d1, h1, tail, floats, text_keys);
        }
    }
}

} // verus!
