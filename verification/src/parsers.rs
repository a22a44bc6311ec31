//! The lists that commands carry: declared fields, requested fields and
//! conditions.

use crate::condition::{condition_of, op_of_text, Condition, ConditionView, Op};
use crate::custom_error::{CustomError, ErrorView};
use crate::floats::{is_reader, readings, FloatValue, Readings};
use crate::text::{split, split_at_char, split_words, to_chars, to_text, trim, trimmed, views, words};
use crate::text_map::{distinct_names, lemma_put_distinct, lookup, put, Entries, TextMap};
use vstd::prelude::*;
use vstd::string::*;

verus! {

/// The fields that the comma-separated `parts` declare, entered into `acc`
/// in order. A piece that is empty after trimming is passed over; in any
/// other the name stands before the first `:` and the type after it, up to
/// a second `:` if there is one. The first piece without a `:` fails the
/// whole.
pub open spec fn fields_of_parts(parts: Seq<Seq<char>>, acc: Entries<Seq<char>>) -> Result<
    Entries<Seq<char>>,
    ErrorView,
>
    decreases parts.len(),
{
    if parts.len() == 0 {
        Ok(acc)
    } else {
        let part = trim(parts[0]);
        let kv = split(part, ':');
        if part.len() == 0 {
            fields_of_parts(parts.drop_first(), acc)
        } else if kv.len() < 2 {
            Err(ErrorView::FieldParseError(part))
        } else {
            fields_of_parts(parts.drop_first(), put(acc, trim(kv[0]), trim(kv[1])))
        }
    }
}

/// The fields that a comma-separated list of `name: TYPE` declares.
pub open spec fn fields_of_text(text: Seq<char>) -> Result<Entries<Seq<char>>, ErrorView> {
    fields_of_parts(split(text, ','), Entries::<Seq<char>>::empty())
}

/// The names in a comma-separated list, each trimmed.
pub open spec fn names_of_text(text: Seq<char>) -> Seq<Seq<char>> {
    split(text, ',').map_values(|p: Seq<char>| trim(p))
}

/// The views of a vector of strings.
pub open spec fn texts(v: Seq<String>) -> Seq<Seq<char>> {
    v.map_values(|s: String| s@)
}

/// The condition that one piece `field op value` spells under the declared
/// `fields`, or why it spells none: it has not three words, its operator is
/// unknown, its field is not declared, or its value does not fit the
/// field's type, tried in this order.
pub open spec fn condition_of_part(
    part: Seq<char>,
    fields: Entries<Seq<char>>,
    floats: Readings,
) -> Result<ConditionView, ErrorView> {
    let w = words(part);
    if w.len() != 3 {
        Err(ErrorView::ConditionParseError("Invalid condition format"@))
    } else {
        match op_of_text(w[1]) {
            None => Err(ErrorView::ConditionParseError("Unknown operator"@)),
            Some(op) => match lookup(fields, w[0]) {
                None => Err(ErrorView::ConditionParseError("Field not found"@)),
                Some(tag) => match condition_of(w[0], op, w[2], tag, floats) {
                    None => Err(
                        ErrorView::ConditionParseError("Failed to parse value for condition"@),
                    ),
                    Some(c) => Ok(c),
                },
            },
        }
    }
}

/// The conditions that the comma-separated `parts` spell, added to `acc`
/// in order; the first piece that spells none fails the whole.
pub open spec fn conditions_of_parts(
    parts: Seq<Seq<char>>,
    fields: Entries<Seq<char>>,
    floats: Readings,
    acc: Seq<ConditionView>,
) -> Result<Seq<ConditionView>, ErrorView>
    decreases parts.len(),
{
    if parts.len() == 0 {
        Ok(acc)
    } else {
        match condition_of_part(parts[0], fields, floats) {
            Err(e) => Err(e),
            Ok(c) => conditions_of_parts(parts.drop_first(), fields, floats, acc.push(c)),
        }
    }
}

/// The conditions that a comma-separated list of `field op value` spells.
pub open spec fn conditions_of_text(
    text: Seq<char>,
    fields: Entries<Seq<char>>,
    floats: Readings,
) -> Result<Seq<ConditionView>, ErrorView> {
    conditions_of_parts(split(text, ','), fields, floats, Seq::<ConditionView>::empty())
}

/// The views of a vector of conditions.
pub open spec fn condition_views(v: Seq<Condition>) -> Seq<ConditionView> {
    v.map_values(|c: Condition| c@)
}

/// What `fields_of_parts` yields has distinct names if `acc` has.
pub proof fn lemma_fields_of_parts_distinct(parts: Seq<Seq<char>>, acc: Entries<Seq<char>>)
    requires
        distinct_names(acc),
    ensures
        fields_of_parts(parts, acc) matches Ok(r) ==> distinct_names(r),
    decreases parts.len(),
{
    if parts.len() > 0 {
        let part = trim(parts[0]);
        let kv = split(part, ':');
        if part.len() == 0 {
            lemma_fields_of_parts_distinct(parts.drop_first(), acc);
        } else if kv.len() >= 2 {
            lemma_put_distinct(acc, trim(kv[0]), trim(kv[1]));
            lemma_fields_of_parts_distinct(parts.drop_first(), put(acc, trim(kv[0]), trim(kv[1])));
        }
    }
}

/// Reads a comma-separated list of `name: TYPE` as the fields of a table.
pub fn parse_fields(fields_str: &str) -> (r: Result<TextMap<String>, CustomError>)
    ensures
        match r {
            Ok(fields) => fields_of_text(fields_str@) == Ok::<Entries<Seq<char>>, ErrorView>(
                fields@,
            ) && fields.wf(),
            Err(e) => fields_of_text(fields_str@) == Err::<Entries<Seq<char>>, ErrorView>(e@),
        },
{
    let mut fields: TextMap<String> = TextMap::new();
    let parts: Vec<Vec<char>> = split_at_char(&to_chars(fields_str), ',');
    let ghost all = split(fields_str@, ',');
    let mut i: usize = 0;
    assert(all.subrange(0, all.len() as int) =~= all);
    while i < parts.len()
        invariant
            i <= parts@.len(),
            all == views(parts@),
            fields.wf(),
            fields_of_text(fields_str@) == fields_of_parts(
                all.subrange(i as int, all.len() as int),
                fields@,
            ),
        decreases parts@.len() - i,
    {
        let ghost rest = all.subrange(i as int, all.len() as int);
        assert(rest.drop_first() =~= all.subrange(i + 1, all.len() as int));
        let part: Vec<char> = trimmed(&parts[i]);
        i += 1;
        if part.len() == 0 {
            continue ;
        }
        let kv: Vec<Vec<char>> = split_at_char(&part, ':');
        if kv.len() < 2 {
            return Err(CustomError::FieldParseError(to_text(&part)));
        }
        fields.insert(to_text(&trimmed(&kv[0])), to_text(&trimmed(&kv[1])));
    }
    Ok(fields)
}

/// Reads a comma-separated list of `field op value` as conditions on the
/// declared `fields`.
pub fn parse_conditions<F: Fn(&str) -> Option<FloatValue>>(
    cond_str: &str,
    fields: &TextMap<String>,
    reader: &F,
) -> (r: Result<Vec<Condition>, CustomError>)
    requires
        is_reader(reader),
    ensures
        match r {
            Ok(conditions) => conditions_of_text(cond_str@, fields@, readings(reader)) == Ok::<
                Seq<ConditionView>,
                ErrorView,
            >(condition_views(conditions@)),
            Err(e) => conditions_of_text(cond_str@, fields@, readings(reader)) == Err::<
                Seq<ConditionView>,
                ErrorView,
            >(e@),
        },
{
    let mut conditions: Vec<Condition> = Vec::new();
    let parts: Vec<Vec<char>> = split_at_char(&to_chars(cond_str), ',');
    let ghost all = split(cond_str@, ',');
    let ghost floats = readings(reader);
    let mut i: usize = 0;
    assert(all.subrange(0, all.len() as int) =~= all);
    assert(condition_views(conditions@) =~= Seq::<ConditionView>::empty());
    while i < parts.len()
        invariant
            i <= parts@.len(),
            all == views(parts@),
            floats == readings(reader),
            is_reader(reader),
            conditions_of_text(cond_str@, fields@, floats) == conditions_of_parts(
                all.subrange(i as int, all.len() as int),
                fields@,
                floats,
                condition_views(conditions@),
            ),
        decreases parts@.len() - i,
    {
        let ghost rest = all.subrange(i as int, all.len() as int);
        assert(rest.drop_first() =~= all.subrange(i + 1, all.len() as int));
        let w: Vec<Vec<char>> = split_words(&parts[i]);
        i += 1;
        if w.len() != 3 {
            return Err(
                CustomError::ConditionParseError(String::from_str("Invalid condition format")),
            );
        }
        let field_name: String = to_text(&w[0]);
        let op: Op = match Op::as_str(to_text(&w[1]).as_str()) {
            Some(op) => op,
            None => {
                return Err(CustomError::ConditionParseError(String::from_str("Unknown operator")));
            },
        };
        let condition: Condition = match fields.get(&field_name) {
            Some(tag) => match Condition::new(
                field_name.as_str(),
                op,
                to_text(&w[2]).as_str(),
                tag.as_str(),
                reader,
            ) {
                Ok(c) => c,
                Err(_) => {
                    return Err(
                        CustomError::ConditionParseError(
                            String::from_str("Failed to parse value for condition"),
                        ),
                    );
                },
            },
            None => {
                return Err(CustomError::ConditionParseError(String::from_str("Field not found")));
            },
        };
        proof {
            assert(condition_views(conditions@.push(condition)) =~= condition_views(
                conditions@,
            ).push(condition@));
        }
        conditions.push(condition);
    }
    Ok(conditions)
}

/// The names in a comma-separated list, each trimmed.
pub fn parse_fields_list(fields_str: &str) -> (r: Vec<String>)
    ensures
        texts(r@) == names_of_text(fields_str@),
{
    let parts: Vec<Vec<char>> = split_at_char(&to_chars(fields_str), ',');
    let mut r: Vec<String> = Vec::new();
    let mut i: usize = 0;
    while i < parts.len()
        invariant
            i <= parts@.len(),
            r@.len() == i,
            views(parts@) == split(fields_str@, ','),
            forall|j: int| 0 <= j < i ==> (#[trigger] r@[j])@ == trim(parts@[j]@),
        decreases parts@.len() - i,
    {
        r.push(to_text(&trimmed(&parts[i])));
        i += 1;
    }
    r
}

} // verus!
