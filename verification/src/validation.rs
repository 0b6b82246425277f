//! The messages of a failed form validation, grouped by the field that they
//! concern, in the order in which the fields first failed.

use vstd::prelude::*;
use vstd::string::*;
use crate::text::{joined, str_eq};

verus! {

/// garde's validation report, opaque; what it holds is named below.
#[verifier::external_type_specification]
#[verifier::external_body]
pub struct ExReport(garde::Report);

/// The `(path, message)` pairs that a validation report holds, in order.
pub uninterp spec fn report_items(report: garde::Report) -> Seq<(Seq<char>, Seq<char>)>;

/// `garde::Report::iter`, with each path and error rendered by its `Display`.
/// The contract names what the report holds; the rendering of paths and
/// messages is garde's and is not stated here.
#[verifier::external_body]
fn report_entries(report: &garde::Report) -> (entries: Vec<(String, String)>)
    ensures
        entries@.map_values(|e: (String, String)| (e.0@, e.1@)) == report_items(*report),
{
    report.iter().map(|(path, error)| (path.to_string(), error.to_string())).collect()
}

/// The messages of the first entry for `field`, if there is one.
pub open spec fn lookup(entries: Seq<(Seq<char>, Seq<Seq<char>>)>, field: Seq<char>) -> Option<
    Seq<Seq<char>>,
>
    decreases entries.len(),
{
    if entries.len() == 0 {
        None
    } else if entries[0].0 == field {
        Some(entries[0].1)
    } else {
        lookup(entries.drop_first(), field)
    }
}

/// The entries with `message` added to those of `field`, or with a new entry
/// for `field` at the end.
pub open spec fn with_message(
    entries: Seq<(Seq<char>, Seq<Seq<char>>)>,
    field: Seq<char>,
    message: Seq<char>,
) -> Seq<(Seq<char>, Seq<Seq<char>>)>
    decreases entries.len(),
{
    if entries.len() == 0 {
        seq![(field, seq![message])]
    } else if entries[0].0 == field {
        entries.update(0, (field, entries[0].1.push(message)))
    } else {
        seq![entries[0]] + with_message(entries.drop_first(), field, message)
    }
}

/// The entries that a sequence of `(field, message)` pairs groups into.
pub open spec fn grouped(items: Seq<(Seq<char>, Seq<char>)>) -> Seq<(Seq<char>, Seq<Seq<char>>)>
    decreases items.len(),
{
    if items.len() == 0 {
        Seq::empty()
    } else {
        with_message(grouped(items.drop_last()), items.last().0, items.last().1)
    }
}

/// No two entries are for the same field.
pub open spec fn fields_distinct(entries: Seq<(Seq<char>, Seq<Seq<char>>)>) -> bool {
    forall|i: int, j: int| 0 <= i < j < entries.len() ==> #[trigger] entries[i].0 != #[trigger] entries[j].0
}

/// The messages of `field` among the pairs, in order.
pub open spec fn messages_for(items: Seq<(Seq<char>, Seq<char>)>, field: Seq<char>) -> Seq<Seq<char>>
    decreases items.len(),
{
    if items.len() == 0 {
        Seq::empty()
    } else if items.last().0 == field {
        messages_for(items.drop_last(), field).push(items.last().1)
    } else {
        messages_for(items.drop_last(), field)
    }
}

/// The line that reports one field: `field: message,message`.
pub open spec fn field_line(entry: (Seq<char>, Seq<Seq<char>>)) -> Seq<char> {
    entry.0 + ": "@ + joined(entry.1, ","@)
}

/// The text that reports all fields, one line each.
pub open spec fn report_text(entries: Seq<(Seq<char>, Seq<Seq<char>>)>) -> Seq<char> {
    joined(entries.map_values(|e: (Seq<char>, Seq<Seq<char>>)| field_line(e)), "\n"@)
}

/// Messages of a failed validation, grouped by field.
#[derive(Debug)]
pub struct FormErrors {
    entries: Vec<(String, Vec<String>)>,
}

/// The view of one stored entry.
pub open spec fn entry_view(entry: (String, Vec<String>)) -> (Seq<char>, Seq<Seq<char>>) {
    (entry.0@, entry.1@.map_values(|m: String| m@))
}

impl View for FormErrors {
    type V = Seq<(Seq<char>, Seq<Seq<char>>)>;

    closed spec fn view(&self) -> Seq<(Seq<char>, Seq<Seq<char>>)> {
        self.entries@.map_values(|e: (String, Vec<String>)| entry_view(e))
    }
}

/// `lookup` finds the first entry whose field matches.
proof fn lemma_lookup_at(entries: Seq<(Seq<char>, Seq<Seq<char>>)>, field: Seq<char>, i: int)
    requires
        0 <= i <= entries.len(),
        forall|j: int| 0 <= j < i ==> #[trigger] entries[j].0 != field,
    ensures
        i < entries.len() && entries[i].0 == field ==> lookup(entries, field) == Some(entries[i].1),
        i == entries.len() ==> lookup(entries, field) is None,
    decreases i,
{
    if i > 0 {
        lemma_lookup_at(entries.drop_first(), field, i - 1);
    }
}

/// `with_message` adds to the first entry whose field matches, or appends.
proof fn lemma_with_message_at(
    entries: Seq<(Seq<char>, Seq<Seq<char>>)>,
    field: Seq<char>,
    message: Seq<char>,
    i: int,
)
    requires
        0 <= i <= entries.len(),
        forall|j: int| 0 <= j < i ==> #[trigger] entries[j].0 != field,
    ensures
        i < entries.len() && entries[i].0 == field ==> with_message(entries, field, message)
            == entries.update(i, (field, entries[i].1.push(message))),
        i == entries.len() ==> with_message(entries, field, message) == entries.push(
            (field, seq![message]),
        ),
    decreases i,
{
    if i > 0 {
        lemma_with_message_at(entries.drop_first(), field, message, i - 1);
        if i < entries.len() && entries[i].0 == field {
            assert(seq![entries[0]] + entries.drop_first().update(
                i - 1,
                (field, entries[i].1.push(message)),
            ) =~= entries.update(i, (field, entries[i].1.push(message))));
        }
        if i == entries.len() {
            assert(seq![entries[0]] + entries.drop_first().push((field, seq![message]))
                =~= entries.push((field, seq![message])));
        }
    }
}

/// Adding a message changes the lookup of its own field only.
pub proof fn lemma_lookup_with_message(
    entries: Seq<(Seq<char>, Seq<Seq<char>>)>,
    field: Seq<char>,
    message: Seq<char>,
    other: Seq<char>,
)
    ensures
        lookup(with_message(entries, field, message), other) == if other == field {
            match lookup(entries, field) {
                Some(ms) => Some(ms.push(message)),
                None => Some(seq![message]),
            }
        } else {
            lookup(entries, other)
        },
    decreases entries.len(),
{
    if entries.len() > 0 && entries[0].0 != field {
        lemma_lookup_with_message(entries.drop_first(), field, message, other);
        let rest = with_message(entries.drop_first(), field, message);
        let whole = seq![entries[0]] + rest;
        assert(whole[0] == entries[0]);
        assert(whole.drop_first() =~= rest);
        assert(with_message(entries, field, message) == whole);
        if entries[0].0 == other {
            assert(lookup(whole, other) == Some(entries[0].1));
            assert(lookup(entries, other) == Some(entries[0].1));
        } else {
            assert(lookup(whole, other) == lookup(rest, other));
            assert(lookup(entries, other) == lookup(entries.drop_first(), other));
        }
    } else if entries.len() > 0 {
        let updated = entries.update(0, (field, entries[0].1.push(message)));
        assert(updated[0] == (field, entries[0].1.push(message)));
        assert(updated.drop_first() =~= entries.drop_first());
        assert(with_message(entries, field, message) == updated);
        if other == field {
            assert(lookup(updated, other) == Some(entries[0].1.push(message)));
            assert(lookup(entries, field) == Some(entries[0].1));
        } else {
            assert(lookup(updated, other) == lookup(updated.drop_first(), other));
            assert(lookup(entries, other) == lookup(entries.drop_first(), other));
        }
    } else {
        let single = seq![(field, seq![message])];
        assert(single[0] == (field, seq![message]));
        assert(single.drop_first() =~= Seq::<(Seq<char>, Seq<Seq<char>>)>::empty());
        assert(with_message(entries, field, message) == single);
        if other != field {
            assert(lookup(single, other) == lookup(single.drop_first(), other));
        }
    }
}

/// After grouping, a field has an entry exactly when some pair names it, and
/// its entry holds all the messages of its pairs, in order.
pub proof fn lemma_grouped_lookup(items: Seq<(Seq<char>, Seq<char>)>, field: Seq<char>)
    ensures
        lookup(grouped(items), field) == if messages_for(items, field).len() == 0 {
            None::<Seq<Seq<char>>>
        } else {
            Some(messages_for(items, field))
        },
    decreases items.len(),
{
    if items.len() > 0 {
        lemma_grouped_lookup(items.drop_last(), field);
        lemma_lookup_with_message(grouped(items.drop_last()), items.last().0, items.last().1, field);
    }
}

impl Default for FormErrors {
    fn default() -> (errors: FormErrors)
        ensures
            errors@.len() == 0,
    {
        FormErrors { entries: Vec::new() }
    }
}

impl FormErrors {
    /// No field has failed yet.
    pub fn new() -> (errors: FormErrors)
        ensures
            errors@.len() == 0,
            fields_distinct(errors@),
    {
        FormErrors { entries: Vec::new() }
    }

    /// The position of the first entry for `field`, or the number of entries.
    fn position(&self, field: &str) -> (i: usize)
        ensures
            i <= self@.len(),
            forall|j: int| 0 <= j < i ==> #[trigger] self@[j].0 != field@,
            i < self@.len() ==> self@[i as int].0 == field@,
    {
        let mut i: usize = 0;
        while i < self.entries.len()
            invariant
                i <= self.entries@.len(),
                self@.len() == self.entries@.len(),
                forall|j: int| 0 <= j < i ==> #[trigger] self@[j].0 != field@,
            decreases self.entries@.len() - i,
        {
            if str_eq(self.entries[i].0.as_str(), field) {
                return i;
            }
            i = i + 1;
        }
        i
    }

    /// Records `message` against `field`, after the messages it already has.
    pub fn insert(&mut self, field: String, message: String)
        ensures
            final(self)@ == with_message(old(self)@, field@, message@),
            fields_distinct(old(self)@) ==> fields_distinct(final(self)@),
    {
        let i = self.position(field.as_str());
        proof {
            lemma_with_message_at(self@, field@, message@, i as int);
        }
        if i < self.entries.len() {
            let ghost before = self.entries@;
            let mut entry = self.entries.remove(i);
            let ghost old_messages = entry.1@;
            entry.1.push(message);
            proof {
                assert(entry.1@.map_values(|m: String| m@) =~= old_messages.map_values(
                    |m: String| m@,
                ).push(message@));
                assert(entry_view(entry) == (field@, old(self)@[i as int].1.push(message@)));
            }
            self.entries.insert(i, entry);
            proof {
                assert(self.entries@ =~= before.update(i as int, entry));
                assert(self@ =~= old(self)@.update(
                    i as int,
                    (field@, old(self)@[i as int].1.push(message@)),
                ));
                if fields_distinct(old(self)@) {
                    assert forall|a: int, b: int| 0 <= a < b < self@.len() implies #[trigger] self@[a].0
                        != #[trigger] self@[b].0 by {
                        assert(self@[a].0 == old(self)@[a].0);
                        assert(self@[b].0 == old(self)@[b].0);
                    }
                }
            }
        } else {
            let mut messages: Vec<String> = Vec::new();
            messages.push(message);
            let ghost fv = field@;
            self.entries.push((field, messages));
            proof {
                let last = self.entries@[self.entries@.len() - 1];
                assert(last.1@.map_values(|m: String| m@) =~= seq![message@]);
                assert(entry_view(last) == (fv, seq![message@]));
                assert(self@ =~= old(self)@.push((fv, seq![message@])));
            }
        }
    }

    /// The messages of every failed rule of a validation report, grouped by
    /// the path of the field that failed.
    pub fn from_report(report: &garde::Report) -> (errors: FormErrors)
        ensures
            errors@ == grouped(report_items(*report)),
            fields_distinct(errors@),
    {
        let items = report_entries(report);
        let ghost pairs = items@.map_values(|e: (String, String)| (e.0@, e.1@));
        let mut errors = FormErrors::new();
        let mut i: usize = 0;
        while i < items.len()
            invariant
                i <= items@.len(),
                pairs == items@.map_values(|e: (String, String)| (e.0@, e.1@)),
                errors@ == grouped(pairs.subrange(0, i as int)),
                fields_distinct(errors@),
            decreases items@.len() - i,
        {
            let field = items[i].0.clone();
            let message = items[i].1.clone();
            errors.insert(field, message);
            proof {
                let next = pairs.subrange(0, i + 1);
                assert(next.drop_last() =~= pairs.subrange(0, i as int));
                assert(next.last() == pairs[i as int]);
            }
            i = i + 1;
        }
        assert(pairs.subrange(0, items@.len() as int) =~= pairs);
        errors
    }

    /// The messages recorded against `field`.
    pub fn get(&self, field: &str) -> (messages: Option<&Vec<String>>)
        ensures
            match messages {
                Some(ms) => lookup(self@, field@) == Some(ms@.map_values(|m: String| m@)),
                None => lookup(self@, field@) is None,
            },
    {
        let i = self.position(field);
        proof {
            lemma_lookup_at(self@, field@, i as int);
        }
        if i < self.entries.len() {
            Some(&self.entries[i].1)
        } else {
            None
        }
    }

    /// Whether any message is recorded against `field`.
    pub fn has(&self, field: &str) -> (found: bool)
        ensures
            found == lookup(self@, field@) is Some,
    {
        let i = self.position(field);
        proof {
            lemma_lookup_at(self@, field@, i as int);
        }
        i < self.entries.len()
    }

    /// The text that answers a failed validation: one line per field, the
    /// field's name, a colon and its messages separated by commas.
    pub fn response_body(&self) -> (body: String)
        ensures
            body@ == report_text(self@),
    {
        let ghost lines = self@.map_values(|e: (Seq<char>, Seq<Seq<char>>)| field_line(e));
        let mut body = String::new();
        let mut i: usize = 0;
        while i < self.entries.len()
            invariant
                i <= self.entries@.len(),
                self@.len() == self.entries@.len(),
                lines == self@.map_values(|e: (Seq<char>, Seq<Seq<char>>)| field_line(e)),
                body@ == joined(lines.subrange(0, i as int), "\n"@),
            decreases self.entries@.len() - i,
        {
            let line = field_line_text(&self.entries[i]);
            if i > 0 {
                body.append("\n");
            }
            body.append(line.as_str());
            proof {
                let next = lines.subrange(0, i + 1);
                assert(next.drop_last() =~= lines.subrange(0, i as int));
                if i == 0 {
                    assert(next =~= seq![lines[0]]);
                }
            }
            i = i + 1;
        }
        assert(lines.subrange(0, self.entries@.len() as int) =~= lines);
        body
    }
}

/// The line that reports one stored entry.
fn field_line_text(entry: &(String, Vec<String>)) -> (line: String)
    ensures
        line@ == field_line(entry_view(*entry)),
{
    let ghost parts = entry.1@.map_values(|m: String| m@);
    let mut line = entry.0.clone().concat(": ");
    let ghost head = line@;
    let mut i: usize = 0;
    while i < entry.1.len()
        invariant
            i <= entry.1@.len(),
            parts == entry.1@.map_values(|m: String| m@),
            head == entry.0@ + ": "@,
            line@ == head + joined(parts.subrange(0, i as int), ","@),
        decreases entry.1@.len() - i,
    {
        if i > 0 {
            line.append(",");
        }
        line.append(entry.1[i].as_str());
        proof {
            let next = parts.subrange(0, i + 1);
            assert(next.drop_last() =~= parts.subrange(0, i as int));
            if i == 0 {
                assert(next =~= seq![parts[0]]);
            }
        }
        i = i + 1;
    }
    assert(parts.subrange(0, entry.1@.len() as int) =~= parts);
    line
}

} // verus!
