//! What holds of the parsers and of the state machine, whatever the input.

use crate::error::Failure;
use crate::session::{after_poll, field_or_empty, Session};
use crate::text::{
    body_entry, entries, fields_of, is_quoted, is_space, key_part, lemma_fields_of_list,
    lemma_first_index, lemma_first_index_is, lemma_trim_end_is, lemma_trim_start_is, section_entry,
    text_fields,
    trim_end, trim_start, trimmed, unescaped, unquoted, value_part,
};
use vstd::prelude::*;

verus! {

/// A text of whitespace alone.
pub open spec fn is_blank(s: Seq<char>) -> bool {
    forall|i: int| 0 <= i < s.len() ==> is_space(s[i])
}

/// A text that neither begins nor ends with whitespace.
pub open spec fn is_trimmed(s: Seq<char>) -> bool {
    s.len() > 0 ==> !is_space(s[0]) && !is_space(s.last())
}

/// A text that holds no `c`.
pub open spec fn is_without(s: Seq<char>, c: char) -> bool {
    forall|i: int| 0 <= i < s.len() ==> s[i] != c
}

/// A key that reading gives back as it was written: it holds neither `=`
/// nor `;`, has no whitespace at either end, and does not begin with a
/// backslash and `n`.
pub open spec fn is_plain_key(key: Seq<char>) -> bool {
    &&& is_without(key, '=')
    &&& is_without(key, ';')
    &&& is_trimmed(key)
    &&& unescaped(key) == key
}

/// A value that reading gives back as it was written: it holds neither `=`
/// nor `;`, has no whitespace at either end, and no pair of double quotes
/// around it.
pub open spec fn is_plain_value(value: Seq<char>) -> bool {
    &&& is_without(value, '=')
    &&& is_without(value, ';')
    &&& is_trimmed(value)
    &&& !is_quoted(value)
}

/// A key and a value around an `=`, with `lead` before the `=` and `trail`
/// behind it.
pub open spec fn joined(key: Seq<char>, lead: Seq<char>, trail: Seq<char>, value: Seq<char>) -> Seq<
    char,
> {
    key + lead + seq!['='] + trail + value
}

/// `inner` between two double quotes.
pub open spec fn quoted(inner: Seq<char>) -> Seq<char> {
    seq!['"'] + inner + seq!['"']
}

/// A key and its value as a section: `key = value`.
pub open spec fn section_of(key: Seq<char>, value: Seq<char>) -> Seq<char> {
    joined(key, seq![' '], seq![' '], value)
}

/// A list of entries as a reply: `key = value;` for each, in order.
pub open spec fn written(pairs: Seq<(Seq<char>, Seq<char>)>) -> Seq<char>
    decreases pairs.len(),
{
    if pairs.len() == 0 {
        Seq::empty()
    } else {
        section_of(pairs[0].0, pairs[0].1) + seq![';'] + written(pairs.drop_first())
    }
}

/// Whether `pairs` lists the fields of `fields`: each pair is a field, and
/// each field is among the pairs.
pub open spec fn lists(pairs: Seq<(Seq<char>, Seq<char>)>, fields: Map<Seq<char>, Seq<char>>) -> bool {
    &&& forall|i: int|
        0 <= i < pairs.len() ==> fields.contains_key(#[trigger] pairs[i].0) && fields[pairs[i].0]
            == pairs[i].1
    &&& forall|key: Seq<char>| #[trigger]
        fields.contains_key(key) ==> exists|i: int| 0 <= i < pairs.len() && #[trigger] pairs[i].0 == key
}

/// The separator is the first `=` with all the whitespace around it: a
/// body reads as the key before it and the value behind it, however much
/// whitespace stands between them and the `=`. A pair of double quotes
/// around the value is dropped, and a value without one stays as it is.
pub proof fn lemma_separator_tolerates_whitespace(
    key: Seq<char>,
    lead: Seq<char>,
    trail: Seq<char>,
    value: Seq<char>,
)
    requires
        is_without(key, '='),
        key.len() > 0 ==> !is_space(key.last()),
        is_blank(lead),
        is_blank(trail),
        value.len() > 0 ==> !is_space(value[0]),
    ensures
        key_part(joined(key, lead, trail, value)) == key,
        value_part(joined(key, lead, trail, value)) == value,
        body_entry(joined(key, lead, trail, value)) == Some((key, unquoted(value))),
        !is_quoted(value) ==> body_entry(joined(key, lead, trail, value)) == Some((key, value)),
{
    let body = joined(key, lead, trail, value);
    let kn = key.len() as int;
    let e = kn + lead.len();
    assert(!is_space('='));
    assert forall|j: int| 0 <= j < e implies body[j] != '=' by {
        if j < kn {
            assert(body[j] == key[j]);
        } else {
            assert(body[j] == lead[j - kn]);
        }
    }
    assert(body[e] == '=');
    lemma_first_index_is(body, '=', e);
    lemma_first_index(body, '=');
    let before = body.subrange(0, e);
    assert(before == key + lead);
    assert forall|j: int| kn <= j < before.len() implies is_space(before[j]) by {
        assert(before[j] == lead[j - kn]);
    }
    if kn > 0 {
        assert(before[kn - 1] == key[kn - 1]);
    }
    lemma_trim_end_is(before, kn);
    assert(before.subrange(0, kn) == key);
    let after = body.subrange(e + 1, body.len() as int);
    assert(after == trail + value);
    let tn = trail.len() as int;
    assert forall|j: int| 0 <= j < tn implies is_space(after[j]) by {
        assert(after[j] == trail[j]);
    }
    if value.len() > 0 {
        assert(after[tn] == value[0]);
    }
    lemma_trim_start_is(after, tn);
    assert(after.subrange(tn, after.len() as int) == value);
}

/// A value between double quotes reads as what stands between them,
/// whatever that is.
pub proof fn lemma_quoted_value_is_unwrapped(
    key: Seq<char>,
    lead: Seq<char>,
    trail: Seq<char>,
    inner: Seq<char>,
)
    requires
        is_without(key, '='),
        key.len() > 0 ==> !is_space(key.last()),
        is_blank(lead),
        is_blank(trail),
    ensures
        unquoted(quoted(inner)) == inner,
        body_entry(joined(key, lead, trail, quoted(inner))) == Some((key, inner)),
{
    let value = quoted(inner);
    assert(!is_space('"'));
    assert(value[0] == '"' && value.last() == '"');
    assert(value.subrange(1, value.len() - 1) == inner);
    lemma_separator_tolerates_whitespace(key, lead, trail, value);
}

/// A backslash and `n` in front of a section are dropped before the
/// section is cut into key and value: the section reads as what follows
/// them.
pub proof fn lemma_leading_escape_is_dropped(rest: Seq<char>)
    requires
        rest.len() > 0 ==> !is_space(rest.last()),
    ensures
        section_entry(seq!['\\', 'n'] + rest) == body_entry(rest),
{
    let section = seq!['\\', 'n'] + rest;
    assert(!is_space('\\') && !is_space('n'));
    assert(section[0] == '\\' && section[1] == 'n');
    assert(trim_start(section) == section);
    if rest.len() > 0 {
        assert(section.last() == rest.last());
    } else {
        assert(section.last() == 'n');
    }
    assert(trim_end(section) == section);
    assert(section.subrange(2, section.len() as int) == rest);
}

/// A section written from a plain key and a value without whitespace at
/// its ends reads as that key and that value, the value without the quotes
/// around it.
pub proof fn lemma_section_round_trip(key: Seq<char>, value: Seq<char>)
    requires
        is_plain_key(key),
        is_trimmed(value),
    ensures
        section_entry(section_of(key, value)) == Some((key, unquoted(value))),
        !is_quoted(value) ==> section_entry(section_of(key, value)) == Some((key, value)),
{
    let s = section_of(key, value);
    let n = s.len() as int;
    let kn = key.len() as int;
    assert(n == kn + 3 + value.len());
    assert forall|j: int| 0 <= j < kn implies s[j] == key[j] by {}
    assert(s[kn] == ' ' && s[kn + 1] == '=' && s[kn + 2] == ' ');
    assert forall|j: int| kn + 3 <= j < n implies s[j] == value[j - kn - 3] by {}
    assert(is_space(' '));
    assert(!is_space('='));
    let a: int = if kn == 0 { 1 } else { 0 };
    let b: int = if value.len() == 0 { n - 1 } else { n };
    lemma_trim_start_is(s, a);
    let t = s.subrange(a, n);
    assert forall|j: int| b - a <= j < t.len() implies is_space(t[j]) by {
        assert(t[j] == s[j + a]);
    }
    assert(t[b - a - 1] == s[b - 1]);
    lemma_trim_end_is(t, b - a);
    let body = s.subrange(a, b);
    assert(t.subrange(0, b - a) == body);
    assert(trimmed(s) == body);
    assert(body[0] == s[a]);
    if body.len() >= 2 {
        assert(body[1] == s[a + 1]);
    }
    if kn >= 2 {
        assert(key.subrange(2, kn).len() != key.len());
    }
    assert(unescaped(body) == body);
    let lead: Seq<char> = if kn == 0 { Seq::empty() } else { seq![' '] };
    let trail: Seq<char> = if value.len() == 0 { Seq::empty() } else { seq![' '] };
    assert(body == joined(key, lead, trail, value));
    lemma_separator_tolerates_whitespace(key, lead, trail, value);
}

/// The entries of a reply written from plain keys and values are the
/// entries that were written, in their order.
pub proof fn lemma_entries_of_written(pairs: Seq<(Seq<char>, Seq<char>)>)
    requires
        forall|i: int|
            0 <= i < pairs.len() ==> is_plain_key(#[trigger] pairs[i].0) && is_plain_value(
                pairs[i].1,
            ),
    ensures
        entries(written(pairs)) == pairs,
    decreases pairs.len(),
{
    let text = written(pairs);
    if pairs.len() == 0 {
        assert(text.subrange(0, 0) == Seq::<char>::empty());
        assert(trimmed(Seq::<char>::empty()) == Seq::<char>::empty());
        assert(!Seq::<char>::empty().contains('='));
        assert(section_entry(Seq::<char>::empty()) is None);
    } else {
        let key = pairs[0].0;
        let value = pairs[0].1;
        let section = section_of(key, value);
        let rest = pairs.drop_first();
        let end = section.len() as int;
        assert(is_plain_key(key) && is_plain_value(value));
        assert forall|i: int| 0 <= i < rest.len() implies is_plain_key(#[trigger] rest[i].0)
            && is_plain_value(rest[i].1) by {
            assert(rest[i] == pairs[i + 1]);
            assert(is_plain_key(pairs[i + 1].0));
        }
        assert(text == section + seq![';'] + written(rest));
        assert forall|j: int| 0 <= j < end implies text[j] != ';' by {
            assert(text[j] == section[j]);
            let kn = key.len() as int;
            if j < kn {
                assert(section[j] == key[j]);
            } else if j < kn + 3 {
            } else {
                assert(section[j] == value[j - kn - 3]);
            }
        }
        assert(text[end] == ';');
        lemma_first_index_is(text, ';', end);
        assert(text.subrange(0, end) == section);
        assert(text.subrange(end + 1, text.len() as int) == written(rest));
        lemma_section_round_trip(key, value);
        lemma_entries_of_written(rest);
        assert(seq![(key, value)] + rest == pairs);
    }
}

/// Writing and reading gives the mapping back: where `pairs` lists the
/// fields of a mapping, all of them plain, the reply written from `pairs`
/// reads as that mapping.
pub proof fn lemma_round_trip(fields: Map<Seq<char>, Seq<char>>, pairs: Seq<(Seq<char>, Seq<char>)>)
    requires
        lists(pairs, fields),
        forall|i: int|
            0 <= i < pairs.len() ==> is_plain_key(#[trigger] pairs[i].0) && is_plain_value(
                pairs[i].1,
            ),
    ensures
        text_fields(written(pairs)) == fields,
{
    lemma_entries_of_written(pairs);
    lemma_fields_of_list(pairs);
    let found = fields_of(pairs);
    assert forall|key: Seq<char>| found.contains_key(key) <==> fields.contains_key(key) by {
        if fields.contains_key(key) {
            let i = choose|i: int| 0 <= i < pairs.len() && #[trigger] pairs[i].0 == key;
            assert(pairs[i].0 == key);
        }
    }
    assert forall|key: Seq<char>| found.contains_key(key) implies found[key] == fields[key] by {
        let i = choose|i: int|
            0 <= i < pairs.len() && #[trigger] pairs[i].0 == key && found[key] == pairs[i].1;
        assert(fields[pairs[i].0] == pairs[i].1);
    }
    assert(found =~= fields);
}

/// Reading depends on the characters of the reply alone: two replies that
/// agree character for character read as the same mapping.
pub proof fn lemma_reading_is_a_function(first: Seq<char>, second: Seq<char>)
    requires
        first.len() == second.len(),
        forall|i: int| 0 <= i < first.len() ==> first[i] == second[i],
    ensures
        entries(first) == entries(second),
        text_fields(first) == text_fields(second),
{
    assert(first =~= second);
}

/// `tip` never goes up: a reply leaves it as it is or takes it one down,
/// from 1 to 0 or from 0 to -1, and only the step from 0 touches `uuid`,
/// `lang`, `scan` and `ticket`.
pub proof fn lemma_tip_only_decreases(session: Session, reply: Seq<char>)
    requires
        -1 <= session.tip <= 1,
    ensures
        after_poll(session, reply) matches Ok(next) ==> {
            &&& -1 <= next.tip <= session.tip
            &&& session.tip - next.tip <= 1
            &&& (session.tip != 0 || next.tip == 0) ==> next == (Session { tip: next.tip, ..session })
        },
{
}

/// A confirmation that names no redirect URL is fatal: after the scan,
/// status `200` with the redirect field absent or empty fails with
/// `MissingRedirectUrl`.
pub proof fn lemma_confirmation_needs_redirect(session: Session, reply: Seq<char>)
    requires
        session.tip == 0,
        field_or_empty(text_fields(reply), "window.code"@) == "200"@,
        field_or_empty(text_fields(reply), "window.redirect_uri"@).len() == 0,
    ensures
        after_poll(session, reply) == Err::<Session, Failure>(Failure::MissingRedirectUrl),
{
}

/// A confirmation that comes before the scan changes nothing and is no
/// error.
pub proof fn lemma_confirmation_before_scan(session: Session, reply: Seq<char>)
    requires
        session.tip == 1,
        field_or_empty(text_fields(reply), "window.code"@) == "200"@,
    ensures
        after_poll(session, reply) == Ok::<Session, Failure>(session),
{
    reveal_strlit("200");
    reveal_strlit("201");
    assert("200"@[2] != "201"@[2]);
}

} // verus!
