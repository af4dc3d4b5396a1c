//! The reply format: `key = value;` sections, stated over sequences of
//! characters, and the functions that cut a reply into its parts.

use vstd::prelude::*;
use vstd::string::StrSliceExecFns;

verus! {

/// The characters that count as whitespace: the Unicode `White_Space` property.
pub open spec fn is_space(c: char) -> bool {
    let n = c as u32;
    ||| 0x09 <= n <= 0x0d
    ||| n == 0x20
    ||| n == 0x85
    ||| n == 0xa0
    ||| n == 0x1680
    ||| 0x2000 <= n <= 0x200a
    ||| n == 0x2028
    ||| n == 0x2029
    ||| n == 0x202f
    ||| n == 0x205f
    ||| n == 0x3000
}

/// `s` without the whitespace at its start.
pub open spec fn trim_start(s: Seq<char>) -> Seq<char>
    decreases s.len(),
{
    if s.len() > 0 && is_space(s[0]) {
        trim_start(s.drop_first())
    } else {
        s
    }
}

/// `s` without the whitespace at its end.
pub open spec fn trim_end(s: Seq<char>) -> Seq<char>
    decreases s.len(),
{
    if s.len() > 0 && is_space(s.last()) {
        trim_end(s.drop_last())
    } else {
        s
    }
}

/// `s` without the whitespace at either end.
pub open spec fn trimmed(s: Seq<char>) -> Seq<char> {
    trim_end(trim_start(s))
}

/// The index of the first `c` in `s`, or the length of `s` where it holds none.
pub open spec fn first_index(s: Seq<char>, c: char) -> int
    decreases s.len(),
{
    if s.len() == 0 || s[0] == c {
        0
    } else {
        1 + first_index(s.drop_first(), c)
    }
}

/// `s` without a leading backslash and `n`, the two characters that the
/// server is known to put in front of a section.
pub open spec fn unescaped(s: Seq<char>) -> Seq<char> {
    if s.len() >= 2 && s[0] == '\\' && s[1] == 'n' {
        s.subrange(2, s.len() as int)
    } else {
        s
    }
}

/// Whether `s` begins and ends with a double quote, two different characters of it.
pub open spec fn is_quoted(s: Seq<char>) -> bool {
    s.len() >= 2 && s[0] == '"' && s.last() == '"'
}

/// `s` without the pair of double quotes around it, where it has one.
pub open spec fn unquoted(s: Seq<char>) -> Seq<char> {
    if is_quoted(s) {
        s.subrange(1, s.len() - 1)
    } else {
        s
    }
}

/// What stands before the first `=` of `s`, without the whitespace that leads up to it.
pub open spec fn key_part(s: Seq<char>) -> Seq<char> {
    trim_end(s.subrange(0, first_index(s, '=')))
}

/// What stands behind the first `=` of `s`, without the whitespace that follows it.
pub open spec fn value_part(s: Seq<char>) -> Seq<char> {
    trim_start(s.subrange(first_index(s, '=') + 1, s.len() as int))
}

/// The key and value that the body of a section holds, the value without
/// the quotes around it; `None` where the body holds no `=`.
pub open spec fn body_entry(body: Seq<char>) -> Option<(Seq<char>, Seq<char>)> {
    if body.contains('=') {
        Some((key_part(body), unquoted(value_part(body))))
    } else {
        None
    }
}

/// The key and value that one section of a reply holds: those of its body,
/// which is the section without the whitespace around it and without the
/// escape that leads it.
pub open spec fn section_entry(section: Seq<char>) -> Option<(Seq<char>, Seq<char>)> {
    body_entry(unescaped(trimmed(section)))
}

/// The entries of a reply in the order in which they stand. Sections end at
/// each `;`, and the first section without an entry ends the list.
pub open spec fn entries(text: Seq<char>) -> Seq<(Seq<char>, Seq<char>)>
    decreases text.len(),
{
    let end = first_index(text, ';');
    match section_entry(text.subrange(0, end)) {
        None => Seq::empty(),
        Some(entry) => if 0 <= end < text.len() {
            seq![entry] + entries(text.subrange(end + 1, text.len() as int))
        } else {
            seq![entry]
        },
    }
}

/// The mapping that a list of entries gives: a later entry replaces an earlier one of the same key.
pub open spec fn fields_of(pairs: Seq<(Seq<char>, Seq<char>)>) -> Map<Seq<char>, Seq<char>>
    decreases pairs.len(),
{
    if pairs.len() == 0 {
        Map::empty()
    } else {
        fields_of(pairs.drop_last()).insert(pairs.last().0, pairs.last().1)
    }
}

/// The mapping that a reply stands for.
pub open spec fn text_fields(text: Seq<char>) -> Map<Seq<char>, Seq<char>> {
    fields_of(entries(text))
}

/// `first_index` stays within `s`, passes over nothing but other characters,
/// and stops on a `c`.
pub proof fn lemma_first_index(s: Seq<char>, c: char)
    ensures
        0 <= first_index(s, c) <= s.len(),
        forall|j: int| 0 <= j < first_index(s, c) ==> s[j] != c,
        first_index(s, c) < s.len() ==> s[first_index(s, c)] == c,
        first_index(s, c) < s.len() <==> s.contains(c),
    decreases s.len(),
{
    if s.len() == 0 || s[0] == c {
    } else {
        let t = s.drop_first();
        lemma_first_index(t, c);
        assert forall|j: int| 0 <= j < first_index(s, c) implies s[j] != c by {
            if j > 0 {
                assert(s[j] == t[j - 1]);
            }
        }
        if s.contains(c) {
            let k = choose|k: int| 0 <= k < s.len() && s[k] == c;
            assert(t[k - 1] == c);
        }
    }
}

/// The index that passes over no `c` and stops on one, or at the end, is `first_index`.
pub proof fn lemma_first_index_is(s: Seq<char>, c: char, i: int)
    requires
        0 <= i <= s.len(),
        forall|j: int| 0 <= j < i ==> s[j] != c,
        i < s.len() ==> s[i] == c,
    ensures
        first_index(s, c) == i,
{
    lemma_first_index(s, c);
    let f = first_index(s, c);
    if f < i {
        assert(s[f] == c);
    } else if i < f {
        assert(s[i] == c);
    }
}

/// Where whitespace fills `s` up to `i` and stops there, `trim_start` cuts at `i`.
pub proof fn lemma_trim_start_is(s: Seq<char>, i: int)
    requires
        0 <= i <= s.len(),
        forall|j: int| 0 <= j < i ==> is_space(s[j]),
        i < s.len() ==> !is_space(s[i]),
    ensures
        trim_start(s) == s.subrange(i, s.len() as int),
    decreases i,
{
    if i == 0 {
        assert(s.subrange(0, s.len() as int) == s);
    } else {
        let t = s.drop_first();
        assert forall|j: int| 0 <= j < i - 1 implies is_space(t[j]) by {
            assert(t[j] == s[j + 1]);
        }
        lemma_trim_start_is(t, i - 1);
        assert(t.subrange(i - 1, t.len() as int) == s.subrange(i, s.len() as int));
    }
}

/// Where whitespace fills `s` from `i` on and starts there, `trim_end` cuts at `i`.
pub proof fn lemma_trim_end_is(s: Seq<char>, i: int)
    requires
        0 <= i <= s.len(),
        forall|j: int| i <= j < s.len() ==> is_space(s[j]),
        i > 0 ==> !is_space(s[i - 1]),
    ensures
        trim_end(s) == s.subrange(0, i),
    decreases s.len() - i,
{
    if i == s.len() {
        assert(s.subrange(0, s.len() as int) == s);
    } else {
        let t = s.drop_last();
        lemma_trim_end_is(t, i);
        assert(t.subrange(0, i) == s.subrange(0, i));
    }
}

/// Appending an entry to a list puts it into the list's mapping.
pub proof fn lemma_fields_of_push(pairs: Seq<(Seq<char>, Seq<char>)>, entry: (Seq<char>, Seq<char>))
    ensures
        fields_of(pairs.push(entry)) == fields_of(pairs).insert(entry.0, entry.1),
{
    assert(pairs.push(entry).drop_last() == pairs);
}

/// The mapping of a list holds the keys of the list and no others, each
/// with the value of one of its pairs, and is finite.
pub proof fn lemma_fields_of_list(pairs: Seq<(Seq<char>, Seq<char>)>)
    ensures
        forall|i: int| 0 <= i < pairs.len() ==> fields_of(pairs).contains_key(#[trigger] pairs[i].0),
        forall|key: Seq<char>| #[trigger]
            fields_of(pairs).contains_key(key) ==> exists|i: int|
                0 <= i < pairs.len() && #[trigger] pairs[i].0 == key && fields_of(pairs)[key]
                    == pairs[i].1,
        fields_of(pairs).dom().finite(),
    decreases pairs.len(),
{
    if pairs.len() > 0 {
        let front = pairs.drop_last();
        let last = pairs.last();
        lemma_fields_of_list(front);
        assert forall|i: int| 0 <= i < pairs.len() implies fields_of(pairs).contains_key(
            #[trigger] pairs[i].0,
        ) by {
            if i < front.len() {
                assert(front[i] == pairs[i]);
                assert(fields_of(front).contains_key(front[i].0));
            }
        }
        assert forall|key: Seq<char>| #[trigger]
            fields_of(pairs).contains_key(key) implies exists|i: int|
            0 <= i < pairs.len() && #[trigger] pairs[i].0 == key && fields_of(pairs)[key]
                == pairs[i].1 by {
            if key == last.0 {
                assert(pairs[pairs.len() - 1].0 == key);
            } else {
                assert(fields_of(front).contains_key(key));
                let i = choose|i: int|
                    0 <= i < front.len() && #[trigger] front[i].0 == key && fields_of(front)[key]
                        == front[i].1;
                assert(pairs[i] == front[i]);
                assert(pairs[i].0 == key);
            }
        }
    }
}

/// Tells whether `c` is whitespace.
pub fn is_whitespace(c: char) -> (b: bool)
    ensures
        b == is_space(c),
{
    let n: u32 = c as u32;
    (0x09 <= n && n <= 0x0d) || n == 0x20 || n == 0x85 || n == 0xa0 || n == 0x1680 || (0x2000 <= n
        && n <= 0x200a) || n == 0x2028 || n == 0x2029 || n == 0x202f || n == 0x205f || n == 0x3000
}

/// The characters of `text`, in order.
pub fn chars_of(text: &str) -> (chars: Vec<char>)
    ensures
        chars@ == text@,
{
    let mut chars: Vec<char> = Vec::new();
    for c in it: text.chars()
        invariant
            it.seq() == text@,
            chars@ == it.seq().take(it.index()),
    {
        chars.push(c);
    }
    chars
}

/// `section` without the whitespace at either end.
pub fn trim<'a>(section: &'a str) -> (inner: &'a str)
    ensures
        inner@ == trimmed(section@),
{
    let chars = chars_of(section);
    let n: usize = chars.len();
    let mut a: usize = 0;
    while a < n && is_whitespace(chars[a])
        invariant
            a <= n,
            n == chars.len(),
            forall|j: int| 0 <= j < a ==> is_space(chars@[j]),
        decreases n - a,
    {
        a += 1;
    }
    let mut b: usize = n;
    while b > a && is_whitespace(chars[b - 1])
        invariant
            a <= b <= n,
            n == chars.len(),
            forall|j: int| b <= j < n ==> is_space(chars@[j]),
        decreases b,
    {
        b -= 1;
    }
    proof {
        let s = section@;
        let t = s.subrange(a as int, n as int);
        lemma_trim_start_is(s, a as int);
        assert forall|j: int| b - a <= j < t.len() implies is_space(t[j]) by {
            assert(t[j] == s[j + a]);
        }
        lemma_trim_end_is(t, b - a);
        assert(t.subrange(0, b - a) == s.subrange(a as int, b as int));
    }
    section.substring_char(a, b)
}

/// `section` without a leading backslash and `n`.
pub fn strip_escape<'a>(section: &'a str) -> (rest: &'a str)
    ensures
        rest@ == unescaped(section@),
        section@.len() >= 2 && section@[0] == '\\' && section@[1] == 'n' ==> seq!['\\', 'n'] + rest@
            == section@,
        !(section@.len() >= 2 && section@[0] == '\\' && section@[1] == 'n') ==> rest@ == section@,
{
    let n: usize = section.unicode_len();
    if n >= 2 && section.get_char(0) == '\\' && section.get_char(1) == 'n' {
        section.substring_char(2, n)
    } else {
        section
    }
}

/// `value` without the pair of double quotes around it, where it has one;
/// any other value as it is.
pub fn strip_quotes<'a>(value: &'a str) -> (inner: &'a str)
    ensures
        inner@ == unquoted(value@),
        is_quoted(value@) ==> seq!['"'] + inner@ + seq!['"'] == value@,
        !is_quoted(value@) ==> inner@ == value@,
{
    let n: usize = value.unicode_len();
    if n >= 2 && value.get_char(0) == '"' && value.get_char(n - 1) == '"' {
        value.substring_char(1, n - 1)
    } else {
        value
    }
}

} // verus!
