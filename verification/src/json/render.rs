//! From a tree to JSON text.

use crate::json::{lemma_array_view, lemma_object_view, Json, JsonView};
use vstd::prelude::*;

verus! {

/// The decimal digit for `d`, `0 <= d <= 9`.
pub open spec fn digit(d: int) -> char {
    if d == 0 {
        '0'
    } else if d == 1 {
        '1'
    } else if d == 2 {
        '2'
    } else if d == 3 {
        '3'
    } else if d == 4 {
        '4'
    } else if d == 5 {
        '5'
    } else if d == 6 {
        '6'
    } else if d == 7 {
        '7'
    } else if d == 8 {
        '8'
    } else {
        '9'
    }
}

/// The decimal digits of a natural number, most significant first, without
/// leading zeros.
pub open spec fn digits(n: nat) -> Seq<char>
    decreases n,
{
    if n < 10 {
        seq![digit(n as int)]
    } else {
        digits(n / 10).push(digit((n % 10) as int))
    }
}

/// The decimal text of an integer: a minus sign for a negative number, then
/// its digits.
pub open spec fn decimal(n: int) -> Seq<char> {
    if n < 0 {
        seq!['-'] + digits((-n) as nat)
    } else {
        digits(n as nat)
    }
}

/// The lower-case hexadecimal digit for `d`, `0 <= d <= 15`.
pub open spec fn hex_digit(d: int) -> char {
    if d < 10 {
        digit(d)
    } else if d == 10 {
        'a'
    } else if d == 11 {
        'b'
    } else if d == 12 {
        'c'
    } else if d == 13 {
        'd'
    } else if d == 14 {
        'e'
    } else {
        'f'
    }
}

/// How one character stands inside a JSON string: the quotation mark and the
/// backslash behind a backslash, the control characters below U+0020 by
/// their short escape or as `\u00xx`, every other character as it is.
pub open spec fn escaped_char(c: char) -> Seq<char> {
    if c == '"' {
        seq!['\\', '"']
    } else if c == '\\' {
        seq!['\\', '\\']
    } else if c == '\u{8}' {
        seq!['\\', 'b']
    } else if c == '\t' {
        seq!['\\', 't']
    } else if c == '\n' {
        seq!['\\', 'n']
    } else if c == '\u{c}' {
        seq!['\\', 'f']
    } else if c == '\r' {
        seq!['\\', 'r']
    } else if (c as int) < 32 {
        seq!['\\', 'u', '0', '0', hex_digit((c as int) / 16), hex_digit((c as int) % 16)]
    } else {
        seq![c]
    }
}

/// The characters of a string, each as it stands inside a JSON string.
pub open spec fn escaped(s: Seq<char>) -> Seq<char>
    decreases s.len(),
{
    if s.len() == 0 {
        Seq::empty()
    } else {
        escaped(s.drop_last()) + escaped_char(s.last())
    }
}

/// Whether a character stands for itself inside a JSON string.
pub open spec fn is_plain(c: char) -> bool {
    c != '"' && c != '\\' && (c as int) >= 32
}

/// A string of plain characters is its own escaped form.
pub proof fn lemma_escaped_plain(s: Seq<char>)
    requires
        forall|i: int| 0 <= i < s.len() ==> is_plain(#[trigger] s[i]),
    ensures
        escaped(s) == s,
    decreases s.len(),
{
    if s.len() > 0 {
        let front = s.drop_last();
        assert forall|i: int| 0 <= i < front.len() implies is_plain(#[trigger] front[i]) by {
            assert(front[i] == s[i]);
        }
        lemma_escaped_plain(front);
        assert(is_plain(s[s.len() - 1]));
        assert(escaped_char(s.last()) == seq![s.last()]);
        assert(front + seq![s.last()] =~= s);
    }
}

/// A string as a JSON string: escaped, between quotation marks.
pub open spec fn quoted(s: Seq<char>) -> Seq<char> {
    seq!['"'] + escaped(s) + seq!['"']
}

/// Writes a string as JSON text with `serde_json::to_string`, which cannot
/// fail on a string. The contract states its output in full: the string
/// between quotation marks, with `serde_json`'s escapes (its table escapes
/// `"`, `\` and the bytes below 0x20, and nothing else).
#[verifier::external_body]
fn quote(s: &str) -> (text: String)
    ensures
        text@ == quoted(s@),
{
    serde_json::to_string(s).unwrap_or_default()
}

/// Writes an integer as JSON text with `serde_json::to_string`, which cannot
/// fail on an integer: its decimal digits, behind a minus sign where it is
/// negative.
#[verifier::external_body]
fn int_text(n: i64) -> (text: String)
    ensures
        text@ == decimal(n as int),
{
    serde_json::to_string(&n).unwrap_or_default()
}

/// The compact JSON text of a value: no white space, members and items in
/// their order, separated by commas.
pub open spec fn rendered(j: JsonView) -> Seq<char>
    decreases j,
{
    match j {
        JsonView::Null => "null"@,
        JsonView::Bool(b) => if b {
            "true"@
        } else {
            "false"@
        },
        JsonView::Int(n) => decimal(n as int),
        JsonView::Number(t) => t,
        JsonView::Str(s) => quoted(s),
        JsonView::Array(items) => "["@ + rendered_items(items, items.len()) + "]"@,
        JsonView::Object(members) => "{"@ + rendered_members(members, members.len()) + "}"@,
    }
}

/// The texts of the first `n` items of an array, separated by commas.
pub open spec fn rendered_items(items: Seq<JsonView>, n: nat) -> Seq<char>
    decreases items, n,
{
    if n == 0 || n > items.len() {
        Seq::empty()
    } else if n == 1 {
        rendered(items[0])
    } else {
        rendered_items(items, (n - 1) as nat) + ","@ + rendered(items[n - 1])
    }
}

/// The texts of the first `n` members of an object, separated by commas:
/// each is the quoted key, a colon and the value.
pub open spec fn rendered_members(members: Seq<(Seq<char>, JsonView)>, n: nat) -> Seq<char>
    decreases members, n,
{
    if n == 0 || n > members.len() {
        Seq::empty()
    } else if n == 1 {
        quoted(members[0].0) + ":"@ + rendered(members[0].1)
    } else {
        rendered_members(members, (n - 1) as nat) + ","@ + quoted(members[n - 1].0) + ":"@
            + rendered(members[n - 1].1)
    }
}

/// The text of an object of two members, piece by piece.
pub proof fn lemma_rendered_pair(first: (Seq<char>, JsonView), second: (Seq<char>, JsonView))
    ensures
        rendered(JsonView::Object(seq![first, second])) == "{"@ + quoted(first.0) + ":"@ + rendered(
            first.1,
        ) + ","@ + quoted(second.0) + ":"@ + rendered(second.1) + "}"@,
{
    let members = seq![first, second];
    reveal_with_fuel(rendered_members, 3);
    assert(members[0] == first && members[1] == second);
    let one = quoted(first.0) + ":"@ + rendered(first.1);
    assert(rendered_members(members, 1) == one);
    let two = one + ","@ + quoted(second.0) + ":"@ + rendered(second.1);
    assert(rendered_members(members, 2) == two);
    assert("{"@ + two + "}"@ =~= "{"@ + quoted(first.0) + ":"@ + rendered(first.1) + ","@ + quoted(
        second.0,
    ) + ":"@ + rendered(second.1) + "}"@);
}

/// The text of an object of three members, piece by piece.
pub proof fn lemma_rendered_triple(
    first: (Seq<char>, JsonView),
    second: (Seq<char>, JsonView),
    third: (Seq<char>, JsonView),
)
    ensures
        rendered(JsonView::Object(seq![first, second, third])) == "{"@ + quoted(first.0) + ":"@
            + rendered(first.1) + ","@ + quoted(second.0) + ":"@ + rendered(second.1) + ","@
            + quoted(third.0) + ":"@ + rendered(third.1) + "}"@,
{
    let members = seq![first, second, third];
    reveal_with_fuel(rendered_members, 4);
    assert(members[0] == first && members[1] == second && members[2] == third);
    let one = quoted(first.0) + ":"@ + rendered(first.1);
    assert(rendered_members(members, 1) == one);
    let two = one + ","@ + quoted(second.0) + ":"@ + rendered(second.1);
    assert(rendered_members(members, 2) == two);
    let three = two + ","@ + quoted(third.0) + ":"@ + rendered(third.1);
    assert(rendered_members(members, 3) == three);
    assert("{"@ + three + "}"@ =~= "{"@ + quoted(first.0) + ":"@ + rendered(first.1) + ","@
        + quoted(second.0) + ":"@ + rendered(second.1) + ","@ + quoted(third.0) + ":"@ + rendered(
        third.1,
    ) + "}"@);
}

impl Json {
    /// Writes the value as compact JSON text.
    pub fn render(&self) -> (text: String)
        ensures
            text@ == rendered(self@),
        decreases self,
    {
        match self {
            Json::Null => String::from_str("null"),
            Json::Bool(b) => {
                if *b {
                    String::from_str("true")
                } else {
                    String::from_str("false")
                }
            },
            Json::Int(n) => int_text(*n),
            Json::Number(t) => t.clone(),
            Json::Str(s) => quote(s.as_str()),
            Json::Array(items) => {
                proof {
                    lemma_array_view(*items);
                }
                let ghost views = self@->Array_0;
                let mut text = String::from_str("[");
                let mut i: usize = 0;
                while i < items.len()
                    invariant
                        i <= items.len(),
                        views.len() == items.len(),
                        forall|k: int| 0 <= k < items.len() ==> #[trigger] views[k] == items[k]@,
                        text@ == "["@ + rendered_items(views, i as nat),
                        *self == Json::Array(*items),
                    decreases items.len() - i,
                {
                    if i > 0 {
                        text.append(",");
                    }
                    assert(self->Array_0 == *items);
                    assert(decreases_to!(*self => items[i as int]));
                    let part = items[i].render();
                    text.append(part.as_str());
                    i += 1;
                    assert(text@ =~= "["@ + rendered_items(views, i as nat));
                }
                text.append("]");
                text
            },
            Json::Object(members) => {
                proof {
                    lemma_object_view(*members);
                }
                let ghost views = self@->Object_0;
                let mut text = String::from_str("{");
                let mut i: usize = 0;
                while i < members.len()
                    invariant
                        i <= members.len(),
                        views.len() == members.len(),
                        forall|k: int|
                            0 <= k < members.len() ==> #[trigger] views[k] == (
                                members[k].key@,
                                members[k].value@,
                            ),
                        text@ == "{"@ + rendered_members(views, i as nat),
                        *self == Json::Object(*members),
                    decreases members.len() - i,
                {
                    if i > 0 {
                        text.append(",");
                    }
                    assert(self->Object_0 == *members);
                    assert(decreases_to!(*self => members[i as int].value));
                    let key = quote(members[i].key.as_str());
                    text.append(key.as_str());
                    text.append(":");
                    let part = members[i].value.render();
                    text.append(part.as_str());
                    i += 1;
                    assert(text@ =~= "{"@ + rendered_members(views, i as nat));
                }
                text.append("}");
                text
            },
        }
    }
}

} // verus!
