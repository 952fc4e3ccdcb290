//! What is read out of the payloads of messages, told member by member.
use crate::payload::{Preview, Rect, Value};
use crate::scalar::Scalar;
use vstd::prelude::*;

verus! {

/// Whether an entry of a list is the first one under a key.
pub open spec fn is_first_under(entries: Seq<(String, Value)>, key: Seq<char>, i: int) -> bool {
    &&& 0 <= i < entries.len()
    &&& entries[i].0@ == key
    &&& forall|j: int| 0 <= j < i ==> (#[trigger] entries[j]).0@ != key
}

/// Whether a value is an object whose first entry under a key is `member`.
pub open spec fn holds(value: Value, key: Seq<char>, member: Value) -> bool {
    value matches Value::Object(entries) && exists|i: int| #[trigger]
        is_first_under(entries@, key, i) && entries@[i].1 == member
}

/// Whether a value is no object, or one without an entry under a key.
pub open spec fn lacks(value: Value, key: Seq<char>) -> bool {
    value matches Value::Object(entries) ==> forall|i: int|
        0 <= i < entries@.len() ==> (#[trigger] entries@[i]).0@ != key
}

/// Whether a value is an object with a number, any number, under a key.
pub open spec fn holds_number(value: Value, key: Seq<char>, n: Scalar) -> bool {
    holds(value, key, Value::Number(n))
}

/// Whether a value is an object with a text under a key.
pub open spec fn holds_text(value: Value, key: Seq<char>, text: Seq<char>) -> bool {
    exists|s: String| #[trigger] holds(value, key, Value::Text(s)) && s@ == text
}

/// Whether a value is an object with the four sides of a rectangle.
pub open spec fn holds_rect(value: Value, rect: Rect) -> bool {
    &&& holds_number(value, "x"@, rect.x)
    &&& holds_number(value, "y"@, rect.y)
    &&& holds_number(value, "w"@, rect.w)
    &&& holds_number(value, "h"@, rect.h)
}

/// Whether a value has anything but a number under a key, or nothing.
pub open spec fn lacks_number(value: Value, key: Seq<char>) -> bool {
    lacks(value, key) || exists|member: Value| #[trigger]
        holds(value, key, member) && !(member is Number)
}

/// Whether a payload says where its preview is to be.
pub open spec fn places(payload: Value, rect: Rect) -> bool {
    exists|place: Value| #[trigger] holds(payload, "rect"@, place) && holds_rect(place, rect)
}

/// Whether a payload says of no rectangle that its preview is to be there.
pub open spec fn places_nowhere(payload: Value) -> bool {
    forall|rect: Rect| !#[trigger] places(payload, rect)
}

/// Whether what was read of a payload as its rectangle is the one in it, whatever
/// its sides, or none where there is none.
pub open spec fn is_place_of(rect: Option<Rect>, payload: Value) -> bool {
    match rect {
        Some(r) => places(payload, r),
        None => places_nowhere(payload),
    }
}

/// The member of a value is the first one under its key.
pub proof fn lemma_field_is_first(value: Value, key: Seq<char>)
    ensures
        match value.field(key) {
            Some(member) => holds(value, key, member),
            None => lacks(value, key),
        },
        forall|member: Value| #[trigger]
            holds(value, key, member) ==> value.field(key) == Some(member),
{
    match value {
        Value::Object(entries) => {
            lemma_member_is_first(entries@, key);
        },
        _ => {},
    }
}

proof fn lemma_member_is_first(entries: Seq<(String, Value)>, key: Seq<char>)
    ensures
        match crate::payload::member(entries, key) {
            Some(member) => exists|i: int| #[trigger]
                is_first_under(entries, key, i) && entries[i].1 == member,
            None => forall|i: int| 0 <= i < entries.len() ==> (#[trigger] entries[i]).0@ != key,
        },
        forall|i: int| #[trigger]
            is_first_under(entries, key, i) ==> crate::payload::member(entries, key) == Some(
                entries[i].1,
            ),
    decreases entries.len(),
{
    if entries.len() > 0 {
        if entries[0].0@ == key {
            assert(is_first_under(entries, key, 0));
            assert forall|i: int| #[trigger] is_first_under(entries, key, i) implies i == 0 by {
                if i > 0 {
                    assert(entries[0].0@ != key);
                }
            }
        } else {
            let rest = entries.skip(1);
            lemma_member_is_first(rest, key);
            assert forall|i: int| #[trigger]
                is_first_under(entries, key, i) implies crate::payload::member(entries, key)
                == Some(entries[i].1) by {
                assert forall|j: int| 0 <= j < i - 1 implies (#[trigger] rest[j]).0@ != key by {
                    assert(rest[j] == entries[j + 1]);
                }
                assert(is_first_under(rest, key, i - 1));
            }
            match crate::payload::member(rest, key) {
                Some(member) => {
                    let k = choose|k: int| #[trigger]
                        is_first_under(rest, key, k) && rest[k].1 == member;
                    assert forall|j: int| 0 <= j < k + 1 implies (#[trigger] entries[j]).0@
                        != key by {
                        if j > 0 {
                            assert(entries[j] == rest[j - 1]);
                        }
                    }
                    assert(is_first_under(entries, key, k + 1) && entries[k + 1].1 == member);
                },
                None => {
                    assert forall|i: int| 0 <= i < entries.len() implies (
                    #[trigger] entries[i]).0@ != key by {
                        if i > 0 {
                            assert(entries[i] == rest[i - 1]);
                        }
                    }
                },
            }
        }
    }
}

/// `get` finds the first entry under a key, and only there is none where no entry
/// is under it.
pub proof fn lemma_get_finds_the_first(value: Value, key: &str, r: Option<&Value>)
    requires
        call_ensures(Value::get, (&value, key), r),
    ensures
        r matches Some(member) ==> holds(value, key@, *member),
        r is None ==> lacks(value, key@),
        forall|member: Value| #[trigger] holds(value, key@, member) ==> r == Some(&member),
{
    lemma_field_is_first(value, key@);
}

/// `as_str` gives every text, and nothing else.
pub proof fn lemma_as_str_gives_every_text(value: Value, r: Option<&str>)
    requires
        call_ensures(Value::as_str, (&value,), r),
    ensures
        r is Some <==> value is Text,
        value matches Value::Text(s) ==> r->0@ == s@,
{
}

/// `as_number` gives every number, zero too, and nothing else.
pub proof fn lemma_as_number_gives_every_number(value: Value, r: Option<Scalar>)
    requires
        call_ensures(Value::as_number, (&value,), r),
    ensures
        value matches Value::Number(n) ==> r == Some(n),
        r matches Some(n) ==> value == Value::Number(n),
{
}

proof fn lemma_number_field(value: Value, key: Seq<char>)
    ensures
        forall|n: Scalar| #[trigger]
            holds_number(value, key, n) <==> value.number_field(key) == Some(n),
        value.number_field(key) is None <==> lacks_number(value, key),
{
    lemma_field_is_first(value, key);
    match value.field(key) {
        Some(member) => {
            assert(holds(value, key, member));
            assert(!lacks(value, key)) by {
                match value {
                    Value::Object(entries) => {
                        let i = choose|i: int| #[trigger]
                            is_first_under(entries@, key, i) && entries@[i].1 == member;
                        assert(entries@[i].0@ == key);
                    },
                    _ => {},
                }
            }
        },
        None => {
            assert forall|member: Value| !#[trigger] holds(value, key, member) by {}
        },
    }
}

proof fn lemma_rect_is_held(value: Value)
    ensures
        forall|rect: Rect| #[trigger] holds_rect(value, rect) <==> value.rect() == Some(rect),
        value.rect() is None <==> lacks_number(value, "x"@) || lacks_number(value, "y"@)
            || lacks_number(value, "w"@) || lacks_number(value, "h"@),
{
    lemma_number_field(value, "x"@);
    lemma_number_field(value, "y"@);
    lemma_number_field(value, "w"@);
    lemma_number_field(value, "h"@);
}

/// An object with any four numbers as its sides reads as exactly that rectangle.
/// None is read only where one of the sides is missing or no number.
pub proof fn lemma_as_rect_reads_every_rect(value: Value, r: Option<Rect>)
    requires
        call_ensures(Value::as_rect, (&value,), r),
    ensures
        forall|rect: Rect| #[trigger] holds_rect(value, rect) <==> r == Some(rect),
        r is None <==> lacks_number(value, "x"@) || lacks_number(value, "y"@) || lacks_number(
            value,
            "w"@,
        ) || lacks_number(value, "h"@),
{
    lemma_rect_is_held(value);
}

/// The rectangle of a payload is the one in it.
pub proof fn lemma_rect_field_is_the_place(payload: Value)
    ensures
        is_place_of(payload.rect_field(), payload),
        forall|rect: Rect| #[trigger] places(payload, rect) ==> payload.rect_field() == Some(rect),
{
    lemma_field_is_first(payload, "rect"@);
    match payload.field("rect"@) {
        Some(place) => {
            lemma_rect_is_held(place);
            match payload.rect_field() {
                Some(rect) => {
                    assert(holds_rect(place, rect));
                    assert(places(payload, rect));
                },
                None => {},
            }
            assert forall|rect: Rect| #[trigger] places(payload, rect) implies payload.rect_field()
                == Some(rect) by {
                let other = choose|other: Value| #[trigger]
                    holds(payload, "rect"@, other) && holds_rect(other, rect);
                assert(other == place);
            }
        },
        None => {
            assert forall|rect: Rect| !#[trigger] places(payload, rect) by {}
        },
    }
}

/// A text under a key reads as that text.
pub proof fn lemma_text_field_is_the_text(value: Value, key: Seq<char>)
    ensures
        match value.text_field(key) {
            Some(text) => holds_text(value, key, text),
            None => forall|text: Seq<char>| !#[trigger] holds_text(value, key, text),
        },
        forall|text: Seq<char>| #[trigger]
            holds_text(value, key, text) ==> value.text_field(key) == Some(text),
{
    lemma_field_is_first(value, key);
    assert forall|text: Seq<char>| #[trigger] holds_text(value, key, text) implies value.text_field(
        key,
    ) == Some(text) by {
        let s = choose|s: String| #[trigger] holds(value, key, Value::Text(s)) && s@ == text;
        assert(value.field(key) == Some(Value::Text(s)));
    }
    match value.field(key) {
        Some(Value::Text(s)) => {
            assert(holds(value, key, Value::Text(s)));
            assert(holds_text(value, key, s@));
        },
        _ => {},
    }
}

/// A payload reads as the preview in it: its monitor, the rectangle in it with any
/// sides at all, and whether its kind is tiling. None is read only where it names
/// no monitor.
pub proof fn lemma_as_preview_reads_every_preview(payload: Value, r: Option<Preview<'_>>)
    requires
        call_ensures(Value::as_preview, (&payload,), r),
    ensures
        forall|monitor: Seq<char>| #[trigger]
            holds_text(payload, "monitor"@, monitor) ==> r is Some && r->0.monitor@ == monitor,
        r is Some ==> holds_text(payload, "monitor"@, r->0.monitor@),
        r is Some ==> is_place_of(r->0.rect, payload),
        r is Some ==> (r->0.tiling <==> holds_text(payload, "kind"@, "tiling"@)),
{
    lemma_text_field_is_the_text(payload, "monitor"@);
    lemma_text_field_is_the_text(payload, "kind"@);
    lemma_rect_field_is_the_place(payload);
}

} // verus!
