//! The structured values that broadcasts carry, and the snap preview in them.
use crate::scalar::Scalar;
use vstd::prelude::*;

verus! {

/// A structured value. A number holds the single-precision number nearest to it.
pub enum Value {
    Null,
    Bool(bool),
    Number(Scalar),
    Text(String),
    Array(Vec<Value>),
    Object(Vec<(String, Value)>),
}

/// A rectangle in output-local logical coordinates.
#[derive(Clone, Copy, Debug, PartialEq, Eq, Structural)]
pub struct Rect {
    pub x: Scalar,
    pub y: Scalar,
    pub w: Scalar,
    pub h: Scalar,
}

/// What a `snap.preview` broadcast asks for: where to show the preview on
/// `monitor`, or that it goes away.
pub struct Preview<'a> {
    pub monitor: &'a str,
    pub rect: Option<Rect>,
    pub tiling: bool,
}

/// The member under `key`, the first one where it occurs more than once.
pub open spec fn member(entries: Seq<(String, Value)>, key: Seq<char>) -> Option<Value>
    decreases entries.len(),
{
    if entries.len() == 0 {
        None
    } else if entries[0].0@ == key {
        Some(entries[0].1)
    } else {
        member(entries.skip(1), key)
    }
}

impl Value {
    /// The member of an object under `key`; nothing else has members.
    pub open spec fn field(self, key: Seq<char>) -> Option<Value> {
        match self {
            Value::Object(entries) => member(entries@, key),
            _ => None,
        }
    }

    pub open spec fn text(self) -> Option<Seq<char>> {
        match self {
            Value::Text(s) => Some(s@),
            _ => None,
        }
    }

    pub open spec fn number(self) -> Option<Scalar> {
        match self {
            Value::Number(n) => Some(n),
            _ => None,
        }
    }

    /// The text of the member under `key`.
    pub open spec fn text_field(self, key: Seq<char>) -> Option<Seq<char>> {
        match self.field(key) {
            Some(v) => v.text(),
            None => None,
        }
    }

    /// The number of the member under `key`.
    pub open spec fn number_field(self, key: Seq<char>) -> Option<Scalar> {
        match self.field(key) {
            Some(v) => v.number(),
            None => None,
        }
    }

    /// The rectangle that an object with the numbers `x`, `y`, `w` and `h` is.
    pub open spec fn rect(self) -> Option<Rect> {
        match (
            self.number_field("x"@),
            self.number_field("y"@),
            self.number_field("w"@),
            self.number_field("h"@),
        ) {
            (Some(x), Some(y), Some(w), Some(h)) => Some(Rect { x, y, w, h }),
            _ => None,
        }
    }

    /// The rectangle of a preview payload; without a whole one there is none.
    pub open spec fn rect_field(self) -> Option<Rect> {
        match self.field("rect"@) {
            Some(v) => v.rect(),
            None => None,
        }
    }

    pub open spec fn is_tiling(self) -> bool {
        self.text_field("kind"@) == Some("tiling"@)
    }

    pub fn get(&self, key: &str) -> (r: Option<&Value>)
        ensures
            match r {
                Some(v) => self.field(key@) == Some(*v),
                None => self.field(key@) is None,
            },
    {
        let entries: &Vec<(String, Value)> = match self {
            Value::Object(entries) => entries,
            _ => return None,
        };
        let wanted: String = key.to_owned();
        let mut i: usize = 0;
        assert(entries@.skip(0) =~= entries@);
        while i < entries.len()
            invariant
                i <= entries.len(),
                wanted@ == key@,
                *self == Value::Object(*entries),
                member(entries@, key@) == member(entries@.skip(i as int), key@),
            decreases entries.len() - i,
        {
            assert(entries@.skip(i as int).skip(1) =~= entries@.skip(i + 1));
            if entries[i].0 == wanted {
                return Some(&entries[i].1);
            }
            i += 1;
        }
        None
    }

    pub fn as_str(&self) -> (r: Option<&str>)
        ensures
            match r {
                Some(s) => self.text() == Some(s@),
                None => self.text() is None,
            },
    {
        match self {
            Value::Text(s) => Some(s.as_str()),
            _ => None,
        }
    }

    pub fn as_number(&self) -> (r: Option<Scalar>)
        ensures
            r == self.number(),
    {
        match self {
            Value::Number(n) => Some(*n),
            _ => None,
        }
    }

    fn get_number(&self, key: &str) -> (r: Option<Scalar>)
        ensures
            r == self.number_field(key@),
    {
        match self.get(key) {
            Some(v) => v.as_number(),
            None => None,
        }
    }

    /// Reads a rectangle out of an object.
    pub fn as_rect(&self) -> (r: Option<Rect>)
        ensures
            r == self.rect(),
    {
        let x: Scalar = match self.get_number("x") {
            Some(n) => n,
            None => return None,
        };
        let y: Scalar = match self.get_number("y") {
            Some(n) => n,
            None => return None,
        };
        let w: Scalar = match self.get_number("w") {
            Some(n) => n,
            None => return None,
        };
        let h: Scalar = match self.get_number("h") {
            Some(n) => n,
            None => return None,
        };
        Some(Rect { x, y, w, h })
    }

    /// Reads the payload of a `snap.preview` broadcast. Without a monitor name
    /// it asks for nothing.
    pub fn as_preview(&self) -> (r: Option<Preview<'_>>)
        ensures
            match r {
                Some(p) => {
                    &&& self.text_field("monitor"@) == Some(p.monitor@)
                    &&& p.rect == self.rect_field()
                    &&& p.tiling == self.is_tiling()
                },
                None => self.text_field("monitor"@) is None,
            },
    {
        let monitor: &str = match self.get("monitor") {
            Some(v) => match v.as_str() {
                Some(s) => s,
                None => return None,
            },
            None => return None,
        };
        let rect: Option<Rect> = match self.get("rect") {
            Some(v) => v.as_rect(),
            None => None,
        };
        let tiling: bool = match self.get("kind") {
            Some(v) => match v.as_str() {
                Some(s) => s.to_owned() == "tiling".to_owned(),
                None => false,
            },
            None => false,
        };
        Some(Preview { monitor, rect, tiling })
    }
}

} // verus!
