//! A document as it comes back from an interface: nested values, read by name
//! and by position.
use vstd::prelude::*;

use crate::text::{number_in, parse_number, same};

verus! {

/// One value of a document. Numbers are told apart by what they can be read
/// as: a whole number of zero or more, a negative whole number, or neither.
#[derive(Debug)]
pub enum Json {
    /// The absent value.
    Null,
    /// A truth value.
    Bool(bool),
    /// A whole number that is not negative.
    Whole(u64),
    /// A negative whole number.
    Negative(i64),
    /// A number that is no whole number of 64 bits.
    Fraction,
    /// A text.
    Text(String),
    /// A list of values.
    List(Vec<Json>),
    /// Named values, each name at most once.
    Object(Vec<(String, Json)>),
}

/// The value of the first field called `key`.
pub open spec fn field(fields: Seq<(String, Json)>, key: Seq<char>) -> Option<Json>
    decreases fields.len(),
{
    if fields.len() == 0 {
        None
    } else if fields[0].0@ == key {
        Some(fields[0].1)
    } else {
        field(fields.drop_first(), key)
    }
}

/// The position that a path segment writes: digits only, without a leading
/// zero unless it is the single digit.
pub open spec fn position(segment: Seq<char>) -> Option<nat> {
    if segment.len() > 0 && (segment[0] == '+' || segment[0] == '0' && segment.len() != 1) {
        None
    } else {
        number_in(segment, usize::MAX as nat)
    }
}

/// What a path leads to from `value`: each segment names a field of an object
/// or a position in a list.
pub open spec fn reached(value: Json, path: Seq<Seq<char>>) -> Option<Json>
    decreases path.len(),
{
    if path.len() == 0 {
        Some(value)
    } else {
        match value.step(path[0]) {
            Some(next) => reached(next, path.drop_first()),
            None => None,
        }
    }
}

/// The characters of each segment of a path.
pub open spec fn segments(path: Seq<&str>) -> Seq<Seq<char>> {
    path.map_values(|s: &str| s@)
}

impl Json {
    /// The field called `key`, where the value is an object that has it.
    pub open spec fn named(self, key: Seq<char>) -> Option<Json> {
        match self {
            Json::Object(fields) => field(fields@, key),
            _ => None,
        }
    }

    /// What one path segment leads to.
    pub open spec fn step(self, segment: Seq<char>) -> Option<Json> {
        match self {
            Json::Object(fields) => field(fields@, segment),
            Json::List(items) => match position(segment) {
                Some(i) => if i < items@.len() {
                    Some(items@[i as int])
                } else {
                    None
                },
                None => None,
            },
            _ => None,
        }
    }

    /// The truth value, where the value is one.
    pub open spec fn truth(self) -> Option<bool> {
        match self {
            Json::Bool(b) => Some(b),
            _ => None,
        }
    }

    /// The whole number of zero or more, where the value is one.
    pub open spec fn whole(self) -> Option<u64> {
        match self {
            Json::Whole(n) => Some(n),
            _ => None,
        }
    }

    /// The signed whole number, where the value is one that fits in 64 bits.
    pub open spec fn signed(self) -> Option<int> {
        match self {
            Json::Whole(n) => if n <= i64::MAX {
                Some(n as int)
            } else {
                None
            },
            Json::Negative(n) => Some(n as int),
            _ => None,
        }
    }

    /// The characters, where the value is a text.
    pub open spec fn chars(self) -> Option<Seq<char>> {
        match self {
            Json::Text(s) => Some(s@),
            _ => None,
        }
    }

    /// The items, where the value is a list.
    pub open spec fn items(self) -> Option<Seq<Json>> {
        match self {
            Json::List(v) => Some(v@),
            _ => None,
        }
    }

    /// The truth value of the field called `key`.
    pub open spec fn truth_of(self, key: Seq<char>) -> Option<bool> {
        match self.named(key) {
            Some(v) => v.truth(),
            None => None,
        }
    }

    /// The whole number in the field called `key`.
    pub open spec fn whole_of(self, key: Seq<char>) -> Option<u64> {
        match self.named(key) {
            Some(v) => v.whole(),
            None => None,
        }
    }

    /// The signed whole number in the field called `key`.
    pub open spec fn signed_of(self, key: Seq<char>) -> Option<int> {
        match self.named(key) {
            Some(v) => v.signed(),
            None => None,
        }
    }

    /// The characters of the text in the field called `key`.
    pub open spec fn chars_of(self, key: Seq<char>) -> Option<Seq<char>> {
        match self.named(key) {
            Some(v) => v.chars(),
            None => None,
        }
    }

    /// The characters of the text that a path leads to.
    pub open spec fn chars_at(self, path: Seq<Seq<char>>) -> Option<Seq<char>> {
        match reached(self, path) {
            Some(v) => v.chars(),
            None => None,
        }
    }

    /// The whole number that a path leads to.
    pub open spec fn whole_at(self, path: Seq<Seq<char>>) -> Option<u64> {
        match reached(self, path) {
            Some(v) => v.whole(),
            None => None,
        }
    }

    /// The items of the list that a path leads to.
    pub open spec fn items_at(self, path: Seq<Seq<char>>) -> Option<Seq<Json>> {
        match reached(self, path) {
            Some(v) => v.items(),
            None => None,
        }
    }

    /// The field called `key`, where the value is an object that has it.
    pub fn get(&self, key: &str) -> (r: Option<&Json>)
        ensures
            match r {
                Some(v) => self.named(key@) == Some(*v),
                None => self.named(key@) is None,
            },
    {
        match self {
            Json::Object(fields) => {
                let mut i: usize = 0;
                assert(fields@.skip(0) == fields@);
                while i < fields.len()
                    invariant
                        i <= fields.len(),
                        *self == Json::Object(*fields),
                        field(fields@, key@) == field(fields@.skip(i as int), key@),
                    decreases fields.len() - i,
                {
                    assert(fields@.skip(i as int).drop_first() == fields@.skip(i + 1));
                    if same(fields[i].0.as_str(), key) {
                        return Some(&fields[i].1);
                    }
                    i += 1;
                }
                None
            },
            _ => None,
        }
    }

    /// What one path segment leads to.
    fn follow(&self, segment: &str) -> (r: Option<&Json>)
        ensures
            match r {
                Some(v) => self.step(segment@) == Some(*v),
                None => self.step(segment@) is None,
            },
    {
        match self {
            Json::Object(_) => self.get(segment),
            Json::List(items) => {
                match parse_position(segment) {
                    Some(i) => {
                        if i < items.len() {
                            Some(&items[i])
                        } else {
                            None
                        }
                    },
                    None => None,
                }
            },
            _ => None,
        }
    }

    /// What a path leads to: each segment names a field of an object or a
    /// position in a list.
    pub fn pointer(&self, path: &[&str]) -> (r: Option<&Json>)
        ensures
            match r {
                Some(v) => reached(*self, segments(path@)) == Some(*v),
                None => reached(*self, segments(path@)) is None,
            },
    {
        let ghost all = segments(path@);
        let mut at: &Json = self;
        let mut i: usize = 0;
        assert(all.skip(0) == all);
        while i < path.len()
            invariant
                i <= path.len(),
                all == segments(path@),
                reached(*self, all) == reached(*at, all.skip(i as int)),
            decreases path.len() - i,
        {
            assert(all.skip(i as int)[0] == path@[i as int]@);
            assert(all.skip(i as int).drop_first() == all.skip(i + 1));
            match at.follow(path[i]) {
                Some(next) => {
                    at = next;
                },
                None => {
                    return None;
                },
            }
            i += 1;
        }
        Some(at)
    }

    /// The truth value, where the value is one.
    pub fn as_bool(&self) -> (r: Option<bool>)
        ensures
            r == self.truth(),
    {
        match self {
            Json::Bool(b) => Some(*b),
            _ => None,
        }
    }

    /// The whole number of zero or more, where the value is one.
    pub fn as_u64(&self) -> (r: Option<u64>)
        ensures
            r == self.whole(),
    {
        match self {
            Json::Whole(n) => Some(*n),
            _ => None,
        }
    }

    /// The signed whole number, where the value is one that fits in 64 bits.
    pub fn as_i64(&self) -> (r: Option<i64>)
        ensures
            match r {
                Some(n) => self.signed() == Some(n as int),
                None => self.signed() is None,
            },
    {
        match self {
            Json::Whole(n) => {
                if *n <= i64::MAX as u64 {
                    Some(*n as i64)
                } else {
                    None
                }
            },
            Json::Negative(n) => Some(*n),
            _ => None,
        }
    }

    /// The text, where the value is one.
    pub fn as_str(&self) -> (r: Option<&str>)
        ensures
            match r {
                Some(s) => self.chars() == Some(s@),
                None => self.chars() is None,
            },
    {
        match self {
            Json::Text(s) => Some(s.as_str()),
            _ => None,
        }
    }

    /// The list, where the value is one.
    pub fn as_array(&self) -> (r: Option<&Vec<Json>>)
        ensures
            match r {
                Some(v) => self.items() == Some(v@),
                None => self.items() is None,
            },
    {
        match self {
            Json::List(v) => Some(v),
            _ => None,
        }
    }

    /// The text in the field called `key`, or `fallback`.
    pub fn text_or(&self, key: &str, fallback: &str) -> (r: String)
        ensures
            r@ == self.chars_of(key@).unwrap_or(fallback@),
    {
        match self.get(key) {
            Some(v) => match v.as_str() {
                Some(s) => s.to_owned(),
                None => fallback.to_owned(),
            },
            None => fallback.to_owned(),
        }
    }
}

/// The position that a path segment writes.
fn parse_position(segment: &str) -> (r: Option<usize>)
    ensures
        match r {
            Some(i) => position(segment@) == Some(i as nat),
            None => position(segment@) is None,
        },
{
    let chars = crate::text::chars_of(segment);
    if chars.len() > 0 && (chars[0] == '+' || (chars[0] == '0' && chars.len() != 1)) {
        return None;
    }
    match parse_number(segment, usize::MAX as u64) {
        Some(n) => Some(n as usize),
        None => None,
    }
}

} // verus!
