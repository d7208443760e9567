//! What holds of reading a document.
use vstd::prelude::*;

use crate::json::{field, position, reached, Json};
use crate::text::{decimal, is_digit, lemma_decimal};
use crate::text_laws::{law_decimal_reads_back, law_numbers_are_digits};

verus! {

/// The value of a field is that of its first place in the object.
pub proof fn law_first_field_counts(fields: Seq<(String, Json)>, key: Seq<char>, i: int)
    requires
        0 <= i < fields.len(),
        fields[i].0@ == key,
        forall|j: int| 0 <= j < i ==> (#[trigger] fields[j]).0@ != key,
    ensures
        field(fields, key) == Some(fields[i].1),
    decreases i,
{
    if i > 0 {
        let rest = fields.drop_first();
        assert(fields[0].0@ != key);
        assert forall|j: int| 0 <= j < i - 1 implies (#[trigger] rest[j]).0@ != key by {
            assert(rest[j] == fields[j + 1]);
        }
        law_first_field_counts(rest, key, i - 1);
    }
}

/// An object without a field of this name has no value for it.
pub proof fn law_missing_field(fields: Seq<(String, Json)>, key: Seq<char>)
    requires
        forall|j: int| 0 <= j < fields.len() ==> (#[trigger] fields[j]).0@ != key,
    ensures
        field(fields, key) is None,
    decreases fields.len(),
{
    if fields.len() > 0 {
        let rest = fields.drop_first();
        assert(fields[0].0@ != key);
        assert forall|j: int| 0 <= j < rest.len() implies (#[trigger] rest[j]).0@ != key by {
            assert(rest[j] == fields[j + 1]);
        }
        law_missing_field(rest, key);
    }
}

/// A value is read as what it is, and as nothing else: a whole number also as a
/// signed one where it fits.
pub proof fn law_values_are_what_they_are(v: Json, key: Seq<char>)
    ensures
        v.truth() == (match v {
            Json::Bool(b) => Some(b),
            _ => None::<bool>,
        }),
        v is Whole <==> v.whole() is Some,
        v matches Json::Whole(n) ==> v.whole() == Some(n) && (n <= 0x7fff_ffff_ffff_ffff
            ==> v.signed() == Some(n as int)) && (n > 0x7fff_ffff_ffff_ffff ==> v.signed() is None),
        v matches Json::Negative(n) ==> v.signed() == Some(n as int),
        !(v is Whole) && !(v is Negative) ==> v.signed() is None,
        v is Text <==> v.chars() is Some,
        v matches Json::Text(s) ==> v.chars() == Some(s@),
        v is List <==> v.items() is Some,
        v matches Json::List(items) ==> v.items() == Some(items@),
        v matches Json::Object(fields) ==> v.named(key) == field(fields@, key),
        !(v is Object) ==> v.named(key) is None,
{
}

/// What a field holds is read as what it is; nothing is read where the field is
/// missing.
pub proof fn law_fields_are_read(v: Json, key: Seq<char>)
    ensures
        v.named(key) matches Some(w) ==> v.truth_of(key) == w.truth() && v.whole_of(key)
            == w.whole() && v.signed_of(key) == w.signed() && v.chars_of(key) == w.chars(),
        v.named(key) is None ==> v.truth_of(key) is None && v.whole_of(key) is None && v.signed_of(
            key,
        ) is None && v.chars_of(key) is None,
{
}

/// A path is followed step by step: by name into an object, by position into a
/// list, and nowhere else.
pub proof fn law_path_is_followed(v: Json, first: Seq<char>, rest: Seq<Seq<char>>, i: nat)
    ensures
        reached(v, Seq::empty()) == Some(v),
        reached(v, seq![first] + rest) == (match v.step(first) {
            Some(w) => reached(w, rest),
            None => None,
        }),
        v matches Json::Object(fields) ==> v.step(first) == field(fields@, first),
        v matches Json::List(items) ==> i < items@.len() && i <= usize::MAX ==> v.step(decimal(i))
            == Some(items@[i as int]),
        v matches Json::List(items) ==> i >= items@.len() ==> v.step(decimal(i)) is None,
        !(v is Object) && !(v is List) ==> v.step(first) is None,
{
    let path = seq![first] + rest;
    assert(path[0] == first);
    assert(path.drop_first() =~= rest);
    law_positions(i);
    lemma_decimal(i);
    assert(is_digit(decimal(i)[0]));
    law_decimal_reads_back(i, usize::MAX as nat);
}

/// A position is written in decimal digits, without a sign and without a zero
/// too many.
pub proof fn law_positions(n: nat)
    ensures
        n <= usize::MAX ==> position(decimal(n)) == Some(n),
        position(seq!['+'] + decimal(n)) is None,
        position(seq!['0'] + decimal(n)) is None,
{
    lemma_decimal(n);
    assert(is_digit(decimal(n)[0]));
    law_decimal_reads_back(n, usize::MAX as nat);
    assert((seq!['+'] + decimal(n))[0] == '+');
    assert((seq!['0'] + decimal(n))[0] == '0');
}

/// Nothing but digits is a position.
pub proof fn law_positions_are_digits(s: Seq<char>, i: int)
    requires
        position(s) is Some,
        0 <= i < s.len(),
    ensures
        '0' <= s[i] <= '9',
{
    law_numbers_are_digits(s, usize::MAX as nat);
}

/// What a path leads to is read as what it is.
pub proof fn law_paths_are_read(v: Json, path: Seq<Seq<char>>)
    ensures
        reached(v, path) matches Some(w) ==> v.chars_at(path) == w.chars() && v.whole_at(path)
            == w.whole() && v.items_at(path) == w.items(),
        reached(v, path) is None ==> v.chars_at(path) is None && v.whole_at(path) is None
            && v.items_at(path) is None,
{
}

} // verus!
