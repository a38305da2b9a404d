//! Paths: how a dotted locator is read, and how it leads from a document to
//! one of the values inside it.
//!
//! A path is cut at its dots into segments, which are followed from left to
//! right.  A plain segment is a key to look up in an object.  A segment that
//! holds a `[` and ends in `]` is an array index, with an optional key in
//! front of it: `tags[1]`, or `[0]`.  Its key is looked up first, then the
//! text between the brackets is read as an index, then the array is
//! indexed.  The path `.` alone stands for the document itself.

use crate::error::{Failure, FilterError};
use crate::json::{as_array, debug_string, debug_text, get_key, json_of, Json};
use crate::text::{
    decimal, decimal_string, find_from, first_index, lemma_first_index, parse_index, read_index,
    split,
};
use serde_json::Value;
use vstd::prelude::*;

verus! {

/// The failure of a step or an operator that needs a value of the kind named
/// `expected` and finds `found`.
pub open spec fn mismatch(expected: Seq<char>, found: Json) -> Failure {
    Failure::TypeMismatch { expected, got: debug_text(found) }
}

/// Whether a segment is read as an array index: it holds a `[` and ends in
/// `]`.
pub open spec fn is_indexed(segment: Seq<char>) -> bool {
    segment.contains('[') && segment.len() > 0 && segment.last() == ']'
}

/// The key of an indexed segment: what stands before its first `[`.  It may
/// be empty.
pub open spec fn segment_key(segment: Seq<char>) -> Seq<char> {
    segment.take(first_index(segment, '[') as int)
}

/// The index text of an indexed segment: what stands between its first `[`
/// and the `]` that ends it.
pub open spec fn segment_index(segment: Seq<char>) -> Seq<char> {
    segment.subrange(first_index(segment, '[') as int + 1, segment.len() - 1)
}

/// The key and the index of an indexed segment.  A segment of another shape
/// is an invalid path; one whose index text does not parse is an invalid
/// index, reported with that text.
pub open spec fn array_segment(segment: Seq<char>) -> Result<(Seq<char>, nat), Failure> {
    if !is_indexed(segment) {
        Err(Failure::InvalidPath(segment))
    } else {
        match parse_index(segment_index(segment)) {
            Some(index) => Ok((segment_key(segment), index)),
            None => Err(Failure::InvalidArrayIndex(segment_index(segment))),
        }
    }
}

/// The member of `doc` under `key`.  A document that is no object has no
/// members: it fails like an object that lacks the key.
pub open spec fn lookup(doc: Json, key: Seq<char>) -> Result<Json, Failure> {
    match doc {
        Json::Object(members) if members.contains_key(key) => Ok(members[key]),
        _ => Err(Failure::PathNotFound(key)),
    }
}

/// The element of `doc` at `index`.  A document that is no array is a type
/// mismatch; an index at or beyond the length is an invalid index, reported
/// in decimal.
pub open spec fn element(doc: Json, index: nat) -> Result<Json, Failure> {
    match doc {
        Json::Array(items) => if index < items.len() {
            Ok(items[index as int])
        } else {
            Err(Failure::InvalidArrayIndex(decimal(index)))
        },
        _ => Err(mismatch("array"@, doc)),
    }
}

/// Where one segment leads from `doc`.
///
/// A plain segment is looked up as a key.  An indexed segment is followed in
/// this order: its key, where it has one, is looked up; then its index text
/// is parsed; then the value reached so far is indexed as an array.  The
/// first of these that fails decides the failure, so a key that is missing
/// is reported even where the index text is no index.
pub open spec fn step(segment: Seq<char>, doc: Json) -> Result<Json, Failure> {
    if is_indexed(segment) {
        let key = segment_key(segment);
        let holder = if key.len() > 0 {
            lookup(doc, key)
        } else {
            Ok(doc)
        };
        match holder {
            Err(e) => Err(e),
            Ok(holder) => match parse_index(segment_index(segment)) {
                None => Err(Failure::InvalidArrayIndex(segment_index(segment))),
                Some(index) => element(holder, index),
            },
        }
    } else {
        lookup(doc, segment)
    }
}

/// Where a list of segments leads from `doc`, followed from left to right.
/// The first step that fails ends the walk with its failure.
pub open spec fn walk(segments: Seq<Seq<char>>, doc: Json) -> Result<Json, Failure>
    decreases segments.len(),
{
    if segments.len() == 0 {
        Ok(doc)
    } else {
        match step(segments[0], doc) {
            Err(e) => Err(e),
            Ok(next) => walk(segments.drop_first(), next),
        }
    }
}

/// Where `path` leads from `doc`: `.` to the document itself, any other path
/// along its segments.
pub open spec fn resolve(path: Seq<char>, doc: Json) -> Result<Json, Failure> {
    if path == seq!['.'] {
        Ok(doc)
    } else {
        walk(split(path, '.'), doc)
    }
}

/// The model of the value that was reached, or of the error that took its
/// place.
pub open spec fn located(r: Result<&Value, FilterError>) -> Result<Json, Failure> {
    match r {
        Ok(v) => Ok(json_of(*v)),
        Err(e) => Err(e@),
    }
}

/// The model of the parts of a segment, or of the error that took their
/// place.
pub open spec fn parts(r: Result<(String, usize), FilterError>) -> Result<
    (Seq<char>, nat),
    Failure,
> {
    match r {
        Ok((key, index)) => Ok((key@, index as nat)),
        Err(e) => Err(e@),
    }
}

/// Cuts an indexed segment into its key and its index text; `None` for a
/// segment that is not indexed.
pub fn cut_segment<'a>(segment: &'a str) -> (r: Option<(&'a str, &'a str)>)
    ensures
        match r {
            Some((key, inside)) => is_indexed(segment@) && key@ == segment_key(segment@)
                && inside@ == segment_index(segment@),
            None => !is_indexed(segment@),
        },
{
    let len = segment.unicode_len();
    let open = find_from(segment, '[', 0);
    proof {
        assert(segment@.skip(0) == segment@);
        lemma_first_index(segment@, '[');
    }
    if open >= len || segment.get_char(len - 1) != ']' {
        return None;
    }
    Some((segment.substring_char(0, open), segment.substring_char(open + 1, len - 1)))
}

/// Takes an indexed segment apart into its key and its index.
pub fn parse_array_segment(segment: &str) -> (r: Result<(String, usize), FilterError>)
    ensures
        parts(r) == array_segment(segment@),
{
    match cut_segment(segment) {
        None => Err(FilterError::InvalidPath(String::from_str(segment))),
        Some((key, inside)) => match read_index(inside) {
            Some(index) => Ok((String::from_str(key), index)),
            None => Err(FilterError::InvalidArrayIndex(String::from_str(inside))),
        },
    }
}

/// The member of `doc` under `key`.
pub fn get_member<'a>(doc: &'a Value, key: &str) -> (r: Result<&'a Value, FilterError>)
    ensures
        located(r) == lookup(json_of(*doc), key@),
{
    match get_key(doc, key) {
        Some(found) => Ok(found),
        None => Err(FilterError::PathNotFound(String::from_str(key))),
    }
}

/// The element of `doc` at `index`.
pub fn get_element<'a>(doc: &'a Value, index: usize) -> (r: Result<&'a Value, FilterError>)
    ensures
        located(r) == element(json_of(*doc), index as nat),
{
    match as_array(doc) {
        Some(items) => if index < items.len() {
            Ok(&items[index])
        } else {
            Err(FilterError::InvalidArrayIndex(decimal_string(index)))
        },
        None => Err(
            FilterError::TypeMismatch {
                expected: String::from_str("array"),
                got: debug_string(doc),
            },
        ),
    }
}

/// Follows one segment from `doc`.
pub fn resolve_segment<'a>(segment: &str, doc: &'a Value) -> (r: Result<&'a Value, FilterError>)
    ensures
        located(r) == step(segment@, json_of(*doc)),
{
    match cut_segment(segment) {
        None => get_member(doc, segment),
        Some((key, inside)) => {
            let holder = if key.unicode_len() > 0 {
                match get_member(doc, key) {
                    Err(e) => {
                        return Err(e);
                    },
                    Ok(found) => found,
                }
            } else {
                doc
            };
            match read_index(inside) {
                None => Err(FilterError::InvalidArrayIndex(String::from_str(inside))),
                Some(index) => get_element(holder, index),
            }
        },
    }
}

/// Follows `path` from `value` to the value it names.
pub fn resolve_path<'a>(path: &str, value: &'a Value) -> (r: Result<&'a Value, FilterError>)
    ensures
        located(r) == resolve(path@, json_of(*value)),
{
    let len = path.unicode_len();
    if len == 1 && path.get_char(0) == '.' {
        assert(path@ == seq!['.']);
        return Ok(value);
    }
    let mut current = value;
    let mut start: usize = 0;
    assert(path@.skip(0) == path@);
    loop
        invariant
            start <= len == path@.len(),
            path@ != seq!['.'],
            walk(split(path@.skip(start as int), '.'), json_of(*current)) == resolve(
                path@,
                json_of(*value),
            ),
        decreases len - start,
    {
        let end = find_from(path, '.', start);
        let segment = path.substring_char(start, end);
        let ghost rest = path@.skip(start as int);
        let ghost pieces = split(rest, '.');
        proof {
            assert(segment@ == rest.take(end - start));
            if end == len {
                assert(rest.take(end - start) == rest);
                assert(pieces == seq![rest]);
                assert(pieces.drop_first() == Seq::<Seq<char>>::empty());
            } else {
                assert(rest.skip(end - start + 1) == path@.skip(end + 1));
                assert(pieces.drop_first() == split(path@.skip(end + 1), '.'));
            }
            assert(pieces[0] == segment@);
        }
        let ghost before = json_of(*current);
        match resolve_segment(segment, current) {
            Err(e) => {
                return Err(e);
            },
            Ok(next) => {
                current = next;
            },
        }
        assert(walk(pieces, before) == walk(pieces.drop_first(), json_of(*current)));
        if end == len {
            assert(walk(pieces.drop_first(), json_of(*current)) == Ok::<Json, Failure>(
                json_of(*current),
            ));
            return Ok(current);
        }
        start = end + 1;
    }
}

} // verus!
