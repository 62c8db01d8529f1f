use vstd::prelude::*;
use vstd::string::StringSliceAdditionalSpecFns;
use hyper::header::{HeaderName, HeaderValue};
use hyper::HeaderMap;
use crate::domain::error::LoadBalancerError;

verus! {

/// One header field: its name and the bytes of its value.
pub type Field = (Seq<char>, Seq<u8>);

#[verifier::external_type_specification]
#[verifier::external_body]
#[verifier::reject_recursive_types(T)]
pub struct ExHeaderMap<T>(hyper::HeaderMap<T>);

#[verifier::external_type_specification]
#[verifier::external_body]
pub struct ExHeaderValue(hyper::header::HeaderValue);

/// The fields that a header map holds, in the order in which it hands
/// them out. A name that has several values stands there once for each.
/// A field is its name and the bytes of its value; the mark that a value
/// is sensitive is no part of it.
pub uninterp spec fn header_fields(map: HeaderMap<HeaderValue>) -> Seq<Field>;

/// Whether a header map refuses to take a field: `HeaderMap::try_insert`
/// fails on it, whatever the name and the value. A map refuses when its
/// index table cannot grow any further.
pub uninterp spec fn header_map_full(map: HeaderMap<HeaderValue>) -> bool;

/// The name under which a header map files a field that is given to it as
/// `text`: `HeaderName::from_bytes` of the text's bytes, read back as a
/// string. `None` where the text is no header name.
pub uninterp spec fn header_name_of(text: Seq<char>) -> Option<Seq<char>>;

/// The number of fields below which every header map takes one more.
pub const HEADER_ROOM: usize = 6554;

/// Whether a byte may stand in the value of a header: a tab, or anything
/// from the space upwards but the delete character.
pub open spec fn byte_accepted(byte: u8) -> bool {
    byte == 9 || (byte >= 32 && byte != 127)
}

/// Whether the bytes are the value of a header: each of them is accepted.
pub open spec fn value_accepted(value: Seq<u8>) -> bool {
    forall|i: int| 0 <= i < value.len() ==> byte_accepted(#[trigger] value[i])
}

/// The fields without those named `name`.
pub open spec fn without_field(fields: Seq<Field>, name: Seq<char>) -> Seq<Field>
    decreases fields.len(),
{
    if fields.len() == 0 {
        fields
    } else if fields[0].0 == name {
        without_field(fields.drop_first(), name)
    } else {
        seq![fields[0]] + without_field(fields.drop_first(), name)
    }
}

/// The fields after `name` is set to `value`: the first field of that name
/// takes the value and stays where it is, every later field of that name
/// goes, and if there was none the field is added at the end.
pub open spec fn set_field(fields: Seq<Field>, name: Seq<char>, value: Seq<u8>) -> Seq<Field>
    decreases fields.len(),
{
    if fields.len() == 0 {
        seq![(name, value)]
    } else if fields[0].0 == name {
        seq![(name, value)] + without_field(fields.drop_first(), name)
    } else {
        seq![fields[0]] + set_field(fields.drop_first(), name, value)
    }
}

/// The fields after each field of `source` is set in `target`, first to
/// last.
pub open spec fn set_all(target: Seq<Field>, source: Seq<Field>) -> Seq<Field>
    decreases source.len(),
{
    if source.len() == 0 {
        target
    } else {
        set_field(set_all(target, source.drop_last()), source.last().0, source.last().1)
    }
}

/// The value of the last field named `name`, if there is one.
pub open spec fn field_value(fields: Seq<Field>, name: Seq<char>) -> Option<Seq<u8>>
    decreases fields.len(),
{
    if fields.len() == 0 {
        None
    } else if fields.last().0 == name {
        Some(fields.last().1)
    } else {
        field_value(fields.drop_last(), name)
    }
}

/// Whether no name stands on two fields.
pub open spec fn distinct_names(fields: Seq<Field>) -> bool {
    forall|i: int, j: int|
        0 <= i < j < fields.len() ==> (#[trigger] fields[i]).0 != (#[trigger] fields[j]).0
}

/// Whether a field is named `name`.
pub open spec fn has_name(fields: Seq<Field>, name: Seq<char>) -> bool {
    exists|i: int| 0 <= i < fields.len() && (#[trigger] fields[i]).0 == name
}

proof fn lemma_field_value_after_first(first: Field, rest: Seq<Field>, name: Seq<char>)
    ensures
        field_value(seq![first] + rest, name) == match field_value(rest, name) {
            Some(value) => Some(value),
            None => if first.0 == name {
                Some(first.1)
            } else {
                None
            },
        },
    decreases rest.len(),
{
    let all = seq![first] + rest;
    if rest.len() == 0 {
        assert(all.drop_last() == Seq::<Field>::empty());
        assert(all.last() == first);
    } else {
        assert(all.last() == rest.last());
        assert(all.drop_last() == seq![first] + rest.drop_last());
        lemma_field_value_after_first(first, rest.drop_last(), name);
    }
}

proof fn lemma_field_value_without(fields: Seq<Field>, removed: Seq<char>, name: Seq<char>)
    ensures
        field_value(without_field(fields, removed), name) == if name == removed {
            None
        } else {
            field_value(fields, name)
        },
    decreases fields.len(),
{
    if fields.len() > 0 {
        let rest = fields.drop_first();
        lemma_field_value_without(rest, removed, name);
        assert(fields == seq![fields[0]] + rest);
        lemma_field_value_after_first(fields[0], rest, name);
        if fields[0].0 != removed {
            lemma_field_value_after_first(fields[0], without_field(rest, removed), name);
        }
    }
}

/// Setting a field changes the value read under that name and under no
/// other.
pub proof fn lemma_field_value_set(
    fields: Seq<Field>,
    name: Seq<char>,
    value: Seq<u8>,
    other: Seq<char>,
)
    ensures
        field_value(set_field(fields, name, value), other) == if other == name {
            Some(value)
        } else {
            field_value(fields, other)
        },
    decreases fields.len(),
{
    if fields.len() == 0 {
        let single = seq![(name, value)];
        assert(single.last() == (name, value));
        assert(single.drop_last() == Seq::<Field>::empty());
        assert(field_value(single.drop_last(), other) is None);
        assert(field_value(single, other) == if other == name {
            Some(value)
        } else {
            None
        });
    } else {
        let rest = fields.drop_first();
        assert(fields == seq![fields[0]] + rest);
        lemma_field_value_after_first(fields[0], rest, other);
        if fields[0].0 == name {
            lemma_field_value_without(rest, name, other);
            lemma_field_value_after_first((name, value), without_field(rest, name), other);
        } else {
            lemma_field_value_set(rest, name, value, other);
            lemma_field_value_after_first(fields[0], set_field(rest, name, value), other);
        }
    }
}

/// A value can be read under a name exactly when a field has that name.
pub proof fn lemma_field_value_some(fields: Seq<Field>, name: Seq<char>)
    ensures
        field_value(fields, name) is Some <==> has_name(fields, name),
    decreases fields.len(),
{
    if fields.len() > 0 {
        let front = fields.drop_last();
        lemma_field_value_some(front, name);
        if fields.last().0 == name {
            assert(fields[fields.len() - 1].0 == name);
        } else if has_name(front, name) {
            let i = choose|i: int| 0 <= i < front.len() && (#[trigger] front[i]).0 == name;
            assert(fields[i].0 == name);
        } else if has_name(fields, name) {
            let i = choose|i: int| 0 <= i < fields.len() && (#[trigger] fields[i]).0 == name;
            assert(front[i].0 == name);
        }
    }
}

proof fn lemma_without_absent(fields: Seq<Field>, name: Seq<char>)
    requires
        !has_name(fields, name),
    ensures
        without_field(fields, name) == fields,
    decreases fields.len(),
{
    if fields.len() > 0 {
        let rest = fields.drop_first();
        assert(fields[0].0 != name);
        assert forall|i: int| 0 <= i < rest.len() implies (#[trigger] rest[i]).0 != name by {
            assert(fields[i + 1].0 != name);
        }
        lemma_without_absent(rest, name);
        assert(fields == seq![fields[0]] + rest);
    }
}

/// Setting a field in fields whose names differ leaves fields whose names
/// differ.
pub proof fn lemma_set_field_distinct(fields: Seq<Field>, name: Seq<char>, value: Seq<u8>)
    requires
        distinct_names(fields),
    ensures
        distinct_names(set_field(fields, name, value)),
    decreases fields.len(),
{
    if fields.len() > 0 {
        let rest = fields.drop_first();
        assert forall|i: int, j: int| 0 <= i < j < rest.len() implies (#[trigger] rest[i]).0 != (
        #[trigger] rest[j]).0 by {
            assert(fields[i + 1].0 != fields[j + 1].0);
        }
        if fields[0].0 == name {
            assert forall|i: int| 0 <= i < rest.len() implies (#[trigger] rest[i]).0 != name by {
                assert(fields[0].0 != fields[i + 1].0);
            }
            lemma_without_absent(rest, name);
            let after = seq![(name, value)] + rest;
            assert forall|i: int, j: int| 0 <= i < j < after.len() implies (#[trigger] after[i]).0
                != (#[trigger] after[j]).0 by {
                assert(after[j] == fields[j]);
                if i > 0 {
                    assert(after[i] == fields[i]);
                } else {
                    assert(fields[0].0 != fields[j].0);
                }
            }
        } else {
            lemma_set_field_distinct(rest, name, value);
            let tail = set_field(rest, name, value);
            let after = seq![fields[0]] + tail;
            assert forall|i: int, j: int| 0 <= i < j < after.len() implies (#[trigger] after[i]).0
                != (#[trigger] after[j]).0 by {
                assert(after[j] == tail[j - 1]);
                if i > 0 {
                    assert(after[i] == tail[i - 1]);
                } else {
                    let other = tail[j - 1].0;
                    if other == fields[0].0 {
                        assert(has_name(tail, other));
                        lemma_field_value_some(tail, other);
                        lemma_field_value_set(rest, name, value, other);
                        lemma_field_value_some(rest, other);
                        let k = choose|k: int| 0 <= k < rest.len() && (#[trigger] rest[k]).0 == other;
                        assert(fields[0].0 != fields[k + 1].0);
                    }
                }
            }
        }
    }
}

proof fn lemma_without_field_len(fields: Seq<Field>, name: Seq<char>)
    ensures
        without_field(fields, name).len() <= fields.len(),
    decreases fields.len(),
{
    if fields.len() > 0 {
        lemma_without_field_len(fields.drop_first(), name);
    }
}

/// Setting a field adds at most one field.
pub proof fn lemma_set_field_len(fields: Seq<Field>, name: Seq<char>, value: Seq<u8>)
    ensures
        set_field(fields, name, value).len() <= fields.len() + 1,
    decreases fields.len(),
{
    if fields.len() > 0 {
        if fields[0].0 == name {
            lemma_without_field_len(fields.drop_first(), name);
        } else {
            lemma_set_field_len(fields.drop_first(), name, value);
        }
    }
}

/// A copy made field by field has no more fields than its source.
pub proof fn lemma_set_all_len(source: Seq<Field>)
    ensures
        set_all(Seq::empty(), source).len() <= source.len(),
    decreases source.len(),
{
    if source.len() > 0 {
        lemma_set_all_len(source.drop_last());
        lemma_set_field_len(
            set_all(Seq::empty(), source.drop_last()),
            source.last().0,
            source.last().1,
        );
    }
}

/// A copy made field by field holds every header of its source and no
/// other. Each name of the source stands in the copy once, with the value
/// that the source gives last under that name, and a name that the source
/// lacks is read from the copy as absent.
pub proof fn lemma_copy_keeps_every_header(source: Seq<Field>)
    ensures
        distinct_names(set_all(Seq::empty(), source)),
        forall|name: Seq<char>| #[trigger]
            field_value(set_all(Seq::empty(), source), name) == field_value(source, name),
        forall|name: Seq<char>| #[trigger]
            has_name(set_all(Seq::empty(), source), name) <==> has_name(source, name),
    decreases source.len(),
{
    let copy = set_all(Seq::empty(), source);
    if source.len() > 0 {
        let front = source.drop_last();
        let before = set_all(Seq::empty(), front);
        lemma_copy_keeps_every_header(front);
        lemma_set_field_distinct(before, source.last().0, source.last().1);
        assert forall|name: Seq<char>| #[trigger]
            field_value(copy, name) == field_value(source, name) by {
            lemma_field_value_set(before, source.last().0, source.last().1, name);
            assert(field_value(before, name) == field_value(front, name));
        }
    }
    assert forall|name: Seq<char>| #[trigger] has_name(copy, name) <==> has_name(source, name) by {
        assert(field_value(copy, name) == field_value(source, name));
        lemma_field_value_some(copy, name);
        lemma_field_value_some(source, name);
    }
}

/// `HeaderMap::new`: a map without fields, which takes a field.
#[verifier::external_body]
fn header_map_new() -> (map: HeaderMap<HeaderValue>)
    ensures
        header_fields(map) == Seq::<Field>::empty(),
        !header_map_full(map),
{
    HeaderMap::new()
}

/// `HeaderMap::len`: the number of fields, a name with several values
/// counted once for each.
#[verifier::external_body]
fn header_map_len(map: &HeaderMap<HeaderValue>) -> (len: usize)
    ensures
        len == header_fields(*map).len(),
{
    map.len()
}

/// `HeaderMap::try_insert` into `target` of the name and the value of one
/// field of `source`, cloned: the field that `HeaderMap::iter` hands out
/// at position `index`.
///
/// The answer is `true` exactly when `source` has such a field and
/// `target` is not full; a map with fewer than [`HEADER_ROOM`] fields is
/// never full. The name is then set to the value as [`set_field`] says.
/// Otherwise nothing is changed.
#[verifier::external_body]
fn header_map_copy_field(
    target: &mut HeaderMap<HeaderValue>,
    source: &HeaderMap<HeaderValue>,
    index: usize,
) -> (done: bool)
    ensures
        done <==> (index < header_fields(*source).len() && !header_map_full(*old(target))),
        index < header_fields(*source).len() && header_fields(*old(target)).len() < HEADER_ROOM
            ==> done,
        done ==> header_fields(*final(target)) == set_field(
            header_fields(*old(target)),
            header_fields(*source)[index as int].0,
            header_fields(*source)[index as int].1,
        ),
        !done ==> header_fields(*final(target)) == header_fields(*old(target)),
{
    match source.iter().nth(index) {
        Some((name, value)) => target.try_insert(name.clone(), value.clone()).is_ok(),
        None => false,
    }
}

/// `HeaderMap::try_insert` of a name made by `HeaderName::from_bytes` and
/// a value made by `HeaderValue::from_bytes`.
///
/// The answer is `true` exactly when the text is a header name, the bytes
/// are a header value and the map is not full; a map with fewer than
/// [`HEADER_ROOM`] fields is never full. The name is then set to the value
/// as [`set_field`] says. Otherwise nothing is changed.
#[verifier::external_body]
fn header_map_set(map: &mut HeaderMap<HeaderValue>, name: &str, value: &[u8]) -> (done: bool)
    ensures
        done <==> (header_name_of(name@) is Some && value_accepted(value@)
            && !header_map_full(*old(map))),
        header_name_of(name@) is Some && value_accepted(value@) && header_fields(*old(map)).len()
            < HEADER_ROOM ==> done,
        done ==> header_fields(*final(map)) == set_field(
            header_fields(*old(map)),
            header_name_of(name@)->0,
            value@,
        ),
        !done ==> header_fields(*final(map)) == header_fields(*old(map)),
{
    match (HeaderName::from_bytes(name.as_bytes()), HeaderValue::from_bytes(value)) {
        (Ok(name), Ok(value)) => map.try_insert(name, value).is_ok(),
        _ => false,
    }
}

/// `hyper::header::HOST`, read as a string: the name of the `Host`
/// header, which a map files as it stands.
#[verifier::external_body]
fn host_header_name() -> (name: String)
    ensures
        name@ == "host"@,
        header_name_of(name@) == Some(name@),
{
    hyper::header::HOST.as_str().to_owned()
}

/// What becomes of a request when a header map has answered an attempt to
/// set a field: it goes on if the field was taken, and fails with an
/// `UnexpectedError` if it was refused.
pub fn field_outcome(done: bool) -> (outcome: Result<(), LoadBalancerError>)
    ensures
        done ==> outcome is Ok,
        !done ==> outcome is Err && outcome->Err_0 is UnexpectedError && outcome->Err_0.cause()
            == "header map refused a field"@,
{
    if done {
        Ok(())
    } else {
        Err(LoadBalancerError::UnexpectedError("header map refused a field".to_owned()))
    }
}

/// Copies a header map field by field, each field set over what was
/// copied before it. Of the values of one name the last one stays.
///
/// A source of no more than [`HEADER_ROOM`] fields is always copied. A
/// larger one is copied unless the new map becomes full on the way; the
/// copy then fails with an `UnexpectedError`.
pub fn copy_headers(source: &HeaderMap<HeaderValue>) -> (copy: Result<
    HeaderMap<HeaderValue>,
    LoadBalancerError,
>)
    ensures
        copy matches Ok(headers) ==> header_fields(headers) == set_all(
            Seq::empty(),
            header_fields(*source),
        ) && header_fields(headers).len() <= header_fields(*source).len(),
        copy matches Err(error) ==> error is UnexpectedError,
        header_fields(*source).len() <= HEADER_ROOM ==> copy is Ok,
{
    let count = header_map_len(source);
    let mut headers = header_map_new();
    let mut i: usize = 0;
    while i < count
        invariant
            i <= count,
            count == header_fields(*source).len(),
            header_fields(headers) == set_all(Seq::empty(), header_fields(*source).take(i as int)),
            header_fields(headers).len() <= i,
        decreases count - i,
    {
        let done = header_map_copy_field(&mut headers, source, i);
        match field_outcome(done) {
            Ok(()) => {},
            Err(error) => {
                return Err(error);
            },
        }
        proof {
            let all = header_fields(*source);
            let next = all.take(i + 1);
            assert(next.drop_last() == all.take(i as int));
            assert(next.last() == all[i as int]);
            lemma_set_all_len(next);
        }
        i = i + 1;
    }
    proof {
        assert(header_fields(*source).take(i as int) == header_fields(*source));
    }
    Ok(headers)
}

/// Sets the `Host` header to the authority of the worker a request goes
/// to.
///
/// It succeeds exactly when the authority is the value of a header and
/// the map is not full, which a map with fewer than [`HEADER_ROOM`] fields
/// never is. Otherwise it fails with an `UnexpectedError` and leaves the
/// map as it was.
pub fn set_host(headers: &mut HeaderMap<HeaderValue>, authority: &str) -> (outcome: Result<
    (),
    LoadBalancerError,
>)
    ensures
        outcome is Ok <==> (value_accepted(authority.spec_bytes())
            && !header_map_full(*old(headers))),
        value_accepted(authority.spec_bytes()) && header_fields(*old(headers)).len() < HEADER_ROOM
            ==> outcome is Ok,
        outcome is Ok ==> header_fields(*final(headers)) == set_field(
            header_fields(*old(headers)),
            "host"@,
            authority.spec_bytes(),
        ),
        outcome matches Err(error) ==> error is UnexpectedError && header_fields(*final(headers))
            == header_fields(*old(headers)),
{
    let name = host_header_name();
    let done = header_map_set(headers, name.as_str(), authority.as_bytes());
    field_outcome(done)
}

} // verus!
