//! The attribute reader: extracts a recognized key's string-literal value
//! from a field's metadata annotations.
//!
//! Every annotation on the field is examined in source order. Two shapes
//! are recognized, with a deliberately asymmetric error policy:
//!
//! - the keyed-list form `key(subkey = "...")`: the field must carry at
//!   most one annotation under the recognized key - a second one is a
//!   structured duplicate error anchored to it - and any body other than
//!   a single `subkey = "..."` pair is a structured error anchored to the
//!   offending annotation, because a mistyped accumulator attribute would
//!   silently change the generated API;
//! - the direct form `key = "..."`: the last annotation under the
//!   recognized key decides, and any body other than a string-literal
//!   pair yields no value, so the field falls back to default handling.

use vstd::prelude::*;
use vstd::string::StringExecFns;

use crate::model::Attr;
use crate::model::FieldDef;
use crate::model::LitValue;
use crate::model::Meta;
use crate::model::NestedMeta;
use crate::model::meta_path;
use crate::model::path_is_ident;

verus! {

/// A structured metadata error: a diagnostic message, anchored to the
/// index of the offending annotation in the field's attribute list.
pub struct AttrError {
    pub msg: String,
    pub attr: usize,
}

/// What reading a recognized key out of an attribute list can yield.
pub ghost enum AttrOutcome {
    /// No annotation under the recognized key.
    NoAttr,
    /// The extracted string-literal value.
    AttrValue(Seq<char>),
    /// A malformed annotation under the recognized key, at this index.
    AttrBad(int),
}

/// Is this attribute a parsed annotation whose top-level path is exactly
/// the single identifier `key`?
pub open spec fn attr_recognized(a: Attr, key: Seq<char>) -> bool {
    match a {
        Attr::Parsed(m) => path_is_ident(meta_path(m), key),
        Attr::Unparsed => false,
    }
}

/// Index of the first attribute recognized under `key`, if any.
pub open spec fn first_recognized(attrs: Seq<Attr>, key: Seq<char>) -> Option<int>
    decreases attrs,
{
    if attrs.len() == 0 {
        None
    } else if attr_recognized(attrs[0], key) {
        Some(0int)
    } else {
        match first_recognized(attrs.drop_first(), key) {
            Some(i) => Some(i + 1),
            None => None,
        }
    }
}

/// Index of the last attribute recognized under `key`, if any.
pub open spec fn last_recognized(attrs: Seq<Attr>, key: Seq<char>) -> Option<int>
    decreases attrs,
{
    if attrs.len() == 0 {
        None
    } else if attr_recognized(attrs.last(), key) {
        Some(attrs.len() - 1)
    } else {
        last_recognized(attrs.drop_last(), key)
    }
}

/// The last recognized index points at a recognized attribute.
pub proof fn lemma_last_recognized_hit(attrs: Seq<Attr>, key: Seq<char>)
    ensures
        match last_recognized(attrs, key) {
            Some(i) => 0 <= i < attrs.len() && attr_recognized(attrs[i], key),
            None => true,
        },
    decreases attrs,
{
    if attrs.len() > 0 && !attr_recognized(attrs.last(), key) {
        lemma_last_recognized_hit(attrs.drop_last(), key);
    }
}

/// The first recognized index points at a recognized attribute.
pub proof fn lemma_first_recognized_hit(attrs: Seq<Attr>, key: Seq<char>)
    ensures
        match first_recognized(attrs, key) {
            Some(i) => 0 <= i < attrs.len() && attr_recognized(attrs[i], key),
            None => true,
        },
    decreases attrs,
{
    if attrs.len() > 0 && !attr_recognized(attrs[0], key) {
        lemma_first_recognized_hit(attrs.drop_first(), key);
    }
}

/// The string value of a keyed-list annotation body `key(subkey = "v")`:
/// the list must hold exactly one element, a `subkey = "v"` pair.
pub open spec fn list_value(m: Meta, subkey: Seq<char>) -> Option<Seq<char>> {
    match m {
        Meta::ListMeta(_, nested) => if nested@.len() == 1 {
            match nested@[0] {
                NestedMeta::MetaItem(Meta::NameValue(p, LitValue::StrLit(s))) => if path_is_ident(
                    p@,
                    subkey,
                ) {
                    Some(s@)
                } else {
                    None
                },
                _ => None,
            }
        } else {
            None
        },
        _ => None,
    }
}

/// The string value of a direct annotation body `key = "v"`.
pub open spec fn direct_value(m: Meta) -> Option<Seq<char>> {
    match m {
        Meta::NameValue(_, LitValue::StrLit(s)) => Some(s@),
        _ => None,
    }
}

/// The meta body of the attribute at `i`, which must be parsed.
pub open spec fn meta_at(attrs: Seq<Attr>, i: int) -> Meta
    recommends
        0 <= i < attrs.len(),
        attrs[i] is Parsed,
{
    attrs[i]->Parsed_0
}

/// Outcome of reading the keyed-list form `key(subkey = "...")` from an
/// attribute list: at most one annotation under `key` may be present (a
/// second one is an error anchored to it), and any body other than a
/// single `subkey = "..."` pair is an error anchored to that annotation.
pub open spec fn spec_keyed_attr(attrs: Seq<Attr>, key: Seq<char>, subkey: Seq<char>) -> AttrOutcome {
    match first_recognized(attrs, key) {
        None => AttrOutcome::NoAttr,
        Some(i) => match first_recognized(attrs.skip(i + 1), key) {
            Some(d) => AttrOutcome::AttrBad(i + 1 + d),
            None => match list_value(meta_at(attrs, i), subkey) {
                Some(v) => AttrOutcome::AttrValue(v),
                None => AttrOutcome::AttrBad(i),
            },
        },
    }
}

/// Outcome of reading the direct form `key = "..."` from an attribute
/// list: the last annotation under `key` decides, and any other body
/// yields no value.
pub open spec fn spec_direct_attr(attrs: Seq<Attr>, key: Seq<char>) -> Option<Seq<char>> {
    match last_recognized(attrs, key) {
        None => None,
        Some(i) => direct_value(meta_at(attrs, i)),
    }
}

/// The fixed diagnostic for a malformed keyed-list annotation.
pub open spec fn expected_msg(key: Seq<char>, subkey: Seq<char>) -> Seq<char> {
    "expected `"@ + key + "("@ + subkey + " = \"...\")`"@
}

/// The diagnostic for a second annotation under one recognized key.
pub open spec fn duplicate_msg(key: Seq<char>) -> Seq<char> {
    "duplicate `"@ + key + "` attribute"@
}

/// The diagnostic a failed keyed-list read carries: the duplicate
/// message when a second annotation under the key offends, else the
/// expected-form message.
pub open spec fn keyed_err_msg(attrs: Seq<Attr>, key: Seq<char>, subkey: Seq<char>) -> Seq<char> {
    match first_recognized(attrs, key) {
        Some(i) => if first_recognized(attrs.skip(i + 1), key) is Some {
            duplicate_msg(key)
        } else {
            expected_msg(key, subkey)
        },
        None => expected_msg(key, subkey),
    }
}

/// Compares a model string against a literal key.
pub(crate) fn str_eq(a: &String, b: &str) -> (r: bool)
    ensures
        r == (a@ == b@),
{
    let bo: String = b.to_owned();
    *a == bo
}

/// Does this attribute carry a parsed body whose path is exactly `key`?
fn attr_is_recognized(a: &Attr, key: &str) -> (r: bool)
    ensures
        r == attr_recognized(*a, key@),
{
    match a {
        Attr::Parsed(m) => {
            let p: &Vec<String> = match m {
                Meta::PathMeta(p) => p,
                Meta::NameValue(p, _) => p,
                Meta::ListMeta(p, _) => p,
            };
            p.len() == 1 && str_eq(&p[0], key)
        },
        Attr::Unparsed => false,
    }
}

/// Index of the first annotation at or after `start` on `field`
/// recognized under `key`.
fn find_recognized_from(field: &FieldDef, key: &str, start: usize) -> (r: Option<usize>)
    requires
        start <= field.attrs@.len(),
    ensures
        match r {
            Some(i) => start <= i < field.attrs@.len() && first_recognized(
                field.attrs@.skip(start as int),
                key@,
            ) == Some(i - start),
            None => first_recognized(field.attrs@.skip(start as int), key@) is None,
        },
{
    let n = field.attrs.len();
    let mut i: usize = start;
    while i < n
        invariant
            start <= i <= n,
            n == field.attrs@.len(),
            first_recognized(field.attrs@.skip(start as int), key@) == match first_recognized(
                field.attrs@.skip(i as int),
                key@,
            ) {
                Some(j) => Some(j + i - start),
                None => None::<int>,
            },
        decreases n - i,
    {
        let hit = attr_is_recognized(&field.attrs[i], key);
        proof {
            assert(field.attrs@.skip(i as int)[0] == field.attrs@[i as int]);
            assert(field.attrs@.skip(i as int).drop_first() =~= field.attrs@.skip(i as int + 1));
        }
        if hit {
            return Some(i);
        }
        i = i + 1;
    }
    None
}

/// Index of the first annotation on `field` recognized under `key`.
fn find_recognized(field: &FieldDef, key: &str) -> (r: Option<usize>)
    ensures
        match r {
            Some(i) => first_recognized(field.attrs@, key@) == Some(i as int) && i
                < field.attrs@.len(),
            None => first_recognized(field.attrs@, key@) is None,
        },
{
    proof {
        assert(field.attrs@.skip(0) =~= field.attrs@);
    }
    find_recognized_from(field, key, 0)
}

/// Index of the last annotation on `field` recognized under `key`.
fn find_last_recognized(field: &FieldDef, key: &str) -> (r: Option<usize>)
    ensures
        match r {
            Some(i) => last_recognized(field.attrs@, key@) == Some(i as int) && i
                < field.attrs@.len(),
            None => last_recognized(field.attrs@, key@) is None,
        },
{
    let n = field.attrs.len();
    let mut i: usize = 0;
    let mut found: Option<usize> = None;
    proof {
        assert(field.attrs@.take(0) =~= Seq::<Attr>::empty());
    }
    while i < n
        invariant
            i <= n,
            n == field.attrs@.len(),
            match found {
                Some(f) => last_recognized(field.attrs@.take(i as int), key@) == Some(f as int)
                    && f < i,
                None => last_recognized(field.attrs@.take(i as int), key@) is None,
            },
        decreases n - i,
    {
        let hit = attr_is_recognized(&field.attrs[i], key);
        proof {
            assert(field.attrs@.take(i as int + 1).drop_last() =~= field.attrs@.take(i as int));
            assert(field.attrs@.take(i as int + 1).last() == field.attrs@[i as int]);
        }
        if hit {
            found = Some(i);
        }
        i = i + 1;
    }
    proof {
        assert(field.attrs@.take(n as int) =~= field.attrs@);
    }
    found
}

/// Builds the fixed diagnostic for a malformed keyed-list annotation.
fn build_expected_msg(key: &str, subkey: &str) -> (r: String)
    ensures
        r@ == expected_msg(key@, subkey@),
{
    let mut s: String = "expected `".to_owned();
    s.append(key);
    s.append("(");
    s.append(subkey);
    s.append(" = \"...\")`");
    s
}

/// Builds the diagnostic for a second annotation under one key.
fn build_duplicate_msg(key: &str) -> (r: String)
    ensures
        r@ == duplicate_msg(key@),
{
    let mut s: String = "duplicate `".to_owned();
    s.append(key);
    s.append("` attribute");
    s
}

/// Reads the keyed-list form `ident_literal(attr_literal = "...")` from
/// the field's annotations. The field must carry at most one annotation
/// under the recognized key: a well-formed single pair yields its value,
/// a second annotation under the key is a structured duplicate error
/// anchored to it, any other body is a structured error anchored to the
/// annotation, and a field without the key yields nothing.
pub fn get_attr_name(field: &FieldDef, ident_literal: &str, attr_literal: &str) -> (r: Option<
    Result<String, AttrError>,
>)
    ensures
        match r {
            None => spec_keyed_attr(field.attrs@, ident_literal@, attr_literal@)
                == AttrOutcome::NoAttr,
            Some(Ok(s)) => spec_keyed_attr(field.attrs@, ident_literal@, attr_literal@)
                == AttrOutcome::AttrValue(s@),
            Some(Err(e)) => spec_keyed_attr(field.attrs@, ident_literal@, attr_literal@)
                == AttrOutcome::AttrBad(e.attr as int) && e.msg@ == keyed_err_msg(
                field.attrs@,
                ident_literal@,
                attr_literal@,
            ) && e.attr < field.attrs@.len(),
        },
{
    let idx = match find_recognized(field, ident_literal) {
        Some(i) => i,
        None => {
            return None;
        },
    };
    let n = field.attrs.len();
    proof {
        assert(idx < n);
    }
    match find_recognized_from(field, ident_literal, idx + 1) {
        Some(dup) => {
            return Some(
                Err(AttrError { msg: build_duplicate_msg(ident_literal), attr: dup }),
            );
        },
        None => {},
    }
    proof {
        lemma_first_recognized_hit(field.attrs@, ident_literal@);
    }
    let m = match &field.attrs[idx] {
        Attr::Parsed(m) => m,
        Attr::Unparsed => {
            proof {
                assert(false);
            }
            return None;
        },
    };
    match m {
        Meta::ListMeta(_, nested) => if nested.len() == 1 {
            match &nested[0] {
                NestedMeta::MetaItem(Meta::NameValue(p, LitValue::StrLit(s))) => {
                    if p.len() == 1 && str_eq(&p[0], attr_literal) {
                        return Some(Ok(s.clone()));
                    }
                },
                _ => {},
            }
        },
        _ => {},
    }
    Some(Err(AttrError { msg: build_expected_msg(ident_literal, attr_literal), attr: idx }))
}

/// Reads the accumulator attribute `builder(each = "...")` from the
/// field's annotations.
pub fn get_each_attr_name(field: &FieldDef) -> (r: Option<Result<String, AttrError>>)
    ensures
        match r {
            None => spec_keyed_attr(field.attrs@, "builder"@, "each"@) == AttrOutcome::NoAttr,
            Some(Ok(s)) => spec_keyed_attr(field.attrs@, "builder"@, "each"@)
                == AttrOutcome::AttrValue(s@),
            Some(Err(e)) => spec_keyed_attr(field.attrs@, "builder"@, "each"@)
                == AttrOutcome::AttrBad(e.attr as int) && e.msg@ == keyed_err_msg(
                field.attrs@,
                "builder"@,
                "each"@,
            ) && e.attr < field.attrs@.len(),
        },
{
    get_attr_name(field, "builder", "each")
}

/// Reads the direct form `ident_literal = "..."` from the field's
/// annotations. The last annotation under the recognized key decides:
/// any body other than a string-literal pair yields nothing.
pub fn get_attr_lit(field: &FieldDef, ident_literal: &str) -> (r: Option<String>)
    ensures
        match r {
            Some(s) => spec_direct_attr(field.attrs@, ident_literal@) == Some(s@),
            None => spec_direct_attr(field.attrs@, ident_literal@) is None,
        },
{
    let idx = match find_last_recognized(field, ident_literal) {
        Some(i) => i,
        None => {
            return None;
        },
    };
    proof {
        lemma_last_recognized_hit(field.attrs@, ident_literal@);
    }
    match &field.attrs[idx] {
        Attr::Parsed(Meta::NameValue(_, LitValue::StrLit(s))) => Some(s.clone()),
        _ => None,
    }
}

} // verus!
