//! The stored text forms of options and answers.
//!
//! Options are kept as a JSON array of strings. An answer is kept as a JSON
//! object with one member per field, in declaration order, absent fields
//! written as `null`; string members are produced by serde_json, integer
//! lists are written here.

use crate::models::Answer;
use crate::text::{decimal, decimal_text};
use vstd::prelude::*;
use vstd::string::StringExecFns;

verus! {

/// The character sequences held by a vector of strings.
pub open spec fn texts(v: Seq<String>) -> Seq<Seq<char>> {
    v.map_values(|s: String| s@)
}

/// The character sequences held by a vector of vectors of strings.
pub open spec fn text_groups(v: Seq<Vec<String>>) -> Seq<Seq<Seq<char>>> {
    v.map_values(|w: Vec<String>| texts(w@))
}

/// The characters of an optional string.
pub open spec fn opt_text(r: Option<String>) -> Option<Seq<char>> {
    match r {
        Some(s) => Some(s@),
        None => None,
    }
}

/// The character sequences of an optional vector of strings.
pub open spec fn opt_texts(r: Option<Vec<String>>) -> Option<Seq<Seq<char>>> {
    match r {
        Some(v) => Some(texts(v@)),
        None => None,
    }
}

/// What `serde_json::to_string` gives for a `Vec<String>`.
pub uninterp spec fn json_of_texts(v: Seq<Seq<char>>) -> Seq<char>;

/// What `serde_json::to_string` gives for a `String`.
pub uninterp spec fn json_of_text(s: Seq<char>) -> Seq<char>;

/// What `serde_json::to_string` gives for a `Vec<Vec<String>>`.
pub uninterp spec fn json_of_text_groups(v: Seq<Seq<Seq<char>>>) -> Seq<char>;

/// What `serde_json::from_str::<Vec<String>>` gives for a text (`None` when it
/// is not a JSON array of strings).
pub uninterp spec fn texts_of_json(s: Seq<char>) -> Option<Seq<Seq<char>>>;

/// Relies on serde_json::to_string for a `Vec<String>`: it fails only where a
/// `Serialize` impl fails or a map has non-string keys, neither of which can
/// happen here; its result depends on the strings alone.
#[verifier::external_body]
fn texts_to_json(v: &Vec<String>) -> (r: String)
    ensures
        r@ == json_of_texts(texts(v@)),
{
    serde_json::to_string(v).unwrap_or_default()
}

/// Relies on serde_json::to_string for a `String`, which cannot fail on it;
/// its result depends on the characters alone.
#[verifier::external_body]
fn text_to_json(s: &String) -> (r: String)
    ensures
        r@ == json_of_text(s@),
{
    serde_json::to_string(s).unwrap_or_default()
}

/// The JSON text of an integer: an optional minus sign and decimal digits.
pub open spec fn int_json(n: int) -> Seq<char> {
    if n < 0 {
        "-"@ + decimal((-n) as nat)
    } else {
        decimal(n as nat)
    }
}

/// The integers' JSON texts, separated by commas.
pub open spec fn ints_joined(v: Seq<i32>) -> Seq<char>
    decreases v.len(),
{
    if v.len() == 0 {
        Seq::empty()
    } else if v.len() == 1 {
        int_json(v[0] as int)
    } else {
        ints_joined(v.drop_last()) + ","@ + int_json(v.last() as int)
    }
}

/// The JSON array text of a list of integers, without spaces.
pub open spec fn json_of_ints(v: Seq<i32>) -> Seq<char> {
    "["@ + ints_joined(v) + "]"@
}

fn int_to_json(n: i32) -> (r: String)
    ensures
        r@ == int_json(n as int),
{
    if n < 0 {
        let mut out = String::from_str("-");
        let digits = decimal_text((-(n as i64)) as u64);
        out.append(digits.as_str());
        out
    } else {
        decimal_text(n as u64)
    }
}

/// Encodes a list of integers as a JSON array.
pub fn ints_to_json(v: &Vec<i32>) -> (r: String)
    ensures
        r@ == json_of_ints(v@),
{
    let mut out = String::from_str("[");
    let mut i: usize = 0;
    while i < v.len()
        invariant
            i <= v@.len(),
            out@ == "["@ + ints_joined(v@.subrange(0, i as int)),
        decreases v@.len() - i,
    {
        let ghost before = v@.subrange(0, i as int);
        let ghost after = v@.subrange(0, i + 1);
        assert(after.drop_last() =~= before);
        assert(after.last() == v@[i as int]);
        if i > 0 {
            out.append(",");
        }
        let t = int_to_json(v[i]);
        out.append(t.as_str());
        if i == 0 {
            assert(after =~= seq![v@[0]]);
        }
        assert(out@ =~= "["@ + ints_joined(after));
        i += 1;
    }
    assert(v@.subrange(0, v@.len() as int) =~= v@);
    out.append("]");
    out
}

/// Relies on serde_json::to_string for a `Vec<Vec<String>>`, which cannot
/// fail on it; its result depends on the strings alone.
#[verifier::external_body]
fn text_groups_to_json(v: &Vec<Vec<String>>) -> (r: String)
    ensures
        r@ == json_of_text_groups(text_groups(v@)),
{
    serde_json::to_string(v).unwrap_or_default()
}

/// Relies on serde_json::from_str for a `Vec<String>`: `None` when the text is
/// not a JSON array of strings; the result depends on the text alone.
#[verifier::external_body]
fn texts_from_json(s: &str) -> (r: Option<Vec<String>>)
    ensures
        opt_texts(r) == texts_of_json(s@),
{
    serde_json::from_str::<Vec<String>>(s).ok()
}

/// The stored form of optional options: absent stays absent.
pub open spec fn options_json(o: Option<Vec<String>>) -> Option<Seq<char>> {
    match o {
        Some(v) => Some(json_of_texts(texts(v@))),
        None => None,
    }
}

/// Encodes optional options for storage.
pub fn encode_options(o: &Option<Vec<String>>) -> (r: Option<String>)
    ensures
        opt_text(r) == options_json(*o),
{
    match o {
        Some(v) => Some(texts_to_json(v)),
        None => None,
    }
}

/// The options read back from a stored blob: absent when there is no blob or
/// when it is not a JSON array of strings.
pub open spec fn options_of_blob(blob: Option<String>) -> Option<Seq<Seq<char>>> {
    match blob {
        Some(s) => texts_of_json(s@),
        None => None,
    }
}

/// Decodes a stored options blob, treating an unreadable one as absent.
pub fn decode_options(blob: &Option<String>) -> (r: Option<Vec<String>>)
    ensures
        opt_texts(r) == options_of_blob(*blob),
        blob is None ==> r is None,
{
    match blob {
        Some(s) => texts_from_json(s.as_str()),
        None => None,
    }
}

/// The JSON value of an optional list of strings.
pub open spec fn texts_member(f: Option<Vec<String>>) -> Seq<char> {
    match f {
        Some(v) => json_of_texts(texts(v@)),
        None => "null"@,
    }
}

/// The JSON value of an optional string.
pub open spec fn text_member(f: Option<String>) -> Seq<char> {
    match f {
        Some(s) => json_of_text(s@),
        None => "null"@,
    }
}

/// The JSON value of an optional list of integers.
pub open spec fn ints_member(f: Option<Vec<i32>>) -> Seq<char> {
    match f {
        Some(v) => json_of_ints(v@),
        None => "null"@,
    }
}

/// The JSON value of an optional list of string groups.
pub open spec fn groups_member(f: Option<Vec<Vec<String>>>) -> Seq<char> {
    match f {
        Some(v) => json_of_text_groups(text_groups(v@)),
        None => "null"@,
    }
}

/// The JSON object for an answer built from its members' values.
pub open spec fn answer_object(
    k: Seq<char>,
    kt: Seq<char>,
    ix: Seq<char>,
    t: Seq<char>,
    b: Seq<char>,
    al: Seq<char>,
) -> Seq<char> {
    "{\"answerKey\":"@ + k + ",\"answerKeyText\":"@ + kt + ",\"answerIndex\":"@ + ix
        + ",\"answerText\":"@ + t + ",\"bestAnswer\":"@ + b + ",\"allAnswer\":"@ + al + "}"@
}

/// The stored form of an answer.
pub open spec fn answer_json(a: Answer) -> Seq<char> {
    answer_object(
        texts_member(a.answer_key),
        text_member(a.answer_key_text),
        ints_member(a.answer_index),
        text_member(a.answer_text),
        texts_member(a.best_answer),
        groups_member(a.all_answer),
    )
}

fn encode_texts_member(f: &Option<Vec<String>>) -> (r: String)
    ensures
        r@ == texts_member(*f),
{
    match f {
        Some(v) => texts_to_json(v),
        None => String::from_str("null"),
    }
}

fn encode_text_member(f: &Option<String>) -> (r: String)
    ensures
        r@ == text_member(*f),
{
    match f {
        Some(s) => text_to_json(s),
        None => String::from_str("null"),
    }
}

fn encode_ints_member(f: &Option<Vec<i32>>) -> (r: String)
    ensures
        r@ == ints_member(*f),
{
    match f {
        Some(v) => ints_to_json(v),
        None => String::from_str("null"),
    }
}

fn encode_groups_member(f: &Option<Vec<Vec<String>>>) -> (r: String)
    ensures
        r@ == groups_member(*f),
{
    match f {
        Some(v) => text_groups_to_json(v),
        None => String::from_str("null"),
    }
}

/// Encodes an answer for storage.
pub fn encode_answer(a: &Answer) -> (r: String)
    ensures
        r@ == answer_json(*a),
{
    let k = encode_texts_member(&a.answer_key);
    let kt = encode_text_member(&a.answer_key_text);
    let ix = encode_ints_member(&a.answer_index);
    let t = encode_text_member(&a.answer_text);
    let b = encode_texts_member(&a.best_answer);
    let al = encode_groups_member(&a.all_answer);
    let mut out = String::from_str("{\"answerKey\":");
    out.append(k.as_str());
    out.append(",\"answerKeyText\":");
    out.append(kt.as_str());
    out.append(",\"answerIndex\":");
    out.append(ix.as_str());
    out.append(",\"answerText\":");
    out.append(t.as_str());
    out.append(",\"bestAnswer\":");
    out.append(b.as_str());
    out.append(",\"allAnswer\":");
    out.append(al.as_str());
    out.append("}");
    out
}

} // verus!
