//! A JSON document model and JSON-pointer editing: resolving a structured
//! path into a document and replacing the value it names.
//!
//! Numbers are carried as their literal text, so any JSON number can pass
//! through unchanged. Objects keep their entries in insertion order;
//! replacing a value keeps its position, and setting an absent key appends.

use vstd::prelude::*;
use vstd::string::StrSliceExecFns;
use vstd::string::StringExecFns;

use crate::strutil::digits_value_upto;
use crate::strutil::is_usize_numeral;
use crate::strutil::numeral_digits;
use crate::strutil::parse_usize;
use crate::strutil::str_eq;

verus! {

broadcast use vstd::std_specs::vec::axiom_vec_decreases_to_view, vstd::seq::axiom_seq_index_decreases;

/// A JSON value.
#[derive(Debug)]
pub enum JsonValue {
    Null,
    Bool(bool),
    Num(String),
    Str(String),
    Array(Vec<JsonValue>),
    Object(Vec<(String, JsonValue)>),
}

/// Ghost model of a JSON value.
pub ghost enum JsonModel {
    Null,
    Bool(bool),
    Num(Seq<char>),
    Str(Seq<char>),
    Array(Seq<JsonModel>),
    Object(Seq<(Seq<char>, JsonModel)>),
}

/// The ghost model of a JSON value.
pub open spec fn json_model(v: JsonValue) -> JsonModel
    decreases v,
{
    match v {
        JsonValue::Null => JsonModel::Null,
        JsonValue::Bool(b) => JsonModel::Bool(b),
        JsonValue::Num(s) => JsonModel::Num(s@),
        JsonValue::Str(s) => JsonModel::Str(s@),
        JsonValue::Array(items) => JsonModel::Array(
            Seq::new(
                items@.len(),
                |i: int|
                    if 0 <= i < items@.len() {
                        json_model(items@[i])
                    } else {
                        JsonModel::Null
                    },
            ),
        ),
        JsonValue::Object(entries) => JsonModel::Object(
            Seq::new(
                entries@.len(),
                |i: int|
                    (
                        entries@[i].0@,
                        if 0 <= i < entries@.len() {
                            json_model(entries@[i].1)
                        } else {
                            JsonModel::Null
                        },
                    ),
            ),
        ),
    }
}

// ---------------------------------------------------------------------------
// Pointer-token decoding
// ---------------------------------------------------------------------------

/// JSON-pointer token decoding: `~1` becomes `/` and `~0` becomes `~`, left
/// to right.
pub open spec fn decode_token(s: Seq<char>) -> Seq<char>
    decreases s.len(),
{
    if s.len() >= 2 && s[0] == '~' && s[1] == '1' {
        seq!['/'] + decode_token(s.skip(2))
    } else if s.len() >= 2 && s[0] == '~' && s[1] == '0' {
        seq!['~'] + decode_token(s.skip(2))
    } else if s.len() == 0 {
        Seq::empty()
    } else {
        seq![s[0]] + decode_token(s.skip(1))
    }
}

/// Decodes one JSON-pointer reference token.
pub fn decode_pointer(token: &str) -> (r: String)
    ensures
        r@ == decode_token(token@),
{
    let n = token.unicode_len();
    let mut out = String::new();
    let mut i: usize = 0;
    proof {
        assert(token@.skip(0) =~= token@);
    }
    while i < n
        invariant
            n == token@.len(),
            i <= n,
            out@ + decode_token(token@.skip(i as int)) == decode_token(token@),
        decreases n - i,
    {
        let c = token.get_char(i);
        proof {
            assert(token@.skip(i as int)[0] == token@[i as int]);
            if i + 1 < n {
                assert(token@.skip(i as int)[1] == token@[i as int + 1]);
            }
        }
        if c == '~' && i + 1 < n && token.get_char(i + 1) == '1' {
            out.append("/");
            proof {
                reveal_strlit("/");
                assert(token@.skip(i as int).skip(2) =~= token@.skip(i as int + 2));
                assert("/"@ =~= seq!['/']);
            }
            i += 2;
        } else if c == '~' && i + 1 < n && token.get_char(i + 1) == '0' {
            out.append("~");
            proof {
                reveal_strlit("~");
                assert(token@.skip(i as int).skip(2) =~= token@.skip(i as int + 2));
                assert("~"@ =~= seq!['~']);
            }
            i += 2;
        } else {
            let piece = token.substring_char(i, i + 1);
            out.append(piece);
            proof {
                assert(token@.skip(i as int).skip(1) =~= token@.skip(i as int + 1));
                assert(piece@ =~= seq![token@[i as int]]);
            }
            i += 1;
        }
    }
    proof {
        assert(token@.skip(n as int) =~= Seq::<char>::empty());
        assert(out@ =~= decode_token(token@));
    }
    out
}

// ---------------------------------------------------------------------------
// Pointer splitting
// ---------------------------------------------------------------------------

/// Index of the first slash, or the length when there is none.
pub open spec fn first_slash(s: Seq<char>) -> int
    decreases s.len(),
{
    if s.len() == 0 {
        0
    } else if s[0] == '/' {
        0
    } else {
        1 + first_slash(s.skip(1))
    }
}

/// Splits on slashes, as `str::split('/')` does: `n` slashes give `n + 1`
/// parts, empty parts included.
pub open spec fn split_slash(s: Seq<char>) -> Seq<Seq<char>>
    decreases s.len(),
{
    let fs = first_slash(s);
    if 0 <= fs < s.len() {
        seq![s.take(fs)] + split_slash(s.skip(fs + 1))
    } else {
        seq![s]
    }
}

/// The first slash is where the first slash is: at the first position whose
/// earlier positions are all slash-free.
proof fn lemma_first_slash_at(s: Seq<char>, i: int)
    requires
        0 <= i <= s.len(),
        forall|j: int| 0 <= j < i ==> s[j] != '/',
        i == s.len() || s[i] == '/',
    ensures
        first_slash(s) == if i < s.len() { i } else { s.len() as int },
    decreases i,
{
    if i == 0 {
    } else {
        assert(s[0] != '/');
        lemma_first_slash_at(s.skip(1), i - 1);
    }
}

/// The first slash lies between zero and the length.
proof fn lemma_first_slash_bounds(s: Seq<char>)
    ensures
        0 <= first_slash(s) <= s.len(),
    decreases s.len(),
{
    if s.len() > 0 && s[0] != '/' {
        lemma_first_slash_bounds(s.skip(1));
    }
}

/// Splits a pointer on slashes into its raw (undecoded) parts.
fn split_pointer(s: &str) -> (r: Vec<String>)
    ensures
        r.deep_view() == split_slash(s@),
{
    let n = s.unicode_len();
    let mut done: Vec<String> = Vec::new();
    let mut seg_start: usize = 0;
    let mut i: usize = 0;
    proof {
        assert(s@.skip(0) =~= s@);
    }
    while i < n
        invariant
            n == s@.len(),
            seg_start <= i <= n,
            forall|j: int| seg_start as int <= j < i as int ==> s@[j] != '/',
            done.deep_view() + split_slash(s@.skip(seg_start as int)) == split_slash(s@),
        decreases n - i,
    {
        let c = s.get_char(i);
        if c == '/' {
            let piece = s.substring_char(seg_start, i).to_owned();
            let ghost rest = s@.skip(seg_start as int);
            proof {
                assert(rest.len() == n - seg_start);
                assert forall|j: int| 0 <= j < i as int - seg_start as int implies rest[j]
                    != '/' by {
                    assert(rest[j] == s@[j + seg_start as int]);
                }
                assert(rest[i as int - seg_start as int] == s@[i as int]);
                lemma_first_slash_at(rest, i as int - seg_start as int);
                assert(first_slash(rest) == i as int - seg_start as int);
                assert(rest.take(i as int - seg_start as int) =~= s@.subrange(
                    seg_start as int,
                    i as int,
                ));
                assert(rest.skip(i as int - seg_start as int + 1) =~= s@.skip(i as int + 1));
                assert(split_slash(rest) == seq![s@.subrange(seg_start as int, i as int)]
                    + split_slash(s@.skip(i as int + 1)));
            }
            let ghost done_before = done.deep_view();
            done.push(piece);
            proof {
                assert(done.deep_view() =~= done_before.push(piece@));
                assert(done.deep_view() + split_slash(s@.skip(i as int + 1)) =~= split_slash(s@));
            }
            seg_start = i + 1;
        }
        i += 1;
    }
    let piece = s.substring_char(seg_start, n).to_owned();
    let ghost rest = s@.skip(seg_start as int);
    proof {
        assert forall|j: int| 0 <= j < rest.len() implies rest[j] != '/' by {
            assert(rest[j] == s@[j + seg_start as int]);
        }
        lemma_first_slash_at(rest, rest.len() as int);
        assert(split_slash(rest) == seq![rest]);
        assert(piece@ =~= rest);
    }
    let ghost done_before = done.deep_view();
    done.push(piece);
    proof {
        assert(done.deep_view() =~= done_before.push(piece@));
        assert(done.deep_view() =~= split_slash(s@));
    }
    done
}

// ---------------------------------------------------------------------------
// Setting a value at a pointer
// ---------------------------------------------------------------------------

/// Index of the first entry with the given key, or `-1`.
pub open spec fn key_index(entries: Seq<(Seq<char>, JsonModel)>, key: Seq<char>) -> int
    decreases entries.len(),
{
    if entries.len() == 0 {
        -1
    } else if entries[0].0 == key {
        0
    } else {
        let r = key_index(entries.drop_first(), key);
        if r < 0 {
            -1
        } else {
            r + 1
        }
    }
}

/// When the first match is at `k`, the key index is `k`.
proof fn lemma_key_index_first(entries: Seq<(Seq<char>, JsonModel)>, key: Seq<char>, k: int)
    requires
        0 <= k < entries.len(),
        forall|m: int| 0 <= m < k ==> entries[m].0 != key,
        entries[k].0 == key,
    ensures
        key_index(entries, key) == k,
    decreases k,
{
    if k == 0 {
    } else {
        assert(entries[0].0 != key);
        lemma_key_index_first(entries.drop_first(), key, k - 1);
    }
}

/// When no entry matches, the key index is `-1`.
proof fn lemma_key_index_none(entries: Seq<(Seq<char>, JsonModel)>, key: Seq<char>)
    requires
        forall|m: int| 0 <= m < entries.len() ==> entries[m].0 != key,
    ensures
        key_index(entries, key) == -1,
    decreases entries.len(),
{
    if entries.len() > 0 {
        lemma_key_index_none(entries.drop_first(), key);
    }
}

/// The numeric value of an array-index token.
pub open spec fn token_index(tok: Seq<char>) -> int {
    digits_value_upto(numeral_digits(tok), numeral_digits(tok).len() as int)
}

/// Replaces the value reached from `v` through `tokens[i..]`. On the last
/// token: an object gets the key set (replaced in place, or appended when
/// absent), an array gets an existing index replaced. On the way down,
/// missing keys, bad indices and non-container values are errors named by
/// the result.
pub open spec fn spec_set_at(
    v: JsonModel,
    tokens: Seq<Seq<char>>,
    i: int,
    new: JsonModel,
) -> Result<JsonModel, Seq<char>>
    decreases tokens.len() - i,
{
    if !(0 <= i < tokens.len()) {
        Ok(new)
    } else if i == tokens.len() - 1 {
        match v {
            JsonModel::Object(entries) => {
                let k = key_index(entries, tokens[i]);
                if k >= 0 {
                    Ok(JsonModel::Object(entries.update(k, (entries[k].0, new))))
                } else {
                    Ok(JsonModel::Object(entries.push((tokens[i], new))))
                }
            },
            JsonModel::Array(items) => {
                if !is_usize_numeral(tokens[i]) {
                    Err("pointer_index_invalid"@)
                } else if token_index(tokens[i]) >= items.len() {
                    Err("pointer_index_out_of_bounds"@)
                } else {
                    Ok(JsonModel::Array(items.update(token_index(tokens[i]), new)))
                }
            },
            _ => Err("pointer_target_invalid"@),
        }
    } else {
        match v {
            JsonModel::Object(entries) => {
                let k = key_index(entries, tokens[i]);
                if k < 0 {
                    Err("pointer_not_found"@)
                } else {
                    match spec_set_at(entries[k].1, tokens, i + 1, new) {
                        Ok(child) => Ok(
                            JsonModel::Object(entries.update(k, (entries[k].0, child))),
                        ),
                        Err(e) => Err(e),
                    }
                }
            },
            JsonModel::Array(items) => {
                if !is_usize_numeral(tokens[i]) {
                    Err("pointer_index_invalid"@)
                } else if token_index(tokens[i]) >= items.len() {
                    Err("pointer_index_out_of_bounds"@)
                } else {
                    match spec_set_at(items[token_index(tokens[i])], tokens, i + 1, new) {
                        Ok(child) => Ok(JsonModel::Array(items.update(token_index(tokens[i]), child))),
                        Err(e) => Err(e),
                    }
                }
            },
            _ => Err("pointer_target_invalid"@),
        }
    }
}

/// Replaces the value a whole pointer names: the empty pointer and `/`
/// replace the root; any other pointer must start with a slash and is split
/// into decoded reference tokens.
pub open spec fn spec_set_pointer(
    v: JsonModel,
    pointer: Seq<char>,
    new: JsonModel,
) -> Result<JsonModel, Seq<char>> {
    if pointer.len() == 0 || pointer == "/"@ {
        Ok(new)
    } else if pointer[0] != '/' {
        Err("invalid_json_pointer"@)
    } else {
        let tokens = split_slash(pointer).skip(1).map_values(|t: Seq<char>| decode_token(t));
        spec_set_at(v, tokens, 0, new)
    }
}

/// Finds the position of the first entry whose key equals the token.
fn find_key(entries: &Vec<(String, JsonValue)>, token: &String) -> (r: Option<usize>)
    ensures
        match r {
            Some(k) => k < entries@.len() && entries@[k as int].0@ == token@ && forall|m: int|
                0 <= m < k as int ==> (#[trigger] entries@[m]).0@ != token@,
            None => forall|m: int|
                0 <= m < entries@.len() ==> (#[trigger] entries@[m]).0@ != token@,
        },
{
    let mut k: usize = 0;
    while k < entries.len()
        invariant
            k <= entries@.len(),
            forall|m: int| 0 <= m < k as int ==> (#[trigger] entries@[m]).0@ != token@,
        decreases entries@.len() - k,
    {
        let e = &entries[k];
        if str_eq(e.0.as_str(), token.as_str()) {
            return Some(k);
        }
        k += 1;
    }
    None
}

/// Replaces the value reached from `v` through the decoded tokens starting
/// at position `i`. The returned value is the updated document, or, when
/// the second component names an error, the document unchanged.
fn set_at(v: JsonValue, tokens: &Vec<String>, i: usize, new_value: JsonValue) -> (r: (
    JsonValue,
    Option<String>,
))
    requires
        i < tokens@.len(),
    ensures
        ({
            let sr = spec_set_at(json_model(v), tokens.deep_view(), i as int, json_model(new_value));
            match r.1 {
                None => sr == Ok::<JsonModel, Seq<char>>(json_model(r.0)),
                Some(e) => sr == Err::<JsonModel, Seq<char>>(e@) && json_model(r.0) == json_model(
                    v,
                ),
            }
        }),
    decreases tokens@.len() - i,
{
    let ghost toks = tokens.deep_view();
    let ghost vm = json_model(v);
    let ghost nm = json_model(new_value);
    let token = &tokens[i];
    proof {
        assert(toks[i as int] == tokens@[i as int]@);
    }
    let last = i == tokens.len() - 1;
    match v {
        JsonValue::Object(mut entries) => {
            let ghost em0 = vm->Object_0;
            let ghost entries0 = entries@;
            proof {
                assert(em0.len() == entries0.len());
                assert(forall|m: int|
                    0 <= m < entries0.len() ==> em0[m] == (
                        (#[trigger] entries0[m]).0@,
                        json_model(entries0[m].1),
                    ));
            }
            let found = find_key(&entries, token);
            proof {
                match found {
                    Some(k) => {
                        assert(em0[k as int].0 == token@);
                        lemma_key_index_first(em0, token@, k as int);
                    },
                    None => {
                        lemma_key_index_none(em0, token@);
                    },
                }
            }
            if last {
                match found {
                    Some(k) => {
                        let (key, _old_child) = entries.remove(k);
                        entries.insert(k, (key, new_value));
                        proof {
                            assert(entries@ =~= entries0.update(
                                k as int,
                                (entries0[k as int].0, entries@[k as int].1),
                            ));
                            let em2 = json_model(JsonValue::Object(entries))->Object_0;
                            assert(em2 =~= em0.update(k as int, (em0[k as int].0, nm)));
                        }
                        (JsonValue::Object(entries), None)
                    },
                    None => {
                        entries.push((token.clone(), new_value));
                        proof {
                            let em2 = json_model(JsonValue::Object(entries))->Object_0;
                            assert(em2 =~= em0.push((toks[i as int], nm)));
                        }
                        (JsonValue::Object(entries), None)
                    },
                }
            } else {
                match found {
                    Some(k) => {
                        let (key, child) = entries.remove(k);
                        proof {
                            assert(child == entries0[k as int].1);
                            assert(json_model(child) == em0[k as int].1);
                        }
                        let (child_out, err) = set_at(child, tokens, i + 1, new_value);
                        let ghost ncm = json_model(child_out);
                        entries.insert(k, (key, child_out));
                        proof {
                            assert(entries@ =~= entries0.update(
                                k as int,
                                (entries0[k as int].0, entries@[k as int].1),
                            ));
                            let em2 = json_model(JsonValue::Object(entries))->Object_0;
                            assert(em2 =~= em0.update(k as int, (em0[k as int].0, ncm)));
                            if err is Some {
                                assert(em0.update(k as int, (em0[k as int].0, ncm)) =~= em0);
                            }
                        }
                        (JsonValue::Object(entries), err)
                    },
                    None => (JsonValue::Object(entries), Some("pointer_not_found".to_owned())),
                }
            }
        },
        JsonValue::Array(mut items) => {
            let ghost im0 = vm->Array_0;
            let ghost items0 = items@;
            proof {
                assert(im0.len() == items0.len());
                assert(forall|m: int|
                    0 <= m < items0.len() ==> im0[m] == json_model(#[trigger] items0[m]));
            }
            match parse_usize(token.as_str()) {
                None => (JsonValue::Array(items), Some("pointer_index_invalid".to_owned())),
                Some(idx) => {
                    proof {
                        assert(idx as int == token_index(toks[i as int]));
                    }
                    if idx >= items.len() {
                        (JsonValue::Array(items), Some("pointer_index_out_of_bounds".to_owned()))
                    } else {
                        if last {
                            let _old_child = items.remove(idx);
                            items.insert(idx, new_value);
                            proof {
                                assert(items@ =~= items0.update(idx as int, items@[idx as int]));
                                let im2 = json_model(JsonValue::Array(items))->Array_0;
                                assert(im2 =~= im0.update(idx as int, nm));
                            }
                            (JsonValue::Array(items), None)
                        } else {
                            let child = items.remove(idx);
                            proof {
                                assert(child == items0[idx as int]);
                                assert(json_model(child) == im0[idx as int]);
                            }
                            let (child_out, err) = set_at(child, tokens, i + 1, new_value);
                            let ghost ncm = json_model(child_out);
                            items.insert(idx, child_out);
                            proof {
                                assert(items@ =~= items0.update(idx as int, items@[idx as int]));
                                let im2 = json_model(JsonValue::Array(items))->Array_0;
                                assert(im2 =~= im0.update(idx as int, ncm));
                                if err is Some {
                                    assert(im0.update(idx as int, ncm) =~= im0);
                                }
                            }
                            (JsonValue::Array(items), err)
                        }
                    }
                },
            }
        },
        JsonValue::Null => (JsonValue::Null, Some("pointer_target_invalid".to_owned())),
        JsonValue::Bool(b) => (JsonValue::Bool(b), Some("pointer_target_invalid".to_owned())),
        JsonValue::Num(s) => (JsonValue::Num(s), Some("pointer_target_invalid".to_owned())),
        JsonValue::Str(s) => (JsonValue::Str(s), Some("pointer_target_invalid".to_owned())),
    }
}

/// A pointer split on slashes has at least one part.
proof fn lemma_split_slash_nonempty(s: Seq<char>)
    ensures
        split_slash(s).len() >= 1,
{
}

/// Resolves a JSON pointer inside the document and replaces the value it
/// names. On an error the document is left as it was, and the error names
/// the reason.
pub fn set_pointer(target: &mut JsonValue, pointer: &str, new_value: JsonValue) -> (r: Result<
    (),
    String,
>)
    ensures
        ({
            let sr = spec_set_pointer(json_model(*old(target)), pointer@, json_model(new_value));
            match r {
                Ok(_) => sr == Ok::<JsonModel, Seq<char>>(json_model(*final(target))),
                Err(e) => sr == Err::<JsonModel, Seq<char>>(e@) && json_model(*final(target))
                    == json_model(*old(target)),
            }
        }),
{
    let n = pointer.unicode_len();
    if n == 0 || str_eq(pointer, "/") {
        *target = new_value;
        return Ok(());
    }
    if pointer.get_char(0) != '/' {
        return Err("invalid_json_pointer".to_owned());
    }
    let raw = split_pointer(pointer);
    let mut tokens: Vec<String> = Vec::new();
    let mut k: usize = 1;
    proof {
        assert(first_slash(pointer@) == 0);
        lemma_split_slash_nonempty(pointer@.skip(1int));
        assert(split_slash(pointer@).len() >= 2);
        assert(raw@.len() == raw.deep_view().len());
    }
    while k < raw.len()
        invariant
            raw.deep_view() == split_slash(pointer@),
            raw@.len() == raw.deep_view().len(),
            1 <= k <= raw@.len(),
            tokens.deep_view() =~= split_slash(pointer@).skip(1).map_values(
                |t: Seq<char>| decode_token(t),
            ).take(k as int - 1),
        decreases raw@.len() - k,
    {
        let t = decode_pointer(raw[k].as_str());
        let ghost tokens_before = tokens.deep_view();
        tokens.push(t);
        proof {
            assert(raw.deep_view()[k as int] == raw@[k as int]@);
            assert(tokens.deep_view() =~= tokens_before.push(t@));
            assert(tokens.deep_view() =~= split_slash(pointer@).skip(1).map_values(
                |t: Seq<char>| decode_token(t),
            ).take(k as int));
        }
        k += 1;
    }
    let ghost full = split_slash(pointer@).skip(1).map_values(|t: Seq<char>| decode_token(t));
    proof {
        assert(tokens.deep_view() =~= full.take(full.len() as int));
        assert(tokens.deep_view() =~= full);
        assert(tokens@.len() == full.len());
        assert(full.len() >= 1);
    }
    let mut doc = JsonValue::Null;
    core::mem::swap(target, &mut doc);
    let (out, err) = set_at(doc, &tokens, 0, new_value);
    *target = out;
    match err {
        None => Ok(()),
        Some(e) => Err(e),
    }
}

} // verus!
