//! A structural model of JSON documents.
//!
//! Envelopes cross the wire as JSON text. The library models a document as
//! [`JsonValue`], a tree of plain values; numbers are 64-bit signed integers,
//! which covers every payload the protocol itself produces.

use vstd::prelude::*;

use crate::bridge::push_char;

verus! {

/// A JSON document: the wire-level shape of every envelope payload.
///
/// Object members keep their order; duplicate keys are not produced by the
/// library and are rejected nowhere (the first occurrence wins on lookup).
pub enum JsonValue {
    Null,
    Bool(bool),
    Int(i64),
    Str(String),
    Arr(Vec<JsonValue>),
    Obj(Vec<(String, JsonValue)>),
}

/// The mathematical shadow of a [`JsonValue`]: strings become character
/// sequences, vectors become sequences.
pub enum JsonModel {
    Null,
    Bool(bool),
    Int(int),
    Str(Seq<char>),
    Arr(Seq<JsonModel>),
    Obj(Seq<(Seq<char>, JsonModel)>),
}

/// The model of a [`JsonValue`], one node at a time.
pub open spec fn json_model(v: JsonValue) -> JsonModel
    decreases v, 1int,
{
    match v {
        JsonValue::Null => JsonModel::Null,
        JsonValue::Bool(b) => JsonModel::Bool(b),
        JsonValue::Int(n) => JsonModel::Int(n as int),
        JsonValue::Str(s) => JsonModel::Str(s@),
        JsonValue::Arr(elems) => JsonModel::Arr(arr_model(elems@)),
        JsonValue::Obj(members) => JsonModel::Obj(obj_model(members@)),
    }
}

/// The models of an array's elements, in order.
pub open spec fn arr_model(s: Seq<JsonValue>) -> Seq<JsonModel>
    decreases s, 0int,
{
    if s.len() == 0 {
        Seq::empty()
    } else {
        seq![json_model(s[0])] + arr_model(s.drop_first())
    }
}

/// The models of an object's members, in order.
pub open spec fn obj_model(s: Seq<(String, JsonValue)>) -> Seq<(Seq<char>, JsonModel)>
    decreases s, 0int,
{
    if s.len() == 0 {
        Seq::empty()
    } else {
        seq![(s[0].0@, json_model(s[0].1))] + obj_model(s.drop_first())
    }
}

/// Element-by-element reading of [`arr_model`].
pub proof fn lemma_arr_model(s: Seq<JsonValue>)
    ensures
        arr_model(s).len() == s.len(),
        forall|i: int| 0 <= i < s.len() ==> (#[trigger] arr_model(s)[i]) == json_model(s[i]),
    decreases s.len(),
{
    if s.len() > 0 {
        lemma_arr_model(s.drop_first());
        assert forall|i: int| 0 <= i < s.len() implies (#[trigger] arr_model(s)[i]) == json_model(
            s[i],
        ) by {
            if i > 0 {
                assert(s.drop_first()[i - 1] == s[i]);
                assert(arr_model(s)[i] == arr_model(s.drop_first())[i - 1]);
            }
        }
    }
}

/// Member-by-member reading of [`obj_model`].
pub proof fn lemma_obj_model(s: Seq<(String, JsonValue)>)
    ensures
        obj_model(s).len() == s.len(),
        forall|i: int|
            0 <= i < s.len() ==> (#[trigger] obj_model(s)[i]) == (s[i].0@, json_model(s[i].1)),
    decreases s.len(),
{
    if s.len() > 0 {
        lemma_obj_model(s.drop_first());
        assert forall|i: int| 0 <= i < s.len() implies (#[trigger] obj_model(s)[i]) == (
        s[i].0@,
        json_model(s[i].1),
        ) by {
            if i > 0 {
                assert(s.drop_first()[i - 1] == s[i]);
                assert(obj_model(s)[i] == obj_model(s.drop_first())[i - 1]);
            }
        }
    }
}

impl View for JsonValue {
    type V = JsonModel;

    open spec fn view(&self) -> JsonModel {
        json_model(*self)
    }
}

/// Looks a key up among an object's members; the first occurrence wins.
pub open spec fn obj_lookup(members: Seq<(Seq<char>, JsonModel)>, key: Seq<char>) -> Option<
    JsonModel,
>
    decreases members.len(),
{
    if members.len() == 0 {
        None
    } else if members[0].0 == key {
        Some(members[0].1)
    } else {
        obj_lookup(members.drop_first(), key)
    }
}

/// Compares two string slices character by character.
pub fn str_eq(a: &str, b: &str) -> (r: bool)
    ensures
        r == (a@ == b@),
{
    let a_len = a.unicode_len();
    let b_len = b.unicode_len();
    if a_len != b_len {
        proof {
            assert(a@ != b@);
        }
        return false;
    }
    let mut i: usize = 0;
    while i < a_len
        invariant
            i <= a_len,
            a_len == a@.len(),
            a_len == b@.len(),
            forall|j: int| 0 <= j < i ==> a@[j] == b@[j],
        decreases a_len - i,
    {
        if a.get_char(i) != b.get_char(i) {
            return false;
        }
        i = i + 1;
    }
    proof {
        assert(a@ =~= b@);
    }
    true
}

/// Finds a key's member inside a JSON object, as [`obj_lookup`] reads it.
pub fn obj_get<'a>(members: &'a Vec<(String, JsonValue)>, key: &str) -> (r: Option<
    &'a JsonValue,
>)
    ensures
        match r {
            Some(v) => obj_lookup(obj_model(members@), key@) == Some(v@),
            None => obj_lookup(obj_model(members@), key@) is None,
        },
{
    proof {
        lemma_obj_model(members@);
        assert(obj_model(members@).skip(0) =~= obj_model(members@));
    }
    let len = members.len();
    let mut i: usize = 0;
    while i < len
        invariant
            i <= len,
            len == members@.len(),
            obj_model(members@).len() == len,
            forall|j: int|
                0 <= j < len ==> obj_model(members@)[j] == (
                (#[trigger] members@[j]).0@,
                json_model(members@[j].1),
                ),
            forall|j: int| 0 <= j < i ==> (#[trigger] members@[j]).0@ != key@,
            obj_lookup(obj_model(members@), key@) == obj_lookup(
                obj_model(members@).skip(i as int),
                key@,
            ),
        decreases len - i,
    {
        if str_eq(members[i].0.as_str(), key) {
            proof {
                assert(obj_model(members@).skip(i as int)[0] == obj_model(members@)[i as int]);
            }
            return Some(&members[i].1);
        }
        proof {
            assert(obj_model(members@).skip(i as int)[0] == obj_model(members@)[i as int]);
            assert(obj_model(members@).skip(i as int).drop_first() =~= obj_model(
                members@,
            ).skip(i + 1));
        }
        i = i + 1;
    }
    proof {
        assert(obj_model(members@).skip(i as int).len() == 0);
    }
    None
}

/// Copies a JSON value; the copy has the same model.
pub fn json_clone(v: &JsonValue) -> (r: JsonValue)
    ensures
        r@ == v@,
    decreases v, 1int, 0int,
{
    match v {
        JsonValue::Null => JsonValue::Null,
        JsonValue::Bool(b) => JsonValue::Bool(*b),
        JsonValue::Int(n) => JsonValue::Int(*n),
        JsonValue::Str(s) => JsonValue::Str(s.clone()),
        JsonValue::Arr(elems) => {
            let copy = clone_arr_items(elems);
            proof {
                lemma_arr_model(elems@);
                lemma_arr_model(copy@);
                assert forall|j: int| 0 <= j < copy@.len() implies arr_model(copy@)[j]
                    == arr_model(elems@)[j] by {
                    assert(copy@[j]@ == elems@[j]@);
                }
                assert(arr_model(copy@) =~= arr_model(elems@));
            }
            JsonValue::Arr(copy)
        },
        JsonValue::Obj(members) => {
            let copy = clone_obj_items(members);
            proof {
                lemma_obj_model(members@);
                lemma_obj_model(copy@);
                assert forall|j: int| 0 <= j < copy@.len() implies obj_model(copy@)[j]
                    == obj_model(members@)[j] by {
                    assert(copy@[j].0@ == members@[j].0@);
                    assert(copy@[j].1@ == members@[j].1@);
                }
                assert(obj_model(copy@) =~= obj_model(members@));
            }
            JsonValue::Obj(copy)
        },
    }
}

/// Copies an array's elements, in order.
fn clone_arr_items(elems: &Vec<JsonValue>) -> (r: Vec<JsonValue>)
    ensures
        r@.len() == elems@.len(),
        forall|j: int| 0 <= j < r@.len() ==> (#[trigger] r@[j])@ == elems@[j]@,
    decreases elems, 0int,
{
    let mut out: Vec<JsonValue> = Vec::new();
    let len = elems.len();
    let mut i: usize = 0;
    while i < len
        invariant
            i <= len,
            len == elems@.len(),
            out@.len() == i,
            forall|j: int| 0 <= j < i ==> (#[trigger] out@[j])@ == elems@[j]@,
        decreases len - i,
    {
        proof {
            assert(decreases_to!(elems => elems@));
            assert(decreases_to!(elems@ => elems@[i as int]));
        }
        let item = json_clone(&elems[i]);
        out.push(item);
        i = i + 1;
    }
    out
}

/// Copies an object's members, in order.
fn clone_obj_items(members: &Vec<(String, JsonValue)>) -> (r: Vec<(String, JsonValue)>)
    ensures
        r@.len() == members@.len(),
        forall|j: int|
            0 <= j < r@.len() ==> (#[trigger] r@[j]).0@ == members@[j].0@ && r@[j].1@
                == members@[j].1@,
    decreases members, 0int,
{
    let mut out: Vec<(String, JsonValue)> = Vec::new();
    let len = members.len();
    let mut i: usize = 0;
    while i < len
        invariant
            i <= len,
            len == members@.len(),
            out@.len() == i,
            forall|j: int|
                0 <= j < i ==> (#[trigger] out@[j]).0@ == members@[j].0@ && out@[j].1@
                    == members@[j].1@,
        decreases len - i,
    {
        proof {
            assert(decreases_to!(members => members@));
            assert(decreases_to!(members@ => members@[i as int]));
            assert(decreases_to!(members@[i as int] => members@[i as int].1));
        }
        let key = members[i].0.clone();
        let val = json_clone(&members[i].1);
        out.push((key, val));
        i = i + 1;
    }
    out
}

// ---------------------------------------------------------------------------
// Printing: every JSON value has one text form, stated character by character.
// ---------------------------------------------------------------------------

/// The character for one decimal digit.
pub open spec fn digit_char(d: int) -> char {
    (48 + d) as char
}

/// The character for one hexadecimal digit, lower case.
pub open spec fn hex_char(d: int) -> char {
    if d < 10 {
        (48 + d) as char
    } else {
        (87 + d) as char
    }
}

/// The decimal digits of a natural number, most significant first.
pub open spec fn dec_digits(n: nat) -> Seq<char>
    decreases n,
{
    if n < 10 {
        seq![digit_char(n as int)]
    } else {
        dec_digits(n / 10).push(digit_char((n % 10) as int))
    }
}

/// The text of an integer: a minus sign for negatives, then decimal digits.
pub open spec fn int_text(n: int) -> Seq<char> {
    if n >= 0 {
        dec_digits(n as nat)
    } else {
        seq!['-'] + dec_digits((-n) as nat)
    }
}

/// How one character appears inside a JSON string literal.
pub open spec fn esc_char(c: char) -> Seq<char> {
    if c == '"' {
        seq!['\\', '"']
    } else if c == '\\' {
        seq!['\\', '\\']
    } else if c == '\n' {
        seq!['\\', 'n']
    } else if c == '\r' {
        seq!['\\', 'r']
    } else if c == '\t' {
        seq!['\\', 't']
    } else if (c as u32) < 32 {
        seq!['\\', 'u', '0', '0', hex_char(c as u32 as int / 16), hex_char(c as u32 as int % 16)]
    } else {
        seq![c]
    }
}

/// The body of a JSON string literal, every character escaped as needed.
pub open spec fn str_text(s: Seq<char>) -> Seq<char>
    decreases s.len(),
{
    if s.len() == 0 {
        Seq::empty()
    } else {
        esc_char(s[0]) + str_text(s.drop_first())
    }
}

/// The text of a whole JSON value.
pub open spec fn json_text(m: JsonModel) -> Seq<char>
    decreases m, 1int,
{
    match m {
        JsonModel::Null => seq!['n', 'u', 'l', 'l'],
        JsonModel::Bool(b) => if b {
            seq!['t', 'r', 'u', 'e']
        } else {
            seq!['f', 'a', 'l', 's', 'e']
        },
        JsonModel::Int(n) => int_text(n),
        JsonModel::Str(s) => seq!['"'] + str_text(s) + seq!['"'],
        JsonModel::Arr(elems) => seq!['['] + arr_text(elems) + seq![']'],
        JsonModel::Obj(members) => seq!['{'] + members_text(members) + seq!['}'],
    }
}

/// The comma-separated texts of an array's elements.
pub open spec fn arr_text(s: Seq<JsonModel>) -> Seq<char>
    decreases s, 0int,
{
    if s.len() == 0 {
        Seq::empty()
    } else if s.len() == 1 {
        json_text(s[0])
    } else {
        json_text(s[0]) + seq![','] + arr_text(s.drop_first())
    }
}

/// The comma-separated `"key":value` texts of an object's members.
pub open spec fn members_text(s: Seq<(Seq<char>, JsonModel)>) -> Seq<char>
    decreases s, 0int,
{
    if s.len() == 0 {
        Seq::empty()
    } else {
        let head = seq!['"'] + str_text(s[0].0) + seq!['"', ':'] + json_text(s[0].1);
        if s.len() == 1 {
            head
        } else {
            head + seq![','] + members_text(s.drop_first())
        }
    }
}

/// The character for one hexadecimal digit, executably.
fn hex_digit(d: u8) -> (r: char)
    requires
        d < 16,
    ensures
        r == hex_char(d as int),
{
    if d < 10 {
        (48 + d) as char
    } else {
        (87 + d) as char
    }
}

/// Appends the decimal digits of `n`.
fn push_dec_u64(out: &mut String, n: u64)
    ensures
        final(out)@ == old(out)@ + dec_digits(n as nat),
    decreases n,
{
    if n < 10 {
        push_char(out, (48 + n as u8) as char);
        proof {
            assert(final(out)@ =~= old(out)@ + dec_digits(n as nat));
        }
    } else {
        push_dec_u64(out, n / 10);
        push_char(out, (48 + (n % 10) as u8) as char);
        proof {
            assert(final(out)@ =~= old(out)@ + dec_digits(n as nat));
        }
    }
}

/// Appends the text of a signed integer.
fn push_int_i64(out: &mut String, n: i64)
    ensures
        final(out)@ == old(out)@ + int_text(n as int),
{
    if n < 0 {
        push_char(out, '-');
        let m: u64 = if n == i64::MIN {
            9223372036854775808u64
        } else {
            (-n) as u64
        };
        proof {
            assert(m as nat == (-(n as int)) as nat);
        }
        push_dec_u64(out, m);
        proof {
            assert(final(out)@ =~= old(out)@ + int_text(n as int));
        }
    } else {
        push_dec_u64(out, n as u64);
    }
}

/// Appends one character as it appears inside a JSON string literal.
fn push_esc_char(out: &mut String, c: char)
    ensures
        final(out)@ == old(out)@ + esc_char(c),
{
    if c == '"' {
        push_char(out, '\\');
        push_char(out, '"');
        proof {
            assert(final(out)@ =~= old(out)@ + esc_char(c));
        }
    } else if c == '\\' {
        push_char(out, '\\');
        push_char(out, '\\');
        proof {
            assert(final(out)@ =~= old(out)@ + esc_char(c));
        }
    } else if c == '\n' {
        push_char(out, '\\');
        push_char(out, 'n');
        proof {
            assert(final(out)@ =~= old(out)@ + esc_char(c));
        }
    } else if c == '\r' {
        push_char(out, '\\');
        push_char(out, 'r');
        proof {
            assert(final(out)@ =~= old(out)@ + esc_char(c));
        }
    } else if c == '\t' {
        push_char(out, '\\');
        push_char(out, 't');
        proof {
            assert(final(out)@ =~= old(out)@ + esc_char(c));
        }
    } else if (c as u32) < 32 {
        let code = c as u32;
        push_char(out, '\\');
        push_char(out, 'u');
        push_char(out, '0');
        push_char(out, '0');
        push_char(out, hex_digit((code / 16) as u8));
        push_char(out, hex_digit((code % 16) as u8));
        proof {
            assert(final(out)@ =~= old(out)@ + esc_char(c));
        }
    } else {
        push_char(out, c);
        proof {
            assert(final(out)@ =~= old(out)@ + esc_char(c));
        }
    }
}

/// Appends the escaped text of the characters of `s` from position `i` on.
fn push_str_suffix(out: &mut String, s: &str, i: usize)
    requires
        i <= s@.len(),
    ensures
        final(out)@ == old(out)@ + str_text(s@.skip(i as int)),
    decreases s@.len() - i,
{
    let len = s.unicode_len();
    if i < len {
        push_esc_char(out, s.get_char(i));
        push_str_suffix(out, s, i + 1);
        proof {
            assert(s@.skip(i as int)[0] == s@[i as int]);
            assert(s@.skip(i as int).drop_first() =~= s@.skip(i as int + 1));
            assert(final(out)@ =~= old(out)@ + str_text(s@.skip(i as int)));
        }
    } else {
        proof {
            assert(s@.skip(i as int).len() == 0);
            assert(final(out)@ =~= old(out)@ + str_text(s@.skip(i as int)));
        }
    }
}

/// Appends a whole JSON string literal, quotes included.
fn push_str_literal(out: &mut String, s: &str)
    ensures
        final(out)@ == old(out)@ + seq!['"'] + str_text(s@) + seq!['"'],
{
    push_char(out, '"');
    push_str_suffix(out, s, 0);
    push_char(out, '"');
    proof {
        assert(s@.skip(0) =~= s@);
        assert(final(out)@ =~= old(out)@ + seq!['"'] + str_text(s@) + seq!['"']);
    }
}

/// Appends the comma-separated texts of `elems[i..]`.
fn push_arr_items(out: &mut String, elems: &Vec<JsonValue>, i: usize)
    requires
        i <= elems@.len(),
    ensures
        final(out)@ == old(out)@ + arr_text(arr_model(elems@).skip(i as int)),
    decreases elems, 0int, elems@.len() - i,
{
    proof {
        lemma_arr_model(elems@);
    }
    let ghost models = arr_model(elems@);
    if i < elems.len() {
        proof {
            assert(decreases_to!(elems => elems@));
            assert(decreases_to!(elems@ => elems@[i as int]));
        }
        let t = json_to_text(&elems[i]);
        out.append(t.as_str());
        proof {
            assert(models.skip(i as int)[0] == models[i as int]);
        }
        if i + 1 < elems.len() {
            push_char(out, ',');
            push_arr_items(out, elems, i + 1);
            proof {
                assert(models.skip(i as int).drop_first() =~= models.skip(i as int + 1));
                assert(models.skip(i as int).len() >= 2);
                assert(final(out)@ =~= old(out)@ + arr_text(models.skip(i as int)));
            }
        } else {
            proof {
                assert(models.skip(i as int).len() == 1);
                assert(final(out)@ =~= old(out)@ + arr_text(models.skip(i as int)));
            }
        }
    } else {
        proof {
            assert(models.skip(i as int).len() == 0);
            assert(final(out)@ =~= old(out)@ + arr_text(models.skip(i as int)));
        }
    }
}

/// Appends the comma-separated member texts of `members[i..]`.
fn push_obj_items(out: &mut String, members: &Vec<(String, JsonValue)>, i: usize)
    requires
        i <= members@.len(),
    ensures
        final(out)@ == old(out)@ + members_text(obj_model(members@).skip(i as int)),
    decreases members, 0int, members@.len() - i,
{
    proof {
        lemma_obj_model(members@);
    }
    let ghost models = obj_model(members@);
    if i < members.len() {
        proof {
            assert(decreases_to!(members => members@));
            assert(decreases_to!(members@ => members@[i as int]));
            assert(decreases_to!(members@[i as int] => members@[i as int].1));
        }
        push_str_literal(out, members[i].0.as_str());
        push_char(out, ':');
        let t = json_to_text(&members[i].1);
        out.append(t.as_str());
        proof {
            assert(models.skip(i as int)[0] == models[i as int]);
        }
        if i + 1 < members.len() {
            push_char(out, ',');
            push_obj_items(out, members, i + 1);
            proof {
                assert(models.skip(i as int).drop_first() =~= models.skip(i as int + 1));
                assert(models.skip(i as int).len() >= 2);
                assert(final(out)@ =~= old(out)@ + members_text(models.skip(i as int)));
            }
        } else {
            proof {
                assert(models.skip(i as int).len() == 1);
                assert(final(out)@ =~= old(out)@ + members_text(models.skip(i as int)));
            }
        }
    } else {
        proof {
            assert(models.skip(i as int).len() == 0);
            assert(final(out)@ =~= old(out)@ + members_text(models.skip(i as int)));
        }
    }
}

/// Prints a JSON value as text: exactly the characters of [`json_text`].
pub fn json_to_text(v: &JsonValue) -> (r: String)
    ensures
        r@ == json_text(v@),
    decreases v, 1int, 0int,
{
    match v {
        JsonValue::Null => {
            let mut out = String::new();
            push_char(&mut out, 'n');
            push_char(&mut out, 'u');
            push_char(&mut out, 'l');
            push_char(&mut out, 'l');
            proof {
                assert(out@ =~= json_text(v@));
            }
            out
        },
        JsonValue::Bool(b) => {
            let mut out = String::new();
            if *b {
                push_char(&mut out, 't');
                push_char(&mut out, 'r');
                push_char(&mut out, 'u');
                push_char(&mut out, 'e');
            } else {
                push_char(&mut out, 'f');
                push_char(&mut out, 'a');
                push_char(&mut out, 'l');
                push_char(&mut out, 's');
                push_char(&mut out, 'e');
            }
            proof {
                assert(out@ =~= json_text(v@));
            }
            out
        },
        JsonValue::Int(n) => {
            let mut out = String::new();
            push_int_i64(&mut out, *n);
            proof {
                assert(out@ =~= json_text(v@));
            }
            out
        },
        JsonValue::Str(s) => {
            let mut out = String::new();
            push_str_literal(&mut out, s.as_str());
            proof {
                assert(out@ =~= json_text(v@));
            }
            out
        },
        JsonValue::Arr(elems) => {
            let mut out = String::new();
            push_char(&mut out, '[');
            push_arr_items(&mut out, elems, 0);
            push_char(&mut out, ']');
            proof {
                assert(arr_model(elems@).skip(0) =~= arr_model(elems@));
                assert(out@ =~= json_text(v@));
            }
            out
        },
        JsonValue::Obj(members) => {
            let mut out = String::new();
            push_char(&mut out, '{');
            push_obj_items(&mut out, members, 0);
            push_char(&mut out, '}');
            proof {
                assert(obj_model(members@).skip(0) =~= obj_model(members@));
                assert(out@ =~= json_text(v@));
            }
            out
        },
    }
}

} // verus!
