//! A JSON document as plain values, and the lookups that the media and
//! response logic performs on it.

use vstd::prelude::*;
use crate::text::{chars_of, push_char};

verus! {

/// A JSON number as the logic reads it: its decimal text, its value when it
/// is a non-negative integer that fits in `u64`, and its value truncated
/// to an `i64` (saturating, as a float-to-integer cast does).
#[derive(Debug)]
pub struct JsonNumber {
    pub text: String,
    pub as_u64: Option<u64>,
    pub truncated: i64,
}

/// A JSON value. Object members keep their keys unique.
#[derive(Debug)]
pub enum Json {
    Null,
    Bool(bool),
    Number(JsonNumber),
    Str(String),
    Array(Vec<Json>),
    Object(Vec<(String, Json)>),
}

/// The value stored under `key` among the members, the first one if the
/// key repeats.
pub open spec fn lookup(members: Seq<(String, Json)>, key: Seq<char>) -> Option<Json>
    decreases members.len(),
{
    if members.len() == 0 {
        None
    } else if members[0].0@ == key {
        Some(members[0].1)
    } else {
        lookup(members.drop_first(), key)
    }
}

/// `Value::get` with a string key: the member of an object, `None` for
/// any other value.
pub open spec fn get_spec(j: Json, key: Seq<char>) -> Option<Json> {
    match j {
        Json::Object(members) => lookup(members@, key),
        _ => None,
    }
}

/// Chained `get` along a path of keys (`Value::pointer` with object keys).
pub open spec fn path_spec(j: Json, keys: Seq<Seq<char>>) -> Option<Json>
    decreases keys.len(),
{
    if keys.len() == 0 {
        Some(j)
    } else {
        match get_spec(j, keys[0]) {
            Some(c) => path_spec(c, keys.drop_first()),
            None => None,
        }
    }
}

/// `Value::as_str`.
pub open spec fn str_of(j: Option<Json>) -> Option<Seq<char>> {
    match j {
        Some(Json::Str(s)) => Some(s@),
        _ => None,
    }
}

/// `Value::as_bool`.
pub open spec fn bool_of(j: Option<Json>) -> Option<bool> {
    match j {
        Some(Json::Bool(b)) => Some(b),
        _ => None,
    }
}

/// `Value::as_u64`.
pub open spec fn u64_of(j: Option<Json>) -> Option<u64> {
    match j {
        Some(Json::Number(n)) => n.as_u64,
        _ => None,
    }
}

/// `Value::as_f64` followed by a cast to `i64`.
pub open spec fn trunc_of(j: Option<Json>) -> Option<i64> {
    match j {
        Some(Json::Number(n)) => Some(n.truncated),
        _ => None,
    }
}

/// `Value::as_array`.
pub open spec fn array_of(j: Option<Json>) -> Option<Seq<Json>> {
    match j {
        Some(Json::Array(v)) => Some(v@),
        _ => None,
    }
}

/// Whether two strings hold the same characters.
pub fn same_text(a: &str, b: &[char]) -> (r: bool)
    ensures
        r == (a@ == b@),
{
    let ac = chars_of(a);
    if ac.len() != b.len() {
        return false;
    }
    let mut i: usize = 0;
    while i < b.len()
        invariant
            ac@ == a@,
            ac.len() == b.len(),
            i <= b.len(),
            forall|k: int| 0 <= k < i ==> ac@[k] == b@[k],
        decreases b.len() - i,
    {
        if ac[i] != b[i] {
            return false;
        }
        i += 1;
    }
    assert(ac@ =~= b@);
    true
}

/// A lowercase hexadecimal digit.
pub open spec fn hex_lower(d: u32) -> char {
    if d < 10 {
        (('0' as u32) + d) as char
    } else {
        (('a' as u32) + d - 10) as char
    }
}

/// How one character is written inside a JSON string: `"` and `\`
/// backslashed; backspace, form feed, newline, carriage return and tab by
/// their short escapes; other control characters below U+0020 as
/// `\u00XX` with lowercase hex digits; anything else as it is.
pub open spec fn escape_char_spec(c: char) -> Seq<char> {
    let u = c as u32;
    if c == '"' {
        seq!['\\', '"']
    } else if c == '\\' {
        seq!['\\', '\\']
    } else if u == 8 {
        seq!['\\', 'b']
    } else if u == 12 {
        seq!['\\', 'f']
    } else if u == 10 {
        seq!['\\', 'n']
    } else if u == 13 {
        seq!['\\', 'r']
    } else if u == 9 {
        seq!['\\', 't']
    } else if u < 32 {
        seq!['\\', 'u', '0', '0', hex_lower(u / 16), hex_lower(u % 16)]
    } else {
        seq![c]
    }
}

/// The escaped characters of a string.
pub open spec fn escaped_spec(s: Seq<char>) -> Seq<char>
    decreases s.len(),
{
    if s.len() == 0 {
        Seq::empty()
    } else {
        escaped_spec(s.drop_last()) + escape_char_spec(s.last())
    }
}

/// A string as a JSON string literal, as `serde_json` writes it.
pub open spec fn json_string_spec(s: Seq<char>) -> Seq<char> {
    seq!['"'] + escaped_spec(s) + seq!['"']
}

fn hex_lower_exec(d: u32) -> (c: char)
    requires
        d < 16,
    ensures
        c == hex_lower(d),
{
    let b = d as u8;
    if b < 10 {
        (48u8 + b) as char
    } else {
        (87u8 + b) as char
    }
}

/// Append the escape of one character.
fn push_escaped(out: &mut String, c: char)
    ensures
        final(out)@ == old(out)@ + escape_char_spec(c),
{
    let u = c as u32;
    let ghost before = out@;
    if c == '"' {
        push_char(out, '\\');
        push_char(out, '"');
    } else if c == '\\' {
        push_char(out, '\\');
        push_char(out, '\\');
    } else if u == 8 {
        push_char(out, '\\');
        push_char(out, 'b');
    } else if u == 12 {
        push_char(out, '\\');
        push_char(out, 'f');
    } else if u == 10 {
        push_char(out, '\\');
        push_char(out, 'n');
    } else if u == 13 {
        push_char(out, '\\');
        push_char(out, 'r');
    } else if u == 9 {
        push_char(out, '\\');
        push_char(out, 't');
    } else if u < 32 {
        push_char(out, '\\');
        push_char(out, 'u');
        push_char(out, '0');
        push_char(out, '0');
        push_char(out, hex_lower_exec(u / 16));
        push_char(out, hex_lower_exec(u % 16));
    } else {
        push_char(out, c);
    }
    assert(out@ =~= before + escape_char_spec(c));
}

/// A string as a JSON string literal (quoted and escaped as `serde_json`
/// writes strings).
pub fn json_string(s: &str) -> (r: String)
    ensures
        r@ == json_string_spec(s@),
{
    let cs = chars_of(s);
    let mut out = String::new();
    push_char(&mut out, '"');
    let mut i: usize = 0;
    assert(cs@.take(0) =~= Seq::<char>::empty());
    while i < cs.len()
        invariant
            i <= cs.len(),
            cs@ == s@,
            out@ == seq!['"'] + escaped_spec(cs@.take(i as int)),
        decreases cs.len() - i,
    {
        assert(cs@.take(i + 1).drop_last() =~= cs@.take(i as int));
        assert(cs@.take(i + 1).last() == cs@[i as int]);
        push_escaped(&mut out, cs[i]);
        assert(out@ =~= seq!['"'] + escaped_spec(cs@.take(i + 1)));
        i += 1;
    }
    assert(cs@.take(cs.len() as int) =~= cs@);
    push_char(&mut out, '"');
    assert(out@ =~= json_string_spec(s@));
    out
}


impl Json {
    /// The member stored under `key` (`Value::get`).
    pub fn get(&self, key: &str) -> (r: Option<&Json>)
        ensures
            r matches Some(v) ==> get_spec(*self, key@) == Some(*v),
            r is None ==> get_spec(*self, key@) is None,
    {
        match self {
            Json::Object(members) => {
                let k = chars_of(key);
                let mut i: usize = 0;
                assert(members@.skip(0) =~= members@);
                while i < members.len()
                    invariant
                        i <= members.len(),
                        k@ == key@,
                        get_spec(*self, key@) == lookup(members@, key@),
                        lookup(members@, key@) == lookup(members@.skip(i as int), key@),
                    decreases members.len() - i,
                {
                    assert(members@.skip(i as int).drop_first() =~= members@.skip(i + 1));
                    assert(members@.skip(i as int)[0] == members@[i as int]);
                    if same_text(members[i].0.as_str(), k.as_slice()) {
                        assert(members@[i as int].0@ == key@);
                        assert(lookup(members@.skip(i as int), key@) == Some(members@[i as int].1));
                        let entry = &members[i];
                        assert(*entry == members@[i as int]);
                        assert(get_spec(*self, key@) == lookup(members@, key@));
                        return Some(&entry.1);
                    }
                    i += 1;
                }
                assert(members@.skip(i as int) =~= Seq::<(String, Json)>::empty());
                None
            },
            _ => None,
        }
    }

    /// Chained lookups of the given keys (`Value::pointer` on object keys).
    pub fn path(&self, keys: &[&str]) -> (r: Option<&Json>)
        ensures
            r matches Some(v) ==> path_spec(*self, keys@.map_values(|k: &str| k@)) == Some(*v),
            r is None ==> path_spec(*self, keys@.map_values(|k: &str| k@)) is None,
    {
        let ghost ks = keys@.map_values(|k: &str| k@);
        let mut cur: &Json = self;
        let mut i: usize = 0;
        assert(ks.skip(0) =~= ks);
        while i < keys.len()
            invariant
                i <= keys.len(),
                ks == keys@.map_values(|k: &str| k@),
                path_spec(*self, ks) == path_spec(*cur, ks.skip(i as int)),
            decreases keys.len() - i,
        {
            assert(ks.skip(i as int).drop_first() =~= ks.skip(i + 1));
            assert(ks.skip(i as int)[0] == keys@[i as int]@);
            match cur.get(keys[i]) {
                Some(next) => {
                    cur = next;
                },
                None => {
                    return None;
                },
            }
            i += 1;
        }
        assert(ks.skip(keys.len() as int) =~= Seq::<Seq<char>>::empty());
        Some(cur)
    }

    /// Two chained lookups (`Value::pointer` with a two-key path).
    pub fn get2(&self, k1: &str, k2: &str) -> (r: Option<&Json>)
        ensures
            r matches Some(v) ==> path_spec(*self, seq![k1@, k2@]) == Some(*v),
            r is None ==> path_spec(*self, seq![k1@, k2@]) is None,
    {
        let ghost ks = seq![k1@, k2@];
        assert(ks.drop_first() =~= seq![k2@]);
        assert(seq![k2@].drop_first() =~= Seq::<Seq<char>>::empty());
        match self.get(k1) {
            Some(c) => {
                assert(path_spec(*self, ks) == path_spec(*c, seq![k2@]));
                let r = c.get(k2);
                match r {
                    Some(d) => {
                        assert(path_spec(*d, Seq::<Seq<char>>::empty()) == Some(*d));
                    },
                    None => {},
                }
                r
            },
            None => None,
        }
    }

    /// `Value::as_str`.
    pub fn as_str(&self) -> (r: Option<&String>)
        ensures
            r matches Some(s) ==> str_of(Some(*self)) == Some(s@),
            r is None ==> str_of(Some(*self)) is None,
    {
        match self {
            Json::Str(s) => Some(s),
            _ => None,
        }
    }

    /// `Value::as_bool`.
    pub fn as_bool(&self) -> (r: Option<bool>)
        ensures
            r == bool_of(Some(*self)),
    {
        match self {
            Json::Bool(b) => Some(*b),
            _ => None,
        }
    }

    /// `Value::as_u64`.
    pub fn as_u64(&self) -> (r: Option<u64>)
        ensures
            r == u64_of(Some(*self)),
    {
        match self {
            Json::Number(n) => n.as_u64,
            _ => None,
        }
    }

    /// `Value::as_f64` then a cast to `i64`.
    pub fn as_truncated(&self) -> (r: Option<i64>)
        ensures
            r == trunc_of(Some(*self)),
    {
        match self {
            Json::Number(n) => Some(n.truncated),
            _ => None,
        }
    }

    /// `Value::as_array`.
    pub fn as_array(&self) -> (r: Option<&Vec<Json>>)
        ensures
            r matches Some(v) ==> array_of(Some(*self)) == Some(v@),
            r is None ==> array_of(Some(*self)) is None,
    {
        match self {
            Json::Array(v) => Some(v),
            _ => None,
        }
    }
}

} // verus!
