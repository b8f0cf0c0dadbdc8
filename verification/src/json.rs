//! JSON text for protocol messages. Every message on the wire is a JSON
//! object whose members are strings, nested string objects or text, written
//! without whitespace. The escaping of a single string is serde_json's, and
//! is stated here byte for byte; the layout of objects is assembled here.
use vstd::prelude::*;
use vstd::utf8::encode_scalar;

verus! {

/// The lower-case hexadecimal digit for `d`, a number below sixteen.
pub open spec fn hex_digit(d: u32) -> u8 {
    if d < 10 {
        (48 + d) as u8
    } else {
        (87 + d) as u8
    }
}

/// The bytes of the character `c` inside a JSON string literal, as
/// serde_json writes them: `\"` and `\\` for a quote and a backslash;
/// `\b`, `\t`, `\n`, `\f`, `\r` for those control characters; `\u00XX`
/// in lower-case hexadecimal for the other characters below 0x20; the
/// UTF-8 encoding of any other character.
pub open spec fn json_char(c: char) -> Seq<u8> {
    let v = c as u32;
    if v == 0x22 {
        seq![92u8, 34u8]
    } else if v == 0x5C {
        seq![92u8, 92u8]
    } else if v == 0x08 {
        seq![92u8, 98u8]
    } else if v == 0x09 {
        seq![92u8, 116u8]
    } else if v == 0x0A {
        seq![92u8, 110u8]
    } else if v == 0x0C {
        seq![92u8, 102u8]
    } else if v == 0x0D {
        seq![92u8, 114u8]
    } else if v < 0x20 {
        seq![92u8, 117u8, 48u8, 48u8, hex_digit(v / 16), hex_digit(v % 16)]
    } else {
        encode_scalar(v)
    }
}

/// The escaped characters of `s`, one after the other.
pub open spec fn json_chars(s: Seq<char>) -> Seq<u8>
    decreases s.len(),
{
    if s.len() == 0 {
        Seq::empty()
    } else {
        json_chars(s.drop_last()) + json_char(s.last())
    }
}

/// The JSON string literal of `s`: its escaped characters between quotes.
pub open spec fn json_str(s: Seq<char>) -> Seq<u8> {
    seq![34u8] + json_chars(s) + seq![34u8]
}

/// Escapes `s` as a JSON string literal through `serde_json::to_vec`.
/// Trusted: serde_json writes a quote, each character of `s` escaped as
/// `json_char` says (its escape table marks exactly the bytes below 0x20,
/// the quote and the backslash; every other byte of the UTF-8 text is
/// copied), and a closing quote. Writing into a `Vec` cannot fail.
#[verifier::external_body]
pub(crate) fn json_quote(s: &str) -> (r: Vec<u8>)
    ensures
        r@ == json_str(s@),
{
    match serde_json::to_vec(s) {
        Ok(bytes) => bytes,
        Err(_) => Vec::new(),
    }
}

pub open spec fn colon() -> u8 {
    58u8
}

pub open spec fn comma() -> u8 {
    44u8
}

pub open spec fn open_brace() -> u8 {
    123u8
}

pub open spec fn close_brace() -> u8 {
    125u8
}

/// `"key":value`
pub open spec fn json_member(key: Seq<char>, value: Seq<u8>) -> Seq<u8> {
    json_str(key) + seq![colon()] + value
}

/// The members joined by commas.
pub open spec fn join_members(members: Seq<Seq<u8>>) -> Seq<u8>
    decreases members.len(),
{
    if members.len() == 0 {
        Seq::empty()
    } else if members.len() == 1 {
        members[0]
    } else {
        join_members(members.drop_last()) + seq![comma()] + members.last()
    }
}

/// `{member,member,...}`
pub open spec fn json_object(members: Seq<Seq<u8>>) -> Seq<u8> {
    seq![open_brace()] + join_members(members) + seq![close_brace()]
}

pub open spec fn open_bracket() -> u8 {
    91u8
}

pub open spec fn close_bracket() -> u8 {
    93u8
}

/// `[element,element,...]`
pub open spec fn json_array(elements: Seq<Seq<u8>>) -> Seq<u8> {
    seq![open_bracket()] + join_members(elements) + seq![close_bracket()]
}

/// The JSON array of the string literals of `items`.
pub open spec fn string_array(items: Seq<Seq<char>>) -> Seq<u8> {
    json_array(items.map_values(|s: Seq<char>| json_str(s)))
}

/// The JSON array of the string literals of `items`.
pub fn encode_string_array(items: &Vec<String>) -> (r: Vec<u8>)
    ensures
        r@ == string_array(items@.map_values(|s: String| s@)),
{
    let ghost f = |s: String| json_str(s@);
    let mut out: Vec<u8> = Vec::new();
    out.push(91u8);
    let mut i: usize = 0;
    while i < items.len()
        invariant
            i <= items@.len(),
            f == (|s: String| json_str(s@)),
            out@ == seq![open_bracket()] + join_members(items@.subrange(0, i as int).map_values(f)),
        decreases items@.len() - i,
    {
        let ghost prev = items@.subrange(0, i as int).map_values(f);
        if i > 0 {
            out.push(44u8);
        }
        let q = json_quote(items[i].as_str());
        append_bytes(&mut out, q.as_slice());
        i = i + 1;
        let ghost next = items@.subrange(0, i as int).map_values(f);
        assert(next.drop_last() =~= prev);
        assert(next.last() == q@);
        assert(out@ =~= seq![open_bracket()] + join_members(next));
    }
    assert(items@.subrange(0, items@.len() as int) == items@);
    assert(items@.map_values(f) =~= items@.map_values(|s: String| s@).map_values(
        |s: Seq<char>| json_str(s),
    ));
    out.push(93u8);
    out
}

/// Appends `src` to `dst`.
pub fn append_bytes(dst: &mut Vec<u8>, src: &[u8])
    ensures
        final(dst)@ == old(dst)@ + src@,
{
    let mut i: usize = 0;
    let ghost start = dst@;
    while i < src.len()
        invariant
            i <= src@.len(),
            dst@ == start + src@.subrange(0, i as int),
        decreases src@.len() - i,
    {
        dst.push(src[i]);
        i = i + 1;
        assert(src@.subrange(0, i as int) == src@.subrange(0, i - 1 as int).push(src@[i - 1]));
    }
    assert(src@.subrange(0, src@.len() as int) == src@);
}

/// Incremental writer of one JSON object: `open`, then `member` once per
/// member, then `close`.
pub struct ObjectWriter {
    pub bytes: Vec<u8>,
    pub is_empty: bool,
    pub members: Ghost<Seq<Seq<u8>>>,
}

impl ObjectWriter {
    pub open spec fn wf(&self) -> bool {
        &&& self.bytes@ == seq![open_brace()] + join_members(self.members@)
        &&& self.is_empty == (self.members@.len() == 0)
    }

    pub fn open() -> (w: ObjectWriter)
        ensures
            w.wf(),
            w.members@ == Seq::<Seq<u8>>::empty(),
    {
        let mut bytes: Vec<u8> = Vec::new();
        bytes.push(123u8);
        ObjectWriter { bytes, is_empty: true, members: Ghost(Seq::empty()) }
    }

    /// Adds the member `"key":value`.
    pub fn member(&mut self, key: &str, value: &[u8])
        requires
            old(self).wf(),
        ensures
            final(self).wf(),
            final(self).members@ == old(self).members@.push(json_member(key@, value@)),
    {
        let ghost m = json_member(key@, value@);
        let ghost old_members = self.members@;
        if !self.is_empty {
            self.bytes.push(44u8);
        }
        self.is_empty = false;
        let k = json_quote(key);
        append_bytes(&mut self.bytes, k.as_slice());
        self.bytes.push(58u8);
        append_bytes(&mut self.bytes, value);
        self.members = Ghost(old_members.push(m));
        assert(self.members@.drop_last() == old_members);
        proof {
            if old_members.len() == 0 {
                assert(self.bytes@ =~= seq![open_brace()] + m);
                assert(join_members(self.members@) == m);
            } else {
                assert(self.bytes@ =~= seq![open_brace()] + join_members(old_members) + seq![comma()] + m);
                assert(join_members(self.members@) == join_members(old_members) + seq![comma()] + m);
            }
            assert(self.bytes@ =~= seq![open_brace()] + join_members(self.members@));
        }
    }

    /// Adds the member `"key":"text"`.
    pub fn text_member(&mut self, key: &str, text: &str)
        requires
            old(self).wf(),
        ensures
            final(self).wf(),
            final(self).members@ == old(self).members@.push(json_member(key@, json_str(text@))),
    {
        let v = json_quote(text);
        self.member(key, v.as_slice());
    }

    pub fn close(self) -> (r: Vec<u8>)
        requires
            self.wf(),
        ensures
            r@ == json_object(self.members@),
    {
        let mut bytes = self.bytes;
        bytes.push(125u8);
        bytes
    }
}

} // verus!
