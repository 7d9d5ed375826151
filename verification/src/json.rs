//! Structured-mode output: the whole collection serialized as one JSON
//! document — an array of objects with the fields `name`, `status` and
//! `spec`. The encoding is defined as a spec-level function, the executable
//! encoder is proved to produce exactly it, and a spec-level decoder is
//! proved to reconstruct the collection from the encoding (the round trip).

use vstd::prelude::*;

use crate::records::ListTableFormats;
use crate::records::Record;
use crate::records::RecordView;

verus! {

/// The sixteen lowercase hexadecimal digit characters, in value order.
pub open spec fn hex_digits() -> Seq<char> {
    seq!['0', '1', '2', '3', '4', '5', '6', '7', '8', '9', 'a', 'b', 'c', 'd', 'e', 'f']
}

/// Whether a character must be written as a `\u00..` escape: the control
/// characters without a named escape, `DEL`, and the C1 controls. YAML's
/// printable-character set excludes all of these, and JSON forbids the ones
/// below space, so both document encodings escape the whole range.
pub open spec fn needs_hex_escape(c: char) -> bool {
    (c as u32) < 32 || (127 <= (c as u32) && (c as u32) < 160)
}

/// The escaping of one character inside a double-quoted string of a JSON or
/// YAML document: quote, backslash and the common control characters get
/// two-character escapes, the other characters of [`needs_hex_escape`] a
/// `\u00..` escape, and everything else stands as itself.
pub open spec fn esc_char(c: char) -> Seq<char> {
    if c == '"' {
        seq!['\\', '"']
    } else if c == '\\' {
        seq!['\\', '\\']
    } else if c == '\n' {
        seq!['\\', 'n']
    } else if c == '\r' {
        seq!['\\', 'r']
    } else if c == '\t' {
        seq!['\\', 't']
    } else if needs_hex_escape(c) {
        seq!['\\', 'u', '0', '0'] + seq![
            hex_digits()[((c as u32) / 16) as int],
            hex_digits()[((c as u32) % 16) as int],
        ]
    } else {
        seq![c]
    }
}

/// The body of a JSON string literal: each character escaped, concatenated.
pub open spec fn str_body(s: Seq<char>) -> Seq<char>
    decreases s.len(),
{
    if s.len() == 0 {
        Seq::empty()
    } else {
        esc_char(s[0]) + str_body(s.skip(1))
    }
}

/// The JSON object for one record: its three fields as JSON string members,
/// in the fixed order `name`, `status`, `spec`.
pub open spec fn json_record(r: RecordView) -> Seq<char> {
    "{\"name\":\""@ + str_body(r.name) + "\",\"status\":\""@ + str_body(r.status)
        + "\",\"spec\":\""@ + str_body(r.spec_payload) + "\"}"@
}

/// The comma-separated JSON objects of a sequence of records, in order.
pub open spec fn json_records(rs: Seq<RecordView>) -> Seq<char>
    decreases rs.len(),
{
    if rs.len() == 0 {
        Seq::empty()
    } else if rs.len() == 1 {
        json_record(rs[0])
    } else {
        json_record(rs[0]) + seq![','] + json_records(rs.skip(1))
    }
}

/// The JSON document for a whole collection: the records as one array.
pub open spec fn json_list(rs: Seq<RecordView>) -> Seq<char> {
    seq!['['] + json_records(rs) + seq![']']
}

pub(crate) proof fn lemma_str_body_push(s: Seq<char>, c: char)
    ensures
        str_body(s.push(c)) == str_body(s) + esc_char(c),
    decreases s.len(),
{
    if s.len() == 0 {
        assert(s.push(c)[0] == c);
        assert(s.push(c).skip(1) =~= Seq::<char>::empty());
        assert(str_body(s.push(c).skip(1)) == Seq::<char>::empty());
        assert(str_body(s.push(c)) == esc_char(c) + str_body(s.push(c).skip(1)));
        assert(str_body(s) == Seq::<char>::empty());
        assert(str_body(s.push(c)) =~= str_body(s) + esc_char(c));
    } else {
        assert(s.push(c)[0] == s[0]);
        assert(s.push(c).skip(1) =~= s.skip(1).push(c));
        lemma_str_body_push(s.skip(1), c);
        assert(str_body(s.push(c)) =~= str_body(s) + esc_char(c));
    }
}

proof fn lemma_json_records_push(rs: Seq<RecordView>, r: RecordView)
    requires
        rs.len() > 0,
    ensures
        json_records(rs.push(r)) == json_records(rs) + seq![','] + json_record(r),
    decreases rs.len(),
{
    if rs.len() == 1 {
        assert(rs.push(r)[0] == rs[0]);
        assert(rs.push(r).skip(1) =~= seq![r]);
        assert(json_records(seq![r]) == json_record(r));
        assert(json_records(rs.push(r)) =~= json_records(rs) + seq![','] + json_record(r));
    } else {
        assert(rs.push(r)[0] == rs[0]);
        assert(rs.push(r).skip(1) =~= rs.skip(1).push(r));
        lemma_json_records_push(rs.skip(1), r);
        assert(json_records(rs.push(r)) =~= json_records(rs) + seq![','] + json_record(r));
    }
}

/// Relies on std's `String::push`: it appends exactly the one character.
#[verifier::external_body]
pub(crate) fn push_char(out: &mut String, c: char)
    ensures
        final(out)@ == old(out)@ + seq![c],
{
    out.push(c);
}

/// One lowercase hexadecimal digit character for a value below sixteen.
fn hex_char(n: u32) -> (r: char)
    requires
        n < 16,
    ensures
        r == hex_digits()[n as int],
{
    if n == 0 {
        '0'
    } else if n == 1 {
        '1'
    } else if n == 2 {
        '2'
    } else if n == 3 {
        '3'
    } else if n == 4 {
        '4'
    } else if n == 5 {
        '5'
    } else if n == 6 {
        '6'
    } else if n == 7 {
        '7'
    } else if n == 8 {
        '8'
    } else if n == 9 {
        '9'
    } else if n == 10 {
        'a'
    } else if n == 11 {
        'b'
    } else if n == 12 {
        'c'
    } else if n == 13 {
        'd'
    } else if n == 14 {
        'e'
    } else {
        'f'
    }
}

/// Appends the escaping of one character of a double-quoted string.
fn push_escaped(out: &mut String, c: char)
    ensures
        final(out)@ == old(out)@ + esc_char(c),
{
    if c == '"' {
        out.append("\\\"");
        proof {
            reveal_strlit("\\\"");
            assert("\\\""@ =~= esc_char(c));
        }
    } else if c == '\\' {
        out.append("\\\\");
        proof {
            reveal_strlit("\\\\");
            assert("\\\\"@ =~= esc_char(c));
        }
    } else if c == '\n' {
        out.append("\\n");
        proof {
            reveal_strlit("\\n");
            assert("\\n"@ =~= esc_char(c));
        }
    } else if c == '\r' {
        out.append("\\r");
        proof {
            reveal_strlit("\\r");
            assert("\\r"@ =~= esc_char(c));
        }
    } else if c == '\t' {
        out.append("\\t");
        proof {
            reveal_strlit("\\t");
            assert("\\t"@ =~= esc_char(c));
        }
    } else {
        let code = c as u32;
        if code < 32 || (127 <= code && code < 160) {
            out.append("\\u00");
            let hi = hex_char(code / 16);
            let lo = hex_char(code % 16);
            push_char(out, hi);
            push_char(out, lo);
            proof {
                reveal_strlit("\\u00");
                assert("\\u00"@ + seq![hi] + seq![lo] =~= esc_char(c));
            }
        } else {
            push_char(out, c);
            assert(seq![c] =~= esc_char(c));
        }
    }
}

/// Appends the escaped body of one double-quoted string.
pub(crate) fn push_str_body(out: &mut String, s: &str)
    ensures
        final(out)@ == old(out)@ + str_body(s@),
{
    let n = s.unicode_len();
    for i in 0..n
        invariant
            n == s@.len(),
            out@ == old(out)@ + str_body(s@.take(i as int)),
    {
        let c = s.get_char(i);
        push_escaped(out, c);
        proof {
            lemma_str_body_push(s@.take(i as int), c);
            assert(s@.take(i + 1 as int) =~= s@.take(i as int).push(s@[i as int]));
        }
    }
    proof {
        assert(s@.take(n as int) =~= s@);
    }
}

/// Appends the JSON object of one record.
fn push_record_json(out: &mut String, rec: &Record)
    ensures
        final(out)@ == old(out)@ + json_record(rec@),
{
    out.append("{\"name\":\"");
    push_str_body(out, rec.name.as_str());
    out.append("\",\"status\":\"");
    push_str_body(out, rec.status.as_str());
    out.append("\",\"spec\":\"");
    push_str_body(out, rec.spec_payload.as_str());
    out.append("\"}");
    proof {
        assert(out@ =~= old(out)@ + json_record(rec@));
    }
}

/// The structured-mode serialization: the collection as one JSON document,
/// records in collection order.
pub fn encode_json(list: &ListTableFormats) -> (r: String)
    ensures
        r@ == json_list(list@),
{
    let mut out = String::from_str("[");
    proof {
        reveal_strlit("[");
        assert("["@ =~= seq!['[']);
    }
    let n = list.0.len();
    for i in 0..n
        invariant
            n == list.0@.len(),
            out@ == seq!['['] + json_records(list@.take(i as int)),
    {
        if i > 0 {
            out.append(",");
            proof {
                reveal_strlit(",");
                assert(","@ =~= seq![',']);
            }
        }
        push_record_json(&mut out, &list.0[i]);
        proof {
            assert(list@[i as int] == list.0@[i as int]@);
            assert(list@.take(i + 1 as int) =~= list@.take(i as int).push(list@[i as int]));
            if i > 0 {
                lemma_json_records_push(list@.take(i as int), list@[i as int]);
                assert(out@ =~= seq!['['] + json_records(list@.take(i + 1 as int)));
            } else {
                assert(list@.take(1int) =~= seq![list@[0int]]);
                assert(out@ =~= seq!['['] + json_records(list@.take(i + 1 as int)));
            }
        }
    }
    out.append("]");
    proof {
        reveal_strlit("]");
        assert(list@.take(n as int) =~= list@);
        assert(out@ =~= json_list(list@));
    }
    out
}

/// The character a two-character escape stands for.
pub open spec fn unescape_short(e: char) -> char {
    if e == '"' {
        '"'
    } else if e == '\\' {
        '\\'
    } else if e == 'n' {
        '\n'
    } else if e == 'r' {
        '\r'
    } else {
        '\t'
    }
}

/// The value of one lowercase hexadecimal digit character, if it is one.
pub open spec fn unhex(c: char) -> Option<u32> {
    if c == '0' {
        Some(0u32)
    } else if c == '1' {
        Some(1u32)
    } else if c == '2' {
        Some(2u32)
    } else if c == '3' {
        Some(3u32)
    } else if c == '4' {
        Some(4u32)
    } else if c == '5' {
        Some(5u32)
    } else if c == '6' {
        Some(6u32)
    } else if c == '7' {
        Some(7u32)
    } else if c == '8' {
        Some(8u32)
    } else if c == '9' {
        Some(9u32)
    } else if c == 'a' {
        Some(10u32)
    } else if c == 'b' {
        Some(11u32)
    } else if c == 'c' {
        Some(12u32)
    } else if c == 'd' {
        Some(13u32)
    } else if c == 'e' {
        Some(14u32)
    } else if c == 'f' {
        Some(15u32)
    } else {
        None
    }
}

/// Whether `p` is a prefix of `s`.
pub open spec fn starts_with(s: Seq<char>, p: Seq<char>) -> bool {
    s.len() >= p.len() && s.subrange(0, p.len() as int) == p
}

/// Consumes the prefix `p` from `s`, if it is there.
pub open spec fn chomp(s: Seq<char>, p: Seq<char>) -> Option<Seq<char>> {
    if starts_with(s, p) {
        Some(s.skip(p.len() as int))
    } else {
        None
    }
}

/// Parses the body of a JSON string literal up to and including its closing
/// quote; yields the decoded characters and what follows the quote.
pub open spec fn dec_string_body(s: Seq<char>) -> Option<(Seq<char>, Seq<char>)>
    decreases s.len(),
{
    if s.len() == 0 {
        None
    } else if s[0] == '"' {
        Some((Seq::empty(), s.skip(1)))
    } else if s[0] == '\\' {
        if s.len() < 2 {
            None
        } else if s[1] == '"' || s[1] == '\\' || s[1] == 'n' || s[1] == 'r' || s[1] == 't' {
            match dec_string_body(s.skip(2)) {
                Some(p) => Some((seq![unescape_short(s[1])] + p.0, p.1)),
                None => None,
            }
        } else if s[1] == 'u' {
            if s.len() < 6 {
                None
            } else {
                match (unhex(s[2]), unhex(s[3]), unhex(s[4]), unhex(s[5])) {
                    (Some(d0), Some(d1), Some(d2), Some(d3)) => {
                        let code = 4096 * (d0 as int) + 256 * (d1 as int) + 16 * (d2 as int) + (
                        d3 as int);
                        if code < 256 {
                            match dec_string_body(s.skip(6)) {
                                Some(p) => Some((seq![(code as u32) as char] + p.0, p.1)),
                                None => None,
                            }
                        } else {
                            None
                        }
                    },
                    _ => None,
                }
            }
        } else {
            None
        }
    } else {
        match dec_string_body(s.skip(1)) {
            Some(p) => Some((seq![s[0]] + p.0, p.1)),
            None => None,
        }
    }
}

/// Parses one record object; yields the record and what follows it.
pub open spec fn dec_record(s: Seq<char>) -> Option<(RecordView, Seq<char>)> {
    match chomp(s, "{\"name\":\""@) {
        None => None,
        Some(s1) => match dec_string_body(s1) {
            None => None,
            Some((name, s2)) => match chomp(s2, ",\"status\":\""@) {
                None => None,
                Some(s3) => match dec_string_body(s3) {
                    None => None,
                    Some((status, s4)) => match chomp(s4, ",\"spec\":\""@) {
                        None => None,
                        Some(s5) => match dec_string_body(s5) {
                            None => None,
                            Some((sp, s6)) => match chomp(s6, "}"@) {
                                None => None,
                                Some(s7) => Some(
                                    (RecordView { name, status, spec_payload: sp }, s7),
                                ),
                            },
                        },
                    },
                },
            },
        },
    }
}

/// Parses one or more comma-separated record objects up to and including the
/// closing bracket of the array; yields the records and what follows.
pub open spec fn dec_list_items(s: Seq<char>) -> Option<(Seq<RecordView>, Seq<char>)>
    decreases s.len(),
{
    match dec_record(s) {
        None => None,
        Some((r, u)) => {
            if u.len() > 0 && u[0] == ']' {
                Some((seq![r], u.skip(1)))
            } else if u.len() > 0 && u[0] == ',' && u.skip(1).len() < s.len() {
                match dec_list_items(u.skip(1)) {
                    Some((rs, v)) => Some((seq![r] + rs, v)),
                    None => None,
                }
            } else {
                None
            }
        },
    }
}

/// Decodes a whole JSON document back into the sequence of records it
/// serializes, if it has exactly the shape the encoder produces.
pub open spec fn json_decode(s: Seq<char>) -> Option<Seq<RecordView>> {
    match chomp(s, "["@) {
        None => None,
        Some(s1) => {
            if s1 == "]"@ {
                Some(Seq::empty())
            } else {
                match dec_list_items(s1) {
                    Some((rs, v)) => {
                        if v.len() == 0 {
                            Some(rs)
                        } else {
                            None
                        }
                    },
                    None => None,
                }
            }
        },
    }
}

pub(crate) proof fn lemma_chomp(p: Seq<char>, t: Seq<char>)
    ensures
        chomp(p + t, p) == Some(t),
{
    assert((p + t).subrange(0, p.len() as int) =~= p);
    assert((p + t).skip(p.len() as int) =~= t);
}

proof fn lemma_unhex_hex(x: u32)
    requires
        x < 16,
    ensures
        unhex(hex_digits()[x as int]) == Some(x),
{
    if x == 0 {
        assert(unhex(hex_digits()[0int]) == Some(0u32));
    } else if x == 1 {
        assert(unhex(hex_digits()[1int]) == Some(1u32));
    } else if x == 2 {
        assert(unhex(hex_digits()[2int]) == Some(2u32));
    } else if x == 3 {
        assert(unhex(hex_digits()[3int]) == Some(3u32));
    } else if x == 4 {
        assert(unhex(hex_digits()[4int]) == Some(4u32));
    } else if x == 5 {
        assert(unhex(hex_digits()[5int]) == Some(5u32));
    } else if x == 6 {
        assert(unhex(hex_digits()[6int]) == Some(6u32));
    } else if x == 7 {
        assert(unhex(hex_digits()[7int]) == Some(7u32));
    } else if x == 8 {
        assert(unhex(hex_digits()[8int]) == Some(8u32));
    } else if x == 9 {
        assert(unhex(hex_digits()[9int]) == Some(9u32));
    } else if x == 10 {
        assert(unhex(hex_digits()[10int]) == Some(10u32));
    } else if x == 11 {
        assert(unhex(hex_digits()[11int]) == Some(11u32));
    } else if x == 12 {
        assert(unhex(hex_digits()[12int]) == Some(12u32));
    } else if x == 13 {
        assert(unhex(hex_digits()[13int]) == Some(13u32));
    } else if x == 14 {
        assert(unhex(hex_digits()[14int]) == Some(14u32));
    } else {
        assert(unhex(hex_digits()[15int]) == Some(15u32));
    }
}

#[verifier::rlimit(50)]
pub(crate) proof fn lemma_dec_str_body(s: Seq<char>, rest: Seq<char>)
    ensures
        dec_string_body(str_body(s) + seq!['"'] + rest) == Some((s, rest)),
    decreases s.len(),
{
    let t = str_body(s) + seq!['"'] + rest;
    if s.len() == 0 {
        assert(str_body(s) == Seq::<char>::empty());
        assert(t[0] == '"');
        assert(t.skip(1) =~= rest);
        assert(Seq::<char>::empty() =~= s);
    } else {
        let c = s[0];
        let tail = str_body(s.skip(1)) + seq!['"'] + rest;
        assert(str_body(s) == esc_char(c) + str_body(s.skip(1)));
        assert(t =~= esc_char(c) + tail);
        lemma_dec_str_body(s.skip(1), rest);
        assert(seq![c] + s.skip(1) =~= s);
        if c == '"' {
            assert(t[0] == '\\' && t[1] == '"');
            assert(t.skip(2) =~= tail);
            assert(dec_string_body(t) == Some((s, rest)));
        } else if c == '\\' {
            assert(t[0] == '\\' && t[1] == '\\');
            assert(t.skip(2) =~= tail);
            assert(dec_string_body(t) == Some((s, rest)));
        } else if c == '\n' {
            assert(t[0] == '\\' && t[1] == 'n');
            assert(t.skip(2) =~= tail);
            assert(dec_string_body(t) == Some((s, rest)));
        } else if c == '\r' {
            assert(t[0] == '\\' && t[1] == 'r');
            assert(t.skip(2) =~= tail);
            assert(dec_string_body(t) == Some((s, rest)));
        } else if c == '\t' {
            assert(t[0] == '\\' && t[1] == 't');
            assert(t.skip(2) =~= tail);
            assert(dec_string_body(t) == Some((s, rest)));
        } else if needs_hex_escape(c) {
            let code = c as u32;
            let hi = code / 16;
            let lo = code % 16;
            assert(t[0] == '\\' && t[1] == 'u' && t[2] == '0' && t[3] == '0');
            assert(t[4] == hex_digits()[hi as int] && t[5] == hex_digits()[lo as int]);
            assert(hi < 16 && lo < 16);
            lemma_unhex_hex(hi);
            lemma_unhex_hex(lo);
            vstd::arithmetic::div_mod::lemma_fundamental_div_mod(code as int, 16);
            assert(16 * (hi as int) + (lo as int) == code as int);
            vstd::utf8::char_u32_cast(c, code);
            assert((((code as int) as u32) as char) == c);
            assert(t.skip(6) =~= tail);
            assert(dec_string_body(t) == Some((s, rest)));
        } else {
            assert(t[0] == c);
            assert(c != '"' && c != '\\');
            assert(t.skip(1) =~= tail);
            assert(dec_string_body(t) == Some((s, rest)));
        }
    }
}

proof fn lemma_dec_record(r: RecordView, rest: Seq<char>)
    ensures
        dec_record(json_record(r) + rest) == Some((r, rest)),
{
    let t = json_record(r) + rest;
    let pre_name = "{\"name\":\""@;
    let pre_status = ",\"status\":\""@;
    let pre_spec = ",\"spec\":\""@;
    let pre_close = "}"@;
    reveal_strlit("{\"name\":\"");
    reveal_strlit("\",\"status\":\"");
    reveal_strlit(",\"status\":\"");
    reveal_strlit("\",\"spec\":\"");
    reveal_strlit(",\"spec\":\"");
    reveal_strlit("\"}");
    reveal_strlit("}");
    assert("\",\"status\":\""@ =~= seq!['"'] + pre_status);
    assert("\",\"spec\":\""@ =~= seq!['"'] + pre_spec);
    assert("\"}"@ =~= seq!['"'] + pre_close);
    let u4 = pre_close + rest;
    let u3 = str_body(r.spec_payload) + seq!['"'] + u4;
    let v3 = pre_spec + u3;
    let u2 = str_body(r.status) + seq!['"'] + v3;
    let v2 = pre_status + u2;
    let u1 = str_body(r.name) + seq!['"'] + v2;
    assert(t =~= pre_name + u1);
    lemma_chomp(pre_name, u1);
    assert(chomp(t, pre_name) == Some(u1));
    lemma_dec_str_body(r.name, v2);
    assert(dec_string_body(u1) == Some((r.name, v2)));
    lemma_chomp(pre_status, u2);
    assert(chomp(v2, pre_status) == Some(u2));
    lemma_dec_str_body(r.status, v3);
    assert(dec_string_body(u2) == Some((r.status, v3)));
    lemma_chomp(pre_spec, u3);
    assert(chomp(v3, pre_spec) == Some(u3));
    lemma_dec_str_body(r.spec_payload, u4);
    assert(dec_string_body(u3) == Some((r.spec_payload, u4)));
    lemma_chomp(pre_close, rest);
    assert(chomp(u4, pre_close) == Some(rest));
    assert(RecordView { name: r.name, status: r.status, spec_payload: r.spec_payload } == r);
}

#[verifier::rlimit(50)]
proof fn lemma_dec_list_items(rs: Seq<RecordView>, rest: Seq<char>)
    requires
        rs.len() > 0,
    ensures
        dec_list_items(json_records(rs) + seq![']'] + rest) == Some((rs, rest)),
    decreases rs.len(),
{
    let t = json_records(rs) + seq![']'] + rest;
    if rs.len() == 1 {
        assert(json_records(rs) == json_record(rs[0]));
        let u = seq![']'] + rest;
        assert(t =~= json_record(rs[0]) + u);
        lemma_dec_record(rs[0], u);
        assert(dec_record(t) == Some((rs[0], u)));
        assert(u[0] == ']');
        assert(u.skip(1) =~= rest);
        assert(seq![rs[0]] =~= rs);
    } else {
        assert(json_records(rs) == json_record(rs[0]) + seq![','] + json_records(rs.skip(1)));
        let w = json_records(rs.skip(1)) + seq![']'] + rest;
        let u = seq![','] + w;
        assert(t =~= json_record(rs[0]) + u);
        lemma_dec_record(rs[0], u);
        assert(dec_record(t) == Some((rs[0], u)));
        assert(u[0] == ',');
        assert(u.skip(1) =~= w);
        assert(t.len() == json_record(rs[0]).len() + 1 + w.len());
        assert(u.skip(1).len() < t.len());
        lemma_dec_list_items(rs.skip(1), rest);
        assert(dec_list_items(w) == Some((rs.skip(1), rest)));
        assert(seq![rs[0]] + rs.skip(1) =~= rs);
    }
}

/// The round trip of structured-mode output: decoding the JSON document the
/// encoder produces for any collection reconstructs exactly that
/// collection — the same `name`, `status` and `spec` values, in the same
/// order.
pub proof fn lemma_json_round_trip(rs: Seq<RecordView>)
    ensures
        json_decode(json_list(rs)) == Some(rs),
{
    reveal_strlit("[");
    reveal_strlit("]");
    reveal_strlit("{\"name\":\"");
    let t = json_list(rs);
    if rs.len() == 0 {
        assert(json_records(rs) == Seq::<char>::empty());
        assert(t =~= "["@ + "]"@);
        lemma_chomp("["@, "]"@);
        assert(chomp(t, "["@) == Some("]"@));
        assert(Seq::<RecordView>::empty() =~= rs);
    } else {
        let s1 = json_records(rs) + seq![']'];
        assert(t =~= "["@ + (s1 + Seq::<char>::empty()));
        assert(s1 + Seq::<char>::empty() =~= s1);
        lemma_chomp("["@, s1);
        assert(chomp(t, "["@) == Some(s1));
        assert(json_records(rs)[0] == json_record(rs[0])[0]);
        assert(json_record(rs[0])[0] == '{');
        assert(s1[0] == '{');
        assert(s1 != "]"@) by {
            assert("]"@[0] == ']');
            if s1 == "]"@ {
                assert(s1[0] == ']');
            }
        }
        lemma_dec_list_items(rs, Seq::<char>::empty());
        assert(dec_list_items(s1) == Some((rs, Seq::<char>::empty())));
    }
}

} // verus!
