//! The second structured output format: the whole collection serialized as
//! one YAML document — a block sequence with one mapping per record, holding
//! the fields `name`, `status` and `spec` as double-quoted scalars. YAML
//! double-quoted scalars accept exactly the escape sequences the shared
//! string-body encoding emits, so that encoding is reused here. As with the
//! JSON document, the encoding is a spec-level function, the executable
//! encoder is proved to produce exactly it, and a spec-level decoder is
//! proved to reconstruct the collection from it.

use vstd::prelude::*;

use crate::json::chomp;
use crate::json::dec_string_body;
use crate::json::lemma_chomp;
use crate::json::lemma_dec_str_body;
use crate::json::push_str_body;
use crate::json::str_body;
use crate::records::ListTableFormats;
use crate::records::Record;
use crate::records::RecordView;

verus! {

/// The YAML block for one record: one sequence item whose mapping holds the
/// three fields as double-quoted scalars, in the fixed order `name`,
/// `status`, `spec`.
pub open spec fn yaml_record(r: RecordView) -> Seq<char> {
    "- name: \""@ + str_body(r.name) + "\"\n  status: \""@ + str_body(r.status)
        + "\"\n  spec: \""@ + str_body(r.spec_payload) + "\"\n"@
}

/// The YAML document for a whole collection: the record blocks concatenated,
/// in order.
pub open spec fn yaml_doc(rs: Seq<RecordView>) -> Seq<char>
    decreases rs.len(),
{
    if rs.len() == 0 {
        Seq::empty()
    } else {
        yaml_record(rs[0]) + yaml_doc(rs.skip(1))
    }
}

proof fn lemma_yaml_doc_push(rs: Seq<RecordView>, r: RecordView)
    ensures
        yaml_doc(rs.push(r)) == yaml_doc(rs) + yaml_record(r),
    decreases rs.len(),
{
    if rs.len() == 0 {
        assert(rs.push(r)[0] == r);
        assert(rs.push(r).skip(1) =~= Seq::<RecordView>::empty());
        assert(yaml_doc(rs.push(r).skip(1)) == Seq::<char>::empty());
        assert(yaml_doc(rs) == Seq::<char>::empty());
        assert(yaml_doc(rs.push(r)) =~= yaml_doc(rs) + yaml_record(r));
    } else {
        assert(rs.push(r)[0] == rs[0]);
        assert(rs.push(r).skip(1) =~= rs.skip(1).push(r));
        lemma_yaml_doc_push(rs.skip(1), r);
        assert(yaml_doc(rs.push(r)) =~= yaml_doc(rs) + yaml_record(r));
    }
}

/// Appends the YAML block of one record.
fn push_record_yaml(out: &mut String, rec: &Record)
    ensures
        final(out)@ == old(out)@ + yaml_record(rec@),
{
    out.append("- name: \"");
    push_str_body(out, rec.name.as_str());
    out.append("\"\n  status: \"");
    push_str_body(out, rec.status.as_str());
    out.append("\"\n  spec: \"");
    push_str_body(out, rec.spec_payload.as_str());
    out.append("\"\n");
    proof {
        assert(out@ =~= old(out)@ + yaml_record(rec@));
    }
}

/// The second structured-mode serialization: the collection as one YAML
/// document, records in collection order.
pub fn encode_yaml(list: &ListTableFormats) -> (r: String)
    ensures
        r@ == yaml_doc(list@),
{
    let mut out = String::new();
    let n = list.0.len();
    for i in 0..n
        invariant
            n == list.0@.len(),
            out@ == yaml_doc(list@.take(i as int)),
    {
        push_record_yaml(&mut out, &list.0[i]);
        proof {
            assert(list@[i as int] == list.0@[i as int]@);
            assert(list@.take(i + 1 as int) =~= list@.take(i as int).push(list@[i as int]));
            lemma_yaml_doc_push(list@.take(i as int), list@[i as int]);
        }
    }
    proof {
        assert(list@.take(n as int) =~= list@);
    }
    out
}

/// Parses one record block; yields the record and what follows it.
pub open spec fn dec_yaml_record(s: Seq<char>) -> Option<(RecordView, Seq<char>)> {
    match chomp(s, "- name: \""@) {
        None => None,
        Some(s1) => match dec_string_body(s1) {
            None => None,
            Some((name, s2)) => match chomp(s2, "\n  status: \""@) {
                None => None,
                Some(s3) => match dec_string_body(s3) {
                    None => None,
                    Some((status, s4)) => match chomp(s4, "\n  spec: \""@) {
                        None => None,
                        Some(s5) => match dec_string_body(s5) {
                            None => None,
                            Some((sp, s6)) => match chomp(s6, "\n"@) {
                                None => None,
                                Some(s7) => Some(
                                    (RecordView { name, status, spec_payload: sp }, s7),
                                ),
                            },
                        },
                    },
                },
            },
        },
    }
}

/// Decodes a whole YAML document back into the sequence of records it
/// serializes, if it has exactly the shape the encoder produces.
pub open spec fn yaml_decode(s: Seq<char>) -> Option<Seq<RecordView>>
    decreases s.len(),
{
    if s.len() == 0 {
        Some(Seq::empty())
    } else {
        match dec_yaml_record(s) {
            None => None,
            Some((r, rest)) => {
                if rest.len() < s.len() {
                    match yaml_decode(rest) {
                        Some(rs) => Some(seq![r] + rs),
                        None => None,
                    }
                } else {
                    None
                }
            },
        }
    }
}

proof fn lemma_dec_yaml_record(r: RecordView, rest: Seq<char>)
    ensures
        dec_yaml_record(yaml_record(r) + rest) == Some((r, rest)),
        yaml_record(r).len() > 0,
{
    let t = yaml_record(r) + rest;
    let pre_name = "- name: \""@;
    let pre_status = "\n  status: \""@;
    let pre_spec = "\n  spec: \""@;
    let pre_close = "\n"@;
    reveal_strlit("- name: \"");
    reveal_strlit("\"\n  status: \"");
    reveal_strlit("\n  status: \"");
    reveal_strlit("\"\n  spec: \"");
    reveal_strlit("\n  spec: \"");
    reveal_strlit("\"\n");
    reveal_strlit("\n");
    assert("\"\n  status: \""@ =~= seq!['"'] + pre_status);
    assert("\"\n  spec: \""@ =~= seq!['"'] + pre_spec);
    assert("\"\n"@ =~= seq!['"'] + pre_close);
    let u4 = pre_close + rest;
    let u3 = str_body(r.spec_payload) + seq!['"'] + u4;
    let v3 = pre_spec + u3;
    let u2 = str_body(r.status) + seq!['"'] + v3;
    let v2 = pre_status + u2;
    let u1 = str_body(r.name) + seq!['"'] + v2;
    assert(t =~= pre_name + u1);
    lemma_chomp(pre_name, u1);
    assert(chomp(t, pre_name) == Some(u1));
    lemma_dec_str_body(r.name, v2);
    assert(dec_string_body(u1) == Some((r.name, v2)));
    lemma_chomp(pre_status, u2);
    assert(chomp(v2, pre_status) == Some(u2));
    lemma_dec_str_body(r.status, v3);
    assert(dec_string_body(u2) == Some((r.status, v3)));
    lemma_chomp(pre_spec, u3);
    assert(chomp(v3, pre_spec) == Some(u3));
    lemma_dec_str_body(r.spec_payload, u4);
    assert(dec_string_body(u3) == Some((r.spec_payload, u4)));
    lemma_chomp(pre_close, rest);
    assert(chomp(u4, pre_close) == Some(rest));
    assert(RecordView { name: r.name, status: r.status, spec_payload: r.spec_payload } == r);
}

/// The round trip of the YAML structured output: decoding the document the
/// encoder produces for any collection reconstructs exactly that
/// collection — the same `name`, `status` and `spec` values, in the same
/// order.
pub proof fn lemma_yaml_round_trip(rs: Seq<RecordView>)
    ensures
        yaml_decode(yaml_doc(rs)) == Some(rs),
    decreases rs.len(),
{
    if rs.len() == 0 {
        assert(yaml_doc(rs) == Seq::<char>::empty());
        assert(Seq::<RecordView>::empty() =~= rs);
    } else {
        let t = yaml_doc(rs);
        let w = yaml_doc(rs.skip(1));
        assert(t == yaml_record(rs[0]) + w);
        lemma_dec_yaml_record(rs[0], w);
        assert(dec_yaml_record(t) == Some((rs[0], w)));
        assert(t.len() == yaml_record(rs[0]).len() + w.len());
        assert(t.len() > 0);
        assert(w.len() < t.len());
        lemma_yaml_round_trip(rs.skip(1));
        assert(yaml_decode(w) == Some(rs.skip(1)));
        assert(seq![rs[0]] + rs.skip(1) =~= rs);
    }
}

} // verus!
