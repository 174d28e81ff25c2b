//! Reading an agent's answer out of its command's JSON envelope or event
//! stream: which pieces of the output are tried, in which order, as the
//! answer. Turning a piece into an answer of a given shape is left to the
//! caller, which tries the pieces in order and takes the first that fits.
use vstd::prelude::*;
use crate::text::{chars_of, lines, lines_of, push_string, seqs, string_of, str_eq, trim, trim_of};

verus! {

/// The fields of one JSON value that an answer may be read from: its
/// `type` (when a string), the `text` of its `part` (when a string), its
/// `response` written as JSON, and its `response` when that is a string.
#[derive(Clone, Debug)]
pub struct EnvelopeFields {
    pub kind: Option<String>,
    pub part_text: Option<String>,
    pub response_json: Option<String>,
    pub response_text: Option<String>,
}

pub struct FieldsModel {
    pub kind: Option<Seq<char>>,
    pub part_text: Option<Seq<char>>,
    pub response_json: Option<Seq<char>>,
    pub response_text: Option<Seq<char>>,
}

pub open spec fn opt_view(o: Option<String>) -> Option<Seq<char>> {
    match o {
        Some(s) => Some(s@),
        None => None,
    }
}

pub open spec fn fields_model(f: EnvelopeFields) -> FieldsModel {
    FieldsModel {
        kind: opt_view(f.kind),
        part_text: opt_view(f.part_text),
        response_json: opt_view(f.response_json),
        response_text: opt_view(f.response_text),
    }
}

/// What `serde_json` reads of these fields from a text: `None` when the text
/// is not one JSON value.
pub uninterp spec fn json_envelope_fields(text: Seq<char>) -> Option<FieldsModel>;

/// Calls `serde_json::from_str` on `text` and reads the envelope fields of
/// the value (the `response` written back with `Value::to_string`).
/// Trusted: the result is the name `json_envelope_fields` of the text.
#[verifier::external_body]
fn envelope_fields(text: &str) -> (r: Option<EnvelopeFields>)
    ensures
        match r {
            Some(f) => json_envelope_fields(text@) == Some(fields_model(f)),
            None => json_envelope_fields(text@) is None,
        },
{
    let v: serde_json::Value = serde_json::from_str(text).ok()?;
    let s = |x: &serde_json::Value| x.as_str().map(|t| t.to_string());
    Some(EnvelopeFields {
        kind: v.get("type").and_then(s),
        part_text: v.get("part").and_then(|p| p.get("text")).and_then(s),
        response_json: v.get("response").map(|x| x.to_string()),
        response_text: v.get("response").and_then(s),
    })
}

/// One piece to try as the answer: JSON to read as it is, or text that may
/// hold the JSON amid prose or in a fenced block.
#[derive(Clone, Debug, PartialEq, Eq)]
pub enum Attempt {
    Json(String),
    Text(String),
}

pub enum AttemptModel {
    Json(Seq<char>),
    Text(Seq<char>),
}

pub open spec fn attempt_model(a: Attempt) -> AttemptModel {
    match a {
        Attempt::Json(s) => AttemptModel::Json(s@),
        Attempt::Text(s) => AttemptModel::Text(s@),
    }
}

pub open spec fn attempt_models(v: Seq<Attempt>) -> Seq<AttemptModel> {
    v.map_values(|a: Attempt| attempt_model(a))
}

/// The pieces of a single JSON envelope with a `response`: the response's
/// text when it is a string, else the response itself; nothing when the
/// output is not JSON or has no response.
pub open spec fn envelope_spec(stdout: Seq<char>) -> Seq<AttemptModel> {
    match json_envelope_fields(stdout) {
        None => seq![],
        Some(f) => match f.response_text {
            Some(t) => seq![AttemptModel::Text(t)],
            None => match f.response_json {
                Some(j) => seq![AttemptModel::Json(j)],
                None => seq![],
            },
        },
    }
}

/// The pieces to try of an envelope answer.
pub fn envelope_attempts(stdout: &str) -> (r: Vec<Attempt>)
    ensures
        attempt_models(r@) == envelope_spec(stdout@),
{
    let mut out: Vec<Attempt> = Vec::new();
    match envelope_fields(stdout) {
        None => {},
        Some(f) => match f.response_text {
            Some(t) => out.push(Attempt::Text(t)),
            None => match f.response_json {
                Some(j) => out.push(Attempt::Json(j)),
                None => {},
            },
        },
    }
    assert(attempt_models(out@) =~= envelope_spec(stdout@));
    out
}

/// The pieces of a `response` event: the response as JSON, then its text
/// when it is a string.
pub open spec fn response_attempts(f: FieldsModel) -> Seq<AttemptModel> {
    let a: Seq<AttemptModel> = match f.response_json {
        Some(j) => seq![AttemptModel::Json(j)],
        None => seq![],
    };
    match f.response_text {
        Some(t) => a.push(AttemptModel::Text(t)),
        None => a,
    }
}

/// An event stream read line by line (each line trimmed, blank lines
/// skipped): the pieces of each `response` event in order, the text parts of
/// the `text` events in order, and whether a line that is not JSON cut the
/// stream short (nothing after it is read).
pub open spec fn stream_scan(ls: Seq<Seq<char>>) -> (Seq<AttemptModel>, Seq<Seq<char>>, bool)
    decreases ls.len(),
{
    if ls.len() == 0 {
        (seq![], seq![], false)
    } else {
        let p = stream_scan(ls.drop_last());
        let l = trim_of(ls.last());
        if p.2 || l.len() == 0 {
            p
        } else {
            match json_envelope_fields(l) {
                None => (p.0, p.1, true),
                Some(f) => if f.kind == Some("text"@) {
                    match f.part_text {
                        Some(t) => (p.0, p.1.push(t), false),
                        None => p,
                    }
                } else if f.kind == Some("response"@) {
                    (p.0 + response_attempts(f), p.1, false)
                } else {
                    p
                },
            }
        }
    }
}

pub open spec fn concat(parts: Seq<Seq<char>>) -> Seq<char>
    decreases parts.len(),
{
    if parts.len() == 0 {
        seq![]
    } else {
        concat(parts.drop_last()) + parts.last()
    }
}

/// The text of an event stream to try last: its text parts joined, when
/// there are any and no line cut the stream short.
pub open spec fn stream_text(stdout: Seq<char>) -> Option<Seq<char>> {
    let s = stream_scan(lines_of(stdout));
    if s.2 || s.1.len() == 0 {
        None
    } else {
        Some(concat(s.1))
    }
}

/// The pieces to try of an event-stream answer, in order, and the joined
/// text to try after them.
pub fn event_stream_attempts(stdout: &str) -> (r: (Vec<Attempt>, Option<String>))
    ensures
        attempt_models(r.0@) == stream_scan(lines_of(stdout@)).0,
        opt_view(r.1) == stream_text(stdout@),
{
    let cs = chars_of(stdout);
    let ls = lines(cs.as_slice());
    let ghost lm = lines_of(stdout@);
    let mut attempts: Vec<Attempt> = Vec::new();
    let mut text = String::new();
    let mut parts: usize = 0;
    let ghost mut gparts: Seq<Seq<char>> = seq![];
    let mut broken = false;
    let mut i: usize = 0;
    while i < ls.len()
        invariant
            i <= ls@.len(),
            seqs(ls@) == lm,
            stream_scan(lm.take(i as int)) == (attempt_models(attempts@), gparts, broken),
            parts == gparts.len(),
            parts <= i,
            text@ == concat(gparts),
        decreases ls.len() - i,
    {
        assert(lm.take(i + 1).drop_last() =~= lm.take(i as int));
        assert(lm.take(i + 1).last() == ls@[i as int]@);
        let l = trim(ls[i].as_slice());
        if !broken && l.len() > 0 {
            let ls_i = string_of(l.as_slice());
            match envelope_fields(ls_i.as_str()) {
                None => {
                    broken = true;
                },
                Some(f) => {
                    let is_text = match &f.kind {
                        Some(k) => str_eq(k.as_str(), "text"),
                        None => false,
                    };
                    let is_response = match &f.kind {
                        Some(k) => str_eq(k.as_str(), "response"),
                        None => false,
                    };
                    if is_text {
                        match &f.part_text {
                            Some(t) => {
                                proof {
                                    assert(gparts.push(t@).drop_last() =~= gparts);
                                }
                                push_string(&mut text, t);
                                parts = parts + 1;
                                proof {
                                    gparts = gparts.push(t@);
                                }
                            },
                            None => {},
                        }
                    } else if is_response {
                        let ghost before = attempt_models(attempts@);
                        match &f.response_json {
                            Some(j) => attempts.push(Attempt::Json(j.clone())),
                            None => {},
                        }
                        match &f.response_text {
                            Some(t) => attempts.push(Attempt::Text(t.clone())),
                            None => {},
                        }
                        assert(attempt_models(attempts@) =~= before + response_attempts(fields_model(f)));
                    }
                },
            }
        }
        i += 1;
    }
    assert(lm.take(ls@.len() as int) =~= lm);
    let joined = if broken || parts == 0 {
        None
    } else {
        Some(text)
    };
    (attempts, joined)
}

} // verus!
