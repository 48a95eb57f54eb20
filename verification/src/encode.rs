//! The payload encoder: renders a `Request` as a JSON document. The wire
//! shape is modelled first as a flat member list (`JsonVal`), which the
//! round-trip and single-key laws are stated over; the executable encoder
//! is proved to emit exactly the rendering of that member list.

use vstd::prelude::*;
use vstd::string::*;
use crate::json_text::{
    spec_escape, spec_decimal, spec_digit_char, push_char, append_escaped, decimal_string,
    digit_char,
};
use crate::request::{SwitchOptions, SliderOptions, ImageSet, ImageSetModel, Request, RequestModel};

verus! {

/// A scalar JSON value as this wire format uses them.
pub enum JsonLeaf {
    Flag(bool),
    Number(Seq<char>),
    Text(Seq<char>),
    TextList(Seq<Seq<char>>),
}

/// A top-level member value: a scalar, or a flat object of scalars.
pub enum JsonVal {
    Scalar(JsonLeaf),
    Nested(Seq<(Seq<char>, JsonLeaf)>),
}

/// A JSON string literal holding the characters of `s`.
pub open spec fn render_text(s: Seq<char>) -> Seq<char> {
    seq!['"'] + spec_escape(s) + seq!['"']
}

/// `"key":` — keys are fixed ASCII words, rendered without escaping.
pub open spec fn render_key(key: Seq<char>) -> Seq<char> {
    seq!['"'] + key + seq!['"', ':']
}

/// The elements of a JSON array of strings, comma-separated.
pub open spec fn render_items(items: Seq<Seq<char>>) -> Seq<char>
    decreases items.len(),
{
    if items.len() == 0 {
        Seq::empty()
    } else if items.len() == 1 {
        render_text(items[0])
    } else {
        render_text(items[0]) + seq![','] + render_items(items.drop_first())
    }
}

pub open spec fn render_leaf(l: JsonLeaf) -> Seq<char> {
    match l {
        JsonLeaf::Flag(b) => if b { "true"@ } else { "false"@ },
        JsonLeaf::Number(lit) => lit,
        JsonLeaf::Text(s) => render_text(s),
        JsonLeaf::TextList(items) => seq!['['] + render_items(items) + seq![']'],
    }
}

/// The members of a flat object, comma-separated.
pub open spec fn render_leaf_members(ms: Seq<(Seq<char>, JsonLeaf)>) -> Seq<char>
    decreases ms.len(),
{
    if ms.len() == 0 {
        Seq::empty()
    } else if ms.len() == 1 {
        render_key(ms[0].0) + render_leaf(ms[0].1)
    } else {
        render_key(ms[0].0) + render_leaf(ms[0].1) + seq![','] + render_leaf_members(
            ms.drop_first())
    }
}

pub open spec fn render_val(v: JsonVal) -> Seq<char> {
    match v {
        JsonVal::Scalar(l) => render_leaf(l),
        JsonVal::Nested(ms) => seq!['{'] + render_leaf_members(ms) + seq!['}'],
    }
}

/// The members of the top-level object, comma-separated.
pub open spec fn render_members(ms: Seq<(Seq<char>, JsonVal)>) -> Seq<char>
    decreases ms.len(),
{
    if ms.len() == 0 {
        Seq::empty()
    } else if ms.len() == 1 {
        render_key(ms[0].0) + render_val(ms[0].1)
    } else {
        render_key(ms[0].0) + render_val(ms[0].1) + seq![','] + render_members(ms.drop_first())
    }
}

/// A whole JSON document: one object holding the given members.
pub open spec fn render_document(ms: Seq<(Seq<char>, JsonVal)>) -> Seq<char> {
    seq!['{'] + render_members(ms) + seq!['}']
}

/// The wire literal for the politeness slider: thousandths rendered as a
/// decimal fraction with three digits after the point.
pub open spec fn spec_politeness_literal(m: u32) -> Seq<char> {
    spec_decimal((m / 1000) as nat) + seq!['.'] + seq![
        spec_digit_char(((m % 1000) / 100) as nat),
        spec_digit_char((((m % 1000) / 10) % 10) as nat),
        spec_digit_char(((m % 1000) % 10) as nat),
    ]
}

/// One optional toggle member: absent fields emit nothing.
pub open spec fn opt_flag_member(key: Seq<char>, v: Option<bool>) -> Seq<(Seq<char>, JsonLeaf)> {
    match v {
        Some(b) => seq![(key, JsonLeaf::Flag(b))],
        None => Seq::empty(),
    }
}

/// The members of the `options` object, in wire order.
pub open spec fn spec_switch_members(o: SwitchOptions) -> Seq<(Seq<char>, JsonLeaf)> {
    opt_flag_member("summary"@, o.summary) + opt_flag_member("guidance"@, o.guidance)
        + opt_flag_member("explanation"@, o.explanation) + opt_flag_member("answer"@, o.answer)
}

/// The members of the `sliders` object.
pub open spec fn spec_slider_members(s: SliderOptions) -> Seq<(Seq<char>, JsonLeaf)> {
    match s.politeness_milli {
        Some(m) => seq![("politeness"@, JsonLeaf::Number(spec_politeness_literal(m)))],
        None => Seq::empty(),
    }
}

/// One optional string-array member of the `images` object.
pub open spec fn opt_list_member(key: Seq<char>, v: Option<Seq<Seq<char>>>) -> Seq<
    (Seq<char>, JsonLeaf),
> {
    match v {
        Some(items) => seq![(key, JsonLeaf::TextList(items))],
        None => Seq::empty(),
    }
}

/// The members of the `images` object, in wire order.
pub open spec fn spec_image_members(i: ImageSetModel) -> Seq<(Seq<char>, JsonLeaf)> {
    opt_list_member("problem"@, i.problem) + opt_list_member("solution"@, i.solution)
}

/// One optional nested-object member of the top-level document.
pub open spec fn opt_nested_member(key: Seq<char>, v: Option<Seq<(Seq<char>, JsonLeaf)>>) -> Seq<
    (Seq<char>, JsonVal),
> {
    match v {
        Some(ms) => seq![(key, JsonVal::Nested(ms))],
        None => Seq::empty(),
    }
}

/// The top-level members of the encoded request: the prompt always, the
/// three optional groups only when present.
pub open spec fn spec_request_members(r: RequestModel) -> Seq<(Seq<char>, JsonVal)> {
    seq![("prompt"@, JsonVal::Scalar(JsonLeaf::Text(r.prompt)))] + opt_nested_member(
        "options"@,
        match r.options {
            Some(o) => Some(spec_switch_members(o)),
            None => None,
        },
    ) + opt_nested_member(
        "sliders"@,
        match r.sliders {
            Some(s) => Some(spec_slider_members(s)),
            None => None,
        },
    ) + opt_nested_member(
        "images"@,
        match r.images {
            Some(i) => Some(spec_image_members(i)),
            None => None,
        },
    )
}

/// What the encoder emits for a request: the rendering of its member list.
pub open spec fn spec_encode_request(r: RequestModel) -> Seq<char> {
    render_document(spec_request_members(r))
}

proof fn lemma_leaf_members_snoc(ms: Seq<(Seq<char>, JsonLeaf)>, key: Seq<char>, l: JsonLeaf)
    ensures
        render_leaf_members(ms.push((key, l))) == if ms.len() == 0 {
            render_key(key) + render_leaf(l)
        } else {
            render_leaf_members(ms) + seq![','] + render_key(key) + render_leaf(l)
        },
    decreases ms.len(),
{
    let w = ms.push((key, l));
    if ms.len() == 0 {
        assert(w.len() == 1);
        assert(w[0] == (key, l));
    } else {
        assert(w[0] == ms[0]);
        assert(w.drop_first() =~= ms.drop_first().push((key, l)));
        lemma_leaf_members_snoc(ms.drop_first(), key, l);
        if ms.len() == 1 {
            assert(w.len() == 2);
            assert(render_leaf_members(w) == render_key(ms[0].0) + render_leaf(ms[0].1) + seq![',']
                + render_leaf_members(w.drop_first()));
            assert(render_leaf_members(ms) == render_key(ms[0].0) + render_leaf(ms[0].1));
            assert(render_leaf_members(w) =~= render_leaf_members(ms) + seq![','] + render_key(key)
                + render_leaf(l));
        } else {
            assert(render_leaf_members(w) =~= render_leaf_members(ms) + seq![','] + render_key(key)
                + render_leaf(l));
        }
    }
}

proof fn lemma_members_snoc(ms: Seq<(Seq<char>, JsonVal)>, key: Seq<char>, v: JsonVal)
    ensures
        render_members(ms.push((key, v))) == if ms.len() == 0 {
            render_key(key) + render_val(v)
        } else {
            render_members(ms) + seq![','] + render_key(key) + render_val(v)
        },
    decreases ms.len(),
{
    let w = ms.push((key, v));
    if ms.len() == 0 {
        assert(w.len() == 1);
        assert(w[0] == (key, v));
    } else {
        assert(w[0] == ms[0]);
        assert(w.drop_first() =~= ms.drop_first().push((key, v)));
        lemma_members_snoc(ms.drop_first(), key, v);
        if ms.len() == 1 {
            assert(render_members(w) =~= render_members(ms) + seq![','] + render_key(key)
                + render_val(v));
        } else {
            assert(render_members(w) =~= render_members(ms) + seq![','] + render_key(key)
                + render_val(v));
        }
    }
}

proof fn lemma_items_snoc(items: Seq<Seq<char>>, s: Seq<char>)
    ensures
        render_items(items.push(s)) == if items.len() == 0 {
            render_text(s)
        } else {
            render_items(items) + seq![','] + render_text(s)
        },
    decreases items.len(),
{
    let w = items.push(s);
    if items.len() == 0 {
        assert(w.len() == 1);
        assert(w[0] == s);
    } else {
        assert(w[0] == items[0]);
        assert(w.drop_first() =~= items.drop_first().push(s));
        lemma_items_snoc(items.drop_first(), s);
        assert(render_items(w) =~= render_items(items) + seq![','] + render_text(s));
    }
}

/// Appends a JSON string literal holding the characters of `s`.
fn append_text(out: &mut String, s: &str)
    ensures
        final(out)@ == old(out)@ + render_text(s@),
{
    out.append("\"");
    append_escaped(out, s);
    out.append("\"");
    proof {
        reveal_strlit("\"");
        assert(old(out)@ + "\""@ + spec_escape(s@) + "\""@ =~= old(out)@ + render_text(s@));
    }
}

/// Appends `,` unless this is the first member, then `"key":`.
fn append_member_prefix(out: &mut String, key: &str, first: bool)
    ensures
        final(out)@ == old(out)@ + (if first { Seq::<char>::empty() } else { seq![','] })
            + render_key(key@),
{
    if !first {
        out.append(",");
    }
    out.append("\"");
    out.append(key);
    out.append("\":");
    proof {
        reveal_strlit(",");
        reveal_strlit("\"");
        reveal_strlit("\":");
        if first {
            assert(old(out)@ + "\""@ + key@ + "\":"@ =~= old(out)@ + Seq::<char>::empty()
                + render_key(key@));
        } else {
            assert(old(out)@ + ","@ + "\""@ + key@ + "\":"@ =~= old(out)@ + seq![',']
                + render_key(key@));
        }
    }
}

/// Appends `true` or `false`.
fn append_flag(out: &mut String, b: bool)
    ensures
        final(out)@ == old(out)@ + render_leaf(JsonLeaf::Flag(b)),
{
    if b {
        out.append("true");
    } else {
        out.append("false");
    }
}

/// Appends the politeness literal for `m` thousandths.
fn append_politeness(out: &mut String, m: u32)
    ensures
        final(out)@ == old(out)@ + spec_politeness_literal(m),
{
    let whole = decimal_string((m / 1000) as u64);
    out.append(whole.as_str());
    out.append(".");
    let f = m % 1000;
    push_char(out, digit_char((f / 100) as u64));
    push_char(out, digit_char(((f / 10) % 10) as u64));
    push_char(out, digit_char((f % 10) as u64));
    proof {
        reveal_strlit(".");
        assert("."@ =~= seq!['.']);
        assert(old(out)@ + spec_decimal((m / 1000) as nat) + "."@ + Seq::<char>::empty().push(
            spec_digit_char(((m % 1000) / 100) as nat)).push(
            spec_digit_char((((m % 1000) / 10) % 10) as nat)).push(
            spec_digit_char(((m % 1000) % 10) as nat)) =~= old(out)@ + spec_politeness_literal(m));
    }
}

/// Appends a JSON array holding the given strings.
fn append_text_list(out: &mut String, items: &Vec<String>)
    ensures
        final(out)@ == old(out)@ + render_leaf(JsonLeaf::TextList(items.deep_view())),
{
    out.append("[");
    proof {
        reveal_strlit("[");
        assert("["@ =~= seq!['[']);
    }
    let n = items.len();
    let mut i: usize = 0;
    while i < n
        invariant
            i <= n,
            n == items.deep_view().len(),
            items.deep_view().len() == items@.len(),
            forall|j: int| 0 <= j < n ==> items.deep_view()[j] == #[trigger] items@[j]@,
            out@ == old(out)@ + seq!['['] + render_items(items.deep_view().subrange(0, i as int)),
        decreases n - i,
    {
        if i > 0 {
            out.append(",");
            proof {
                reveal_strlit(",");
                assert(","@ =~= seq![',']);
            }
        }
        append_text(out, items[i].as_str());
        proof {
            let done = items.deep_view().subrange(0, i as int);
            assert(done.push(items.deep_view()[i as int]) =~= items.deep_view().subrange(
                0, i + 1 as int));
            lemma_items_snoc(done, items.deep_view()[i as int]);
        }
        i = i + 1;
    }
    out.append("]");
    proof {
        reveal_strlit("]");
        assert("]"@ =~= seq![']']);
        assert(items.deep_view().subrange(0, n as int) =~= items.deep_view());
        assert(old(out)@ + seq!['['] + render_items(items.deep_view()) + "]"@ =~= old(out)@
            + render_leaf(JsonLeaf::TextList(items.deep_view())));
    }
}

/// The text one optional toggle adds to an object body whose members so
/// far are `done`.
pub open spec fn flag_delta(done: Seq<(Seq<char>, JsonLeaf)>, key: Seq<char>, v: Option<bool>)
    -> Seq<char> {
    match v {
        Some(b) => (if done.len() == 0 {
            Seq::<char>::empty()
        } else {
            seq![',']
        }) + render_key(key) + render_leaf(JsonLeaf::Flag(b)),
        None => Seq::empty(),
    }
}

/// Appends one optional toggle member; returns whether the object body is
/// still empty afterwards.
fn append_opt_flag(
    out: &mut String,
    key: &str,
    v: Option<bool>,
    first: bool,
    Ghost(done): Ghost<Seq<(Seq<char>, JsonLeaf)>>,
) -> (r: bool)
    requires
        first <==> done.len() == 0,
    ensures
        r <==> (done + opt_flag_member(key@, v)).len() == 0,
        final(out)@ == old(out)@ + flag_delta(done, key@, v),
        render_leaf_members(done + opt_flag_member(key@, v)) == render_leaf_members(done)
            + flag_delta(done, key@, v),
{
    match v {
        Some(b) => {
            append_member_prefix(out, key, first);
            append_flag(out, b);
            proof {
                lemma_leaf_members_snoc(done, key@, JsonLeaf::Flag(b));
                assert(done.push((key@, JsonLeaf::Flag(b))) =~= done + opt_flag_member(key@, v));
                if done.len() == 0 {
                    assert(render_leaf_members(done) + flag_delta(done, key@, v) =~= render_key(
                        key@) + render_leaf(JsonLeaf::Flag(b)));
                    assert(old(out)@ + Seq::<char>::empty() + render_key(key@) + render_leaf(
                        JsonLeaf::Flag(b)) =~= old(out)@ + flag_delta(done, key@, v));
                } else {
                    assert(render_leaf_members(done) + flag_delta(done, key@, v)
                        =~= render_leaf_members(done) + seq![','] + render_key(key@) + render_leaf(
                        JsonLeaf::Flag(b)));
                    assert(old(out)@ + seq![','] + render_key(key@) + render_leaf(
                        JsonLeaf::Flag(b)) =~= old(out)@ + flag_delta(done, key@, v));
                }
            }
            false
        },
        None => {
            proof {
                assert(done + opt_flag_member(key@, v) =~= done);
                assert(old(out)@ + flag_delta(done, key@, v) =~= old(out)@);
            }
            first
        },
    }
}

/// Appends the `options` object.
fn append_switch_object(out: &mut String, o: &SwitchOptions)
    ensures
        final(out)@ == old(out)@ + render_val(JsonVal::Nested(spec_switch_members(*o))),
{
    out.append("{");
    proof {
        reveal_strlit("{");
        assert(old(out)@ + "{"@ =~= old(out)@ + seq!['{']);
    }
    let ghost d0: Seq<(Seq<char>, JsonLeaf)> = Seq::empty();
    proof {
        assert(out@ =~= old(out)@ + seq!['{'] + render_leaf_members(d0));
    }
    let f1 = append_opt_flag(out, "summary", o.summary, true, Ghost(d0));
    let ghost d1 = d0 + opt_flag_member("summary"@, o.summary);
    proof {
        assert(out@ =~= old(out)@ + seq!['{'] + render_leaf_members(d1));
    }
    let f2 = append_opt_flag(out, "guidance", o.guidance, f1, Ghost(d1));
    let ghost d2 = d1 + opt_flag_member("guidance"@, o.guidance);
    proof {
        assert(out@ =~= old(out)@ + seq!['{'] + render_leaf_members(d2));
    }
    let f3 = append_opt_flag(out, "explanation", o.explanation, f2, Ghost(d2));
    let ghost d3 = d2 + opt_flag_member("explanation"@, o.explanation);
    proof {
        assert(out@ =~= old(out)@ + seq!['{'] + render_leaf_members(d3));
    }
    let _f4 = append_opt_flag(out, "answer", o.answer, f3, Ghost(d3));
    let ghost d4 = d3 + opt_flag_member("answer"@, o.answer);
    proof {
        assert(out@ =~= old(out)@ + seq!['{'] + render_leaf_members(d4));
        assert(d4 =~= spec_switch_members(*o));
    }
    out.append("}");
    proof {
        reveal_strlit("}");
        assert(old(out)@ + seq!['{'] + render_leaf_members(spec_switch_members(*o)) + "}"@
            =~= old(out)@ + render_val(JsonVal::Nested(spec_switch_members(*o))));
    }
}

/// Appends the `sliders` object.
fn append_slider_object(out: &mut String, s: &SliderOptions)
    ensures
        final(out)@ == old(out)@ + render_val(JsonVal::Nested(spec_slider_members(*s))),
{
    out.append("{");
    proof {
        reveal_strlit("{");
        assert("{"@ =~= seq!['{']);
    }
    let ghost mut done: Seq<(Seq<char>, JsonLeaf)> = Seq::empty();
    if let Some(m) = s.politeness_milli {
        append_member_prefix(out, "politeness", true);
        append_politeness(out, m);
        proof {
            lemma_leaf_members_snoc(done, "politeness"@, JsonLeaf::Number(
                spec_politeness_literal(m)));
            done = done.push(("politeness"@, JsonLeaf::Number(spec_politeness_literal(m))));
        }
    }
    out.append("}");
    proof {
        reveal_strlit("}");
        assert("}"@ =~= seq!['}']);
        assert(done =~= spec_slider_members(*s));
        assert(old(out)@ + seq!['{'] + render_leaf_members(done) + "}"@ =~= old(out)@ + render_val(
            JsonVal::Nested(spec_slider_members(*s))));
    }
}

/// Appends the `images` object.
fn append_image_object(out: &mut String, i: &ImageSet)
    ensures
        final(out)@ == old(out)@ + render_val(JsonVal::Nested(spec_image_members(i@))),
{
    out.append("{");
    proof {
        reveal_strlit("{");
        assert("{"@ =~= seq!['{']);
    }
    let mut first: bool = true;
    let ghost mut done: Seq<(Seq<char>, JsonLeaf)> = Seq::empty();
    if let Some(items) = &i.problem {
        append_member_prefix(out, "problem", first);
        append_text_list(out, items);
        first = false;
        proof {
            lemma_leaf_members_snoc(done, "problem"@, JsonLeaf::TextList(items.deep_view()));
            done = done.push(("problem"@, JsonLeaf::TextList(items.deep_view())));
        }
    }
    proof {
        assert(done =~= opt_list_member("problem"@, i@.problem));
        assert(out@ == old(out)@ + seq!['{'] + render_leaf_members(done));
        assert(first <==> done.len() == 0);
    }
    if let Some(items) = &i.solution {
        append_member_prefix(out, "solution", first);
        append_text_list(out, items);
        first = false;
        proof {
            lemma_leaf_members_snoc(done, "solution"@, JsonLeaf::TextList(items.deep_view()));
            done = done.push(("solution"@, JsonLeaf::TextList(items.deep_view())));
        }
    }
    out.append("}");
    proof {
        reveal_strlit("}");
        assert("}"@ =~= seq!['}']);
        assert(done =~= spec_image_members(i@));
        assert(old(out)@ + seq!['{'] + render_leaf_members(done) + "}"@ =~= old(out)@ + render_val(
            JsonVal::Nested(spec_image_members(i@))));
    }
}

/// Serializes a request as its JSON wire document. All present fields are
/// emitted under their wire names, absent optional fields are omitted, and
/// the result is exactly the rendering of the request's member list.
pub fn encode_request(r: &Request) -> (out: String)
    ensures
        out@ == spec_encode_request(r@),
{
    let mut out = String::new();
    out.append("{");
    proof {
        reveal_strlit("{");
        assert(Seq::<char>::empty() + "{"@ =~= seq!['{']);
    }
    let ghost mut done: Seq<(Seq<char>, JsonVal)> = Seq::empty();
    append_member_prefix(&mut out, "prompt", true);
    append_text(&mut out, prompt_text(r));
    proof {
        lemma_members_snoc(done, "prompt"@, JsonVal::Scalar(JsonLeaf::Text(r@.prompt)));
        done = done.push(("prompt"@, JsonVal::Scalar(JsonLeaf::Text(r@.prompt))));
        assert(out@ == seq!['{'] + render_members(done));
    }
    if let Some(o) = &r.options {
        append_member_prefix(&mut out, "options", false);
        append_switch_object(&mut out, o);
        proof {
            lemma_members_snoc(done, "options"@, JsonVal::Nested(spec_switch_members(*o)));
            done = done.push(("options"@, JsonVal::Nested(spec_switch_members(*o))));
        }
    }
    proof {
        assert(done =~= seq![("prompt"@, JsonVal::Scalar(JsonLeaf::Text(r@.prompt)))]
            + opt_nested_member(
            "options"@,
            match r@.options {
                Some(o) => Some(spec_switch_members(o)),
                None => None,
            },
        ));
        assert(out@ == seq!['{'] + render_members(done));
    }
    if let Some(s) = &r.sliders {
        append_member_prefix(&mut out, "sliders", false);
        append_slider_object(&mut out, s);
        proof {
            lemma_members_snoc(done, "sliders"@, JsonVal::Nested(spec_slider_members(*s)));
            done = done.push(("sliders"@, JsonVal::Nested(spec_slider_members(*s))));
        }
    }
    proof {
        assert(done =~= seq![("prompt"@, JsonVal::Scalar(JsonLeaf::Text(r@.prompt)))]
            + opt_nested_member(
            "options"@,
            match r@.options {
                Some(o) => Some(spec_switch_members(o)),
                None => None,
            },
        ) + opt_nested_member(
            "sliders"@,
            match r@.sliders {
                Some(s) => Some(spec_slider_members(s)),
                None => None,
            },
        ));
        assert(out@ == seq!['{'] + render_members(done));
    }
    if let Some(i) = &r.images {
        append_member_prefix(&mut out, "images", false);
        append_image_object(&mut out, i);
        proof {
            lemma_members_snoc(done, "images"@, JsonVal::Nested(spec_image_members(i@)));
            done = done.push(("images"@, JsonVal::Nested(spec_image_members(i@))));
        }
    }
    out.append("}");
    proof {
        reveal_strlit("}");
        assert("}"@ =~= seq!['}']);
        assert(done =~= spec_request_members(r@));
        assert(seq!['{'] + render_members(done) + "}"@ =~= spec_encode_request(r@));
    }
    out
}

/// Law: when only the prompt is set, the encoded document holds exactly
/// one top-level member, whose key is `prompt`; no optional key is emitted.
pub proof fn lemma_prompt_only_single_key(r: RequestModel)
    requires
        r.options is None,
        r.sliders is None,
        r.images is None,
    ensures
        spec_request_members(r).len() == 1,
        spec_request_members(r)[0].0 == "prompt"@,
        spec_request_members(r)[0].1 == JsonVal::Scalar(JsonLeaf::Text(r.prompt)),
{
    assert(spec_request_members(r) =~= seq![
        ("prompt"@, JsonVal::Scalar(JsonLeaf::Text(r.prompt))),
    ]);
}

/// Borrows the prompt text of a request.
fn prompt_text(r: &Request) -> (p: &str)
    ensures
        p@ == r@.prompt,
{
    r.prompt.as_str()
}

} // verus!
