//! A conforming decoder over the wire model: it reads a member list back
//! into a request by key lookup, and the round-trip law shows that decoding
//! what the encoder emits recovers every present field unchanged.

use vstd::prelude::*;
use crate::json_text::{
    spec_decimal, spec_digit_char, spec_digit_value, spec_digits_value, lemma_decimal_value,
};
use crate::request::{SwitchOptions, SliderOptions, ImageSetModel, RequestModel};
use crate::encode::{
    JsonLeaf, JsonVal, opt_flag_member, opt_list_member, opt_nested_member, spec_switch_members,
    spec_slider_members, spec_image_members, spec_request_members, spec_politeness_literal,
};

verus! {

/// The value bound to `key` among the top-level members, first match wins.
pub open spec fn lookup_val(ms: Seq<(Seq<char>, JsonVal)>, key: Seq<char>) -> Option<JsonVal>
    decreases ms.len(),
{
    if ms.len() == 0 {
        None
    } else if ms[0].0 == key {
        Some(ms[0].1)
    } else {
        lookup_val(ms.drop_first(), key)
    }
}

/// The value bound to `key` among a flat object's members.
pub open spec fn lookup_leaf(ms: Seq<(Seq<char>, JsonLeaf)>, key: Seq<char>) -> Option<JsonLeaf>
    decreases ms.len(),
{
    if ms.len() == 0 {
        None
    } else if ms[0].0 == key {
        Some(ms[0].1)
    } else {
        lookup_leaf(ms.drop_first(), key)
    }
}

/// Reads an optional toggle: absent stays unset, a boolean is taken, any
/// other shape is a decode failure.
pub open spec fn decode_flag(l: Option<JsonLeaf>) -> Option<Option<bool>> {
    match l {
        None => Some(None),
        Some(JsonLeaf::Flag(b)) => Some(Some(b)),
        Some(_) => None,
    }
}

pub open spec fn decode_switch(ms: Seq<(Seq<char>, JsonLeaf)>) -> Option<SwitchOptions> {
    match (decode_flag(lookup_leaf(ms, "summary"@)), decode_flag(lookup_leaf(ms, "guidance"@)),
        decode_flag(lookup_leaf(ms, "explanation"@)), decode_flag(lookup_leaf(ms, "answer"@))) {
        (Some(su), Some(g), Some(e), Some(a)) => Some(SwitchOptions {
            summary: su,
            guidance: g,
            explanation: e,
            answer: a,
        }),
        _ => None,
    }
}

pub open spec fn all_digits(s: Seq<char>) -> bool {
    forall|i: int| 0 <= i < s.len() ==> spec_digit_value(#[trigger] s[i]) < 10
}

/// Reads a slider literal of the form `whole.fff` back into thousandths.
pub open spec fn parse_milli(lit: Seq<char>) -> Option<nat> {
    if lit.len() >= 5 && lit[lit.len() - 4] == '.' && all_digits(lit.subrange(0, lit.len() - 4))
        && all_digits(lit.subrange(lit.len() - 3, lit.len() as int)) {
        Some(
            spec_digits_value(lit.subrange(0, lit.len() - 4)) * 1000 + spec_digits_value(
                lit.subrange(lit.len() - 3, lit.len() as int)),
        )
    } else {
        None
    }
}

pub open spec fn decode_politeness(l: Option<JsonLeaf>) -> Option<Option<u32>> {
    match l {
        None => Some(None),
        Some(JsonLeaf::Number(lit)) => match parse_milli(lit) {
            Some(v) => if v <= u32::MAX { Some(Some(v as u32)) } else { None },
            None => None,
        },
        Some(_) => None,
    }
}

pub open spec fn decode_slider(ms: Seq<(Seq<char>, JsonLeaf)>) -> Option<SliderOptions> {
    match decode_politeness(lookup_leaf(ms, "politeness"@)) {
        Some(p) => Some(SliderOptions { politeness_milli: p }),
        None => None,
    }
}

/// Reads an optional string array: absent stays unset.
pub open spec fn decode_list(l: Option<JsonLeaf>) -> Option<Option<Seq<Seq<char>>>> {
    match l {
        None => Some(None),
        Some(JsonLeaf::TextList(items)) => Some(Some(items)),
        Some(_) => None,
    }
}

pub open spec fn decode_images(ms: Seq<(Seq<char>, JsonLeaf)>) -> Option<ImageSetModel> {
    match (decode_list(lookup_leaf(ms, "problem"@)), decode_list(lookup_leaf(ms, "solution"@))) {
        (Some(p), Some(s)) => Some(ImageSetModel { problem: p, solution: s }),
        _ => None,
    }
}

pub open spec fn decode_options_group(v: Option<JsonVal>) -> Option<Option<SwitchOptions>> {
    match v {
        None => Some(None),
        Some(JsonVal::Nested(ms)) => match decode_switch(ms) {
            Some(o) => Some(Some(o)),
            None => None,
        },
        Some(_) => None,
    }
}

pub open spec fn decode_sliders_group(v: Option<JsonVal>) -> Option<Option<SliderOptions>> {
    match v {
        None => Some(None),
        Some(JsonVal::Nested(ms)) => match decode_slider(ms) {
            Some(s) => Some(Some(s)),
            None => None,
        },
        Some(_) => None,
    }
}

pub open spec fn decode_images_group(v: Option<JsonVal>) -> Option<Option<ImageSetModel>> {
    match v {
        None => Some(None),
        Some(JsonVal::Nested(ms)) => match decode_images(ms) {
            Some(i) => Some(Some(i)),
            None => None,
        },
        Some(_) => None,
    }
}

/// A conforming decoder for the whole document: the prompt member is
/// required and must be a string; each optional group is read when present.
pub open spec fn decode_request(ms: Seq<(Seq<char>, JsonVal)>) -> Option<RequestModel> {
    match (lookup_val(ms, "prompt"@), decode_options_group(lookup_val(ms, "options"@)),
        decode_sliders_group(lookup_val(ms, "sliders"@)), decode_images_group(
        lookup_val(ms, "images"@))) {
        (Some(JsonVal::Scalar(JsonLeaf::Text(p))), Some(o), Some(s), Some(i)) => Some(
            RequestModel { prompt: p, options: o, sliders: s, images: i },
        ),
        _ => None,
    }
}

proof fn lemma_lookup_val_concat(a: Seq<(Seq<char>, JsonVal)>, b: Seq<(Seq<char>, JsonVal)>,
    key: Seq<char>)
    ensures
        lookup_val(a + b, key) == if lookup_val(a, key) is Some {
            lookup_val(a, key)
        } else {
            lookup_val(b, key)
        },
    decreases a.len(),
{
    if a.len() == 0 {
        assert(a + b =~= b);
    } else {
        assert((a + b)[0] == a[0]);
        assert((a + b).len() > 0);
        assert((a + b).drop_first() =~= a.drop_first() + b);
        lemma_lookup_val_concat(a.drop_first(), b, key);
    }
}

proof fn lemma_lookup_leaf_concat(a: Seq<(Seq<char>, JsonLeaf)>, b: Seq<(Seq<char>, JsonLeaf)>,
    key: Seq<char>)
    ensures
        lookup_leaf(a + b, key) == if lookup_leaf(a, key) is Some {
            lookup_leaf(a, key)
        } else {
            lookup_leaf(b, key)
        },
    decreases a.len(),
{
    if a.len() == 0 {
        assert(a + b =~= b);
    } else {
        assert((a + b)[0] == a[0]);
        assert((a + b).len() > 0);
        assert((a + b).drop_first() =~= a.drop_first() + b);
        lemma_lookup_leaf_concat(a.drop_first(), b, key);
    }
}

proof fn lemma_lookup_leaf_single(k: Seq<char>, l: JsonLeaf, key: Seq<char>)
    ensures
        lookup_leaf(seq![(k, l)], key) == if k == key {
            Some(l)
        } else {
            None::<JsonLeaf>
        },
{
    let s = seq![(k, l)];
    assert(s.len() == 1);
    assert(s[0] == (k, l));
    assert(s.drop_first() =~= Seq::<(Seq<char>, JsonLeaf)>::empty());
    assert(lookup_leaf(Seq::<(Seq<char>, JsonLeaf)>::empty(), key) is None);
}

proof fn lemma_lookup_val_single(k: Seq<char>, v: JsonVal, key: Seq<char>)
    ensures
        lookup_val(seq![(k, v)], key) == if k == key {
            Some(v)
        } else {
            None::<JsonVal>
        },
{
    let s = seq![(k, v)];
    assert(s.len() == 1);
    assert(s[0] == (k, v));
    assert(s.drop_first() =~= Seq::<(Seq<char>, JsonVal)>::empty());
    assert(lookup_val(Seq::<(Seq<char>, JsonVal)>::empty(), key) is None);
}

proof fn lemma_lookup_opt_flag(k: Seq<char>, v: Option<bool>, key: Seq<char>)
    ensures
        lookup_leaf(opt_flag_member(k, v), key) == match v {
            Some(b) => if k == key {
                Some(JsonLeaf::Flag(b))
            } else {
                None::<JsonLeaf>
            },
            None => None::<JsonLeaf>,
        },
{
    match v {
        Some(b) => {
            lemma_lookup_leaf_single(k, JsonLeaf::Flag(b), key);
        },
        None => {},
    }
}

/// The fixed wire keys are pairwise distinct.
proof fn lemma_keys_distinct()
    ensures
        "summary"@ != "guidance"@,
        "summary"@ != "explanation"@,
        "summary"@ != "answer"@,
        "guidance"@ != "explanation"@,
        "guidance"@ != "answer"@,
        "explanation"@ != "answer"@,
        "problem"@ != "solution"@,
        "prompt"@ != "options"@,
        "prompt"@ != "sliders"@,
        "prompt"@ != "images"@,
        "options"@ != "sliders"@,
        "options"@ != "images"@,
        "sliders"@ != "images"@,
{
    reveal_strlit("summary");
    reveal_strlit("guidance");
    reveal_strlit("explanation");
    reveal_strlit("answer");
    reveal_strlit("problem");
    reveal_strlit("solution");
    reveal_strlit("prompt");
    reveal_strlit("options");
    reveal_strlit("sliders");
    reveal_strlit("images");
    assert("summary"@.len() == 7);
    assert("guidance"@.len() == 8);
    assert("explanation"@.len() == 11);
    assert("answer"@.len() == 6);
    assert("problem"@.len() == 7);
    assert("solution"@.len() == 8);
    assert("prompt"@.len() == 6);
    assert("options"@.len() == 7);
    assert("sliders"@.len() == 7);
    assert("images"@.len() == 6);
    assert("summary"@[0] == 's' && "problem"@[0] == 'p' && "options"@[0] == 'o'
        && "sliders"@[0] == 's' && "prompt"@[1] == 'r' && "images"@[0] == 'i');
}

/// Where a switch-object lookup of one of the four keys lands.
proof fn lemma_switch_lookup(o: SwitchOptions, key: Seq<char>)
    requires
        key == "summary"@ || key == "guidance"@ || key == "explanation"@ || key == "answer"@,
    ensures
        lookup_leaf(spec_switch_members(o), key) == if key == "summary"@ {
            match o.summary { Some(b) => Some(JsonLeaf::Flag(b)), None => None::<JsonLeaf> }
        } else if key == "guidance"@ {
            match o.guidance { Some(b) => Some(JsonLeaf::Flag(b)), None => None::<JsonLeaf> }
        } else if key == "explanation"@ {
            match o.explanation { Some(b) => Some(JsonLeaf::Flag(b)), None => None::<JsonLeaf> }
        } else {
            match o.answer { Some(b) => Some(JsonLeaf::Flag(b)), None => None::<JsonLeaf> }
        },
{
    lemma_keys_distinct();
    let a = opt_flag_member("summary"@, o.summary);
    let b = opt_flag_member("guidance"@, o.guidance);
    let c = opt_flag_member("explanation"@, o.explanation);
    let d = opt_flag_member("answer"@, o.answer);
    lemma_lookup_leaf_concat(a + b + c, d, key);
    lemma_lookup_leaf_concat(a + b, c, key);
    lemma_lookup_leaf_concat(a, b, key);
    lemma_lookup_opt_flag("summary"@, o.summary, key);
    lemma_lookup_opt_flag("guidance"@, o.guidance, key);
    lemma_lookup_opt_flag("explanation"@, o.explanation, key);
    lemma_lookup_opt_flag("answer"@, o.answer, key);
}

/// The switch object decodes back to the toggles it was built from.
proof fn lemma_switch_round_trip(o: SwitchOptions)
    ensures
        decode_switch(spec_switch_members(o)) == Some(o),
{
    lemma_keys_distinct();
    lemma_switch_lookup(o, "summary"@);
    lemma_switch_lookup(o, "guidance"@);
    lemma_switch_lookup(o, "explanation"@);
    lemma_switch_lookup(o, "answer"@);
}

proof fn lemma_all_digits_decimal(n: nat)
    ensures
        all_digits(spec_decimal(n)),
    decreases n,
{
    if n < 10 {
        assert(spec_digit_value(spec_digit_char(n)) == n);
        assert(forall|i: int| 0 <= i < 1 ==> spec_digit_value(#[trigger] spec_decimal(n)[i]) < 10);
    } else {
        lemma_all_digits_decimal(n / 10);
        assert(spec_digit_value(spec_digit_char(n % 10)) == n % 10);
        assert forall|i: int| 0 <= i < spec_decimal(n).len() implies spec_digit_value(
            #[trigger] spec_decimal(n)[i]) < 10 by {
            if i < spec_decimal(n / 10).len() {
                assert(spec_decimal(n)[i] == spec_decimal(n / 10)[i]);
            } else {
                assert(spec_decimal(n)[i] == spec_digit_char(n % 10));
            }
        }
    }
}

/// The slider literal reads back to the thousandths it was rendered from.
proof fn lemma_politeness_round_trip(m: u32)
    ensures
        parse_milli(spec_politeness_literal(m)) == Some(m as nat),
{
    let w = spec_decimal((m / 1000) as nat);
    let f = (m % 1000) as nat;
    let c1 = spec_digit_char(f / 100);
    let c2 = spec_digit_char((f / 10) % 10);
    let c3 = spec_digit_char(f % 10);
    let lit = spec_politeness_literal(m);
    assert(lit =~= w + seq!['.'] + seq![c1, c2, c3]);
    assert(lit.len() == w.len() + 4);
    assert(lit[lit.len() - 4] == '.');
    let whole = lit.subrange(0, lit.len() - 4);
    let frac = lit.subrange(lit.len() - 3, lit.len() as int);
    assert(whole =~= w);
    assert(frac =~= seq![c1, c2, c3]);
    lemma_all_digits_decimal((m / 1000) as nat);
    assert(f < 1000);
    assert(f / 100 < 10 && (f / 10) % 10 < 10 && f % 10 < 10);
    assert(spec_digit_value(c1) == f / 100);
    assert(spec_digit_value(c2) == (f / 10) % 10);
    assert(spec_digit_value(c3) == f % 10);
    assert(all_digits(frac));
    lemma_decimal_value((m / 1000) as nat);
    assert(spec_digits_value(whole) == (m / 1000) as nat);
    assert(frac.drop_last() =~= seq![c1, c2]);
    assert(frac.last() == c3);
    assert(seq![c1, c2].drop_last() =~= seq![c1]);
    assert(seq![c1, c2].last() == c2);
    assert(seq![c1].drop_last() =~= Seq::<char>::empty());
    assert(seq![c1].last() == c1);
    assert(spec_digits_value(Seq::<char>::empty()) == 0);
    assert(spec_digits_value(seq![c1]) == spec_digit_value(c1));
    assert(spec_digits_value(seq![c1, c2]) == spec_digit_value(c1) * 10 + spec_digit_value(c2));
    assert(spec_digits_value(frac) == (spec_digit_value(c1) * 10 + spec_digit_value(c2)) * 10
        + spec_digit_value(c3));
    assert((f / 100) * 100 + ((f / 10) % 10) * 10 + f % 10 == f) by (nonlinear_arith)
        requires f < 1000;
    assert(spec_digits_value(frac) == f);
    assert(((m / 1000) as nat) * 1000 + f == m as nat) by (nonlinear_arith)
        requires f == (m % 1000) as nat;
    assert(parse_milli(lit) == Some(m as nat));
}

proof fn lemma_slider_round_trip(s: SliderOptions)
    ensures
        decode_slider(spec_slider_members(s)) == Some(s),
{
    match s.politeness_milli {
        Some(m) => {
            lemma_lookup_leaf_single("politeness"@, JsonLeaf::Number(spec_politeness_literal(m)),
                "politeness"@);
            lemma_politeness_round_trip(m);
        },
        None => {},
    }
}

proof fn lemma_images_round_trip(i: ImageSetModel)
    ensures
        decode_images(spec_image_members(i)) == Some(i),
{
    lemma_keys_distinct();
    let a = opt_list_member("problem"@, i.problem);
    let b = opt_list_member("solution"@, i.solution);
    lemma_lookup_leaf_concat(a, b, "problem"@);
    lemma_lookup_leaf_concat(a, b, "solution"@);
    match i.problem {
        Some(items) => {
            lemma_lookup_leaf_single("problem"@, JsonLeaf::TextList(items), "problem"@);
            lemma_lookup_leaf_single("problem"@, JsonLeaf::TextList(items), "solution"@);
        },
        None => {},
    }
    match i.solution {
        Some(items) => {
            lemma_lookup_leaf_single("solution"@, JsonLeaf::TextList(items), "problem"@);
            lemma_lookup_leaf_single("solution"@, JsonLeaf::TextList(items), "solution"@);
        },
        None => {},
    }
}

/// Where a top-level lookup of one of the four keys lands.
proof fn lemma_request_lookup(r: RequestModel, key: Seq<char>)
    requires
        key == "prompt"@ || key == "options"@ || key == "sliders"@ || key == "images"@,
    ensures
        lookup_val(spec_request_members(r), key) == if key == "prompt"@ {
            Some(JsonVal::Scalar(JsonLeaf::Text(r.prompt)))
        } else if key == "options"@ {
            match r.options {
                Some(o) => Some(JsonVal::Nested(spec_switch_members(o))),
                None => None::<JsonVal>,
            }
        } else if key == "sliders"@ {
            match r.sliders {
                Some(s) => Some(JsonVal::Nested(spec_slider_members(s))),
                None => None::<JsonVal>,
            }
        } else {
            match r.images {
                Some(i) => Some(JsonVal::Nested(spec_image_members(i))),
                None => None::<JsonVal>,
            }
        },
{
    lemma_keys_distinct();
    let p = seq![("prompt"@, JsonVal::Scalar(JsonLeaf::Text(r.prompt)))];
    let a = opt_nested_member(
        "options"@,
        match r.options {
            Some(o) => Some(spec_switch_members(o)),
            None => None,
        },
    );
    let b = opt_nested_member(
        "sliders"@,
        match r.sliders {
            Some(s) => Some(spec_slider_members(s)),
            None => None,
        },
    );
    let c = opt_nested_member(
        "images"@,
        match r.images {
            Some(i) => Some(spec_image_members(i)),
            None => None,
        },
    );
    lemma_lookup_val_concat(p + a + b, c, key);
    lemma_lookup_val_concat(p + a, b, key);
    lemma_lookup_val_concat(p, a, key);
    lemma_lookup_val_single("prompt"@, JsonVal::Scalar(JsonLeaf::Text(r.prompt)), key);
    match r.options {
        Some(o) => {
            lemma_lookup_val_single("options"@, JsonVal::Nested(spec_switch_members(o)), key);
        },
        None => {},
    }
    match r.sliders {
        Some(s) => {
            lemma_lookup_val_single("sliders"@, JsonVal::Nested(spec_slider_members(s)), key);
        },
        None => {},
    }
    match r.images {
        Some(i) => {
            lemma_lookup_val_single("images"@, JsonVal::Nested(spec_image_members(i)), key);
        },
        None => {},
    }
}

/// Law: round-tripping a request through the encoder's wire model and the
/// conforming decoder recovers every field, present or absent, unchanged.
pub proof fn lemma_encode_decode_round_trip(r: RequestModel)
    ensures
        decode_request(spec_request_members(r)) == Some(r),
{
    lemma_keys_distinct();
    lemma_request_lookup(r, "prompt"@);
    lemma_request_lookup(r, "options"@);
    lemma_request_lookup(r, "sliders"@);
    lemma_request_lookup(r, "images"@);
    match r.options {
        Some(o) => {
            lemma_switch_round_trip(o);
        },
        None => {},
    }
    match r.sliders {
        Some(s) => {
            lemma_slider_round_trip(s);
        },
        None => {},
    }
    match r.images {
        Some(i) => {
            lemma_images_round_trip(i);
        },
        None => {},
    }
}

} // verus!
