//! Response classification: the pure decision over the raw `(status, body)`
//! pair a transport exchange produced, in the fixed order status check,
//! shape sniff, strict decode.

use vstd::prelude::*;
use vstd::string::*;

verus! {

/// JSON whitespace, the characters the sniff skips over.
pub open spec fn spec_is_ws(c: char) -> bool {
    c == ' ' || c == '\t' || c == '\n' || c == '\r'
}

/// `s` without its leading whitespace.
pub open spec fn spec_trimmed(s: Seq<char>) -> Seq<char>
    decreases s.len(),
{
    if s.len() > 0 && spec_is_ws(s[0]) {
        spec_trimmed(s.drop_first())
    } else {
        s
    }
}

pub open spec fn spec_starts_with(s: Seq<char>, p: Seq<char>) -> bool {
    p.len() <= s.len() && s.subrange(0, p.len() as int) == p
}

/// The shape sniff: a body is taken for non-JSON when its trimmed text
/// starts with the case-sensitive `<!DOCTYPE` marker, or does not start
/// with `{`.
pub open spec fn spec_non_json_shape(s: Seq<char>) -> bool {
    spec_starts_with(spec_trimmed(s), "<!DOCTYPE"@) || !spec_starts_with(spec_trimmed(s), "{"@)
}

proof fn lemma_trimmed_skip(s: Seq<char>, i: int)
    requires
        0 <= i <= s.len(),
        forall|j: int| 0 <= j < i ==> spec_is_ws(#[trigger] s[j]),
        i < s.len() ==> !spec_is_ws(s[i]),
    ensures
        spec_trimmed(s) == s.subrange(i, s.len() as int),
    decreases i,
{
    if i == 0 {
        assert(s.subrange(0, s.len() as int) =~= s);
    } else {
        assert(spec_is_ws(s[0]));
        let d = s.drop_first();
        assert(forall|j: int| 0 <= j < i - 1 ==> spec_is_ws(#[trigger] d[j]));
        lemma_trimmed_skip(d, i - 1);
        assert(d.subrange(i - 1, d.len() as int) =~= s.subrange(i, s.len() as int));
    }
}

fn ws_prefix_len(body: &str) -> (i: usize)
    ensures
        i <= body@.len(),
        forall|j: int| 0 <= j < i ==> spec_is_ws(#[trigger] body@[j]),
        i < body@.len() ==> !spec_is_ws(body@[i as int]),
{
    let n = body.unicode_len();
    let mut i: usize = 0;
    let mut stop: bool = false;
    while i < n && !stop
        invariant
            i <= n,
            n == body@.len(),
            forall|j: int| 0 <= j < i ==> spec_is_ws(#[trigger] body@[j]),
            stop ==> i < n && !spec_is_ws(body@[i as int]),
        decreases n - i, (if stop { 0int } else { 1int }),
    {
        let c = body.get_char(i);
        if c == ' ' || c == '\t' || c == '\n' || c == '\r' {
            i = i + 1;
        } else {
            stop = true;
        }
    }
    i
}

/// Decides the shape sniff for a body.
pub fn is_non_json_shape(body: &str) -> (r: bool)
    ensures
        r == spec_non_json_shape(body@),
{
    let i = ws_prefix_len(body);
    let n = body.unicode_len();
    let ghost t = spec_trimmed(body@);
    proof {
        lemma_trimmed_skip(body@, i as int);
        reveal_strlit("{");
        reveal_strlit("<!DOCTYPE");
        assert("{"@.len() == 1);
        assert("<!DOCTYPE"@.len() == 9);
        assert(t =~= body@.subrange(i as int, body@.len() as int));
    }
    if i == n {
        proof {
            assert(t.len() == 0);
            assert(!spec_starts_with(t, "{"@));
        }
        true
    } else {
        let c = body.get_char(i);
        proof {
            assert(t[0] == body@[i as int]);
        }
        if c == '{' {
            proof {
                assert(t.subrange(0, 1) =~= "{"@);
                assert(spec_starts_with(t, "{"@));
                if spec_starts_with(t, "<!DOCTYPE"@) {
                    assert(t.subrange(0, 9)[0] == t[0]);
                    assert(t[0] == '<');
                    assert(false);
                }
            }
            false
        } else {
            proof {
                if spec_starts_with(t, "{"@) {
                    assert(t.subrange(0, 1)[0] == t[0]);
                    assert(t[0] == '{');
                    assert(false);
                }
            }
            true
        }
    }
}

/// What strict JSON decoding of a response body yields for the required
/// `text` member: the member's string when the body is a JSON object that
/// holds one under that name, nothing otherwise.
pub uninterp spec fn decoded_text(body: Seq<char>) -> Option<Seq<char>>;

/// Relies on serde_json::from_str for strict JSON parsing of the body, and
/// on serde_json::Map::remove to pick out the top-level `text` member; both
/// results are functions of the input characters alone.
#[verifier::external_body]
fn decode_text_member(body: &str) -> (r: Option<String>)
    ensures
        r is Some <==> decoded_text(body@) is Some,
        r matches Some(t) ==> decoded_text(body@) matches Some(m) && t@ == m,
{
    match serde_json::from_str::<serde_json::Value>(body) {
        Ok(serde_json::Value::Object(mut members)) => match members.remove("text") {
            Some(serde_json::Value::String(text)) => Some(text),
            _ => None,
        },
        _ => None,
    }
}

/// The pure decision over a transport exchange's raw result.
pub enum Classification {
    /// Success: the extracted result text.
    Accepted { text: String },
    /// The status was outside the success range.
    HttpError { status: u16 },
    /// Success status, but the body does not look like JSON.
    NotJson,
    /// Success status and JSON shape, but no `text` string member.
    SchemaMismatch,
}

/// Spec-level mirror of `Classification`.
pub enum ClassificationModel {
    Accepted { text: Seq<char> },
    HttpError { status: u16 },
    NotJson,
    SchemaMismatch,
}

impl View for Classification {
    type V = ClassificationModel;

    open spec fn view(&self) -> ClassificationModel {
        match self {
            Classification::Accepted { text } => ClassificationModel::Accepted { text: text@ },
            Classification::HttpError { status } => (ClassificationModel::HttpError {
                status: *status,
            }),
            Classification::NotJson => ClassificationModel::NotJson,
            Classification::SchemaMismatch => ClassificationModel::SchemaMismatch,
        }
    }
}

/// How a raw response is classified, in the fixed order: status check
/// first, then the shape sniff, then the strict decode.
pub open spec fn spec_classify(status: u16, body: Seq<char>) -> ClassificationModel {
    if !crate::spec_success_status(status) {
        ClassificationModel::HttpError { status }
    } else if spec_non_json_shape(body) {
        ClassificationModel::NotJson
    } else {
        match decoded_text(body) {
            Some(t) => ClassificationModel::Accepted { text: t },
            None => ClassificationModel::SchemaMismatch,
        }
    }
}

/// Classifies a raw response.
pub fn classify_response(status: u16, body: &str) -> (c: Classification)
    ensures
        c@ == spec_classify(status, body@),
{
    if !crate::is_success_status(status) {
        Classification::HttpError { status }
    } else if is_non_json_shape(body) {
        Classification::NotJson
    } else {
        match decode_text_member(body) {
            Some(t) => Classification::Accepted { text: t },
            None => Classification::SchemaMismatch,
        }
    }
}

} // verus!
