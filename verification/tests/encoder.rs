use gemini_proxy::encode::encode_request;
use gemini_proxy::json_text::decimal_string;
use gemini_proxy::request::{ImageSet, Request, SliderOptions, SwitchOptions};

fn prompt_only(p: &str) -> Request {
    Request { prompt: p.to_string(), options: None, sliders: None, images: None }
}

#[test]
fn prompt_only_emits_exactly_one_key() {
    let out = encode_request(&prompt_only("hello"));
    assert_eq!(out, "{\"prompt\":\"hello\"}");
    let v: serde_json::Value = serde_json::from_str(&out).unwrap();
    let obj = v.as_object().unwrap();
    assert_eq!(obj.len(), 1);
    assert_eq!(obj.get("prompt").unwrap().as_str().unwrap(), "hello");
}

#[test]
fn empty_prompt_is_permitted() {
    let out = encode_request(&prompt_only(""));
    assert_eq!(out, "{\"prompt\":\"\"}");
}

#[test]
fn string_escaping_round_trips() {
    let out = encode_request(&prompt_only("a\"b\\c\nd\te"));
    assert_eq!(out, "{\"prompt\":\"a\\\"b\\\\c\\u000ad\\u0009e\"}");
    let v: serde_json::Value = serde_json::from_str(&out).unwrap();
    assert_eq!(v.as_object().unwrap().get("prompt").unwrap().as_str().unwrap(), "a\"b\\c\nd\te");
}

#[test]
fn unicode_prompt_round_trips() {
    let text = "こんにちは 🌍";
    let out = encode_request(&prompt_only(text));
    let v: serde_json::Value = serde_json::from_str(&out).unwrap();
    assert_eq!(v.as_object().unwrap().get("prompt").unwrap().as_str().unwrap(), text);
}

#[test]
fn absent_toggles_are_omitted() {
    let req = Request {
        prompt: "p".to_string(),
        options: Some(SwitchOptions {
            summary: None,
            guidance: Some(true),
            explanation: None,
            answer: Some(false),
        }),
        sliders: None,
        images: None,
    };
    let out = encode_request(&req);
    assert_eq!(out, "{\"prompt\":\"p\",\"options\":{\"guidance\":true,\"answer\":false}}");
}

#[test]
fn full_request_round_trips_through_a_conforming_decoder() {
    let req = Request {
        prompt: "solve this".to_string(),
        options: Some(SwitchOptions {
            summary: Some(true),
            guidance: Some(false),
            explanation: Some(true),
            answer: Some(true),
        }),
        sliders: Some(SliderOptions { politeness_milli: Some(750) }),
        images: Some(ImageSet {
            problem: Some(vec!["QUJD".to_string(), "ZGVm".to_string()]),
            solution: Some(vec![]),
        }),
    };
    let out = encode_request(&req);
    let v: serde_json::Value = serde_json::from_str(&out).unwrap();
    let obj = v.as_object().unwrap();
    assert_eq!(obj.len(), 4);
    assert_eq!(obj.get("prompt").unwrap().as_str().unwrap(), "solve this");
    let options = obj.get("options").unwrap().as_object().unwrap();
    assert_eq!(options.len(), 4);
    assert_eq!(options.get("summary").unwrap().as_bool().unwrap(), true);
    assert_eq!(options.get("guidance").unwrap().as_bool().unwrap(), false);
    assert_eq!(options.get("explanation").unwrap().as_bool().unwrap(), true);
    assert_eq!(options.get("answer").unwrap().as_bool().unwrap(), true);
    let sliders = v.get("sliders").unwrap().as_object().unwrap();
    assert_eq!(sliders.get("politeness").unwrap().as_f64().unwrap(), 0.75);
    let images = v.get("images").unwrap().as_object().unwrap();
    let problem: Vec<&str> =
        images.get("problem").unwrap().as_array().unwrap().iter().map(|e| e.as_str().unwrap()).collect();
    assert_eq!(problem, vec!["QUJD", "ZGVm"]);
    assert_eq!(images.get("solution").unwrap().as_array().unwrap().len(), 0);
}

#[test]
fn politeness_literal_keeps_three_fraction_digits() {
    let req = Request {
        prompt: "p".to_string(),
        options: None,
        sliders: Some(SliderOptions { politeness_milli: Some(5) }),
        images: None,
    };
    let out = encode_request(&req);
    assert_eq!(out, "{\"prompt\":\"p\",\"sliders\":{\"politeness\":0.005}}");
}

#[test]
fn decimal_rendering_is_exact() {
    assert_eq!(decimal_string(0), "0");
    assert_eq!(decimal_string(500), "500");
    assert_eq!(decimal_string(65535), "65535");
}
