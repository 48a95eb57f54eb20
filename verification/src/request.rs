//! The request sent to the remote endpoint: a prompt with optional feature
//! toggles, an optional politeness slider, and optional image attachments.
//! Image entries are opaque encoded-binary strings, carried as text and
//! never decoded here.

use vstd::prelude::*;

verus! {

/// Optional feature toggles. An absent field means "unset", not "false".
#[derive(Clone, Copy, Debug)]
pub struct SwitchOptions {
    pub summary: Option<bool>,
    pub guidance: Option<bool>,
    pub explanation: Option<bool>,
    pub answer: Option<bool>,
}

/// Optional numeric slider, held in thousandths so the core stays within
/// exact integer arithmetic; a value of 750 goes on the wire as `0.750`.
#[derive(Clone, Copy, Debug)]
pub struct SliderOptions {
    pub politeness_milli: Option<u32>,
}

/// Optional image attachments, grouped by role.
#[derive(Debug)]
pub struct ImageSet {
    pub problem: Option<Vec<String>>,
    pub solution: Option<Vec<String>>,
}

/// Mathematical model of an `ImageSet`: each group is a sequence of the
/// attachment strings' character sequences.
pub struct ImageSetModel {
    pub problem: Option<Seq<Seq<char>>>,
    pub solution: Option<Seq<Seq<char>>>,
}

impl View for ImageSet {
    type V = ImageSetModel;

    open spec fn view(&self) -> ImageSetModel {
        ImageSetModel {
            problem: match self.problem {
                Some(v) => Some(v.deep_view()),
                None => None,
            },
            solution: match self.solution {
                Some(v) => Some(v.deep_view()),
                None => None,
            },
        }
    }
}

/// A request to forward: the prompt is required (it may be empty), all
/// other parts are optional and omitted from the wire when absent.
#[derive(Debug)]
pub struct Request {
    pub prompt: String,
    pub options: Option<SwitchOptions>,
    pub sliders: Option<SliderOptions>,
    pub images: Option<ImageSet>,
}

/// Mathematical model of a `Request`.
pub struct RequestModel {
    pub prompt: Seq<char>,
    pub options: Option<SwitchOptions>,
    pub sliders: Option<SliderOptions>,
    pub images: Option<ImageSetModel>,
}

impl View for Request {
    type V = RequestModel;

    open spec fn view(&self) -> RequestModel {
        RequestModel {
            prompt: self.prompt@,
            options: self.options,
            sliders: self.sliders,
            images: match self.images {
                Some(i) => Some(i@),
                None => None,
            },
        }
    }
}

} // verus!
