//! Responses of `agy`.

use std::time::Duration;
use vstd::prelude::*;

use crate::json;
use crate::json::{Json, JsonView};
use crate::text;

verus! {

/// The structured response from an `agy` invocation.
#[derive(Debug)]
pub struct TalosResponse {
    /// The full text output from the model.
    pub text: String,
    /// The conversation ID assigned by `agy`.
    pub conversation_id: String,
    /// Any tool calls made during the response.
    pub tool_calls: Vec<Json>,
    /// Paths to any artifacts produced.
    pub artifacts: Vec<String>,
    /// Wall-clock duration of the invocation.
    pub duration: Duration,
}

/// What a [`TalosResponse`] says.
pub struct ResponseView {
    pub text: Seq<char>,
    pub conversation_id: Seq<char>,
    pub tool_calls: Seq<JsonView>,
    pub artifacts: Seq<Seq<char>>,
    pub duration: Duration,
}

impl View for TalosResponse {
    type V = ResponseView;

    open spec fn view(&self) -> ResponseView {
        ResponseView {
            text: self.text@,
            conversation_id: self.conversation_id@,
            tool_calls: json::contents(self.tool_calls@),
            artifacts: text::string_texts(self.artifacts@),
            duration: self.duration,
        }
    }
}

impl Clone for TalosResponse {
    fn clone(&self) -> (twin: Self)
        ensures
            twin@ == self@,
    {
        let twin = TalosResponse {
            text: self.text.clone(),
            conversation_id: self.conversation_id.clone(),
            tool_calls: self.tool_calls.clone(),
            artifacts: self.artifacts.clone(),
            duration: self.duration,
        };
        assert(twin@.tool_calls =~= self@.tool_calls);
        assert(twin@.artifacts =~= self@.artifacts);
        twin
    }
}

/// A response with nothing but text.
pub open spec fn plain_response(
    text: Seq<char>,
    conversation_id: Seq<char>,
    duration: Duration,
) -> ResponseView {
    ResponseView {
        text,
        conversation_id,
        tool_calls: Seq::empty(),
        artifacts: Seq::empty(),
        duration,
    }
}

impl TalosResponse {
    /// A response with nothing but text.
    pub fn plain(text: String, conversation_id: String, duration: Duration) -> (response: Self)
        ensures
            response@ == plain_response(text@, conversation_id@, duration),
    {
        let response = TalosResponse {
            text,
            conversation_id,
            tool_calls: Vec::new(),
            artifacts: Vec::new(),
            duration,
        };
        assert(response@.tool_calls =~= Seq::<JsonView>::empty());
        assert(response@.artifacts =~= Seq::<Seq<char>>::empty());
        response
    }
}

} // verus!
