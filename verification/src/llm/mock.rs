//! A provider that answers from a script.
use vstd::prelude::*;

use crate::json::{Json, JsonView};
use crate::llm::registry::{listed, supports_listed_model};
use crate::llm::types::{
    stream_item, stream_views, FinishReason, GenerateResponse, ProviderError, ProviderErrorView,
    StreamEvent, StreamEventView, TokenUsage, ToolCall, ToolCallDelta, ToolCallDeltaView,
    ToolCallView,
};
use crate::text::texts;

verus! {

#[derive(Debug)]
pub struct MockLlmProvider {
    provider_id: String,
    supported_models: Vec<String>,
    predefined_stream: Option<Vec<Result<StreamEvent, ProviderError>>>,
}

pub struct MockView {
    pub provider_id: Seq<char>,
    pub models: Seq<Seq<char>>,
    pub script: Option<Seq<Result<StreamEventView, ProviderErrorView>>>,
}

impl View for MockLlmProvider {
    type V = MockView;

    closed spec fn view(&self) -> MockView {
        MockView {
            provider_id: self.provider_id@,
            models: texts(self.supported_models@),
            script: match self.predefined_stream {
                Some(events) => Some(stream_views(events@)),
                None => None,
            },
        }
    }
}

/// The arguments of the call in the standard script.
pub open spec fn weather_arguments() -> JsonView {
    JsonView::Object(seq![("location"@, JsonView::String("Shanghai"@))])
}

/// The standard script: a thought, some text, a tool call with its fragment, the
/// usage, the end.
pub open spec fn standard_script() -> Seq<Result<StreamEventView, ProviderErrorView>> {
    seq![
        Ok(StreamEventView::ThinkingDelta("thinking about it..."@)),
        Ok(StreamEventView::TextDelta("Hello, "@)),
        Ok(StreamEventView::TextDelta("world!"@)),
        Ok(
            StreamEventView::ToolCallDelta(
                ToolCallDeltaView {
                    index: 0,
                    id: Some("call_abc"@),
                    name: Some("get_weather"@),
                    partial_json: Some("{\"location\":\"Shanghai\"}"@),
                },
            ),
        ),
        Ok(
            StreamEventView::ToolCall(
                ToolCallView {
                    id: "call_abc"@,
                    name: "get_weather"@,
                    arguments: weather_arguments(),
                },
            ),
        ),
        Ok(
            StreamEventView::Usage(
                TokenUsage {
                    prompt_tokens: 50,
                    completion_tokens: 30,
                    total_tokens: 80,
                    cache_creation_input_tokens: None,
                    cache_read_input_tokens: None,
                    reasoning_tokens: Some(10),
                },
            ),
        ),
        Ok(StreamEventView::Finished(FinishReason::ToolCalls)),
    ]
}

impl MockLlmProvider {
    pub fn new(provider_id: &str) -> (p: Self)
        ensures
            p@ == (MockView { provider_id: provider_id@, models: Seq::empty(), script: None }),
    {
        let p = MockLlmProvider {
            provider_id: provider_id.to_owned(),
            supported_models: Vec::new(),
            predefined_stream: None,
        };
        assert(p@.models =~= Seq::<Seq<char>>::empty());
        p
    }

    pub fn with_models(self, models: Vec<String>) -> (p: Self)
        ensures
            p@ == (MockView { models: texts(models@), ..self@ }),
    {
        let mut p = self;
        p.supported_models = models;
        p
    }

    pub fn with_stream(self, events: Vec<Result<StreamEvent, ProviderError>>) -> (p: Self)
        ensures
            p@ == (MockView { script: Some(stream_views(events@)), ..self@ }),
    {
        let mut p = self;
        p.predefined_stream = Some(events);
        p
    }

    pub fn provider_id(&self) -> (s: &str)
        ensures
            s@ == self@.provider_id,
    {
        self.provider_id.as_str()
    }

    pub fn supports_model(&self, model_id: &str) -> (b: bool)
        ensures
            b == listed(self@.models, model_id@),
    {
        supports_listed_model(&self.supported_models, model_id)
    }

    pub fn standard_stream() -> (r: Vec<Result<StreamEvent, ProviderError>>)
        ensures
            stream_views(r@) == standard_script(),
    {
        let arguments = Json::object().with("location", Json::text("Shanghai"));
        assert(arguments@->Object_0 =~= weather_arguments()->Object_0);
        let mut r: Vec<Result<StreamEvent, ProviderError>> = Vec::new();
        r.push(Ok(StreamEvent::ThinkingDelta("thinking about it...".to_owned())));
        r.push(Ok(StreamEvent::TextDelta("Hello, ".to_owned())));
        r.push(Ok(StreamEvent::TextDelta("world!".to_owned())));
        r.push(
            Ok(
                StreamEvent::ToolCallDelta(
                    ToolCallDelta {
                        index: 0,
                        id: Some("call_abc".to_owned()),
                        name: Some("get_weather".to_owned()),
                        partial_json: Some("{\"location\":\"Shanghai\"}".to_owned()),
                    },
                ),
            ),
        );
        r.push(
            Ok(
                StreamEvent::ToolCall(
                    ToolCall {
                        id: "call_abc".to_owned(),
                        name: "get_weather".to_owned(),
                        arguments,
                    },
                ),
            ),
        );
        r.push(
            Ok(
                StreamEvent::Usage(
                    TokenUsage {
                        prompt_tokens: 50,
                        completion_tokens: 30,
                        total_tokens: 80,
                        cache_creation_input_tokens: None,
                        cache_read_input_tokens: None,
                        reasoning_tokens: Some(10),
                    },
                ),
            ),
        );
        r.push(Ok(StreamEvent::Finished(FinishReason::ToolCalls)));
        assert(stream_views(r@) =~= standard_script());
        r
    }

    /// The scripted answer, or the standard one.
    pub fn generate_stream(&self) -> (r: Vec<Result<StreamEvent, ProviderError>>)
        ensures
            stream_views(r@) == match self@.script {
                Some(script) => script,
                None => standard_script(),
            },
    {
        match &self.predefined_stream {
            None => Self::standard_stream(),
            Some(events) => {
                let mut r: Vec<Result<StreamEvent, ProviderError>> = Vec::new();
                let mut i: usize = 0;
                while i < events.len()
                    invariant
                        i <= events@.len(),
                        r@.len() == i,
                        forall|j: int|
                            0 <= j < i ==> stream_item(#[trigger] r@[j]) == stream_item(events@[j]),
                    decreases events@.len() - i,
                {
                    match &events[i] {
                        Ok(e) => {
                            r.push(Ok(e.clone()));
                        },
                        Err(e) => {
                            r.push(Err(e.clone()));
                        },
                    }
                    i += 1;
                }
                assert(stream_views(r@) =~= stream_views(events@));
                r
            },
        }
    }

    pub fn generate(&self) -> (r: GenerateResponse)
        ensures
            r.content@ == "Mock response"@,
            r.finish_reason@ == "stop"@,
            r.usage == (TokenUsage {
                prompt_tokens: 10,
                completion_tokens: 10,
                total_tokens: 20,
                cache_creation_input_tokens: None,
                cache_read_input_tokens: None,
                reasoning_tokens: None,
            }),
    {
        GenerateResponse {
            content: "Mock response".to_owned(),
            finish_reason: "stop".to_owned(),
            usage: TokenUsage {
                prompt_tokens: 10,
                completion_tokens: 10,
                total_tokens: 20,
                cache_creation_input_tokens: None,
                cache_read_input_tokens: None,
                reasoning_tokens: None,
            },
        }
    }
}

} // verus!
