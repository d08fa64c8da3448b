//! The request that asks a chat model for a review, and the part of its
//! answer that holds the review.

use vstd::prelude::*;

verus! {

/// Where chat requests are sent.
pub const CHAT_ENDPOINT: &'static str = "https://api.openai.com/v1/chat/completions";

/// One message of a chat.
#[derive(Debug)]
pub struct Message {
    pub role: String,
    pub content: String,
}

/// The form in which the model is asked to answer.
#[derive(Debug)]
pub struct ResponseFormat {
    pub kind: String,
}

/// A request for one completion.
#[derive(Debug)]
pub struct ChatRequest {
    pub model: String,
    pub messages: Vec<Message>,
    pub response_format: Option<ResponseFormat>,
}

/// Access to a chat model: which model, and the key that pays for it.
pub struct OpenAI {
    model: String,
    api_key: String,
}

impl OpenAI {
    /// The name of the model that is asked.
    pub closed spec fn model_name(&self) -> Seq<char> {
        self.model@
    }

    /// The key that authorises the requests.
    pub closed spec fn key(&self) -> Seq<char> {
        self.api_key@
    }

    /// Access to `model` under `api_key`.
    pub fn new(api_key: String, model: String) -> (client: OpenAI)
        ensures
            client.model_name() == model@,
            client.key() == api_key@,
    {
        OpenAI { model, api_key }
    }

    /// The name of the model that is asked.
    pub fn model(&self) -> (model: &str)
        ensures
            model@ == self.model_name(),
    {
        self.model.as_str()
    }

    /// The value of the header that authorises a request.
    pub fn authorization(&self) -> (header: String)
        ensures
            header@ == "Bearer "@ + self.key(),
    {
        let mut header = String::from_str("Bearer ");
        header.append(self.api_key.as_str());
        header
    }

    /// The request that puts `prompt` to the model as the user's only
    /// message and asks for a JSON object in return.
    pub fn chat_request(&self, prompt: &str) -> (request: ChatRequest)
        ensures
            request.model@ == self.model_name(),
            request.messages@.len() == 1,
            request.messages@[0].role@ == "user"@,
            request.messages@[0].content@ == prompt@,
            request.response_format matches Some(format) && format.kind@ == "json_object"@,
    {
        let mut messages: Vec<Message> = Vec::new();
        messages.push(Message { role: String::from_str("user"), content: String::from_str(prompt) });
        ChatRequest {
            model: self.model.clone(),
            messages,
            response_format: Some(ResponseFormat { kind: String::from_str("json_object") }),
        }
    }
}

/// The text of the first of the completions that the model offers.
pub fn first_choice(choices: Vec<String>) -> (content: Option<String>)
    ensures
        choices@.len() == 0 ==> content is None,
        choices@.len() > 0 ==> content == Some(choices@[0]),
{
    let mut choices = choices;
    if choices.len() == 0 {
        None
    } else {
        Some(choices.swap_remove(0))
    }
}

} // verus!
