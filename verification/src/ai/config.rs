//! Settings of the AI services (text, image and video generation).
use vstd::prelude::*;

verus! {

/// Endpoints, models and keys of the AI services.
#[derive(Debug)]
pub struct AiConfig {
    pub llm_api_key: String,
    pub llm_api_url: String,
    pub llm_model: String,
    pub image_api_key: String,
    pub image_api_url: String,
    pub image_model: String,
    pub video_api_key: String,
    pub video_api_url: String,
    pub video_model: String,
}

impl AiConfig {
    /// An identical copy.
    pub fn copy(&self) -> (c: AiConfig)
        ensures
            c == *self,
    {
        AiConfig {
            llm_api_key: self.llm_api_key.clone(),
            llm_api_url: self.llm_api_url.clone(),
            llm_model: self.llm_model.clone(),
            image_api_key: self.image_api_key.clone(),
            image_api_url: self.image_api_url.clone(),
            image_model: self.image_model.clone(),
            video_api_key: self.video_api_key.clone(),
            video_api_url: self.video_api_url.clone(),
            video_model: self.video_model.clone(),
        }
    }
}

impl Default for AiConfig {
    /// OpenAI endpoints and models, no keys, no video service.
    fn default() -> (c: AiConfig)
        ensures
            c.llm_api_key@ == Seq::<char>::empty(),
            c.llm_api_url@ == "https://api.openai.com/v1/chat/completions"@,
            c.llm_model@ == "gpt-4o-mini"@,
            c.image_api_key@ == Seq::<char>::empty(),
            c.image_api_url@ == "https://api.openai.com/v1/images/generations"@,
            c.image_model@ == "dall-e-3"@,
            c.video_api_key@ == Seq::<char>::empty(),
            c.video_api_url@ == Seq::<char>::empty(),
            c.video_model@ == Seq::<char>::empty(),
    {
        AiConfig {
            llm_api_key: String::new(),
            llm_api_url: "https://api.openai.com/v1/chat/completions".to_owned(),
            llm_model: "gpt-4o-mini".to_owned(),
            image_api_key: String::new(),
            image_api_url: "https://api.openai.com/v1/images/generations".to_owned(),
            image_model: "dall-e-3".to_owned(),
            video_api_key: String::new(),
            video_api_url: String::new(),
            video_model: String::new(),
        }
    }
}

} // verus!
