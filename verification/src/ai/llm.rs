//! Title and narration-script generation with a chat-completion service:
//! the prompts, the key check and the reading of the reply.
use crate::ai::config::AiConfig;
use crate::error::AppError;
use crate::text::{trim, trim_str};
use vstd::prelude::*;

verus! {

/// The instruction that asks for three titles.
pub open spec fn title_instruction() -> Seq<char> {
    "根据以下视频内容描述，生成3个吸引人的短视频标题，每个标题不超过20字，直接输出标题列表，每行一个，不要编号和多余解释：\n"@
}

/// The instruction that asks for a 30-second narration script.
pub open spec fn script_instruction() -> Seq<char> {
    "根据以下主题，写一段30秒短视频的中文旁白文案，风格生动有趣，适合口语朗读，字数约150字，直接输出文案内容不要多余解释：\n"@
}

/// The message of the error for a missing LLM key.
pub open spec fn missing_llm_key() -> Seq<char> {
    "LLM API Key 未配置，请先在设置中填写"@
}

fn check_llm_key(config: &AiConfig) -> (r: Result<(), AppError>)
    ensures
        (config.llm_api_key@.len() == 0) <==> r is Err,
        r matches Err(e) ==> e matches AppError::InvalidArgument(m) && m@ == missing_llm_key(),
{
    if config.llm_api_key.as_str().is_empty() {
        return Err(AppError::InvalidArgument("LLM API Key 未配置，请先在设置中填写".to_owned()));
    }
    Ok(())
}

/// The prompt of `generate_title`: refused without an LLM key.
pub fn title_prompt(description: &str, config: &AiConfig) -> (r: Result<String, AppError>)
    ensures
        (config.llm_api_key@.len() == 0) <==> r is Err,
        r matches Err(e) ==> e matches AppError::InvalidArgument(m) && m@ == missing_llm_key(),
        r matches Ok(p) ==> p@ == title_instruction() + description@,
{
    check_llm_key(config)?;
    let mut p = String::new();
    p.append("根据以下视频内容描述，生成3个吸引人的短视频标题，每个标题不超过20字，直接输出标题列表，每行一个，不要编号和多余解释：\n");
    p.append(description);
    Ok(p)
}

/// The prompt of `generate_script`: refused without an LLM key.
pub fn script_prompt(description: &str, config: &AiConfig) -> (r: Result<String, AppError>)
    ensures
        (config.llm_api_key@.len() == 0) <==> r is Err,
        r matches Err(e) ==> e matches AppError::InvalidArgument(m) && m@ == missing_llm_key(),
        r matches Ok(p) ==> p@ == script_instruction() + description@,
{
    check_llm_key(config)?;
    let mut p = String::new();
    p.append("根据以下主题，写一段30秒短视频的中文旁白文案，风格生动有趣，适合口语朗读，字数约150字，直接输出文案内容不要多余解释：\n");
    p.append(description);
    Ok(p)
}

/// The value of the `Authorization` header for an API key.
pub fn bearer(key: &str) -> (h: String)
    ensures
        h@ == "Bearer "@ + key@,
{
    let mut h = String::new();
    h.append("Bearer ");
    h.append(key);
    h
}

/// The error for an API that answered with a failure status.
pub fn api_error(service: &str, status: &str, body: &str) -> (e: AppError)
    ensures
        e matches AppError::Other(m) && m@ == service@ + " API 返回错误 ("@ + status@ + "): "@ + body@,
{
    let mut m = String::new();
    m.append(service);
    m.append(" API 返回错误 (");
    m.append(status);
    m.append("): ");
    m.append(body);
    AppError::Other(m)
}

/// The text of a chat reply: the message content, trimmed; a missing or
/// blank content is an error.
pub fn llm_reply_text(content: Option<&str>) -> (r: Result<String, AppError>)
    ensures
        match content {
            Some(c) => if trim(c@).len() > 0 {
                r matches Ok(t) && t@ == trim(c@)
            } else {
                r matches Err(AppError::Other(m)) && m@ == "LLM 返回空内容"@
            },
            None => r matches Err(AppError::Other(m)) && m@ == "LLM 返回空内容"@,
        },
{
    let text = match content {
        Some(c) => trim_str(c),
        None => String::new(),
    };
    if text.as_str().is_empty() {
        return Err(AppError::Other("LLM 返回空内容".to_owned()));
    }
    Ok(text)
}

} // verus!
