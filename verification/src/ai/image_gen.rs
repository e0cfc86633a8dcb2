//! Image generation: the key check and the reading of the reply.
use crate::ai::config::AiConfig;
use crate::error::AppError;
use vstd::prelude::*;

verus! {

/// Image generation needs an image API key.
pub fn check_image_key(config: &AiConfig) -> (r: Result<(), AppError>)
    ensures
        (config.image_api_key@.len() == 0) <==> r is Err,
        r matches Err(e) ==> e matches AppError::InvalidArgument(m) && m@
            == "图片 API Key 未配置，请先在设置中填写"@,
{
    if config.image_api_key.as_str().is_empty() {
        return Err(AppError::InvalidArgument("图片 API Key 未配置，请先在设置中填写".to_owned()));
    }
    Ok(())
}

/// The URL of the generated image, which the reply must hold.
pub fn image_url(url: Option<&str>) -> (r: Result<String, AppError>)
    ensures
        match url {
            Some(u) => r matches Ok(s) && s@ == u@,
            None => r matches Err(AppError::Other(m)) && m@ == "图片响应中缺少 URL"@,
        },
{
    match url {
        Some(u) => {
            let mut s = String::new();
            s.append(u);
            Ok(s)
        },
        None => Err(AppError::Other("图片响应中缺少 URL".to_owned())),
    }
}

} // verus!
