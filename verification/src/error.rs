//! The library's error type.
use vstd::prelude::*;

verus! {

/// What can go wrong while mixing a video.
#[derive(Debug)]
pub enum AppError {
    /// An ffmpeg / ffprobe invocation failed.
    Ffmpeg(String),
    /// Speech synthesis failed.
    Tts(String),
    /// A scene, template or file was not found.
    NotFound(String),
    /// A request was malformed.
    InvalidArgument(String),
    /// A file-system operation failed; holds the operating system's message.
    Io(String),
    /// Anything else.
    Other(String),
}

impl AppError {
    /// The user-facing text of an error (what the front end shows).
    pub open spec fn text(self) -> Seq<char> {
        match self {
            AppError::Ffmpeg(m) => "ffmpeg 调用失败: "@ + m@,
            AppError::Tts(m) => "TTS 失败: "@ + m@,
            AppError::NotFound(m) => "找不到资源: "@ + m@,
            AppError::InvalidArgument(m) => "参数无效: "@ + m@,
            AppError::Io(m) => "IO 错误: "@ + m@,
            AppError::Other(m) => "其他: "@ + m@,
        }
    }

    /// Renders the error for the front end.
    pub fn to_text(&self) -> (s: String)
        ensures
            s@ == self.text(),
    {
        let mut s = String::new();
        match self {
            AppError::Ffmpeg(m) => {
                s.append("ffmpeg 调用失败: ");
                s.append(m.as_str());
            },
            AppError::Tts(m) => {
                s.append("TTS 失败: ");
                s.append(m.as_str());
            },
            AppError::NotFound(m) => {
                s.append("找不到资源: ");
                s.append(m.as_str());
            },
            AppError::InvalidArgument(m) => {
                s.append("参数无效: ");
                s.append(m.as_str());
            },
            AppError::Io(m) => {
                s.append("IO 错误: ");
                s.append(m.as_str());
            },
            AppError::Other(m) => {
                s.append("其他: ");
                s.append(m.as_str());
            },
        }
        s
    }
}

} // verus!
