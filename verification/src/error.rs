//! The error type of the library.

use vstd::prelude::*;
use vstd::string::StringExecFns;
use crate::text::{decimal, spec_decimal};

verus! {

/// What can go wrong while a site is generated.
#[derive(Debug, Clone, PartialEq, Eq)]
pub enum Error {
    /// Reading or writing a file failed.
    Io(String),
    /// A configuration or build-state file could not be used.
    Config(String),
    /// A template could not be rendered.
    Template(String),
    /// A document's markup could not be parsed.
    Markdown(String),
    /// A front-matter block is not valid YAML.
    Yaml(String),
    /// A value could not be written as JSON.
    Json(String),
    /// A file is not valid TOML.
    Toml(String),
    /// The preview server failed.
    Server(String),
    /// A page number outside `1..=total_pages` was asked for.
    InvalidPage { page: usize, total_pages: usize },
    /// Anything else.
    Other(String),
}

impl Error {
    /// The text that `message` returns.
    pub open spec fn spec_message(self) -> Seq<char> {
        match self {
            Error::Io(m) => "IO 错误: "@ + m@,
            Error::Config(m) => "配置错误: "@ + m@,
            Error::Template(m) => "模板错误: "@ + m@,
            Error::Markdown(m) => "Markdown 解析错误: "@ + m@,
            Error::Yaml(m) => "YAML 解析错误: "@ + m@,
            Error::Json(m) => "JSON 序列化错误: "@ + m@,
            Error::Toml(m) => "TOML 解析错误: "@ + m@,
            Error::Server(m) => "服务器错误: "@ + m@,
            Error::InvalidPage { page, total_pages } => "错误: 无效的页码: "@ + spec_decimal(
                page as nat,
            ) + "，总页数: "@ + spec_decimal(total_pages as nat),
            Error::Other(m) => "错误: "@ + m@,
        }
    }

    /// The error as a line of text for the user.
    pub fn message(&self) -> (text: String)
        ensures
            text@ == self.spec_message(),
    {
        match self {
            Error::Io(m) => prefixed("IO 错误: ", m),
            Error::Config(m) => prefixed("配置错误: ", m),
            Error::Template(m) => prefixed("模板错误: ", m),
            Error::Markdown(m) => prefixed("Markdown 解析错误: ", m),
            Error::Yaml(m) => prefixed("YAML 解析错误: ", m),
            Error::Json(m) => prefixed("JSON 序列化错误: ", m),
            Error::Toml(m) => prefixed("TOML 解析错误: ", m),
            Error::Server(m) => prefixed("服务器错误: ", m),
            Error::InvalidPage { page, total_pages } => {
                let mut text = String::from_str("错误: 无效的页码: ");
                let p = decimal(*page);
                text.append(p.as_str());
                text.append("，总页数: ");
                let t = decimal(*total_pages);
                text.append(t.as_str());
                text
            },
            Error::Other(m) => prefixed("错误: ", m),
        }
    }
}

fn prefixed(prefix: &str, rest: &String) -> (text: String)
    ensures
        text@ == prefix@ + rest@,
{
    let mut text = String::from_str(prefix);
    text.append(rest.as_str());
    text
}

} // verus!
