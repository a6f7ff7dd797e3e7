//! The ways a migration step can fail.
use vstd::prelude::*;
use crate::text::{push_str, string_of};

verus! {

/// A failed step of a migration, with the detail the failing collaborator gave.
#[derive(Clone, Debug, PartialEq, Eq)]
pub enum NotionToObsidianError {
    NoToken,
    BlockRetrievalError(String),
    PageRetrievalError(String),
    ConversionError(String),
    FileWriteError(String),
    EnvVarError(String),
}

/// The message shown for an error: a fixed sentence, then `: ` and the detail.
pub open spec fn error_message(e: NotionToObsidianError) -> Seq<char> {
    match e {
        NotionToObsidianError::NoToken => "APIトークンが設定されていません"@,
        NotionToObsidianError::BlockRetrievalError(d) => "Notionのブロックの取得に失敗しました: "@ + d@,
        NotionToObsidianError::PageRetrievalError(d) => "Notionのページの取得に失敗しました: "@ + d@,
        NotionToObsidianError::ConversionError(d) => "変換処理に失敗しました: "@ + d@,
        NotionToObsidianError::FileWriteError(d) => "ファイルの書き込みに失敗しました: "@ + d@,
        NotionToObsidianError::EnvVarError(d) => "環境変数が設定されていません: "@ + d@,
    }
}

impl NotionToObsidianError {
    /// The message shown for this error.
    pub fn message(&self) -> (r: String)
        ensures
            r@ == error_message(*self),
    {
        let mut out: Vec<char> = Vec::new();
        match self {
            NotionToObsidianError::NoToken => push_str(&mut out, "APIトークンが設定されていません"),
            NotionToObsidianError::BlockRetrievalError(d) => {
                push_str(&mut out, "Notionのブロックの取得に失敗しました: ");
                push_str(&mut out, d.as_str());
            },
            NotionToObsidianError::PageRetrievalError(d) => {
                push_str(&mut out, "Notionのページの取得に失敗しました: ");
                push_str(&mut out, d.as_str());
            },
            NotionToObsidianError::ConversionError(d) => {
                push_str(&mut out, "変換処理に失敗しました: ");
                push_str(&mut out, d.as_str());
            },
            NotionToObsidianError::FileWriteError(d) => {
                push_str(&mut out, "ファイルの書き込みに失敗しました: ");
                push_str(&mut out, d.as_str());
            },
            NotionToObsidianError::EnvVarError(d) => {
                push_str(&mut out, "環境変数が設定されていません: ");
                push_str(&mut out, d.as_str());
            },
        }
        assert(out@ =~= error_message(*self));
        string_of(out.as_slice())
    }
}

} // verus!
