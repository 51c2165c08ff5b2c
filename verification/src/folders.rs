//! Folder paths: the known Downloads folder and joining names onto a Windows path.

use vstd::prelude::*;
use vstd::string::*;
use crate::winpath::{has_drive_prefix, is_separator};

verus! {

/// The text prefix when the Downloads folder cannot be removed.
pub const DOWNLOADS_OPERATION: &'static str = "ダウンロードディレクトリの削除に失敗しました";
/// The text prefix when the Downloads folder cannot be made again after removing it.
pub const DOWNLOADS_RECREATE_OPERATION: &'static str = "ダウンロードディレクトリの再作成に失敗しました";

/// The text given when the Downloads folder cannot be determined.
pub open spec fn missing_downloads_text() -> Seq<char> {
    "ダウンロードフォルダのパスを取得できませんでした。"@
}

/// The known folder when Windows reported a non-empty path; an error otherwise.
pub fn prefer_known_folder(known: Option<String>) -> (r: Result<String, String>)
    ensures
        match known {
            Some(p) => if p@.len() > 0 {
                r matches Ok(q) && q@ == p@
            } else {
                r matches Err(e) && e@ == missing_downloads_text()
            },
            None => r matches Err(e) && e@ == missing_downloads_text(),
        },
{
    match known {
        Some(p) => {
            if p.as_str().unicode_len() > 0 {
                Ok(p)
            } else {
                Err(String::from_str("ダウンロードフォルダのパスを取得できませんでした。"))
            }
        },
        None => Err(String::from_str("ダウンロードフォルダのパスを取得できませんでした。")),
    }
}

/// `base` with the relative name `name` appended as its last component, separated by `\`
/// unless `base` is empty, already ends with a separator, or is a bare drive such as `C:`.
pub open spec fn joined_path(base: Seq<char>, name: Seq<char>) -> Seq<char> {
    if base.len() == 0 || is_separator(base.last()) || (base.len() == 2 && has_drive_prefix(base)) {
        base + name
    } else {
        base + seq!['\\'] + name
    }
}

/// Appends the relative name `name` to the Windows path `base`.
pub fn join_path(base: &str, name: &str) -> (p: String)
    ensures
        p@ == joined_path(base@, name@),
{
    let n = base.unicode_len();
    let mut p = String::from_str(base);
    if n > 0 {
        let last = base.get_char(n - 1);
        let bare_drive = n == 2 && last == ':' && {
            let u: u32 = base.get_char(0) as u32;
            (65 <= u && u <= 90) || (97 <= u && u <= 122)
        };
        if last != '\\' && last != '/' && !bare_drive {
            p.append("\\");
            proof {
                reveal_strlit("\\");
            }
        }
    }
    p.append(name);
    p
}

} // verus!
