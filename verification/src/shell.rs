//! Opening the Google sign-out page, and running the program again as administrator.

use vstd::prelude::*;
use vstd::string::*;
use crate::text::{push_signed_decimal, signed_decimal};

verus! {

pub const OPERATION: &'static str = "Chromeのログアウトに失敗しました";
pub const GOOGLE_LOGOUT_URL: &'static str = "http://accounts.google.com/logout";
pub const RELAUNCH_OPERATION: &'static str = "管理者としての再起動に失敗しました";

/// `ShellExecuteW` reports failure with a value of at most 32, read as unsigned.
pub open spec fn shell_execute_failed_spec(result: isize) -> bool {
    (result as usize) <= 32
}

/// Whether `ShellExecuteW` failed.
pub fn shell_execute_failed(result: isize) -> (r: bool)
    ensures
        r == shell_execute_failed_spec(result),
{
    (result as usize) <= 32
}

/// The error when the browser could not be started, with the code `ShellExecuteW` gave.
pub fn logout_chrome_error(result: isize) -> (text: String)
    ensures
        text@ == OPERATION@ + ": 既定ブラウザの起動に失敗しました (コード "@ + signed_decimal(result as int) + ")"@,
{
    let mut text = String::from_str(OPERATION);
    text.append(": 既定ブラウザの起動に失敗しました (コード ");
    push_signed_decimal(&mut text, result as i64);
    text.append(")");
    text
}

/// The error when the elevation request was refused or the program did not start.
pub fn relaunch_refused_error() -> (text: String)
    ensures
        text@ == RELAUNCH_OPERATION@ + ": 管理者権限の要求が拒否されたか、起動に失敗しました。"@,
{
    let mut text = String::from_str(RELAUNCH_OPERATION);
    text.append(": 管理者権限の要求が拒否されたか、起動に失敗しました。");
    text
}

} // verus!
