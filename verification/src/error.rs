//! Win32 error codes and the error texts shown to the user.

use vstd::prelude::*;
use vstd::string::*;
use crate::text::{decimal, has_substring, contains_text, push_decimal};

verus! {

pub const WIN32_FACILITY_MASK: u32 = 0xFFFF_0000;
pub const WIN32_FACILITY: u32 = 0x8007_0000;
pub const ERROR_FILE_NOT_FOUND: u32 = 2;
pub const ERROR_ACCESS_DENIED: u32 = 5;
pub const ERROR_INVALID_PARAMETER: u32 = 87;
pub const ERROR_MORE_DATA: u32 = 234;
pub const ERROR_CONNECTION_UNAVAIL: u32 = 1201;
pub const ERROR_NO_NETWORK: u32 = 1222;
pub const ERROR_PRIVILEGE_NOT_HELD: u32 = 1314;
pub const ERROR_NOT_FOUND: u32 = 1168;
pub const ERROR_NOT_CONNECTED: u32 = 2250;
pub const CLASS_NOT_REGISTERED: u32 = 0x8004_0154;
pub const CLASS_NOT_REGISTERED_CODE: u32 = 0x0154;

/// A failure reported by Windows: its HRESULT and the message text that came with it.
pub struct WindowsError {
    pub code: i32,
    pub message: String,
}

/// The Win32 error code inside an HRESULT of the Win32 facility; any other value as it is.
pub open spec fn win32_code(hr: i32) -> u32 {
    let value = hr as u32;
    if value & WIN32_FACILITY_MASK == WIN32_FACILITY {
        value & 0xFFFF
    } else {
        value
    }
}

/// The codes that mean the user lacks the rights for the change.
pub open spec fn is_privilege_code(code: u32) -> bool {
    code == ERROR_ACCESS_DENIED || code == ERROR_PRIVILEGE_NOT_HELD
}

/// The codes that mean the target does not exist.
pub open spec fn is_not_found_code(code: u32) -> bool {
    code == ERROR_FILE_NOT_FOUND || code == ERROR_NOT_FOUND
}

/// The explanation shown for a Win32 error code.
pub open spec fn detail_text(code: u32) -> Seq<char> {
    if is_privilege_code(code) {
        "権限が不足しています。管理者として実行してください。"@
    } else if is_not_found_code(code) {
        "対象が見つかりません。"@
    } else {
        "エラーコード "@ + decimal(code as nat)
    }
}

/// `prefix: detail`.
pub open spec fn operation_error_text(prefix: Seq<char>, code: u32) -> Seq<char> {
    prefix + ": "@ + detail_text(code)
}

/// The text for a failure with HRESULT `hr` and message `message`: the fixed explanation for
/// missing rights, for a missing target, or when no message came; the message otherwise.
pub open spec fn windows_error_text(prefix: Seq<char>, hr: i32, message: Seq<char>) -> Seq<char> {
    let code = win32_code(hr);
    if is_privilege_code(code) || is_not_found_code(code) || message.len() == 0 {
        operation_error_text(prefix, code)
    } else {
        prefix + ": "@ + message
    }
}

/// A network that vanished or is not connected: such failures are skipped.
pub open spec fn is_skippable(hr: i32, message: Seq<char>) -> bool {
    let code = win32_code(hr);
    ||| code == ERROR_FILE_NOT_FOUND
    ||| code == ERROR_NOT_FOUND
    ||| code == ERROR_CONNECTION_UNAVAIL
    ||| code == ERROR_NO_NETWORK
    ||| code == ERROR_NOT_CONNECTED
    ||| has_substring(message, "does not exist"@)
}

/// The Win32 error code carried by an HRESULT.
pub fn win32_code_from_hresult(hr: i32) -> (code: u32)
    ensures
        code == win32_code(hr),
{
    let value = hr as u32;
    if value & WIN32_FACILITY_MASK == WIN32_FACILITY {
        value & 0xFFFF
    } else {
        value
    }
}

/// The explanation for a Win32 error code.
pub fn detail_for_win32(code: u32) -> (text: String)
    ensures
        text@ == detail_text(code),
{
    if code == ERROR_ACCESS_DENIED || code == ERROR_PRIVILEGE_NOT_HELD {
        String::from_str("権限が不足しています。管理者として実行してください。")
    } else if code == ERROR_FILE_NOT_FOUND || code == ERROR_NOT_FOUND {
        String::from_str("対象が見つかりません。")
    } else {
        let mut text = String::from_str("エラーコード ");
        push_decimal(&mut text, code as u64);
        text
    }
}

/// Whether a status is "class not registered", as an HRESULT or as its bare code.
pub fn is_class_not_registered(status: u32) -> (r: bool)
    ensures
        r == (status == CLASS_NOT_REGISTERED || status == CLASS_NOT_REGISTERED_CODE),
{
    status == CLASS_NOT_REGISTERED || status == CLASS_NOT_REGISTERED_CODE
}

/// `prefix: explanation of code`.
pub fn format_operation_error(prefix: &str, code: u32) -> (text: String)
    ensures
        text@ == operation_error_text(prefix@, code),
{
    let mut text = String::from_str(prefix);
    text.append(": ");
    let detail = detail_for_win32(code);
    text.append(detail.as_str());
    text
}

/// Whether a failure is one of a network that is gone or not connected.
pub fn is_skippable_network_error(error: &WindowsError) -> (r: bool)
    ensures
        r == is_skippable(error.code, error.message@),
{
    let code = win32_code_from_hresult(error.code);
    code == ERROR_FILE_NOT_FOUND || code == ERROR_NOT_FOUND || code == ERROR_CONNECTION_UNAVAIL
        || code == ERROR_NO_NETWORK || code == ERROR_NOT_CONNECTED
        || contains_text(error.message.as_str(), "does not exist")
}

/// The text shown for a failed operation `prefix`.
pub fn from_windows_error(prefix: &str, error: &WindowsError) -> (text: String)
    ensures
        text@ == windows_error_text(prefix@, error.code, error.message@),
{
    let code = win32_code_from_hresult(error.code);
    if code == ERROR_ACCESS_DENIED || code == ERROR_PRIVILEGE_NOT_HELD || code == ERROR_FILE_NOT_FOUND
        || code == ERROR_NOT_FOUND {
        format_operation_error(prefix, code)
    } else if error.message.as_str().unicode_len() == 0 {
        format_operation_error(prefix, code)
    } else {
        let mut text = String::from_str(prefix);
        text.append(": ");
        text.append(error.message.as_str());
        text
    }
}


/// The HRESULT of a Win32 error code: the code itself when it is 0 or reads as a negative
/// number, otherwise its low 16 bits in the Win32 facility with the failure bit set.
pub open spec fn hresult_of_win32(code: u32) -> i32 {
    if (code as i32) <= 0 {
        code as i32
    } else {
        ((code & 0xFFFF) | 0x8007_0000) as i32
    }
}

/// The HRESULT of a Win32 error code (as `HRESULT::from_win32` of the windows crate).
pub fn hresult_from_win32(code: u32) -> (hr: i32)
    ensures
        hr == hresult_of_win32(code),
{
    if (code as i32) <= 0 {
        code as i32
    } else {
        ((code & 0xFFFF) | 0x8007_0000) as i32
    }
}

/// A Win32 error code survives the trip through its HRESULT.
pub proof fn lemma_win32_code_round_trip(code: u32)
    requires
        0 < code <= 0xFFFF,
    ensures
        win32_code(hresult_of_win32(code)) == code,
{
    assert((code as i32) > 0) by (bit_vector)
        requires
            0 < code <= 0xFFFF,
    ;
    assert((((code & 0xFFFF) | 0x8007_0000) as i32) as u32 & 0xFFFF_0000 == 0x8007_0000) by (bit_vector);
    assert((((code & 0xFFFF) | 0x8007_0000) as i32) as u32 & 0xFFFF == code) by (bit_vector)
        requires
            code <= 0xFFFF,
    ;
}

/// The text shown for a failed operation `prefix` that Windows reported with the Win32 error
/// `code`, whose system message is `message`. For missing rights or a missing target it is the
/// fixed explanation; otherwise it is the message, or the fixed explanation when there is none.
pub fn from_win32_error(prefix: &str, code: u32, message: &str) -> (text: String)
    ensures
        text@ == windows_error_text(prefix@, hresult_of_win32(code), message@),
        is_privilege_code(code) || is_not_found_code(code) ==> text@ == operation_error_text(prefix@, code),
{
    let hr = hresult_from_win32(code);
    let error = WindowsError { code: hr, message: String::from_str(message) };
    let text = from_windows_error(prefix, &error);
    proof {
        if is_privilege_code(code) || is_not_found_code(code) {
            lemma_win32_code_round_trip(code);
        }
    }
    text
}


/// `prefix: detail`, for failures described by a text of their own.
pub fn prefixed_error(prefix: &str, detail: &str) -> (text: String)
    ensures
        text@ == prefix@ + ": "@ + detail@,
{
    let mut text = String::from_str(prefix);
    text.append(": ");
    text.append(detail);
    text
}

/// The first failure among steps that were all carried out.
pub open spec fn first_failure_of(results: Seq<Result<(), String>>) -> Option<Seq<char>>
    decreases results.len(),
{
    if results.len() == 0 {
        None
    } else {
        match results[0] {
            Err(e) => Some(e@),
            Ok(_) => first_failure_of(results.drop_first()),
        }
    }
}

/// The outcome of steps that were all carried out in order: success when every one succeeded,
/// the first failure otherwise.
pub fn first_failure(results: &Vec<Result<(), String>>) -> (r: Result<(), String>)
    ensures
        r is Ok <==> forall|i: int| 0 <= i < results@.len() ==> (#[trigger] results@[i]) is Ok,
        r is Ok <==> first_failure_of(results@) is None,
        r matches Err(e) ==> first_failure_of(results@) == Some(e@),
{
    let mut i: usize = 0;
    assert(results@.skip(0) == results@);
    while i < results.len()
        invariant
            i <= results@.len(),
            forall|k: int| 0 <= k < i ==> (#[trigger] results@[k]) is Ok,
            first_failure_of(results@) == first_failure_of(results@.skip(i as int)),
        decreases results@.len() - i,
    {
        assert(results@.skip(i as int)[0] == results@[i as int]);
        match &results[i] {
            Err(e) => {
                return Err(e.clone());
            },
            Ok(_) => {
                assert(results@.skip(i as int).drop_first() == results@.skip(i + 1));
            },
        }
        i = i + 1;
    }
    assert(results@.skip(i as int).len() == 0);
    Ok(())
}

/// The next step of a sequence of steps carried out in order.
pub enum SequenceStep {
    /// Carry out the step at this index.
    Run(usize),
    /// Stop, with this outcome.
    Finished(Result<(), String>),
}

/// The step after `done` of `count` steps were carried out, the last of them with outcome
/// `last` (`Ok` before the first): a failure stops the sequence at once and is its outcome;
/// otherwise the next step runs, and once all have run the outcome is success.
pub fn sequence_step(done: usize, count: usize, last: Result<(), String>) -> (step: SequenceStep)
    requires
        done <= count,
    ensures
        match last {
            Err(e) => step matches SequenceStep::Finished(Err(f)) && f@ == e@,
            Ok(()) => if done < count {
                step matches SequenceStep::Run(i) && i == done
            } else {
                step matches SequenceStep::Finished(Ok(()))
            },
        },
{
    match last {
        Err(e) => SequenceStep::Finished(Err(e)),
        Ok(()) => {
            if done < count {
                SequenceStep::Run(done)
            } else {
                SequenceStep::Finished(Ok(()))
            }
        },
    }
}

} // verus!
