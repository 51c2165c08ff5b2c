//! Registry writes as data, the byte encodings of registry values, and the reading of a
//! string value back from its bytes.

use vstd::prelude::*;
use vstd::string::*;
use crate::text::{
    is_utf16, lemma_decimal_digits, lemma_until_nul_prefix, lemma_units_from_le_bytes, lemma_utf16_injective,
    lemma_utf16_no_zero_unit, decimal, encode_utf16, le_bytes_u16, le_units_until_nul, push_decimal, string_from_utf16,
    units_from_le, units_to_le_bytes, until_nul, utf16_encode,
};

verus! {

pub const REG_SZ: u32 = 1;
pub const REG_DWORD: u32 = 4;
pub const ERROR_SUCCESS: u32 = 0;
pub const ERROR_FILE_NOT_FOUND: u32 = 2;

/// The registry hive a write goes to.
#[derive(Clone, Copy, Debug, PartialEq, Eq)]
pub enum RegistryRoot {
    CurrentUser,
    LocalMachine,
}

/// The data of a registry value.
pub enum RegistryData {
    Dword(u32),
    Sz(String),
}

/// The model of a value's data.
pub enum RegistryDataView {
    Dword(u32),
    Sz(Seq<char>),
}

impl View for RegistryData {
    type V = RegistryDataView;

    open spec fn view(&self) -> RegistryDataView {
        match self {
            RegistryData::Dword(v) => RegistryDataView::Dword(*v),
            RegistryData::Sz(s) => RegistryDataView::Sz(s@),
        }
    }
}

/// One value to set: the key is created when it does not exist.
pub struct RegistryWrite {
    pub root: RegistryRoot,
    pub subkey: String,
    pub name: String,
    pub data: RegistryData,
}

/// The model of one value to set.
pub struct RegistryWriteView {
    pub root: RegistryRoot,
    pub subkey: Seq<char>,
    pub name: Seq<char>,
    pub data: RegistryDataView,
}

impl View for RegistryWrite {
    type V = RegistryWriteView;

    open spec fn view(&self) -> RegistryWriteView {
        RegistryWriteView { root: self.root, subkey: self.subkey@, name: self.name@, data: self.data@ }
    }
}

/// Registry values to set in order, stopping at the first failure, which is reported under
/// `operation` (see `error::sequence_step`).
pub struct RegistryTask {
    pub operation: String,
    pub writes: Vec<RegistryWrite>,
}

/// The model of a task: its operation text and its writes.
pub struct RegistryTaskView {
    pub operation: Seq<char>,
    pub writes: Seq<RegistryWriteView>,
}

impl View for RegistryTask {
    type V = RegistryTaskView;

    open spec fn view(&self) -> RegistryTaskView {
        RegistryTaskView { operation: self.operation@, writes: self.writes@.map_values(|w: RegistryWrite| w@) }
    }
}

/// A DWORD value to set.
pub open spec fn dword_write(root: RegistryRoot, subkey: Seq<char>, name: Seq<char>, value: u32) -> RegistryWriteView {
    RegistryWriteView { root, subkey, name, data: RegistryDataView::Dword(value) }
}

/// A string value to set.
pub open spec fn sz_write(root: RegistryRoot, subkey: Seq<char>, name: Seq<char>, value: Seq<char>) -> RegistryWriteView {
    RegistryWriteView { root, subkey, name, data: RegistryDataView::Sz(value) }
}

/// A DWORD value under the current user's hive.
pub fn hkcu_dword(subkey: &str, name: &str, value: u32) -> (w: RegistryWrite)
    ensures
        w@ == dword_write(RegistryRoot::CurrentUser, subkey@, name@, value),
{
    RegistryWrite {
        root: RegistryRoot::CurrentUser,
        subkey: String::from_str(subkey),
        name: String::from_str(name),
        data: RegistryData::Dword(value),
    }
}

/// A DWORD value under the local machine's hive.
pub fn hklm_dword(subkey: &str, name: &str, value: u32) -> (w: RegistryWrite)
    ensures
        w@ == dword_write(RegistryRoot::LocalMachine, subkey@, name@, value),
{
    RegistryWrite {
        root: RegistryRoot::LocalMachine,
        subkey: String::from_str(subkey),
        name: String::from_str(name),
        data: RegistryData::Dword(value),
    }
}

/// A string value under the current user's hive.
pub fn hkcu_sz(subkey: &str, name: &str, value: &str) -> (w: RegistryWrite)
    ensures
        w@ == sz_write(RegistryRoot::CurrentUser, subkey@, name@, value@),
{
    RegistryWrite {
        root: RegistryRoot::CurrentUser,
        subkey: String::from_str(subkey),
        name: String::from_str(name),
        data: RegistryData::Sz(String::from_str(value)),
    }
}

/// A DWORD value under a fixed key.
pub struct RegistryDwordValue {
    pub subkey: &'static str,
    pub name: &'static str,
    pub value: u32,
}

/// The two values that turn off the notification center and toasts for the current user.
pub open spec fn notification_settings() -> Seq<(Seq<char>, Seq<char>, u32)> {
    seq![
        ("Software\\Policies\\Microsoft\\Windows\\Explorer"@, "DisableNotificationCenter"@, 1u32),
        ("Software\\Microsoft\\Windows\\CurrentVersion\\PushNotifications"@, "ToastEnabled"@, 0u32),
    ]
}

/// The values that turn off Windows notifications.
pub fn notification_values() -> (values: Vec<RegistryDwordValue>)
    ensures
        values@.len() == notification_settings().len(),
        forall|i: int| 0 <= i < values@.len() ==> (#[trigger] values@[i]).subkey@ == notification_settings()[i].0
            && values@[i].name@ == notification_settings()[i].1 && values@[i].value == notification_settings()[i].2,
{
    let mut values: Vec<RegistryDwordValue> = Vec::new();
    values.push(RegistryDwordValue {
        subkey: "Software\\Policies\\Microsoft\\Windows\\Explorer",
        name: "DisableNotificationCenter",
        value: 1,
    });
    values.push(RegistryDwordValue {
        subkey: "Software\\Microsoft\\Windows\\CurrentVersion\\PushNotifications",
        name: "ToastEnabled",
        value: 0,
    });
    values
}

/// Shown with the notification change: it may take effect only after a restart.
pub const RESTART_HINT: &'static str =
    "設定の反映にはエクスプローラーの再起動、サインアウト、または再起動が必要な場合があります。";

/// Turning off notifications: each notification value as a DWORD under the current user.
pub fn disable_windows_notifications() -> (task: RegistryTask)
    ensures
        task@.operation == "通知センターの無効化に失敗しました"@,
        task@.writes.len() == notification_settings().len(),
        forall|i: int| 0 <= i < task@.writes.len() ==> #[trigger] task@.writes[i] == dword_write(
            RegistryRoot::CurrentUser,
            notification_settings()[i].0,
            notification_settings()[i].1,
            notification_settings()[i].2,
        ),
{
    let values = notification_values();
    let mut writes: Vec<RegistryWrite> = Vec::new();
    let mut i: usize = 0;
    while i < values.len()
        invariant
            i <= values@.len(),
            values@.len() == notification_settings().len(),
            forall|k: int| 0 <= k < values@.len() ==> (#[trigger] values@[k]).subkey@ == notification_settings()[k].0
                && values@[k].name@ == notification_settings()[k].1 && values@[k].value == notification_settings()[k].2,
            writes@.len() == i,
            forall|k: int| 0 <= k < i ==> (#[trigger] writes@[k])@ == dword_write(
                RegistryRoot::CurrentUser,
                notification_settings()[k].0,
                notification_settings()[k].1,
                notification_settings()[k].2,
            ),
        decreases values@.len() - i,
    {
        let v = &values[i];
        writes.push(hkcu_dword(v.subkey, v.name, v.value));
        i = i + 1;
    }
    RegistryTask { operation: String::from_str("通知センターの無効化に失敗しました"), writes }
}

/// The four little-endian bytes of a DWORD.
pub open spec fn dword_le(value: u32) -> Seq<u8> {
    seq![
        (value % 256) as u8,
        ((value / 256) % 256) as u8,
        ((value / 65536) % 256) as u8,
        (value / 16777216) as u8,
    ]
}

/// The number held by four little-endian bytes.
pub open spec fn le_dword(bytes: Seq<u8>) -> int {
    bytes[0] + 256 * bytes[1] + 65536 * bytes[2] + 16777216 * bytes[3]
}

/// The bytes stored for a DWORD value.
pub fn dword_bytes(value: u32) -> (bytes: Vec<u8>)
    ensures
        bytes@ == dword_le(value),
{
    let mut bytes: Vec<u8> = Vec::new();
    bytes.push((value % 256) as u8);
    bytes.push(((value / 256) % 256) as u8);
    bytes.push(((value / 65536) % 256) as u8);
    bytes.push((value / 16777216) as u8);
    bytes
}

/// The bytes stored for a string value: UTF-16, little-endian, with a terminating zero unit.
pub open spec fn sz_le(value: Seq<char>) -> Seq<u8> {
    le_bytes_u16(utf16_encode(value).push(0u16))
}

/// The bytes stored for a string value.
pub fn sz_bytes(value: &str) -> (bytes: Vec<u8>)
    ensures
        bytes@ == sz_le(value@),
{
    let mut units = encode_utf16(value);
    units.push(0);
    units_to_le_bytes(&units)
}

/// The value type and the bytes to store for the data of a write.
pub fn value_bytes(data: &RegistryData) -> (r: (u32, Vec<u8>))
    ensures
        match data@ {
            RegistryDataView::Dword(v) => r.0 == REG_DWORD && r.1@ == dword_le(v),
            RegistryDataView::Sz(s) => r.0 == REG_SZ && r.1@ == sz_le(s),
        },
{
    match data {
        RegistryData::Dword(v) => (REG_DWORD, dword_bytes(*v)),
        RegistryData::Sz(s) => (REG_SZ, sz_bytes(s.as_str())),
    }
}

/// A value that is removed counts as removed also when it was not there.
pub fn delete_succeeded(status: u32) -> (r: bool)
    ensures
        r == (status == ERROR_SUCCESS || status == ERROR_FILE_NOT_FOUND),
{
    status == ERROR_SUCCESS || status == ERROR_FILE_NOT_FOUND
}

/// The data that replaces an existing numeric setting, by the type the value already has: a
/// DWORD stays a DWORD, a string gets the decimal digits; any other type, or no value, is left
/// alone.
pub open spec fn existing_number_data(value_type: Option<u32>, value: u32) -> Option<(u32, Seq<u8>)> {
    match value_type {
        Some(t) => if t == REG_DWORD {
            Some((REG_DWORD, dword_le(value)))
        } else if t == REG_SZ {
            Some((REG_SZ, sz_le(decimal(value as nat))))
        } else {
            None
        },
        None => None,
    }
}

/// The data to write over an existing numeric setting of type `value_type`.
pub fn existing_number_bytes(value_type: Option<u32>, value: u32) -> (r: Option<(u32, Vec<u8>)>)
    ensures
        match r {
            Some((t, b)) => existing_number_data(value_type, value) == Some((t, b@)),
            None => existing_number_data(value_type, value) is None,
        },
        value_type == Some(4u32) ==> (r matches Some((t, b)) && t == 4u32 && b@.len() == 4 && le_dword(b@) == value),
{
    proof {
        lemma_existing_dword_is_overwritten(value);
    }
    match value_type {
        Some(t) => {
            if t == REG_DWORD {
                Some((REG_DWORD, dword_bytes(value)))
            } else if t == REG_SZ {
                let mut digits = String::new();
                push_decimal(&mut digits, value as u64);
                Some((REG_SZ, sz_bytes(digits.as_str())))
            } else {
                None
            }
        },
        None => None,
    }
}

/// The string held by the bytes of a string value: the units before the first zero, when they
/// are well-formed UTF-16.
pub open spec fn sz_text_of(bytes: Seq<u8>) -> Seq<u16> {
    until_nul(units_from_le(bytes))
}

/// Whether the first query of a string value found data to read: not when the value is
/// missing, empty, or the query failed.
pub fn sz_query_has_data(status: u32, size: u32) -> (r: bool)
    ensures
        r == (status == ERROR_SUCCESS && size != 0),
{
    if status == ERROR_FILE_NOT_FOUND || size == 0 {
        return false;
    }
    status == ERROR_SUCCESS
}

/// At most this many sub-keys are enumerated.
pub const MAX_SUBKEYS: u32 = 512;
/// The longest sub-key name read, in UTF-16 units.
pub const SUBKEY_NAME_CAPACITY: u32 = 256;

/// The string read back from a query that returned `status`, `value_type` and `data`: none
/// unless the query succeeded on a string value whose units are well-formed.
pub fn decode_sz(status: u32, value_type: u32, data: &[u8]) -> (r: Option<String>)
    ensures
        r is Some ==> status == ERROR_SUCCESS && value_type == REG_SZ,
        r matches Some(s) ==> utf16_encode(s@) == sz_text_of(data@),
        status == ERROR_SUCCESS && value_type == REG_SZ && crate::text::is_utf16(sz_text_of(data@)) ==> r is Some,
{
    if status != ERROR_SUCCESS || value_type != REG_SZ {
        return None;
    }
    let units = le_units_until_nul(data);
    string_from_utf16(units.as_slice())
}

/// A sub-key name reported by enumeration, kept when it is well-formed and not empty.
pub fn subkey_name(units: &[u16]) -> (r: Option<String>)
    ensures
        r matches Some(s) ==> utf16_encode(s@) == units@ && s@.len() > 0,
        crate::text::is_utf16(units@) && units@.len() > 0 ==> r is Some,
{
    match string_from_utf16(units) {
        Some(s) => {
            if s.as_str().unicode_len() == 0 {
                assert(utf16_encode(s@) == Seq::<u16>::empty());
                None
            } else {
                Some(s)
            }
        },
        None => None,
    }
}


/// A string value that is written is read back as the same string, provided it holds no NUL
/// character: its bytes decode to well-formed code units, and the only text with those code
/// units is the string itself.
pub proof fn lemma_string_value_reads_back(s: Seq<char>, t: Seq<char>)
    requires
        forall|i: int| 0 <= i < s.len() ==> (#[trigger] s[i] as u32) != 0,
    ensures
        sz_text_of(sz_le(s)) == utf16_encode(s),
        is_utf16(sz_text_of(sz_le(s))),
        utf16_encode(t) == sz_text_of(sz_le(s)) ==> t == s,
{
    let u = utf16_encode(s);
    lemma_units_from_le_bytes(u.push(0u16));
    lemma_utf16_no_zero_unit(s);
    assert forall|k: int| 0 <= k < u.len() implies u.push(0u16)[k] != 0 by {
        assert(u.push(0u16)[k] == u[k]);
    }
    lemma_until_nul_prefix(u.push(0u16), u.len() as int);
    assert(u.push(0u16).take(u.len() as int) =~= u);
    assert(sz_text_of(sz_le(s)) == u);
    assert(utf16_encode(s) == u);
    if utf16_encode(t) == sz_text_of(sz_le(s)) {
        lemma_utf16_injective(t, s);
    }
}

/// A DWORD value that is written is read back as the same number.
pub proof fn lemma_dword_value_reads_back(value: u32)
    ensures
        dword_le(value).len() == 4,
        le_dword(dword_le(value)) == value,
{
    let v = value as int;
    assert(v == v % 256 + 256 * ((v / 256) % 256) + 65536 * ((v / 65536) % 256) + 16777216 * (v / 16777216))
        by (nonlinear_arith)
        requires
            0 <= v < 0x1_0000_0000,
    ;
}

/// A numeric setting that is kept as a string is written as the decimal digits of the number,
/// and those bytes read back as exactly that text.
pub proof fn lemma_existing_number_reads_back(value: u32, t: Seq<char>)
    ensures
        existing_number_data(Some(REG_SZ), value) == Some((REG_SZ, sz_le(decimal(value as nat)))),
        is_utf16(sz_text_of(sz_le(decimal(value as nat)))),
        utf16_encode(t) == sz_text_of(sz_le(decimal(value as nat))) ==> t == decimal(value as nat),
{
    let digits = decimal(value as nat);
    lemma_decimal_digits(value as nat);
    assert forall|i: int| 0 <= i < digits.len() implies (#[trigger] digits[i] as u32) != 0 by {
        assert(48 <= (digits[i] as u32));
    }
    lemma_string_value_reads_back(digits, t);
}

/// A numeric setting that exists as a DWORD is overwritten as a DWORD, whatever the number
/// (0 included), with four bytes that read back as that number.
pub proof fn lemma_existing_dword_is_overwritten(value: u32)
    ensures
        existing_number_data(Some(4u32), value) matches Some((t, bytes)) && t == 4u32 && bytes.len() == 4
            && le_dword(bytes) == value,
{
    lemma_dword_value_reads_back(value);
}

} // verus!
