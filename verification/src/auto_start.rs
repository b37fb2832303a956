use vstd::prelude::*;
use crate::text::{le_bytes, push_str_utf16_le, utf16_of, utf16_of_char, law_le_bytes_round_trip};

verus! {

/// The Win32 status code of a registry call that succeeded.
pub const ERROR_SUCCESS: u32 = 0;

/// The Win32 status code of a registry value that does not exist.
pub const ERROR_FILE_NOT_FOUND: u32 = 2;

/// The autostart value exists under the Run key: the key could be opened and
/// querying the value succeeded.
pub fn run_value_exists(key_opened: bool, query_status: u32) -> (exists: bool)
    ensures
        exists == (key_opened && query_status == ERROR_SUCCESS),
{
    key_opened && query_status == ERROR_SUCCESS
}

/// Windows' startup settings turned the entry off: the StartupApproved key
/// could be opened, its value read with at least one byte, and the lowest bit
/// of the first byte is set.
pub open spec fn spec_startup_disabled(key_opened: bool, query_status: u32, size: u32, data: Seq<u8>) -> bool {
    key_opened && query_status == ERROR_SUCCESS && size >= 1 && data[0] % 2 == 1
}

pub fn startup_disabled(key_opened: bool, query_status: u32, size: u32, data: &[u8]) -> (disabled: bool)
    requires
        data@.len() >= 1,
    ensures
        disabled == spec_startup_disabled(key_opened, query_status, size, data@),
{
    if !key_opened {
        return false;
    }
    let first = data[0];
    assert((first & 0x01) == 1 <==> first % 2 == 1) by (bit_vector);
    query_status == ERROR_SUCCESS && size >= 1 && (first & 0x01) == 1
}

/// Autostart is on when the Run value exists and the startup settings have not
/// turned it off.
pub fn is_enabled(run_value_exists: bool, startup_disabled: bool) -> (enabled: bool)
    ensures
        enabled == (run_value_exists && !startup_disabled),
{
    run_value_exists && !startup_disabled
}

/// At startup an existing entry is written again, so that it names the
/// program where it now lies; returns whether to do so.
pub fn refresh(run_value_exists: bool) -> (rewrite: bool)
    ensures
        rewrite == run_value_exists,
{
    run_value_exists
}

/// The status that counts for turning autostart on or off: the status of
/// writing the value when turning it on; when turning it off, deleting a value
/// that is not there counts as success.
pub open spec fn spec_effective_status(enable: bool, status: u32) -> u32 {
    if !enable && status == ERROR_FILE_NOT_FOUND {
        ERROR_SUCCESS
    } else {
        status
    }
}

pub fn effective_status(enable: bool, status: u32) -> (effective: u32)
    ensures
        effective == spec_effective_status(enable, status),
{
    if enable {
        status
    } else if status == ERROR_SUCCESS || status == ERROR_FILE_NOT_FOUND {
        ERROR_SUCCESS
    } else {
        status
    }
}

/// After the Run value was written, a "disabled" mark left in the startup
/// settings is cleared, so that the entry takes effect.
pub fn clears_startup_mark(enable: bool, write_status: u32) -> (clear: bool)
    ensures
        clear == (enable && write_status == ERROR_SUCCESS),
{
    enable && write_status == ERROR_SUCCESS
}

/// Why turning autostart on or off failed.
#[derive(Clone, Copy, Debug, PartialEq, Eq, Structural)]
pub enum AutostartError {
    /// The program's own path could not be found.
    NoExePath,
    /// The Run key could not be opened; the Win32 status.
    OpenRunKey(u32),
    /// The value could not be written or deleted; the Win32 status.
    Write(u32),
}

/// The outcome of turning autostart on or off, from what the registry calls
/// returned: `exe_found` whether the program's path was known, `open_status`
/// the status of opening the Run key (when it was tried), `value_status` the
/// status of writing or deleting the value (when it was tried).
pub open spec fn spec_set_enabled_outcome(enable: bool, exe_found: bool, open_status: u32, value_status: u32) -> Result<(), AutostartError> {
    if !exe_found {
        Err(AutostartError::NoExePath)
    } else if open_status != ERROR_SUCCESS {
        Err(AutostartError::OpenRunKey(open_status))
    } else if spec_effective_status(enable, value_status) != ERROR_SUCCESS {
        Err(AutostartError::Write(spec_effective_status(enable, value_status)))
    } else {
        Ok(())
    }
}

pub fn set_enabled_outcome(enable: bool, exe_found: bool, open_status: u32, value_status: u32) -> (outcome: Result<(), AutostartError>)
    ensures
        outcome == spec_set_enabled_outcome(enable, exe_found, open_status, value_status),
{
    if !exe_found {
        return Err(AutostartError::NoExePath);
    }
    if open_status != ERROR_SUCCESS {
        return Err(AutostartError::OpenRunKey(open_status));
    }
    let result = effective_status(enable, value_status);
    if result == ERROR_SUCCESS {
        Ok(())
    } else {
        Err(AutostartError::Write(result))
    }
}

/// What the registry holds for autostart: whether the Run value exists, and
/// whether the startup settings mark the entry as turned off.
pub struct AutostartKeys {
    pub run_value: bool,
    pub disabled_mark: bool,
}

/// Autostart as `is_enabled` reads it from the keys.
pub open spec fn keys_enabled(keys: AutostartKeys) -> bool {
    keys.run_value && !keys.disabled_mark
}

/// The keys after turning autostart on or off succeeded: turning on writes the
/// Run value and leaves no "off" mark (it was absent, or clearing it
/// succeeded); turning off deletes the Run value.
pub open spec fn keys_after(keys: AutostartKeys, enable: bool) -> AutostartKeys {
    if enable {
        AutostartKeys { run_value: true, disabled_mark: false }
    } else {
        AutostartKeys { run_value: false, disabled_mark: keys.disabled_mark }
    }
}

/// A successful turn-on or turn-off is what `is_enabled` then reads back:
/// given that the registry answers the queries with what it holds after the
/// change (the Run query succeeds exactly when the value is there, and the
/// startup settings show the mark exactly when it is there), autostart reads
/// as `enable`.
pub proof fn law_set_enabled_is_read_back(
    keys: AutostartKeys,
    enable: bool,
    value_status: u32,
    run_query_status: u32,
    approved_opened: bool,
    approved_status: u32,
    size: u32,
    data: Seq<u8>,
)
    requires
        spec_set_enabled_outcome(enable, true, ERROR_SUCCESS, value_status) is Ok,
        (run_query_status == ERROR_SUCCESS) == keys_after(keys, enable).run_value,
        spec_startup_disabled(approved_opened, approved_status, size, data) == keys_after(
            keys,
            enable,
        ).disabled_mark,
    ensures
        keys_enabled(keys_after(keys, enable)) == enable,
        ((run_query_status == ERROR_SUCCESS) && !spec_startup_disabled(
            approved_opened,
            approved_status,
            size,
            data,
        )) == enable,
{
}

/// The Run value's data: the program's path in double quotes, as UTF-16LE,
/// ended by a NUL unit.
pub open spec fn spec_command_line(exe: Seq<char>) -> Seq<u8> {
    le_bytes(utf16_of(seq!['"'] + exe + seq!['"'])) + seq![0u8, 0u8]
}

pub fn command_line(exe: &str) -> (bytes: Vec<u8>)
    ensures
        bytes@ == spec_command_line(exe@),
{
    let mut bytes: Vec<u8> = Vec::new();
    let quote = "\"";
    proof {
        reveal_strlit("\"");
        assert(le_bytes(Seq::empty()) == Seq::<u8>::empty());
    }
    push_str_utf16_le(&mut bytes, quote, Ghost(Seq::empty()));
    let ghost u1 = Seq::<u16>::empty() + utf16_of(quote@);
    push_str_utf16_le(&mut bytes, exe, Ghost(u1));
    let ghost u2 = u1 + utf16_of(exe@);
    push_str_utf16_le(&mut bytes, quote, Ghost(u2));
    proof {
        lemma_utf16_of_concat(quote@, exe@);
        lemma_utf16_of_concat(quote@ + exe@, quote@);
        assert(quote@ == seq!['"']);
        assert(Seq::<u16>::empty() + utf16_of(quote@) == utf16_of(quote@));
    }
    bytes.push(0);
    bytes.push(0);
    bytes
}

proof fn lemma_utf16_of_concat(a: Seq<char>, b: Seq<char>)
    ensures
        utf16_of(a + b) == utf16_of(a) + utf16_of(b),
    decreases b.len(),
{
    if b.len() == 0 {
        assert(a + b == a);
        assert(utf16_of(b) == Seq::<u16>::empty());
    } else {
        lemma_utf16_of_concat(a, b.drop_last());
        assert((a + b).drop_last() == a + b.drop_last());
        assert((a + b).last() == b.last());
    }
}

/// Turning autostart on or off succeeds exactly when the program's path is
/// known, the Run key opens, and the value is written (on) or is gone
/// afterwards (off: deleted, or already absent); a failure reports the first
/// step that failed.
pub proof fn law_set_enabled_succeeds_exactly(enable: bool, exe_found: bool, open_status: u32, value_status: u32)
    ensures
        spec_set_enabled_outcome(enable, exe_found, open_status, value_status) is Ok <==> (exe_found
            && open_status == ERROR_SUCCESS && (value_status == ERROR_SUCCESS || (!enable
            && value_status == ERROR_FILE_NOT_FOUND))),
        !exe_found ==> spec_set_enabled_outcome(enable, exe_found, open_status, value_status)
            == Err::<(), AutostartError>(AutostartError::NoExePath),
        exe_found && open_status != ERROR_SUCCESS ==> spec_set_enabled_outcome(
            enable,
            exe_found,
            open_status,
            value_status,
        ) == Err::<(), AutostartError>(AutostartError::OpenRunKey(open_status)),
{
}

/// Deleting a value that is not there counts as turned off; any other status
/// passes through unchanged, and turning on never masks a failure.
pub proof fn law_missing_value_counts_as_off(enable: bool, status: u32)
    ensures
        spec_effective_status(false, ERROR_FILE_NOT_FOUND) == ERROR_SUCCESS,
        enable ==> spec_effective_status(enable, status) == status,
        status != ERROR_FILE_NOT_FOUND ==> spec_effective_status(enable, status) == status,
{
}

/// The startup settings turn the entry off only through a successful read
/// whose first byte has its lowest bit set: a key that cannot be opened, a
/// failed or empty read, or an even first byte never turn it off.
pub proof fn law_off_mark_needs_odd_first_byte(key_opened: bool, status: u32, size: u32, data: Seq<u8>)
    requires
        data.len() >= 1,
    ensures
        spec_startup_disabled(key_opened, status, size, data) ==> key_opened && status
            == ERROR_SUCCESS && size >= 1,
        data[0] % 2 == 0 ==> !spec_startup_disabled(key_opened, status, size, data),
        key_opened && status == ERROR_SUCCESS && size >= 1 && data[0] % 2 == 1
            ==> spec_startup_disabled(key_opened, status, size, data),
{
}

proof fn lemma_utf16_of_bmp(s: Seq<char>)
    requires
        forall|i: int| 0 <= i < s.len() ==> 0 <= (#[trigger] s[i]) as int <= 0xFFFF,
    ensures
        utf16_of(s).len() == s.len(),
        forall|k: int| 0 <= k < s.len() ==> #[trigger] utf16_of(s)[k] as int == s[k] as int,
    decreases s.len(),
{
    if s.len() > 0 {
        let rest = s.drop_last();
        assert forall|i: int| 0 <= i < rest.len() implies 0 <= (#[trigger] rest[i]) as int <= 0xFFFF by {
            assert(rest[i] == s[i]);
        }
        lemma_utf16_of_bmp(rest);
        let c = s.last();
        assert(0 <= c as int <= 0xFFFF);
        assert(utf16_of_char(c) == seq![(c as int) as u16]);
        assert(utf16_of(s) == utf16_of(rest) + utf16_of_char(c));
        let x: int = c as int;
        assert(0 <= x <= 0xFFFF);
        assert((x as u16) as int == x);
        assert forall|k: int| 0 <= k < s.len() implies #[trigger] utf16_of(s)[k] as int == s[k] as int by {
            if k < rest.len() {
                assert(utf16_of(s)[k] == utf16_of(rest)[k]);
                assert(s[k] == rest[k]);
            } else {
                assert(utf16_of(s)[k] == (c as int) as u16);
            }
        }
    }
}

/// The Run value's data, for a path of characters that each take one UTF-16
/// unit, reads back as the path in double quotes followed by a NUL unit: two
/// bytes per unit, the quote, each character of the path in order, the quote,
/// then two zero bytes.
pub proof fn law_command_line_reads_back(exe: Seq<char>)
    requires
        forall|i: int| 0 <= i < exe.len() ==> 0 <= (#[trigger] exe[i]) as int <= 0xFFFF,
    ensures
        ({
            let b = spec_command_line(exe);
            let n = exe.len() as int;
            &&& b.len() == 2 * exe.len() + 6
            &&& b[0] == 0x22 && b[1] == 0
            &&& forall|k: int|
                0 <= k < exe.len() ==> b[2 * k + 2] + 256 * b[2 * k + 3] == (#[trigger] exe[k]) as int
            &&& b[2 * n + 2] == 0x22 && b[2 * n + 3] == 0
            &&& b[2 * n + 4] == 0 && b[2 * n + 5] == 0
        }),
{
    let s = seq!['"'] + exe + seq!['"'];
    assert forall|i: int| 0 <= i < s.len() implies 0 <= (#[trigger] s[i]) as int <= 0xFFFF by {
        if 1 <= i < s.len() - 1 {
            assert(s[i] == exe[i - 1]);
        }
    }
    lemma_utf16_of_bmp(s);
    let units = utf16_of(s);
    law_le_bytes_round_trip(units);
    let b = spec_command_line(exe);
    let lb = le_bytes(units);
    assert(b == lb + seq![0u8, 0u8]);
    assert(units[0] as int == 0x22) by {
        assert(s[0] == '"');
    }
    assert(lb[0] + 256 * lb[1] == units[0]);
    let last = s.len() - 1;
    assert(units[last] as int == 0x22) by {
        assert(s[last] == '"');
    }
    assert(lb[2 * last] + 256 * lb[2 * last + 1] == units[last]);
    assert forall|k: int| 0 <= k < exe.len() implies b[2 * k + 2] + 256 * b[2 * k + 3] == (
    #[trigger] exe[k]) as int by {
        assert(s[k + 1] == exe[k]);
        assert(units[k + 1] as int == s[k + 1] as int);
        assert(lb[2 * (k + 1)] + 256 * lb[2 * (k + 1) + 1] == units[k + 1]);
        assert(b[2 * k + 2] == lb[2 * k + 2]);
        assert(b[2 * k + 3] == lb[2 * k + 3]);
    }
}

} // verus!
