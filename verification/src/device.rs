//! Mouse devices as the Raw Input API reports them, and the short label
//! (vendor and product id) read out of a device path.
//!
//! A device path looks like `\\?\HID#VID_046D&PID_C077&...#...#{GUID}`.

use vstd::prelude::*;

verus! {

/// Whether `c` ends a field of a device path.
pub open spec fn is_separator(c: char) -> bool {
    c == '#' || c == '&' || c == '\\'
}

/// The key that opens the vendor id field.
pub open spec fn vid_key() -> Seq<char> {
    seq!['V', 'I', 'D', '_']
}

/// The key that opens the product id field.
pub open spec fn pid_key() -> Seq<char> {
    seq!['P', 'I', 'D', '_']
}

/// Whether `pat` occurs in `s` at index `i`.
pub open spec fn occurs_at(s: Seq<char>, pat: Seq<char>, i: int) -> bool {
    0 <= i && i + pat.len() <= s.len() && s.subrange(i, i + pat.len()) == pat
}

/// Index of the first occurrence of `pat` in `s` at or after `from`.
pub open spec fn find_from(s: Seq<char>, pat: Seq<char>, from: int) -> Option<int>
    decreases s.len() + 1 - from,
{
    if from < 0 || from + pat.len() > s.len() {
        None
    } else if occurs_at(s, pat, from) {
        Some(from)
    } else {
        find_from(s, pat, from + 1)
    }
}

/// Index of the first separator in `s` at or after `from`, or the length of `s`.
pub open spec fn field_end(s: Seq<char>, from: int) -> int
    decreases s.len() - from,
{
    if from < 0 || from >= s.len() {
        s.len() as int
    } else if is_separator(s[from]) {
        from
    } else {
        field_end(s, from + 1)
    }
}

/// The field that starts where `key` first occurs in `s`, key included, up to
/// the next separator; none where `key` does not occur.
pub open spec fn key_field(s: Seq<char>, key: Seq<char>) -> Option<Seq<char>> {
    match find_from(s, key, 0) {
        Some(i) => Some(s.subrange(i, field_end(s, i))),
        None => None,
    }
}

/// The label of a device path: its vendor id field and product id field,
/// read from the uppercase form of the path and joined by a space; the path
/// itself where either field is missing.
pub open spec fn vid_pid_label(path: Seq<char>, upper: Seq<char>) -> Seq<char> {
    match (key_field(upper, vid_key()), key_field(upper, pid_key())) {
        (Some(v), Some(p)) => v + seq![' '] + p,
        _ => path,
    }
}

/// The uppercase form of a string, as `str::to_uppercase` maps it.
pub uninterp spec fn uppercase(s: Seq<char>) -> Seq<char>;

/// Calls `str::to_uppercase`. What it returns depends on the string alone
/// (Unicode's uppercase mapping); it is named `uppercase` and not spelled out.
#[verifier::external_body]
fn to_uppercase(s: &str) -> (upper: String)
    ensures
        upper@ == uppercase(s@),
{
    s.to_uppercase()
}

/// The characters of `s`, one by one.
fn chars_of(s: &str) -> (chars: Vec<char>)
    ensures
        chars@ == s@,
{
    let n = s.unicode_len();
    let mut chars: Vec<char> = Vec::new();
    let mut i: usize = 0;
    while i < n
        invariant
            n == s@.len(),
            i <= n,
            chars@ == s@.take(i as int),
        decreases n - i,
    {
        chars.push(s.get_char(i));
        i += 1;
        assert(chars@ =~= s@.take(i as int));
    }
    assert(s@.take(n as int) =~= s@);
    chars
}

/// Whether `pat` occurs in `s` at index `at`.
fn matches_at(s: &Vec<char>, pat: &Vec<char>, at: usize) -> (m: bool)
    requires
        at + pat.len() <= s.len(),
    ensures
        m == occurs_at(s@, pat@, at as int),
{
    let mut k: usize = 0;
    while k < pat.len()
        invariant
            at + pat.len() <= s.len(),
            k <= pat.len(),
            forall|j: int| 0 <= j < k ==> s@[at + j] == pat@[j],
        decreases pat.len() - k,
    {
        if s[at + k] != pat[k] {
            assert(s@.subrange(at as int, at + pat.len())[k as int] != pat@[k as int]);
            return false;
        }
        k += 1;
    }
    assert(s@.subrange(at as int, at + pat.len()) =~= pat@);
    true
}

/// Index of the first occurrence of `pat` in `s`.
fn find(s: &Vec<char>, pat: &Vec<char>) -> (found: Option<usize>)
    ensures
        match found {
            Some(i) => find_from(s@, pat@, 0) == Some(i as int),
            None => find_from(s@, pat@, 0) is None,
        },
{
    if pat.len() > s.len() {
        return None;
    }
    let last = s.len() - pat.len();
    let mut i: usize = 0;
    loop
        invariant
            last + pat.len() == s.len(),
            i <= last,
            find_from(s@, pat@, 0) == find_from(s@, pat@, i as int),
        decreases last - i,
    {
        if matches_at(s, pat, i) {
            return Some(i);
        }
        if i == last {
            return None;
        }
        i += 1;
    }
}

/// The first occurrence that `find_from` reports is an occurrence.
pub proof fn lemma_find_from_occurs(s: Seq<char>, pat: Seq<char>, from: int)
    ensures
        find_from(s, pat, from) matches Some(i) ==> from <= i && occurs_at(s, pat, i),
    decreases s.len() + 1 - from,
{
    if from >= 0 && from + pat.len() <= s.len() && !occurs_at(s, pat, from) {
        lemma_find_from_occurs(s, pat, from + 1);
    }
}

/// A field ends between its start and the end of the string.
pub proof fn lemma_field_end_bounds(s: Seq<char>, from: int)
    requires
        0 <= from <= s.len(),
    ensures
        from <= field_end(s, from) <= s.len(),
    decreases s.len() - from,
{
    if from < s.len() && !is_separator(s[from]) {
        lemma_field_end_bounds(s, from + 1);
    }
}

/// Index of the first separator in `s` at or after `from`, or the length of `s`.
fn find_field_end(s: &Vec<char>, from: usize) -> (end: usize)
    requires
        from <= s.len(),
    ensures
        end == field_end(s@, from as int),
{
    let mut i = from;
    while i < s.len()
        invariant
            from <= i <= s.len(),
            field_end(s@, from as int) == field_end(s@, i as int),
        decreases s.len() - i,
    {
        let c = s[i];
        if c == '#' || c == '&' || c == '\\' {
            return i;
        }
        i += 1;
    }
    i
}

/// The field of `upper` that `key` opens, as a slice of `upper`.
fn key_field_of<'a>(upper: &'a str, chars: &Vec<char>, key: &Vec<char>) -> (field: Option<&'a str>)
    requires
        chars@ == upper@,
    ensures
        match key_field(upper@, key@) {
            Some(f) => field matches Some(r) && r@ == f,
            None => field is None,
        },
{
    proof {
        lemma_find_from_occurs(upper@, key@, 0);
    }
    match find(chars, key) {
        Some(i) => {
            proof {
                lemma_field_end_bounds(upper@, i as int);
            }
            let end = find_field_end(chars, i);
            let r = upper.substring_char(i, end);
            Some(r)
        },
        None => None,
    }
}

/// The label of a device path, given the path and its uppercase form.
pub fn vid_pid_from_upper(path: &str, upper: &str) -> (label: String)
    ensures
        label@ == vid_pid_label(path@, upper@),
{
    let chars = chars_of(upper);
    let vid = key_field_of(upper, &chars, &vec!['V', 'I', 'D', '_']);
    let pid = key_field_of(upper, &chars, &vec!['P', 'I', 'D', '_']);
    match (vid, pid) {
        (Some(v), Some(p)) => {
            let mut label = String::from_str(v);
            let space = " ";
            proof {
                reveal_strlit(" ");
            }
            label.append(space);
            label.append(p);
            label
        },
        _ => String::from_str(path),
    }
}

/// Extracts the vendor and product ids of a device path (e.g. "VID_046D PID_C077").
/// Where either is missing, the path itself is returned.
pub fn extract_vid_pid(path: &str) -> (label: String)
    ensures
        label@ == vid_pid_label(path@, uppercase(path@)),
{
    let upper = to_uppercase(path);
    vid_pid_from_upper(path, upper.as_str())
}

/// `s` with every trailing `c` removed.
pub open spec fn trim_end(s: Seq<char>, c: char) -> Seq<char>
    decreases s.len(),
{
    if s.len() > 0 && s.last() == c {
        trim_end(s.drop_last(), c)
    } else {
        s
    }
}

/// Removes the NUL characters that end `s` (as `trim_end_matches('\0')` does).
pub fn trim_end_nuls(s: &str) -> (trimmed: String)
    ensures
        trimmed@ == trim_end(s@, '\0'),
{
    let chars = chars_of(s);
    let mut k: usize = chars.len();
    assert(s@.take(k as int) =~= s@);
    while k > 0 && chars[k - 1] == '\0'
        invariant
            k <= chars.len(),
            chars@ == s@,
            trim_end(s@, '\0') == trim_end(s@.take(k as int), '\0'),
        decreases k,
    {
        assert(s@.take(k as int).drop_last() =~= s@.take(k - 1));
        k -= 1;
    }
    let kept = s.substring_char(0, k);
    assert(kept@ =~= s@.take(k as int));
    String::from_str(kept)
}

/// Whether a UTF-16 code unit is a leading (high) surrogate.
pub open spec fn is_high_surrogate(u: u16) -> bool {
    0xD800 <= u < 0xDC00
}

/// Whether a UTF-16 code unit is a trailing (low) surrogate.
pub open spec fn is_low_surrogate(u: u16) -> bool {
    0xDC00 <= u < 0xE000
}

/// The text that UTF-16 code units decode to, where each unpaired surrogate
/// becomes U+FFFD: a unit outside the surrogates is its own character, a
/// leading surrogate followed by a trailing one is one character, and any
/// other surrogate is unpaired.
pub open spec fn utf16_lossy(units: Seq<u16>) -> Seq<char>
    decreases units.len(),
{
    if units.len() == 0 {
        Seq::empty()
    } else if !is_high_surrogate(units[0]) && !is_low_surrogate(units[0]) {
        seq![units[0] as char] + utf16_lossy(units.drop_first())
    } else if is_high_surrogate(units[0]) && units.len() >= 2 && is_low_surrogate(units[1]) {
        let code: int = 0x10000 + (units[0] - 0xD800) * 0x400 + (units[1] - 0xDC00);
        seq![code as char] + utf16_lossy(units.subrange(2, units.len() as int))
    } else {
        seq!['\u{FFFD}'] + utf16_lossy(units.drop_first())
    }
}

/// Calls `String::from_utf16_lossy`, which decodes UTF-16 and replaces each
/// unpaired surrogate with U+FFFD.
#[verifier::external_body]
fn decode_utf16_lossy(units: &[u16]) -> (text: String)
    ensures
        text@ == utf16_lossy(units@),
{
    String::from_utf16_lossy(units)
}

/// What a mouse device is listed as.
pub struct MouseDeviceView {
    pub display_name: Seq<char>,
    pub instance_id: Seq<char>,
    pub handle: isize,
}

/// A connected mouse device: the name it is first shown under (its vendor
/// and product ids), its instance id (device path), and its Raw Input handle.
pub struct MouseDevice {
    pub display_name: String,
    pub instance_id: String,
    pub handle: isize,
}

impl View for MouseDevice {
    type V = MouseDeviceView;

    open spec fn view(&self) -> MouseDeviceView {
        MouseDeviceView {
            display_name: self.display_name@,
            instance_id: self.instance_id@,
            handle: self.handle,
        }
    }
}

/// What the Raw Input API gave back when asked for a device's path.
pub enum DeviceName {
    /// The size of the path could not be had.
    Unavailable,
    /// The path could not be read.
    Unreadable,
    /// The path, as UTF-16 code units (NUL-terminated).
    Utf16(Vec<u16>),
}

/// Shown for a device whose path size could not be had.
pub open spec fn name_unavailable_label() -> Seq<char> {
    seq!['(', '名', '前', '取', '得', '不', '可', ')']
}

/// Shown for a device whose path could not be read.
pub open spec fn name_unreadable_label() -> Seq<char> {
    seq!['(', '名', '前', '取', '得', '失', '敗', ')']
}

/// The device listed for a mouse with this Raw Input handle and this answer
/// to the path query.
pub open spec fn described_mouse(name: DeviceName, handle: isize) -> MouseDeviceView {
    match name {
        DeviceName::Unavailable => MouseDeviceView {
            display_name: name_unavailable_label(),
            instance_id: Seq::empty(),
            handle,
        },
        DeviceName::Unreadable => MouseDeviceView {
            display_name: name_unreadable_label(),
            instance_id: Seq::empty(),
            handle,
        },
        DeviceName::Utf16(units) => mouse_from_text(utf16_lossy(units@), handle),
    }
}

/// The device listed for a mouse with this Raw Input handle and this decoded
/// path text: the path is the text without its trailing NULs.
pub open spec fn mouse_from_text(text: Seq<char>, handle: isize) -> MouseDeviceView {
    let path = trim_end(text, '\0');
    MouseDeviceView {
        display_name: vid_pid_label(path, uppercase(path)),
        instance_id: path,
        handle,
    }
}

/// Builds the listed device from its Raw Input handle and its path.
pub fn describe_mouse(name: DeviceName, handle: isize) -> (device: MouseDevice)
    ensures
        device@ == described_mouse(name, handle),
{
    match name {
        DeviceName::Unavailable => {
            let label = "(名前取得不可)";
            proof {
                reveal_strlit("(名前取得不可)");
            }
            assert(label@ =~= name_unavailable_label());
            MouseDevice { display_name: String::from_str(label), instance_id: String::new(), handle }
        },
        DeviceName::Unreadable => {
            let label = "(名前取得失敗)";
            proof {
                reveal_strlit("(名前取得失敗)");
            }
            assert(label@ =~= name_unreadable_label());
            MouseDevice { display_name: String::from_str(label), instance_id: String::new(), handle }
        },
        DeviceName::Utf16(units) => {
            let decoded = decode_utf16_lossy(units.as_slice());
            mouse_from_decoded_path(decoded.as_str(), handle)
        },
    }
}

/// Builds the listed device from its Raw Input handle and its decoded path text.
pub fn mouse_from_decoded_path(text: &str, handle: isize) -> (device: MouseDevice)
    ensures
        device@ == mouse_from_text(text@, handle),
{
    let path = trim_end_nuls(text);
    let display_name = extract_vid_pid(path.as_str());
    MouseDevice { display_name, instance_id: path, handle }
}

/// The Raw Input type code of a mouse.
pub const RIM_TYPEMOUSE: u32 = 0;

/// The device handle of a Raw Input event, where the event came from a mouse.
pub fn raw_input_mouse_handle(device_type: u32, handle: isize) -> (mouse: Option<isize>)
    ensures
        mouse == (if device_type == RIM_TYPEMOUSE { Some(handle) } else { None::<isize> }),
{
    if device_type == RIM_TYPEMOUSE {
        Some(handle)
    } else {
        None
    }
}

} // verus!
