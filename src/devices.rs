use vstd::prelude::*;

use crate::name::{device_name, simple_name_from_ids};
use crate::path::{chars_of, parse_value_in, parsed_value};

verus! {

/// The class tag that the host gives keyboard-class raw input devices.
pub const KEYBOARD_KIND: u32 = 1;

/// What the host's device queries return when they fail.
pub const CALL_FAILED: u32 = 0xFFFF_FFFF;

/// One entry of the host's raw input device list: an opaque handle and its class tag.
#[derive(Clone, Copy, Debug, PartialEq, Eq)]
pub struct RawDevice {
    pub handle: u64,
    pub kind: u32,
}

/// A discovered keyboard-class device.
pub struct DeviceInfo {
    /// A process-local rendering of the device's handle, for display only.
    pub id: String,
    /// A display name made from the two identifiers.
    pub name: String,
    /// The vendor identifier, 0 when unknown.
    pub vendor_id: u16,
    /// The product identifier, 0 when unknown.
    pub product_id: u16,
}

/// The content of a `DeviceInfo`.
pub struct DeviceInfoView {
    pub id: Seq<char>,
    pub name: Seq<char>,
    pub vendor_id: u16,
    pub product_id: u16,
}

impl View for DeviceInfo {
    type V = DeviceInfoView;

    open spec fn view(&self) -> DeviceInfoView {
        DeviceInfoView {
            id: self.id@,
            name: self.name@,
            vendor_id: self.vendor_id,
            product_id: self.product_id,
        }
    }
}

/// The key that precedes the vendor identifier in a device path.
pub open spec fn vendor_key() -> Seq<char> {
    seq!['V', 'I', 'D', '_']
}

/// The key that precedes the product identifier in a device path.
pub open spec fn product_key() -> Seq<char> {
    seq!['P', 'I', 'D', '_']
}

/// The record of the device with handle text `id` whose path is `path`.
pub open spec fn record_of(id: Seq<char>, path: Seq<char>) -> DeviceInfoView {
    let vid = parsed_value(path, vendor_key());
    let pid = parsed_value(path, product_key());
    DeviceInfoView { id, name: device_name(vid, pid), vendor_id: vid, product_id: pid }
}

/// Whether `a` and `b` are NUL-padding bounds of `s`: everything before `a` and from `b`
/// on is NUL, and `s[a..b]` neither starts nor ends with NUL.
pub open spec fn nul_trim_bounds(s: Seq<char>, a: int, b: int) -> bool {
    &&& 0 <= a <= b <= s.len()
    &&& forall|i: int| 0 <= i < a ==> s[i] == '\0'
    &&& forall|i: int| b <= i < s.len() ==> s[i] == '\0'
    &&& a < s.len() ==> s[a] != '\0'
    &&& a < b ==> s[b - 1] != '\0'
}

/// `s` without the NUL characters at its start and at its end.
pub open spec fn trim_nuls(s: Seq<char>) -> Seq<char> {
    let (a, b) = choose|a: int, b: int| nul_trim_bounds(s, a, b);
    s.subrange(a, b)
}

/// The text that the UTF-16 units `units` decode to, each ill-formed sequence replaced
/// by U+FFFD.
pub uninterp spec fn utf16_lossy_of(units: Seq<u16>) -> Seq<char>;

/// The path text of a device whose path buffer holds `units`.
pub open spec fn path_text(units: Seq<u16>) -> Seq<char> {
    trim_nuls(utf16_lossy_of(units))
}

/// What identifying a device gives: nothing when fetching its path failed, else its record.
pub open spec fn identified(id: Seq<char>, fill_result: u32, units: Seq<u16>) -> Option<
    DeviceInfoView,
> {
    if fill_result == CALL_FAILED {
        None
    } else {
        Some(record_of(id, path_text(units)))
    }
}

/// Whether `d` is tagged keyboard-class.
pub open spec fn is_keyboard(d: RawDevice) -> bool {
    d.kind == KEYBOARD_KIND
}

/// The keyboard-class devices among the entries that the host wrote: the first
/// `written` entries of `list`, or all of it when `written` is larger.
pub open spec fn keyboards_written(list: Seq<RawDevice>, written: u32) -> Seq<RawDevice> {
    let n = if written as int <= list.len() {
        written as int
    } else {
        list.len() as int
    };
    keyboards_of(list.take(n))
}

/// The keyboard-class devices of `s`, in order.
pub open spec fn keyboards_of(s: Seq<RawDevice>) -> Seq<RawDevice> {
    s.filter(|d: RawDevice| is_keyboard(d))
}

/// Two enumerations that get the same answers from the host give records with the same
/// names and identifiers: of each device, only the handle text may differ between them.
pub proof fn lemma_same_answers_same_records(
    id1: Seq<char>,
    id2: Seq<char>,
    fill_result: u32,
    units: Seq<u16>,
)
    ensures
        identified(id1, fill_result, units) is Some == identified(id2, fill_result, units) is Some,
        identified(id1, fill_result, units) is Some ==> {
            let r1 = identified(id1, fill_result, units)->0;
            let r2 = identified(id2, fill_result, units)->0;
            &&& r1.name == r2.name
            &&& r1.vendor_id == r2.vendor_id
            &&& r1.product_id == r2.product_id
        },
{
}

/// Relies on String::from_utf16_lossy, which decodes UTF-16 and puts U+FFFD in place of
/// each ill-formed sequence; the result depends on the units alone.
#[verifier::external_body]
fn decode_utf16_lossy(units: &Vec<u16>) -> (r: String)
    ensures
        r@ == utf16_lossy_of(units@),
{
    String::from_utf16_lossy(units)
}

/// The bounds are unique when they exist.
proof fn lemma_nul_trim_bounds_unique(s: Seq<char>, a: int, b: int, c: int, d: int)
    requires
        nul_trim_bounds(s, a, b),
        nul_trim_bounds(s, c, d),
    ensures
        a == c,
        b == d,
{
    if a < c {
        assert(s[a] == '\0');
    } else if c < a {
        assert(s[c] == '\0');
    }
    if a == b {
        if c < d {
            assert(s[c] == '\0');
        }
    } else if c == d {
        assert(s[a] == '\0');
    } else if b < d {
        assert(s[d - 1] == '\0');
    } else if d < b {
        assert(s[b - 1] == '\0');
    }
}

/// Drops the NUL characters at the start and at the end of `s`.
pub fn trim_nul_chars(s: &Vec<char>) -> (r: Vec<char>)
    ensures
        r@ == trim_nuls(s@),
{
    let n: usize = s.len();
    let mut a: usize = 0;
    while a < n && s[a] == '\0'
        invariant
            n == s@.len(),
            a <= n,
            forall|i: int| 0 <= i < a ==> s@[i] == '\0',
        decreases n - a,
    {
        a = a + 1;
    }
    let mut b: usize = n;
    while b > a && s[b - 1] == '\0'
        invariant
            n == s@.len(),
            a <= b <= n,
            forall|i: int| b <= i < n ==> s@[i] == '\0',
        decreases b - a,
    {
        b = b - 1;
    }
    let mut r: Vec<char> = Vec::new();
    let mut i: usize = a;
    while i < b
        invariant
            a <= i <= b <= n,
            n == s@.len(),
            r@ == s@.subrange(a as int, i as int),
        decreases b - i,
    {
        r.push(s[i]);
        i = i + 1;
        assert(r@ =~= s@.subrange(a as int, i as int));
    }
    proof {
        assert(nul_trim_bounds(s@, a as int, b as int));
        let (c, d) = choose|c: int, d: int| nul_trim_bounds(s@, c, d);
        lemma_nul_trim_bounds_unique(s@, a as int, b as int, c, d);
    }
    r
}

/// The path text held by a filled path buffer: decoded from UTF-16, NUL padding dropped.
pub fn path_from_units(units: &Vec<u16>) -> (r: Vec<char>)
    ensures
        r@ == path_text(units@),
{
    let text = decode_utf16_lossy(units);
    let chars = chars_of(text.as_str());
    trim_nul_chars(&chars)
}

/// The record of the device with handle text `id` whose path is `path`: the identifiers
/// after `VID_` and `PID_`, 0 where they are missing or malformed, and the name made
/// from them.
pub fn device_record(id: String, path: &Vec<char>) -> (r: DeviceInfo)
    ensures
        r@ == record_of(id@, path@),
{
    let vendor: Vec<char> = vec!['V', 'I', 'D', '_'];
    let product: Vec<char> = vec!['P', 'I', 'D', '_'];
    assert(vendor@ =~= vendor_key());
    assert(product@ =~= product_key());
    let vid = parse_value_in(path, &vendor);
    let pid = parse_value_in(path, &product);
    DeviceInfo { id, name: simple_name_from_ids(vid, pid), vendor_id: vid, product_id: pid }
}

/// Builds the record of a device from the answer to the call that fills its path buffer:
/// nothing when that call failed (a half-filled buffer is never read), else the record
/// made from the buffer's text.
pub fn identify(id: String, fill_result: u32, buffer: &Vec<u16>) -> (r: Option<DeviceInfo>)
    ensures
        (r is None) == (fill_result == CALL_FAILED),
        r is Some ==> identified(id@, fill_result, buffer@) == Some(r->0@),
{
    if fill_result == CALL_FAILED {
        return None;
    }
    let path = path_from_units(buffer);
    Some(device_record(id, &path))
}

/// The size of the buffer to fetch a device's path into, from the length that the
/// probing call reported; nothing when it reported no length, and the device is skipped.
pub fn path_buffer_len(reported_len: u32) -> (r: Option<usize>)
    ensures
        r == (if reported_len == 0 {
            None::<usize>
        } else {
            Some(reported_len as usize)
        }),
{
    if reported_len == 0 {
        None
    } else {
        Some(reported_len as usize)
    }
}

/// The number of device-list entries to allocate, from the probing call's status and the
/// count it reported; nothing when the probe failed, and the enumeration yields no device.
pub fn list_probe_count(probe_result: u32, count: u32) -> (r: Option<usize>)
    ensures
        r == (if probe_result == 0 {
            Some(count as usize)
        } else {
            None::<usize>
        }),
{
    if probe_result == 0 {
        Some(count as usize)
    } else {
        None
    }
}

/// The keyboard-class devices of a filled device list, in list order. `fill_result` is
/// what the filling call returned: when it failed no device is kept; else it is the number
/// of entries written, and no entry past them is read.
pub fn keyboard_devices(fill_result: u32, list: &Vec<RawDevice>) -> (r: Vec<RawDevice>)
    ensures
        r@ == (if fill_result == CALL_FAILED {
            Seq::<RawDevice>::empty()
        } else {
            keyboards_written(list@, fill_result)
        }),
{
    let mut r: Vec<RawDevice> = Vec::new();
    if fill_result == CALL_FAILED {
        return r;
    }
    let n: usize = if (fill_result as usize) < list.len() {
        fill_result as usize
    } else {
        list.len()
    };
    let mut i: usize = 0;
    while i < n
        invariant
            i <= n <= list@.len(),
            r@ == keyboards_of(list@.take(i as int)),
        decreases n - i,
    {
        let d = list[i];
        if d.kind == KEYBOARD_KIND {
            r.push(d);
        }
        proof {
            reveal(Seq::filter);
            assert(list@.take(i + 1).drop_last() =~= list@.take(i as int));
            assert(list@.take(i + 1).last() == d);
            assert(list@.take(i + 1).len() == i + 1);
            assert(r@ == keyboards_of(list@.take(i + 1)));
        }
        i = i + 1;
    }
    assert(r@ == keyboards_written(list@, fill_result));
    r
}

} // verus!
