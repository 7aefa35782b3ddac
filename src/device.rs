//! Device classification: what an input device can do, and whether it may be
//! captured.
use crate::text::{
    chars_of, contains_folded, contains_text, lower_of, text_contains, texts_of, utf8_text,
};
use vstd::prelude::*;
use vstd::seq_lib::*;
use vstd::slice::*;
use vstd::string::*;
use vstd::utf8::*;

verus! {

broadcast use vstd::utf8::encode_utf8_decode_utf8, vstd::utf8::encode_utf8_valid_utf8;

/// What a device can do. The flags combine; none set means the device has
/// no capability of interest.
#[derive(Debug, Clone, Copy, PartialEq, Eq, Structural)]
pub struct Capability {
    /// It reports at least one key.
    pub keyboard: bool,
    /// It reports relative motion along X or Y.
    pub pointer_relative: bool,
    /// It reports absolute position along X or Y.
    pub pointer_absolute: bool,
}

impl Capability {
    pub open spec fn is_none(self) -> bool {
        !self.keyboard && !self.pointer_relative && !self.pointer_absolute
    }

    /// Whether no capability flag is set.
    pub fn none(&self) -> (r: bool)
        ensures
            r == self.is_none(),
    {
        !self.keyboard && !self.pointer_relative && !self.pointer_absolute
    }
}

/// Whether any bit of a capability bitmap is set.
pub open spec fn any_bit_set(bits: Seq<u8>) -> bool {
    exists|i: int| 0 <= i < bits.len() && bits[i] != 0
}

/// Whether an axis bitmap has the X (bit 0) or Y (bit 1) axis.
pub open spec fn xy_axis_set(bits: Seq<u8>) -> bool {
    bits.len() > 0 && bits[0] & 3u8 != 0
}

pub open spec fn capability_of(key_bits: Seq<u8>, rel_bits: Seq<u8>, abs_bits: Seq<u8>) -> Capability {
    Capability {
        keyboard: any_bit_set(key_bits),
        pointer_relative: xy_axis_set(rel_bits),
        pointer_absolute: xy_axis_set(abs_bits),
    }
}

fn has_any_bit(bits: &[u8]) -> (r: bool)
    ensures
        r == any_bit_set(bits@),
{
    let mut i: usize = 0;
    while i < bits.len()
        invariant
            i <= bits@.len(),
            forall|k: int| 0 <= k < i ==> bits@[k] == 0,
        decreases bits@.len() - i,
    {
        if bits[i] != 0 {
            return true;
        }
        i = i + 1;
    }
    false
}

fn has_xy_axis(bits: &[u8]) -> (r: bool)
    ensures
        r == xy_axis_set(bits@),
{
    bits.len() > 0 && bits[0] & 3 != 0
}

/// Classifies a device from its three capability bitmaps: key bits, relative
/// axis bits and absolute axis bits. A bitmap that could not be queried is
/// passed empty.
pub fn classify(key_bits: &[u8], rel_bits: &[u8], abs_bits: &[u8]) -> (r: Capability)
    ensures
        r == capability_of(key_bits@, rel_bits@, abs_bits@),
{
    Capability {
        keyboard: has_any_bit(key_bits),
        pointer_relative: has_xy_axis(rel_bits),
        pointer_absolute: has_xy_axis(abs_bits),
    }
}

/// What is known of one input device.
#[derive(Debug, Clone)]
pub struct DeviceInfo {
    /// Its node, which identifies it.
    pub path: String,
    /// Its display name, when it could be read.
    pub name: Option<String>,
    /// Its key bitmap; empty when the device could not be opened or queried.
    pub key_bits: Vec<u8>,
    /// Its relative-axis bitmap; empty likewise.
    pub rel_bits: Vec<u8>,
    /// Its absolute-axis bitmap; empty likewise.
    pub abs_bits: Vec<u8>,
}

/// Model of a [`DeviceInfo`].
pub struct DeviceModel {
    pub path: Seq<char>,
    pub name: Option<Seq<char>>,
    pub key_bits: Seq<u8>,
    pub rel_bits: Seq<u8>,
    pub abs_bits: Seq<u8>,
}

pub open spec fn name_view(name: Option<String>) -> Option<Seq<char>> {
    match name {
        Some(n) => Some(n@),
        None => None,
    }
}

impl View for DeviceInfo {
    type V = DeviceModel;

    open spec fn view(&self) -> DeviceModel {
        DeviceModel {
            path: self.path@,
            name: name_view(self.name),
            key_bits: self.key_bits@,
            rel_bits: self.rel_bits@,
            abs_bits: self.abs_bits@,
        }
    }
}

impl DeviceModel {
    pub open spec fn capability(self) -> Capability {
        capability_of(self.key_bits, self.rel_bits, self.abs_bits)
    }
}

/// Whether a lower-case device name marks a virtual, loop-back or own device:
/// it contains "virtual", "uinput" or "asteria".
pub open spec fn excluded_name(folded: Seq<char>) -> bool {
    contains_text(folded, "virtual"@) || contains_text(folded, "uinput"@) || contains_text(
        folded,
        "asteria"@,
    )
}

/// Whether a device's name, if known, excludes it, whatever its case.
pub open spec fn name_excludes(name: Option<Seq<char>>) -> bool {
    name matches Some(n) && excluded_name(lower_of(n))
}

/// A device may be captured when it has some capability and its name does
/// not exclude it.
pub open spec fn eligible(d: DeviceModel) -> bool {
    !d.capability().is_none() && !name_excludes(d.name)
}

/// The exclusion rule on a name that is already lower-case.
pub fn matches_exclusion_folded(folded: &str) -> (r: bool)
    ensures
        r == excluded_name(folded@),
{
    text_contains(folded, "virtual") || text_contains(folded, "uinput") || text_contains(
        folded,
        "asteria",
    )
}

/// The exclusion rule on a name in any case.
pub fn is_excluded_name(name: &str) -> (r: bool)
    ensures
        r == excluded_name(lower_of(name@)),
{
    contains_folded(name, "virtual") || contains_folded(name, "uinput") || contains_folded(
        name,
        "asteria",
    )
}

/// Whether the device may be captured.
pub fn is_eligible(d: &DeviceInfo) -> (r: bool)
    ensures
        r == eligible(d@),
{
    let cap = classify(d.key_bits.as_slice(), d.rel_bits.as_slice(), d.abs_bits.as_slice());
    if cap.none() {
        return false;
    }
    match &d.name {
        Some(n) => !is_excluded_name(n.as_str()),
        None => true,
    }
}

/// A device without any capability is never eligible.
pub proof fn lemma_no_capability_not_eligible(d: DeviceModel)
    requires
        d.capability().is_none(),
    ensures
        !eligible(d),
{
}

/// A device whose name matches the exclusion rule is never eligible,
/// whatever its capability bits.
pub proof fn lemma_excluded_name_not_eligible(d: DeviceModel)
    requires
        name_excludes(d.name),
    ensures
        !eligible(d),
{
}

/// The bytes with trailing zero bytes removed.
pub open spec fn trim_nul(b: Seq<u8>) -> Seq<u8>
    decreases b.len(),
{
    if b.len() > 0 && b.last() == 0 {
        trim_nul(b.drop_last())
    } else {
        b
    }
}

/// The display name in a name-query buffer: the text before the trailing
/// NUL bytes, when it is UTF-8.
pub open spec fn raw_device_name(b: Seq<u8>) -> Option<Seq<char>> {
    if valid_utf8(trim_nul(b)) {
        Some(decode_utf8(trim_nul(b)))
    } else {
        None
    }
}

/// Reads a display name out of the buffer that the name query filled.
pub fn device_name(raw: &[u8]) -> (r: Option<String>)
    ensures
        name_view(r) == raw_device_name(raw@),
{
    let mut end: usize = raw.len();
    assert(raw@.subrange(0, end as int) =~= raw@);
    while end > 0 && raw[end - 1] == 0
        invariant
            end <= raw@.len(),
            trim_nul(raw@.subrange(0, end as int)) == trim_nul(raw@),
        decreases end,
    {
        assert(raw@.subrange(0, end - 1 as int) =~= raw@.subrange(0, end as int).drop_last());
        end = end - 1;
    }
    assert(trim_nul(raw@.subrange(0, end as int)) == raw@.subrange(0, end as int));
    match utf8_text(slice_subrange(raw, 0, end)) {
        Some(s) => Some(s.to_owned()),
        None => None,
    }
}

/// Whether a device node's file name is an event node ("event" followed by
/// anything).
pub fn is_event_node(file_name: &str) -> (r: bool)
    ensures
        r == (file_name@.len() >= 5 && file_name@.subrange(0, 5) == "event"@),
{
    let c = chars_of(file_name);
    let prefix = chars_of("event");
    proof {
        reveal_strlit("event");
    }
    if c.len() < 5 {
        return false;
    }
    let mut i: usize = 0;
    while i < 5
        invariant
            c@ == file_name@,
            prefix@ == "event"@,
            prefix@.len() == 5,
            c@.len() >= 5,
            i <= 5,
            forall|k: int| 0 <= k < i ==> c@[k] == prefix@[k],
        decreases 5 - i,
    {
        if c[i] != prefix[i] {
            assert(file_name@.subrange(0, 5)[i as int] != "event"@[i as int]);
            return false;
        }
        i = i + 1;
    }
    assert(file_name@.subrange(0, 5) =~= "event"@);
    true
}

/// Lexicographic order of texts by code point, which is the order in which
/// Rust compares strings.
pub open spec fn text_le(a: Seq<char>, b: Seq<char>) -> bool
    decreases a.len(),
{
    if a.len() == 0 {
        true
    } else if b.len() == 0 {
        false
    } else if a[0] != b[0] {
        (a[0] as u32) < (b[0] as u32)
    } else {
        text_le(a.drop_first(), b.drop_first())
    }
}

proof fn lemma_text_le_total(a: Seq<char>, b: Seq<char>)
    ensures
        text_le(a, b) || text_le(b, a),
    decreases a.len(),
{
    if a.len() > 0 && b.len() > 0 {
        char_u32_cast(a[0], a[0] as u32);
        char_u32_cast(b[0], b[0] as u32);
        if a[0] == b[0] {
            lemma_text_le_total(a.drop_first(), b.drop_first());
        }
    }
}

proof fn lemma_text_le_skip(a: Seq<char>, b: Seq<char>, i: int)
    requires
        0 <= i <= a.len(),
        i <= b.len(),
        a.subrange(0, i) == b.subrange(0, i),
    ensures
        text_le(a, b) == text_le(a.subrange(i, a.len() as int), b.subrange(i, b.len() as int)),
    decreases i,
{
    if i > 0 {
        assert(a[0] == a.subrange(0, i)[0]);
        assert(b[0] == b.subrange(0, i)[0]);
        assert(a.drop_first().subrange(0, i - 1) =~= a.subrange(1, i));
        assert(b.drop_first().subrange(0, i - 1) =~= b.subrange(1, i));
        assert(a.subrange(1, i) =~= a.subrange(0, i).drop_first());
        assert(b.subrange(1, i) =~= b.subrange(0, i).drop_first());
        lemma_text_le_skip(a.drop_first(), b.drop_first(), i - 1);
        assert(a.drop_first().subrange(i - 1, a.len() - 1) =~= a.subrange(i, a.len() as int));
        assert(b.drop_first().subrange(i - 1, b.len() - 1) =~= b.subrange(i, b.len() as int));
    } else {
        assert(a.subrange(0, a.len() as int) =~= a);
        assert(b.subrange(0, b.len() as int) =~= b);
    }
}

/// Compares two texts in [`text_le`] order.
pub fn text_le_exec(a: &str, b: &str) -> (r: bool)
    ensures
        r == text_le(a@, b@),
{
    let x = chars_of(a);
    let y = chars_of(b);
    let mut i: usize = 0;
    while i < x.len() && i < y.len()
        invariant
            x@ == a@,
            y@ == b@,
            i <= x@.len(),
            i <= y@.len(),
            x@.subrange(0, i as int) == y@.subrange(0, i as int),
        decreases x@.len() - i,
    {
        if x[i] != y[i] {
            proof {
                lemma_text_le_skip(a@, b@, i as int);
            }
            return (x[i] as u32) < (y[i] as u32);
        }
        i = i + 1;
        assert(x@.subrange(0, i as int) =~= x@.subrange(0, i - 1 as int).push(x@[i - 1]));
        assert(y@.subrange(0, i as int) =~= y@.subrange(0, i - 1 as int).push(y@[i - 1]));
    }
    proof {
        lemma_text_le_skip(a@, b@, i as int);
    }
    x.len() <= y.len()
}

/// Each text is at most the next one.
pub open spec fn sorted_texts(s: Seq<Seq<char>>) -> bool {
    forall|i: int| 0 <= i < s.len() - 1 ==> #[trigger] text_le(s[i], s[i + 1])
}

pub open spec fn devices_view(v: Seq<DeviceInfo>) -> Seq<DeviceModel> {
    v.map_values(|d: DeviceInfo| d@)
}

/// The paths of the eligible devices, in the order of the list.
pub open spec fn eligible_paths(ds: Seq<DeviceModel>) -> Seq<Seq<char>>
    decreases ds.len(),
{
    if ds.len() == 0 {
        Seq::empty()
    } else if eligible(ds.last()) {
        eligible_paths(ds.drop_last()).push(ds.last().path)
    } else {
        eligible_paths(ds.drop_last())
    }
}

fn insert_sorted(v: &mut Vec<String>, p: String)
    requires
        sorted_texts(texts_of(old(v)@)),
    ensures
        sorted_texts(texts_of(final(v)@)),
        texts_of(final(v)@).to_multiset() == texts_of(old(v)@).to_multiset().insert(p@),
{
    let mut k: usize = v.len();
    loop
        invariant
            k <= v@.len(),
            v@ == old(v)@,
            forall|j: int| k <= j < v@.len() ==> !text_le(#[trigger] texts_of(v@)[j], p@),
        ensures
            k <= v@.len(),
            v@ == old(v)@,
            forall|j: int| k <= j < v@.len() ==> !text_le(#[trigger] texts_of(v@)[j], p@),
            k > 0 ==> text_le(texts_of(v@)[k - 1], p@),
        decreases k,
    {
        if k == 0 {
            break;
        }
        if text_le_exec(v[k - 1].as_str(), p.as_str()) {
            break;
        }
        k = k - 1;
    }
    let ghost old_texts = texts_of(v@);
    let ghost pv = p@;
    v.insert(k, p);
    proof {
        let t = texts_of(v@);
        assert(t =~= old_texts.insert(k as int, pv));
        assert forall|i: int| 0 <= i < t.len() - 1 implies #[trigger] text_le(t[i], t[i + 1]) by {
            if i + 1 < k {
                assert(text_le(old_texts[i], old_texts[i + 1]));
            } else if i + 1 == k {
            } else if i == k {
                lemma_text_le_total(old_texts[k as int], pv);
            } else {
                let j = i - 1;
                assert(text_le(old_texts[j], old_texts[j + 1]));
            }
        }
        to_multiset_insert(old_texts, k as int, pv);
    }
}

/// The paths of the devices that may be captured, sorted so that the grab
/// order is the same from run to run.
pub fn eligible_device_paths(devices: &Vec<DeviceInfo>) -> (r: Vec<String>)
    ensures
        sorted_texts(texts_of(r@)),
        texts_of(r@).to_multiset() == eligible_paths(devices_view(devices@)).to_multiset(),
{
    let mut out: Vec<String> = Vec::new();
    let mut i: usize = 0;
    assert(texts_of(out@) =~= Seq::<Seq<char>>::empty());
    assert(devices_view(devices@).subrange(0, 0) =~= Seq::<DeviceModel>::empty());
    while i < devices.len()
        invariant
            i <= devices@.len(),
            sorted_texts(texts_of(out@)),
            texts_of(out@).to_multiset() == eligible_paths(
                devices_view(devices@).subrange(0, i as int),
            ).to_multiset(),
        decreases devices@.len() - i,
    {
        let d = &devices[i];
        let ghost before = devices_view(devices@).subrange(0, i as int);
        let ghost after = devices_view(devices@).subrange(0, i + 1 as int);
        assert(after.drop_last() =~= before);
        assert(after.last() == d@);
        if is_eligible(d) {
            let p = d.path.clone();
            insert_sorted(&mut out, p);
            proof {
                to_multiset_build(eligible_paths(before), d@.path);
            }
        }
        i = i + 1;
    }
    assert(devices_view(devices@).subrange(0, i as int) =~= devices_view(devices@));
    out
}

} // verus!
