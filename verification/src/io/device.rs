//! What is known of a block device, and the rules by which devices are
//! listed. Opening and probing are done outside; this module computes.

use crate::text::{
    chars_of, ends_with, find_char, parse_trimmed_u64, parse_u64_text, starts_with, trim_range,
    trimmed,
};
use vstd::prelude::*;
use vstd::string::StrSliceExecFns;
use vstd::string::StringExecFns;

verus! {

/// Bytes in a sector, the unit in which the kernel reports sizes.
pub const SECTOR_BYTES: u64 = 512;

/// An opened block device: its path, the kernel's descriptor and its size.
pub struct Device {
    path: String,
    fd: i32,
    size: u64,
}

/// What is shown of a device in a list.
#[derive(Debug, Clone)]
pub struct DeviceInfo {
    pub path: String,
    pub size: u64,
    pub model: Option<String>,
    pub device_type: Option<String>,
    pub link_speed: Option<String>,
    pub link_status: Option<String>,
}

impl Device {
    pub closed spec fn spec_path(&self) -> Seq<char> {
        self.path@
    }

    pub closed spec fn spec_fd(&self) -> i32 {
        self.fd
    }

    pub closed spec fn spec_size(&self) -> u64 {
        self.size
    }

    /// The handle for the device at `path` that was opened as `fd` and holds
    /// `size` bytes.
    pub fn new(path: String, fd: i32, size: u64) -> (device: Device)
        ensures
            device.spec_path() == path@,
            device.spec_fd() == fd,
            device.spec_size() == size,
    {
        Device { path, fd, size }
    }

    /// The kernel's descriptor of the device.
    pub fn as_raw_fd(&self) -> (fd: i32)
        ensures
            fd == self.spec_fd(),
    {
        self.fd
    }

    /// The path under which the device was opened.
    pub fn path(&self) -> (path: &str)
        ensures
            path@ == self.spec_path(),
    {
        self.path.as_str()
    }

    /// The size of the device in bytes.
    pub fn size(&self) -> (size: u64)
        ensures
            size == self.spec_size(),
    {
        self.size
    }
}

/// Whether a device of this name is left out of the list: loop devices, RAM
/// disks and device-mapper nodes.
pub open spec fn is_skipped_name(name: Seq<char>) -> bool {
    "loop"@.is_prefix_of(name) || "ram"@.is_prefix_of(name) || "dm-"@.is_prefix_of(name)
}

/// Whether the name is that of an NVMe namespace or one of its partitions,
/// and not that of a controller or of the fabrics node.
pub open spec fn is_nvme_namespace(name: Seq<char>) -> bool {
    &&& "nvme"@.is_prefix_of(name)
    &&& name.contains('n')
    &&& !"-fabrics"@.is_suffix_of(name)
    &&& utf8_len(name) >= SHORTEST_NAMESPACE_NAME
}

/// The bytes of the shortest name that can be that of an NVMe namespace.
pub const SHORTEST_NAMESPACE_NAME: usize = 6;

/// The number of bytes that a character takes in UTF-8.
pub open spec fn char_utf8_len(c: char) -> nat {
    if (c as u32) < 0x80 {
        1
    } else if (c as u32) < 0x800 {
        2
    } else if (c as u32) < 0x10000 {
        3
    } else {
        4
    }
}

/// The number of bytes that a text takes in UTF-8.
pub open spec fn utf8_len(s: Seq<char>) -> nat
    decreases s.len(),
{
    if s.len() == 0 {
        0
    } else {
        utf8_len(s.drop_last()) + char_utf8_len(s.last())
    }
}

/// The byte length of a prefix is at most that of the whole.
proof fn lemma_utf8_len_prefix(s: Seq<char>, i: int)
    requires
        0 <= i <= s.len(),
    ensures
        utf8_len(s.take(i)) <= utf8_len(s),
    decreases s.len(),
{
    if i < s.len() {
        assert(s.drop_last().take(i) == s.take(i));
        lemma_utf8_len_prefix(s.drop_last(), i);
    } else {
        assert(s.take(i) == s);
    }
}

/// Whether the text takes more than `limit` bytes in UTF-8.
fn longer_than(v: &Vec<char>, limit: usize) -> (r: bool)
    requires
        limit < 1000,
    ensures
        r == (utf8_len(v@) > limit),
{
    let mut bytes: usize = 0;
    let mut i: usize = 0;
    while i < v.len()
        invariant
            i <= v.len(),
            bytes == utf8_len(v@.take(i as int)),
            bytes <= limit < 1000,
        decreases v.len() - i,
    {
        let c = v[i] as u32;
        let width: usize = if c < 0x80 {
            1
        } else if c < 0x800 {
            2
        } else if c < 0x10000 {
            3
        } else {
            4
        };
        proof {
            assert(v@.take(i + 1).drop_last() == v@.take(i as int));
            lemma_utf8_len_prefix(v@, i + 1);
        }
        bytes = bytes + width;
        if bytes > limit {
            return true;
        }
        i = i + 1;
    }
    assert(v@.take(v.len() as int) == v@);
    false
}

/// Whether a device of this name is left out of the list.
pub fn skips_name(name: &str) -> (skipped: bool)
    ensures
        skipped == is_skipped_name(name@),
{
    let v = chars_of(name);
    assert(v@.subrange(0, v.len() as int) == v@);
    starts_with(&v, 0, v.len(), "loop") || starts_with(&v, 0, v.len(), "ram") || starts_with(
        &v,
        0,
        v.len(),
        "dm-",
    )
}

/// Whether the name is that of an NVMe namespace.
pub fn names_nvme_namespace(name: &str) -> (r: bool)
    ensures
        r == is_nvme_namespace(name@),
{
    let v = chars_of(name);
    let n = v.len();
    assert(v@.subrange(0, n as int) == v@);
    let at = find_char(&v, 0, n, 'n');
    proof {
        crate::text::lemma_index_of(v@, 'n');
        if at < n {
            assert(v@.contains('n'));
        } else {
            assert(!v@.contains('n'));
        }
    }
    starts_with(&v, 0, n, "nvme") && at < n && !ends_with(&v, 0, n, "-fabrics") && longer_than(
        &v,
        SHORTEST_NAMESPACE_NAME - 1,
    )
}

/// The bytes that a text with a number of sectors stands for, if it is a
/// number above zero whose bytes fit in 64 bits. Blanks around the number
/// are ignored.
pub open spec fn sectors_to_bytes_spec(content: Seq<char>) -> Option<u64> {
    match parse_u64_text(trimmed(content)) {
        Some(sectors) => if sectors > 0 && sectors * SECTOR_BYTES <= u64::MAX {
            Some((sectors * SECTOR_BYTES) as u64)
        } else {
            None
        },
        None => None,
    }
}

/// The size in bytes that a text with a number of sectors stands for.
pub fn sectors_to_bytes(content: &str) -> (bytes: Option<u64>)
    ensures
        bytes == sectors_to_bytes_spec(content@),
{
    let v = chars_of(content);
    assert(v@.subrange(0, v.len() as int) == v@);
    match parse_trimmed_u64(&v, 0, v.len()) {
        Some(sectors) => if sectors > 0 {
            sectors.checked_mul(SECTOR_BYTES)
        } else {
            None
        },
        None => None,
    }
}

/// The first of the given sizes that is known and above zero; zero where
/// none is.
pub open spec fn first_size(sizes: Seq<Option<u64>>) -> u64
    decreases sizes.len(),
{
    if sizes.len() == 0 {
        0
    } else if sizes[0] is Some && sizes[0]->0 > 0 {
        sizes[0]->0
    } else {
        first_size(sizes.skip(1))
    }
}

/// The first of the given sizes that is known and above zero; zero where
/// none is.
pub fn first_known_size(sizes: &Vec<Option<u64>>) -> (size: u64)
    ensures
        size == first_size(sizes@),
{
    let mut i: usize = 0;
    assert(sizes@.skip(0) == sizes@);
    while i < sizes.len()
        invariant
            i <= sizes.len(),
            first_size(sizes@) == first_size(sizes@.skip(i as int)),
        decreases sizes.len() - i,
    {
        assert(sizes@.skip(i as int).skip(1) == sizes@.skip(i + 1));
        match sizes[i] {
            Some(bytes) => if bytes > 0 {
                return bytes;
            },
            None => {},
        }
        i = i + 1;
    }
    0
}

/// The sector count as a size, where the text was read.
pub open spec fn size_of_sectors(content: Option<&str>) -> Option<u64> {
    match content {
        Some(text) => sectors_to_bytes_spec(text@),
        None => None,
    }
}

/// The size of a device from what could be found out about it: the sector
/// count of its class entry, else that of its block entry, else what the
/// size ioctl gave, else the length in its metadata. Zero where none of
/// them gives a size above zero.
pub fn device_size_from(
    class_sectors: Option<&str>,
    block_sectors: Option<&str>,
    ioctl_size: Option<u64>,
    metadata_len: Option<u64>,
) -> (size: u64)
    ensures
        size == first_size(
            seq![
                size_of_sectors(class_sectors),
                size_of_sectors(block_sectors),
                ioctl_size,
                metadata_len,
            ],
        ),
{
    let ghost sizes = seq![
        size_of_sectors(class_sectors),
        size_of_sectors(block_sectors),
        ioctl_size,
        metadata_len,
    ];
    proof {
        reveal_with_fuel(first_size, 5);
        assert(sizes.skip(1) =~= seq![size_of_sectors(block_sectors), ioctl_size, metadata_len]);
        assert(sizes.skip(1).skip(1) =~= seq![ioctl_size, metadata_len]);
        assert(sizes.skip(1).skip(1).skip(1) =~= seq![metadata_len]);
        assert(sizes.skip(1).skip(1).skip(1).skip(1) =~= Seq::<Option<u64>>::empty());
    }
    let from_class = match class_sectors {
        Some(text) => sectors_to_bytes(text),
        None => None,
    };
    match from_class {
        Some(bytes) => {
            return bytes;
        },
        None => {},
    }
    let from_block = match block_sectors {
        Some(text) => sectors_to_bytes(text),
        None => None,
    };
    match from_block {
        Some(bytes) => {
            return bytes;
        },
        None => {},
    }
    match ioctl_size {
        Some(bytes) => if bytes > 0 {
            return bytes;
        },
        None => {},
    }
    match metadata_len {
        Some(bytes) => if bytes > 0 {
            return bytes;
        },
        None => {},
    }
    0
}

/// The kinds of device that the list tells apart by name.
#[derive(Debug, Clone, Copy, PartialEq, Eq, Structural)]
pub enum DeviceKind {
    Nvme,
    Sata,
    Other,
}

/// The kind of the device called `name`.
pub open spec fn kind_of_name(name: Seq<char>) -> DeviceKind {
    if "nvme"@.is_prefix_of(name) {
        DeviceKind::Nvme
    } else if "sd"@.is_prefix_of(name) || "vd"@.is_prefix_of(name) || "xvd"@.is_prefix_of(name) {
        DeviceKind::Sata
    } else {
        DeviceKind::Other
    }
}

/// The kind of the device called `name`.
pub fn device_kind(name: &str) -> (kind: DeviceKind)
    ensures
        kind == kind_of_name(name@),
{
    let v = chars_of(name);
    let n = v.len();
    assert(v@.subrange(0, n as int) == v@);
    if starts_with(&v, 0, n, "nvme") {
        DeviceKind::Nvme
    } else if starts_with(&v, 0, n, "sd") || starts_with(&v, 0, n, "vd") || starts_with(
        &v,
        0,
        n,
        "xvd",
    ) {
        DeviceKind::Sata
    } else {
        DeviceKind::Other
    }
}

/// The words that the list shows for a kind of device.
pub open spec fn kind_label(kind: DeviceKind) -> Option<Seq<char>> {
    match kind {
        DeviceKind::Nvme => Some("NVMe"@),
        DeviceKind::Sata => Some("SATA/SAS"@),
        DeviceKind::Other => None,
    }
}

/// The text of `s` without the blanks around it.
pub fn trimmed_string(s: &str) -> (text: String)
    ensures
        text@ == trimmed(s@),
{
    let v = chars_of(s);
    assert(v@.subrange(0, v.len() as int) == v@);
    let (a, b) = trim_range(&v, 0, v.len());
    String::from_str(s.substring_char(a, b))
}

/// The link of a device as shown in the list: its speed, followed by its
/// width behind an `x` where the width is known.
pub open spec fn link_text(speed: Seq<char>, width: Option<Seq<char>>) -> Seq<char> {
    match width {
        Some(w) => trimmed(speed) + " x"@ + trimmed(w),
        None => trimmed(speed),
    }
}

/// The link of a device as shown in the list.
pub fn link_description(speed: &str, width: Option<&str>) -> (text: String)
    ensures
        text@ == link_text(speed@, slice_text_of(width)),
{
    let mut text = trimmed_string(speed);
    match width {
        Some(w) => {
            text.append(" x");
            let width_text = trimmed_string(w);
            text.append(width_text.as_str());
        },
        None => {},
    }
    text
}

/// The view of an optional text.
pub open spec fn text_of(s: Option<String>) -> Option<Seq<char>> {
    match s {
        Some(text) => Some(text@),
        None => None,
    }
}

/// The view of an optional text slice.
pub open spec fn slice_text_of(s: Option<&str>) -> Option<Seq<char>> {
    match s {
        Some(text) => Some(text@),
        None => None,
    }
}

/// Whether `info` describes the device called `name` at `path` of `size`
/// bytes, given what was read about it: the model is shown for NVMe and SATA
/// devices only, the link for NVMe devices only, and the width only beside a
/// speed. No link status is known.
pub open spec fn describes(
    info: DeviceInfo,
    name: Seq<char>,
    path: Seq<char>,
    size: u64,
    model: Option<Seq<char>>,
    link_speed: Option<Seq<char>>,
    link_width: Option<Seq<char>>,
) -> bool {
    &&& info.path@ == path
    &&& info.size == size
    &&& info.link_status is None
    &&& text_of(info.device_type) == kind_label(kind_of_name(name))
    &&& text_of(info.model) == if kind_of_name(name) is Other {
        None
    } else {
        match model {
            Some(m) => Some(trimmed(m)),
            None => None,
        }
    }
    &&& text_of(info.link_speed) == if kind_of_name(name) is Nvme {
        match link_speed {
            Some(speed) => Some(link_text(speed, link_width)),
            None => None,
        }
    } else {
        None
    }
}

/// Describes the device called `name` at `path`, from what was read about it:
/// the model, and for NVMe devices the speed and width of the link.
pub fn describe_device(
    name: &str,
    path: String,
    size: u64,
    model: Option<&str>,
    link_speed: Option<&str>,
    link_width: Option<&str>,
) -> (info: DeviceInfo)
    ensures
        describes(
            info,
            name@,
            path@,
            size,
            slice_text_of(model),
            slice_text_of(link_speed),
            slice_text_of(link_width),
        ),
{
    let kind = device_kind(name);
    let device_type = match kind {
        DeviceKind::Nvme => Some(String::from_str("NVMe")),
        DeviceKind::Sata => Some(String::from_str("SATA/SAS")),
        DeviceKind::Other => None,
    };
    let model_text = match (kind, model) {
        (DeviceKind::Other, _) => None,
        (_, Some(m)) => Some(trimmed_string(m)),
        (_, None) => None,
    };
    let link = match (kind, link_speed) {
        (DeviceKind::Nvme, Some(speed)) => Some(link_description(speed, link_width)),
        _ => None,
    };
    DeviceInfo {
        path,
        size,
        model: model_text,
        device_type,
        link_speed: link,
        link_status: None,
    }
}

impl Device {
    /// What the list shows of this device, from what was read about it; the
    /// device goes by the last component of its path.
    pub fn info(&self, model: Option<&str>, link_speed: Option<&str>, link_width: Option<&str>)
        -> (info: DeviceInfo)
        ensures
            describes(
                info,
                crate::monitor::io_stats::device_name_of(self.spec_path()),
                self.spec_path(),
                self.spec_size(),
                slice_text_of(model),
                slice_text_of(link_speed),
                slice_text_of(link_width),
            ),
    {
        let name = crate::monitor::io_stats::device_name(self.path.as_str());
        describe_device(name.as_str(), self.path.clone(), self.size, model, link_speed, link_width)
    }
}

/// Whether `a` comes before `b` in the order of the dictionary, characters
/// compared by their code points.
pub open spec fn lex_less(a: Seq<char>, b: Seq<char>) -> bool
    decreases a.len(),
{
    if b.len() == 0 {
        false
    } else if a.len() == 0 {
        true
    } else if a[0] != b[0] {
        a[0] < b[0]
    } else {
        lex_less(a.skip(1), b.skip(1))
    }
}

/// If `c` comes before `a`, then `c` comes before `b` or `b` before `a`,
/// whatever `b` is.
pub proof fn lemma_lex_between(c: Seq<char>, b: Seq<char>, a: Seq<char>)
    requires
        lex_less(c, a),
    ensures
        lex_less(c, b) || lex_less(b, a),
    decreases c.len(),
{
    if c.len() > 0 && b.len() > 0 && c[0] == a[0] && b[0] == c[0] {
        lemma_lex_between(c.skip(1), b.skip(1), a.skip(1));
    }
}

/// Nothing comes before itself.
pub proof fn lemma_lex_irreflexive(a: Seq<char>)
    ensures
        !lex_less(a, a),
    decreases a.len(),
{
    if a.len() > 0 {
        lemma_lex_irreflexive(a.skip(1));
    }
}

/// Whether the text `a` comes before the text `b`.
pub fn text_less(a: &Vec<char>, b: &Vec<char>) -> (less: bool)
    ensures
        less == lex_less(a@, b@),
{
    let mut i: usize = 0;
    assert(a@.skip(0) == a@ && b@.skip(0) == b@);
    loop
        invariant
            i <= a.len(),
            i <= b.len(),
            lex_less(a@, b@) == lex_less(a@.skip(i as int), b@.skip(i as int)),
        decreases a.len() - i,
    {
        if i == b.len() {
            return false;
        }
        if i == a.len() {
            return true;
        }
        assert(a@.skip(i as int)[0] == a@[i as int]);
        assert(b@.skip(i as int)[0] == b@[i as int]);
        if a[i] != b[i] {
            return a[i] < b[i];
        }
        assert(a@.skip(i as int).skip(1) == a@.skip(i + 1));
        assert(b@.skip(i as int).skip(1) == b@.skip(i + 1));
        i = i + 1;
    }
}

/// `s` with `device` put behind the last device whose path does not come
/// after its own.
pub open spec fn insert_by_path(s: Seq<DeviceInfo>, device: DeviceInfo) -> Seq<DeviceInfo>
    decreases s.len(),
{
    if s.len() > 0 && lex_less(device.path@, s.last().path@) {
        insert_by_path(s.drop_last(), device).push(s.last())
    } else {
        s.push(device)
    }
}

/// The devices of `s` in the order of their paths; devices with the same
/// path keep their order.
pub open spec fn sorted_by_path(s: Seq<DeviceInfo>) -> Seq<DeviceInfo>
    decreases s.len(),
{
    if s.len() == 0 {
        Seq::empty()
    } else {
        insert_by_path(sorted_by_path(s.drop_last()), s.last())
    }
}

/// Whether no device of `s` stands before one whose path comes before its
/// own.
pub open spec fn paths_ascend(s: Seq<DeviceInfo>) -> bool {
    forall|i: int, j: int| 0 <= i <= j < s.len() ==> !lex_less(s[j].path@, s[i].path@)
}

/// Inserting into ascending devices gives ascending devices, the same as
/// before beside the new one.
pub proof fn lemma_insert_by_path(s: Seq<DeviceInfo>, device: DeviceInfo)
    requires
        paths_ascend(s),
    ensures
        paths_ascend(insert_by_path(s, device)),
        insert_by_path(s, device).len() == s.len() + 1,
        insert_by_path(s, device).to_multiset() == s.to_multiset().insert(device),
    decreases s.len(),
{
    broadcast use vstd::seq_lib::group_to_multiset_ensures;

    let r = insert_by_path(s, device);
    if s.len() > 0 && lex_less(device.path@, s.last().path@) {
        let front = s.drop_last();
        assert forall|i: int, j: int| 0 <= i <= j < front.len() implies !lex_less(
            front[j].path@,
            front[i].path@,
        ) by {
            assert(front[i] == s[i] && front[j] == s[j]);
        }
        lemma_insert_by_path(front, device);
        let inner = insert_by_path(front, device);
        assert forall|i: int| 0 <= i < inner.len() implies !lex_less(
            s.last().path@,
            (#[trigger] inner[i]).path@,
        ) by {
            assert(inner.to_multiset().count(inner[i]) > 0);
            if inner[i] != device {
                assert(front.to_multiset().count(inner[i]) > 0);
                let k = choose|k: int| 0 <= k < front.len() && front[k] == inner[i];
                assert(front[k] == s[k]);
            } else {
                lemma_lex_asymmetric(device.path@, s.last().path@);
            }
        }
        assert forall|i: int, j: int| 0 <= i <= j < r.len() implies !lex_less(
            r[j].path@,
            r[i].path@,
        ) by {
            if j < inner.len() {
                assert(r[i] == inner[i] && r[j] == inner[j]);
            } else if i < inner.len() {
                assert(r[i] == inner[i]);
            } else {
                lemma_lex_irreflexive(r[j].path@);
            }
        }
        assert(s == front.push(s.last()));
    } else {
        assert forall|i: int, j: int| 0 <= i <= j < r.len() implies !lex_less(
            r[j].path@,
            r[i].path@,
        ) by {
            if j < s.len() {
                assert(r[i] == s[i] && r[j] == s[j]);
            } else if i < s.len() {
                assert(r[i] == s[i]);
                assert(!lex_less(s.last().path@, s[i].path@));
                if lex_less(device.path@, s[i].path@) {
                    lemma_lex_between(device.path@, s.last().path@, s[i].path@);
                }
            } else {
                lemma_lex_irreflexive(device.path@);
            }
        }
    }
}

/// Of two texts at most one comes before the other.
pub proof fn lemma_lex_asymmetric(a: Seq<char>, b: Seq<char>)
    ensures
        !(lex_less(a, b) && lex_less(b, a)),
    decreases a.len(),
{
    if a.len() > 0 && b.len() > 0 && a[0] == b[0] {
        lemma_lex_asymmetric(a.skip(1), b.skip(1));
    }
}

/// Sorting gives the same devices in the order of their paths.
pub proof fn lemma_sorted_by_path(s: Seq<DeviceInfo>)
    ensures
        paths_ascend(sorted_by_path(s)),
        sorted_by_path(s).len() == s.len(),
        sorted_by_path(s).to_multiset() == s.to_multiset(),
    decreases s.len(),
{
    broadcast use vstd::seq_lib::group_to_multiset_ensures;

    if s.len() > 0 {
        lemma_sorted_by_path(s.drop_last());
        lemma_insert_by_path(sorted_by_path(s.drop_last()), s.last());
        assert(s == s.drop_last().push(s.last()));
    }
}

/// Whether a device of `s` has the path `path`.
pub open spec fn has_path(s: Seq<DeviceInfo>, path: Seq<char>) -> bool {
    exists|i: int| 0 <= i < s.len() && (#[trigger] s[i]).path@ == path
}

/// The devices found so far for a list.
pub struct DeviceList {
    devices: Vec<DeviceInfo>,
}

impl View for DeviceList {
    type V = Seq<DeviceInfo>;

    closed spec fn view(&self) -> Seq<DeviceInfo> {
        self.devices@
    }
}

impl DeviceList {
    /// A list without devices.
    pub fn new() -> (list: DeviceList)
        ensures
            list@ == Seq::<DeviceInfo>::empty(),
    {
        DeviceList { devices: Vec::new() }
    }

    /// Takes a block device that the system lists under `name`, unless its
    /// name is one to skip or its size is zero. Says whether it was taken.
    pub fn add_block_device(&mut self, name: &str, info: DeviceInfo) -> (added: bool)
        ensures
            added == (!is_skipped_name(name@) && info.size > 0),
            final(self)@ == if added {
                old(self)@.push(info)
            } else {
                old(self)@
            },
    {
        if !skips_name(name) && info.size > 0 {
            self.devices.push(info);
            true
        } else {
            false
        }
    }

    /// Takes a device node called `name` if it is an NVMe namespace of a
    /// size above zero whose path is not in the list yet. Says whether it
    /// was taken.
    pub fn add_device_node(&mut self, name: &str, info: DeviceInfo) -> (added: bool)
        ensures
            added == (is_nvme_namespace(name@) && info.size > 0 && !has_path(
                old(self)@,
                info.path@,
            )),
            final(self)@ == if added {
                old(self)@.push(info)
            } else {
                old(self)@
            },
    {
        if !names_nvme_namespace(name) || info.size == 0 {
            return false;
        }
        let mut i: usize = 0;
        while i < self.devices.len()
            invariant
                i <= self.devices.len(),
                self@ == old(self)@,
                forall|j: int| 0 <= j < i ==> (#[trigger] self@[j]).path@ != info.path@,
            decreases self.devices.len() - i,
        {
            if self.devices[i].path == info.path {
                assert(self@[i as int].path@ == info.path@);
                return false;
            }
            i = i + 1;
        }
        self.devices.push(info);
        true
    }

    /// The devices taken, in the order of their paths.
    pub fn finish(self) -> (devices: Vec<DeviceInfo>)
        ensures
            devices@ == sorted_by_path(self@),
            paths_ascend(devices@),
            devices@.len() == self@.len(),
            devices@.to_multiset() == self@.to_multiset(),
    {
        let ghost all = self@;
        let mut rest = self.devices;
        let mut sorted: Vec<DeviceInfo> = Vec::new();
        let ghost mut done: int = 0;
        assert(all.skip(0) == all);
        while rest.len() > 0
            invariant
                0 <= done <= all.len(),
                rest@ == all.skip(done),
                sorted@ == sorted_by_path(all.take(done)),
            decreases rest.len(),
        {
            let device = rest.remove(0);
            proof {
                assert(device == all[done]);
                assert(all.take(done + 1).drop_last() == all.take(done));
                assert(all.skip(done).remove(0) == all.skip(done + 1));
            }
            let key = chars_of(device.path.as_str());
            let ghost before = sorted@;
            let mut at: usize = sorted.len();
            proof {
                assert(before.take(before.len() as int) == before);
                assert(insert_by_path(before, device) + before.skip(before.len() as int)
                    == insert_by_path(before, device));
            }
            loop
                invariant_except_break
                    at <= sorted.len(),
                    sorted@ == before,
                    key@ == device.path@,
                    insert_by_path(before, device) == insert_by_path(
                        before.take(at as int),
                        device,
                    ) + before.skip(at as int),
                ensures
                    at <= sorted.len(),
                    sorted@ == before,
                    insert_by_path(before, device) == before.insert(at as int, device),
                decreases at,
            {
                let ghost head = before.take(at as int);
                if at == 0 {
                    proof {
                        assert(head.push(device) + before.skip(0) == before.insert(0, device));
                    }
                    break ;
                }
                let other = chars_of(sorted[at - 1].path.as_str());
                if !text_less(&key, &other) {
                    proof {
                        assert(head.last() == before[at - 1]);
                        assert(head.push(device) + before.skip(at as int) == before.insert(
                            at as int,
                            device,
                        ));
                    }
                    break ;
                }
                proof {
                    assert(head.last() == before[at - 1]);
                    assert(head.drop_last() == before.take(at - 1));
                    assert(insert_by_path(head.drop_last(), device).push(head.last())
                        + before.skip(at as int) == insert_by_path(before.take(at - 1), device)
                        + before.skip(at - 1));
                }
                at = at - 1;
            }
            sorted.insert(at, device);
            proof {
                done = done + 1;
            }
        }
        proof {
            assert(all.take(all.len() as int) == all);
            lemma_sorted_by_path(all);
        }
        sorted
    }
}

} // verus!
