//! The registry as a backing store: how a virtual path names a registry
//! key, and what a key lists.

use vstd::prelude::*;
use crate::conv::{encode_utf16, lemma_encode_basic_plane, WStr, WStrExt};
use crate::dirinfo::{entry_views, BasicInfo, DirEntry, DirEntryView};

verus! {

pub const BACKSLASH: u16 = 0x5C;

pub const SLASH: u16 = 0x2F;

pub const DOT: u16 = 0x2E;

/// Whether `unit` separates the parts of a path.
pub open spec fn spec_is_separator(unit: u16) -> bool {
    unit == BACKSLASH || unit == SLASH
}

/// Whether `unit` separates the parts of a path.
#[verifier::when_used_as_spec(spec_is_separator)]
pub fn is_separator(unit: u16) -> (b: bool)
    ensures
        b == spec_is_separator(unit),
{
    unit == BACKSLASH || unit == SLASH
}

/// The number of units at the front of `s` before its first separator.
pub open spec fn segment_len(s: Seq<u16>) -> nat
    decreases s.len(),
{
    if s.len() == 0 || is_separator(s[0]) {
        0
    } else {
        1 + segment_len(s.drop_first())
    }
}

/// The leading segment holds no separator and ends at one or at the end.
pub proof fn lemma_segment_len(s: Seq<u16>)
    ensures
        segment_len(s) <= s.len(),
        forall|k: int| 0 <= k < segment_len(s) ==> !is_separator(#[trigger] s[k]),
        segment_len(s) < s.len() ==> is_separator(s[segment_len(s) as int]),
        s.len() > 0 && !is_separator(s[0]) ==> segment_len(s) >= 1,
    decreases s.len(),
{
    if s.len() != 0 && !is_separator(s[0]) {
        let t = s.drop_first();
        lemma_segment_len(t);
        assert forall|k: int| 0 <= k < segment_len(s) implies !is_separator(#[trigger] s[k]) by {
            if k > 0 {
                assert(s[k] == t[k - 1]);
            }
        }
        if segment_len(s) < s.len() {
            assert(s[segment_len(s) as int] == t[segment_len(t) as int]);
        }
    }
}

/// Only the length of the leading segment has its properties.
pub proof fn lemma_segment_len_unique(s: Seq<u16>, n: nat)
    requires
        n <= s.len(),
        forall|k: int| 0 <= k < n ==> !is_separator(#[trigger] s[k]),
        n < s.len() ==> is_separator(s[n as int]),
    ensures
        n == segment_len(s),
    decreases s.len(),
{
    if s.len() != 0 && !is_separator(s[0]) {
        let t = s.drop_first();
        assert(n > 0);
        assert forall|k: int| 0 <= k < n - 1 implies !is_separator(#[trigger] t[k]) by {
            assert(t[k] == s[k + 1]);
        }
        if n - 1 < t.len() {
            assert(t[n - 1] == s[n as int]);
        }
        lemma_segment_len_unique(t, (n - 1) as nat);
    } else if s.len() != 0 {
        if n > 0 {
            assert(!is_separator(s[0]));
        }
    }
}

/// One part of a path.
pub enum PathPart {
    /// The separator that a path begins with.
    RootDir,
    /// A `.` at the beginning of a path.
    CurDir,
    /// A `..`.
    ParentDir,
    /// Any other name.
    Normal(Seq<u16>),
}

/// The part that a segment stands for, if it stands for one: a `.` counts
/// at the beginning of a path only.
pub open spec fn part_of_segment(segment: Seq<u16>, leading: bool) -> Option<PathPart> {
    if segment.len() == 1 && segment[0] == DOT {
        if leading {
            Some(PathPart::CurDir)
        } else {
            None
        }
    } else if segment.len() == 2 && segment[0] == DOT && segment[1] == DOT {
        Some(PathPart::ParentDir)
    } else {
        Some(PathPart::Normal(segment))
    }
}

/// The parts of `s`, the rest of a path behind its root; `leading` says
/// whether `s` is the beginning of the path. Runs of separators count as
/// one separator, and a separator at the end counts for nothing.
pub open spec fn parts_from(s: Seq<u16>, leading: bool) -> Seq<PathPart>
    decreases s.len(),
    via parts_from_decreases
{
    if s.len() == 0 {
        Seq::empty()
    } else if is_separator(s[0]) {
        parts_from(s.drop_first(), leading)
    } else {
        let n = segment_len(s) as int;
        let rest = parts_from(s.skip(n), false);
        match part_of_segment(s.take(n), leading) {
            Some(part) => seq![part] + rest,
            None => rest,
        }
    }
}

#[via_fn]
proof fn parts_from_decreases(s: Seq<u16>, leading: bool) {
    lemma_segment_len(s);
}

/// The parts of a path below a virtualization root. Such a path has no
/// drive or share in front; it may begin with a separator.
pub open spec fn path_parts(path: Seq<u16>) -> Seq<PathPart> {
    if path.len() > 0 && is_separator(path[0]) {
        seq![PathPart::RootDir] + parts_from(path, false)
    } else {
        parts_from(path, true)
    }
}

/// One part of a path, with its name where it has one.
#[derive(Debug)]
pub enum Component {
    RootDir,
    CurDir,
    ParentDir,
    Normal(WStr),
}

impl View for Component {
    type V = PathPart;

    open spec fn view(&self) -> PathPart {
        match *self {
            Component::RootDir => PathPart::RootDir,
            Component::CurDir => PathPart::CurDir,
            Component::ParentDir => PathPart::ParentDir,
            Component::Normal(name) => PathPart::Normal(name@),
        }
    }
}

/// What each of `parts` is.
pub open spec fn component_views(parts: Seq<Component>) -> Seq<PathPart> {
    Seq::new(parts.len(), |i: int| parts[i]@)
}

/// Takes a path apart.
pub fn components(path: &WStr) -> (parts: Vec<Component>)
    ensures
        component_views(parts@) == path_parts(path@),
{
    let n = path.len();
    let mut parts: Vec<Component> = Vec::new();
    let mut leading = true;
    if n > 0 && is_separator(path.unit(0)) {
        parts.push(Component::RootDir);
        leading = false;
        assert(component_views(parts@) =~= seq![PathPart::RootDir]);
    } else {
        assert(component_views(parts@) =~= Seq::<PathPart>::empty());
    }
    assert(path@.skip(0) =~= path@);
    let mut i: usize = 0;
    while i < n
        invariant
            i <= n,
            n == path@.len(),
            component_views(parts@) + parts_from(path@.skip(i as int), leading) =~= path_parts(
                path@,
            ),
        decreases n - i,
    {
        let ghost rest = path@.skip(i as int);
        let ghost done = component_views(parts@);
        if is_separator(path.unit(i)) {
            assert(rest.drop_first() =~= path@.skip(i + 1));
            i = i + 1;
        } else {
            let start = i;
            let mut end: usize = i + 1;
            loop
                invariant
                    start < end <= n,
                    n == path@.len(),
                    forall|k: int| start <= k < end ==> !is_separator(#[trigger] path@[k]),
                ensures
                    start < end <= n,
                    forall|k: int| start <= k < end ==> !is_separator(#[trigger] path@[k]),
                    end < n ==> is_separator(path@[end as int]),
                decreases n - end,
            {
                if end >= n {
                    break;
                }
                if is_separator(path.unit(end)) {
                    break;
                }
                end = end + 1;
            }
            proof {
                assert forall|k: int| 0 <= k < end - start implies !is_separator(
                    #[trigger] rest[k],
                ) by {
                    assert(rest[k] == path@[start + k]);
                }
                lemma_segment_len_unique(rest, (end - start) as nat);
                assert(rest.take(end - start) =~= path@.subrange(start as int, end as int));
                assert(rest.skip(end - start) =~= path@.skip(end as int));
            }
            let is_dot = end - start == 1 && path.unit(start) == DOT;
            let is_dot_dot = end - start == 2 && path.unit(start) == DOT && path.unit(start + 1)
                == DOT;
            if is_dot {
                if leading {
                    parts.push(Component::CurDir);
                    assert(component_views(parts@) =~= done + seq![PathPart::CurDir]);
                }
            } else if is_dot_dot {
                parts.push(Component::ParentDir);
                assert(component_views(parts@) =~= done + seq![PathPart::ParentDir]);
            } else {
                let name = path.subrange(start, end);
                parts.push(Component::Normal(name));
                assert(component_views(parts@) =~= done + seq![PathPart::Normal(name@)]);
            }
            leading = false;
            i = end;
        }
    }
    assert(path@.skip(n as int) =~= Seq::<u16>::empty());
    assert(component_views(parts@) + Seq::<PathPart>::empty() =~= component_views(parts@));
    parts
}

/// Whether `path` names the virtualization root itself: it has no part,
/// or it begins with a separator.
pub open spec fn spec_is_virtualization_root(path: Seq<u16>) -> bool {
    path_parts(path).len() == 0 || path_parts(path)[0] is RootDir
}

/// Whether `path` names the virtualization root itself. That is so for
/// the empty path and for a path that begins with a separator, and for no
/// other.
pub fn is_virtualization_root(path: &WStr) -> (b: bool)
    ensures
        b == spec_is_virtualization_root(path@),
        b == (path@.len() == 0 || is_separator(path@[0])),
{
    proof {
        lemma_root_paths(path@);
    }
    path.len() == 0 || is_separator(path.unit(0))
}

/// A path has the root as its first part, or no part at all, exactly
/// when it is empty or begins with a separator.
pub proof fn lemma_root_paths(path: Seq<u16>)
    ensures
        spec_is_virtualization_root(path) == (path.len() == 0 || is_separator(path[0])),
{
    if path.len() > 0 && !is_separator(path[0]) {
        lemma_segment_len(path);
        let n = segment_len(path) as int;
        assert(part_of_segment(path.take(n), true) is Some);
        let rest = parts_from(path.skip(n), false);
        let part = part_of_segment(path.take(n), true)->0;
        assert(path_parts(path) == seq![part] + rest);
        assert(path_parts(path)[0] == part);
        assert(path_parts(path).len() > 0);
    } else if path.len() > 0 {
        assert(path_parts(path)[0] == PathPart::RootDir);
    }
}

/// The text of a part, as it stands in a path.
pub open spec fn part_text(part: PathPart) -> Seq<u16> {
    match part {
        PathPart::RootDir => seq![BACKSLASH],
        PathPart::CurDir => seq![DOT],
        PathPart::ParentDir => seq![DOT, DOT],
        PathPart::Normal(name) => name,
    }
}

/// The path made of `parts`: their texts with one backslash between
/// neighbours.
pub open spec fn joined(parts: Seq<PathPart>) -> Seq<u16>
    decreases parts.len(),
{
    if parts.len() == 0 {
        Seq::empty()
    } else if parts.len() == 1 {
        part_text(parts[0])
    } else {
        joined(parts.drop_last()) + seq![BACKSLASH] + part_text(parts.last())
    }
}

impl Component {
    /// The text of this part, as it stands in a path.
    pub fn text(&self) -> (text: WStr)
        ensures
            text@ == part_text(self@),
    {
        match self {
            Component::RootDir => WStr::from_text(vec![BACKSLASH]),
            Component::CurDir => WStr::from_text(vec![DOT]),
            Component::ParentDir => WStr::from_text(vec![DOT, DOT]),
            Component::Normal(name) => name.clone(),
        }
    }
}

/// Joins the parts from position `from` on into one path.
pub fn join_from(parts: &Vec<Component>, from: usize) -> (path: WStr)
    requires
        from <= parts@.len(),
    ensures
        path@ == joined(component_views(parts@).skip(from as int)),
{
    let ghost views = component_views(parts@);
    let mut text: Vec<u16> = Vec::new();
    let mut i: usize = from;
    assert(views.subrange(from as int, from as int) =~= Seq::<PathPart>::empty());
    while i < parts.len()
        invariant
            from <= i <= parts@.len(),
            views == component_views(parts@),
            text@ == joined(views.subrange(from as int, i as int)),
        decreases parts@.len() - i,
    {
        let ghost before = text@;
        if i > from {
            text.push(BACKSLASH);
        }
        let part = parts[i].text();
        let ghost sep = text@;
        let mut k: usize = 0;
        while k < part.len()
            invariant
                k <= part@.len(),
                text@ == sep + part@.take(k as int),
            decreases part@.len() - k,
        {
            text.push(part.unit(k));
            k = k + 1;
            assert(text@ =~= sep + part@.take(k as int));
        }
        assert(part@.take(part@.len() as int) =~= part@);
        i = i + 1;
        proof {
            let now = views.subrange(from as int, i as int);
            assert(now.drop_last() =~= views.subrange(from as int, i - 1));
            assert(now.last() == views[i - 1]);
            assert(part@ == part_text(views[i - 1]));
            if now.len() == 1 {
                assert(before =~= Seq::<u16>::empty());
                assert(text@ =~= part@);
            } else {
                assert(text@ =~= before + seq![BACKSLASH] + part@);
            }
        }
    }
    assert(views.subrange(from as int, parts@.len() as int) =~= views.skip(from as int));
    WStr::from_text(text)
}

/// One of the trees that the registry is made of.
#[derive(Clone, Copy, Debug, PartialEq, Eq)]
pub enum Hive {
    ClassesRoot,
    CurrentUser,
    LocalMachine,
    Users,
    CurrentConfig,
}

/// The name under which a tree appears in the virtualization root.
pub open spec fn hive_name(hive: Hive) -> Seq<char> {
    match hive {
        Hive::ClassesRoot => "HKEY_CLASSES_ROOT"@,
        Hive::CurrentUser => "HKEY_CURRENT_USER"@,
        Hive::LocalMachine => "HKEY_LOCAL_MACHINE"@,
        Hive::Users => "HKEY_USERS"@,
        Hive::CurrentConfig => "HKEY_CURRENT_CONFIG"@,
    }
}

impl Hive {
    /// The name under which this tree appears in the virtualization root.
    pub fn name(&self) -> (name: &'static str)
        ensures
            name@ == hive_name(*self),
    {
        match self {
            Hive::ClassesRoot => "HKEY_CLASSES_ROOT",
            Hive::CurrentUser => "HKEY_CURRENT_USER",
            Hive::LocalMachine => "HKEY_LOCAL_MACHINE",
            Hive::Users => "HKEY_USERS",
            Hive::CurrentConfig => "HKEY_CURRENT_CONFIG",
        }
    }
}

/// The trees of the registry by name, in the order in which the root
/// lists them.
pub open spec fn root_keys() -> Seq<(Seq<u16>, Hive)> {
    seq![
        (encode_utf16(hive_name(Hive::ClassesRoot)), Hive::ClassesRoot),
        (encode_utf16(hive_name(Hive::CurrentUser)), Hive::CurrentUser),
        (encode_utf16(hive_name(Hive::LocalMachine)), Hive::LocalMachine),
        (encode_utf16(hive_name(Hive::Users)), Hive::Users),
        (encode_utf16(hive_name(Hive::CurrentConfig)), Hive::CurrentConfig),
    ]
}

/// Whether no name occurs twice in `keymap`.
pub open spec fn distinct_names(keymap: Seq<(Seq<u16>, Hive)>) -> bool {
    forall|i: int, j: int|
        #![trigger keymap[i], keymap[j]]
        0 <= i < j < keymap.len() ==> keymap[i].0 != keymap[j].0
}

/// The five trees go by five different names.
pub proof fn lemma_root_keys_distinct()
    ensures
        distinct_names(root_keys()),
        root_keys().len() == 5,
{
    reveal_strlit("HKEY_CLASSES_ROOT");
    reveal_strlit("HKEY_CURRENT_USER");
    reveal_strlit("HKEY_LOCAL_MACHINE");
    reveal_strlit("HKEY_USERS");
    reveal_strlit("HKEY_CURRENT_CONFIG");
    lemma_encode_basic_plane(hive_name(Hive::ClassesRoot));
    lemma_encode_basic_plane(hive_name(Hive::CurrentUser));
    lemma_encode_basic_plane(hive_name(Hive::LocalMachine));
    lemma_encode_basic_plane(hive_name(Hive::Users));
    lemma_encode_basic_plane(hive_name(Hive::CurrentConfig));
    let keys = root_keys();
    assert(keys[0].0.len() == 17);
    assert(keys[1].0.len() == 17);
    assert(keys[2].0.len() == 18);
    assert(keys[3].0.len() == 10);
    assert(keys[4].0.len() == 19);
    assert(keys[0].0[6] == 0x4C);
    assert(keys[1].0[6] == 0x55);
}

/// Where no name occurs twice, the tree under a name is the tree of the
/// one pair with that name.
pub proof fn lemma_find_root_unique(keymap: Seq<(Seq<u16>, Hive)>, name: Seq<u16>, i: int)
    requires
        distinct_names(keymap),
        0 <= i < keymap.len(),
        keymap[i].0 == name,
    ensures
        find_root(keymap, name) == Some(keymap[i].1),
    decreases keymap.len(),
{
    if keymap[0].0 == name {
        if i > 0 {
            assert(keymap[0].0 != keymap[i].0);
        }
    } else {
        let rest = keymap.drop_first();
        assert forall|a: int, b: int|
            #![trigger rest[a], rest[b]]
            0 <= a < b < rest.len() implies rest[a].0 != rest[b].0 by {
            assert(rest[a] == keymap[a + 1] && rest[b] == keymap[b + 1]);
        }
        assert(rest[i - 1] == keymap[i]);
        lemma_find_root_unique(rest, name, i - 1);
    }
}

/// A name under which no tree is found is the name of no pair.
pub proof fn lemma_find_root_none(keymap: Seq<(Seq<u16>, Hive)>, name: Seq<u16>)
    ensures
        find_root(keymap, name) is None ==> forall|i: int|
            0 <= i < keymap.len() ==> (#[trigger] keymap[i]).0 != name,
    decreases keymap.len(),
{
    if keymap.len() > 0 && keymap[0].0 != name {
        let rest = keymap.drop_first();
        lemma_find_root_none(rest, name);
        if find_root(keymap, name) is None {
            assert forall|i: int| 0 <= i < keymap.len() implies (#[trigger] keymap[i]).0
                != name by {
                if i > 0 {
                    assert(rest[i - 1] == keymap[i]);
                }
            }
        }
    }
}

/// The tree that `keymap` holds under `name`: that of the first pair with
/// that name.
pub open spec fn find_root(keymap: Seq<(Seq<u16>, Hive)>, name: Seq<u16>) -> Option<Hive>
    decreases keymap.len(),
{
    if keymap.len() == 0 {
        None
    } else if keymap[0].0 == name {
        Some(keymap[0].1)
    } else {
        find_root(keymap.drop_first(), name)
    }
}

/// The registry key that `path` names: a tree and the path of a key
/// below it, which is empty for the tree itself.
///
/// A path of one part names a tree if the whole path, as it is written,
/// is the tree's name. A longer path names a key below the tree that its
/// first name stands for; a separator in front of that name is passed
/// over. A path without parts names nothing, nor does one that begins
/// with `.` or `..`, nor one whose tree is not known.
pub open spec fn key_location(keymap: Seq<(Seq<u16>, Hive)>, path: Seq<u16>) -> Option<
    (Hive, Seq<u16>),
> {
    let parts = path_parts(path);
    if parts.len() == 1 {
        match find_root(keymap, path) {
            Some(hive) => Some((hive, Seq::empty())),
            None => None,
        }
    } else if parts.len() == 0 {
        None
    } else {
        match parts[0] {
            PathPart::RootDir => match find_root(keymap, part_text(parts[1])) {
                Some(hive) => Some((hive, joined(parts.skip(2)))),
                None => None,
            },
            PathPart::Normal(name) => match find_root(keymap, name) {
                Some(hive) => Some((hive, joined(parts.skip(1)))),
                None => None,
            },
            _ => None,
        }
    }
}

/// The registry value that `path` names: the key that the path names
/// without its last part, and that part as the name of the value. A path
/// without parts names no value, nor does one that ends in `.` or `..`.
pub open spec fn value_location(keymap: Seq<(Seq<u16>, Hive)>, path: Seq<u16>) -> Option<
    (Hive, Seq<u16>, Seq<u16>),
> {
    let parts = path_parts(path);
    if parts.len() == 0 {
        None
    } else {
        match parts.last() {
            PathPart::Normal(name) => match key_location(keymap, joined(parts.drop_last())) {
                Some((hive, subkey)) => Some((hive, subkey, name)),
                None => None,
            },
            _ => None,
        }
    }
}

/// The part of `data` that a read of `length` bytes from `offset` on
/// gets: what `data` holds there, which is less than `length` bytes where
/// `data` ends before.
pub open spec fn spec_value_range(data: Seq<u8>, offset: u64, length: u32) -> Seq<u8> {
    let from = if offset <= data.len() {
        offset as int
    } else {
        data.len() as int
    };
    let to = if offset + length <= data.len() {
        offset + length
    } else {
        data.len() as int
    };
    data.subrange(from, to)
}

/// The part of `data` that a read of `length` bytes from `offset` on gets.
pub fn value_range(data: &Vec<u8>, offset: u64, length: u32) -> (bytes: Vec<u8>)
    ensures
        bytes@ == spec_value_range(data@, offset, length),
{
    let len = data.len();
    let from: usize = if offset <= len as u64 {
        offset as usize
    } else {
        len
    };
    let to: usize = if length as u64 <= (len - from) as u64 {
        from + length as usize
    } else {
        len
    };
    let mut bytes: Vec<u8> = Vec::new();
    let mut i: usize = from;
    while i < to
        invariant
            from <= i <= to <= data@.len(),
            bytes@ == data@.subrange(from as int, i as int),
        decreases to - i,
    {
        bytes.push(data[i]);
        i = i + 1;
        assert(bytes@ =~= data@.subrange(from as int, i as int));
    }
    bytes
}

/// A registry key by its place: a tree and the path of the key below it.
#[derive(Debug)]
pub struct KeyLocation {
    pub hive: Hive,
    pub subkey: WStr,
}

/// One entry of a registry key: a subkey, or a value with the size of
/// its data.
#[derive(Debug)]
pub struct RegEntry {
    pub name: WStr,
    pub size: u64,
}

/// What an entry says.
pub struct RegEntryView {
    pub name: Seq<u16>,
    pub size: u64,
}

impl View for RegEntry {
    type V = RegEntryView;

    open spec fn view(&self) -> RegEntryView {
        RegEntryView { name: self.name@, size: self.size }
    }
}

impl RegEntry {
    pub fn new(name: WStr, size: u64) -> (entry: RegEntry)
        ensures
            entry@ == (RegEntryView { name: name@, size }),
    {
        RegEntry { name, size }
    }
}

/// What each of `entries` says.
pub open spec fn reg_entry_views(entries: Seq<RegEntry>) -> Seq<RegEntryView> {
    Seq::new(entries.len(), |i: int| entries[i]@)
}

/// The entries of a registry key.
#[derive(Debug)]
pub struct RegEntires {
    pub subkeys: Vec<RegEntry>,
    pub values: Vec<RegEntry>,
}

/// What the entries of a key say.
pub struct RegEntiresView {
    pub subkeys: Seq<RegEntryView>,
    pub values: Seq<RegEntryView>,
}

impl View for RegEntires {
    type V = RegEntiresView;

    open spec fn view(&self) -> RegEntiresView {
        RegEntiresView {
            subkeys: reg_entry_views(self.subkeys@),
            values: reg_entry_views(self.values@),
        }
    }
}

/// The size of an entry as the host counts it: the size of the data,
/// or the largest size the host can take if the data is larger.
pub open spec fn listed_size(size: u64) -> i64 {
    if size > i64::MAX {
        i64::MAX
    } else {
        size as i64
    }
}

/// The directory listing that the entries of a key make: its subkeys as
/// directories, then its values as files.
pub open spec fn listing_of(entries: RegEntiresView) -> Seq<DirEntryView> {
    Seq::new(
        entries.subkeys.len(),
        |i: int|
            DirEntryView {
                filename: entries.subkeys[i].name,
                is_directory: true,
                size: listed_size(entries.subkeys[i].size),
            },
    ) + Seq::new(
        entries.values.len(),
        |i: int|
            DirEntryView {
                filename: entries.values[i].name,
                is_directory: false,
                size: listed_size(entries.values[i].size),
            },
    )
}

impl RegEntires {
    /// Turns the entries into a directory listing: see [`listing_of`].
    pub fn into_listing(self) -> (listing: Vec<DirEntry>)
        ensures
            entry_views(listing@) == listing_of(self@),
    {
        let mut listing: Vec<DirEntry> = Vec::new();
        let mut i: usize = 0;
        while i < self.subkeys.len()
            invariant
                i <= self.subkeys@.len(),
                listing@.len() == i,
                forall|k: int|
                    0 <= k < i ==> (#[trigger] listing@[k])@ == listing_of(self@)[k],
            decreases self.subkeys@.len() - i,
        {
            let size = self.subkeys[i].size;
            listing.push(
                DirEntry {
                    filename: self.subkeys[i].name.clone(),
                    is_directory: true,
                    size: if size > i64::MAX as u64 {
                        i64::MAX
                    } else {
                        size as i64
                    },
                },
            );
            i = i + 1;
        }
        let n = self.subkeys.len();
        let mut j: usize = 0;
        while j < self.values.len()
            invariant
                j <= self.values@.len(),
                n == self.subkeys@.len(),
                listing@.len() == n + j,
                forall|k: int|
                    0 <= k < n + j ==> (#[trigger] listing@[k])@ == listing_of(self@)[k],
            decreases self.values@.len() - j,
        {
            let size = self.values[j].size;
            listing.push(
                DirEntry {
                    filename: self.values[j].name.clone(),
                    is_directory: false,
                    size: if size > i64::MAX as u64 {
                        i64::MAX
                    } else {
                        size as i64
                    },
                },
            );
            j = j + 1;
        }
        assert(entry_views(listing@) =~= listing_of(self@));
        listing
    }
}

/// What the registry gave when a key was read: for each subkey its name,
/// for each value its name and the size of its data, and nothing for an
/// entry that could not be read.
#[derive(Debug)]
pub struct KeyContent {
    pub subkeys: Vec<Option<WStr>>,
    pub values: Vec<Option<(WStr, u64)>>,
}

/// The subkeys that could be read, in order, each with size zero.
pub open spec fn kept_subkeys(raw: Seq<Option<WStr>>) -> Seq<RegEntryView>
    decreases raw.len(),
{
    if raw.len() == 0 {
        Seq::empty()
    } else {
        match raw.last() {
            Some(name) => kept_subkeys(raw.drop_last()).push(
                RegEntryView { name: name@, size: 0 },
            ),
            None => kept_subkeys(raw.drop_last()),
        }
    }
}

/// The values that could be read, in order, each with the size of its data.
pub open spec fn kept_values(raw: Seq<Option<(WStr, u64)>>) -> Seq<RegEntryView>
    decreases raw.len(),
{
    if raw.len() == 0 {
        Seq::empty()
    } else {
        match raw.last() {
            Some(value) => kept_values(raw.drop_last()).push(
                RegEntryView { name: value.0@, size: value.1 },
            ),
            None => kept_values(raw.drop_last()),
        }
    }
}

/// The entries that the virtualization root lists: one subkey for each
/// tree, and no value.
pub open spec fn root_entries(keymap: Seq<(Seq<u16>, Hive)>) -> RegEntiresView {
    RegEntiresView {
        subkeys: Seq::new(keymap.len(), |i: int| RegEntryView { name: keymap[i].0, size: 0 }),
        values: Seq::empty(),
    }
}

/// Whether the registry may answer `content` when the key at the place
/// `hive`, `subkey` is read through `read`.
pub open spec fn can_read<T, F: FnOnce(&KeyLocation) -> Option<T>>(
    read: F,
    hive: Hive,
    subkey: Seq<u16>,
    content: Option<T>,
) -> bool {
    exists|location: KeyLocation|
        location.hive == hive && location.subkey@ == subkey && #[trigger] call_ensures(
            read,
            (&location,),
            content,
        )
}

/// Whether the registry may answer `data` when the value `name` of the
/// key at the place `hive`, `subkey` is read through `read`.
pub open spec fn can_read_value<F: FnOnce(&KeyLocation, &WStr) -> Option<Vec<u8>>>(
    read: F,
    hive: Hive,
    subkey: Seq<u16>,
    name: Seq<u16>,
    data: Option<Vec<u8>>,
) -> bool {
    exists|location: KeyLocation, n: WStr|
        location.hive == hive && location.subkey@ == subkey && n@ == name && #[trigger] call_ensures(
            read,
            (&location, &n),
            data,
        )
}

/// Whether asking for the key that `path` names may come to `found`: a
/// path that names no key finds none, and the registry is asked about any
/// other.
pub open spec fn key_found<K, F: FnOnce(&KeyLocation) -> Option<K>>(
    keymap: Seq<(Seq<u16>, Hive)>,
    path: Seq<u16>,
    open: F,
    found: bool,
) -> bool {
    match key_location(keymap, path) {
        Some((hive, subkey)) => exists|key: Option<K>|
            #![trigger can_read(open, hive, subkey, key)]
            can_read(open, hive, subkey, key) && found == key is Some,
        None => !found,
    }
}

/// Whether reading the value that `path` names may come to `data`: a
/// path that names no value reads nothing, and the registry is asked about
/// any other.
pub open spec fn value_read<F: FnOnce(&KeyLocation, &WStr) -> Option<Vec<u8>>>(
    keymap: Seq<(Seq<u16>, Hive)>,
    path: Seq<u16>,
    read: F,
    data: Option<Vec<u8>>,
) -> bool {
    match value_location(keymap, path) {
        Some((hive, subkey, name)) => can_read_value(read, hive, subkey, name, data),
        None => data is None,
    }
}

/// The metadata of a path: a directory if it is the root or names a key,
/// a file as large as its data if it names a value, and nothing else.
pub open spec fn looked_up(is_root: bool, key_found: bool, data: Option<Vec<u8>>) -> Option<
    BasicInfo,
> {
    if is_root || key_found {
        Some(BasicInfo { is_directory: true, file_size: 0 })
    } else {
        match data {
            Some(data) => Some(
                BasicInfo { is_directory: false, file_size: listed_size(data@.len() as u64) },
            ),
            None => None,
        }
    }
}

/// The registry as a backing store.
pub struct RegOps {
    keymap: Vec<(WStr, Hive)>,
}

impl View for RegOps {
    type V = Seq<(Seq<u16>, Hive)>;

    /// The trees by name.
    closed spec fn view(&self) -> Seq<(Seq<u16>, Hive)> {
        Seq::new(self.keymap@.len(), |i: int| (self.keymap@[i].0@, self.keymap@[i].1))
    }
}

impl RegOps {
    #[verifier::type_invariant]
    spec fn no_name_twice(&self) -> bool {
        forall|i: int, j: int|
            #![trigger self.keymap@[i], self.keymap@[j]]
            0 <= i < j < self.keymap@.len() ==> self.keymap@[i].0@ != self.keymap@[j].0@
    }

    /// A store over the five trees of the registry.
    pub fn new() -> (ops: RegOps)
        ensures
            ops@ == root_keys(),
            distinct_names(ops@),
    {
        proof {
            lemma_root_keys_distinct();
        }
        let mut keymap: Vec<(WStr, Hive)> = Vec::new();
        keymap.push((Hive::ClassesRoot.name().to_wstr(), Hive::ClassesRoot));
        keymap.push((Hive::CurrentUser.name().to_wstr(), Hive::CurrentUser));
        keymap.push((Hive::LocalMachine.name().to_wstr(), Hive::LocalMachine));
        keymap.push((Hive::Users.name().to_wstr(), Hive::Users));
        keymap.push((Hive::CurrentConfig.name().to_wstr(), Hive::CurrentConfig));
        let ghost names = Seq::new(keymap@.len(), |i: int| (keymap@[i].0@, keymap@[i].1));
        assert(names =~= root_keys());
        assert forall|i: int, j: int|
            #![trigger keymap@[i], keymap@[j]]
            0 <= i < j < keymap@.len() implies keymap@[i].0@ != keymap@[j].0@ by {
            assert(names[i].0 == keymap@[i].0@ && names[j].0 == keymap@[j].0@);
        }
        let ops = RegOps { keymap };
        assert(ops@ =~= root_keys());
        ops
    }

    /// The tree of the first pair that goes by `name`.
    fn first_root(&self, name: &WStr) -> (hive: Option<Hive>)
        ensures
            hive == find_root(self@, name@),
    {
        let mut i: usize = 0;
        assert(self@.skip(0) =~= self@);
        while i < self.keymap.len()
            invariant
                i <= self.keymap@.len(),
                find_root(self@, name@) == find_root(self@.skip(i as int), name@),
            decreases self.keymap@.len() - i,
        {
            let ghost rest = self@.skip(i as int);
            assert(rest[0] == self@[i as int]);
            if self.keymap[i].0.same_text(name) {
                return Some(self.keymap[i].1);
            }
            assert(rest.drop_first() =~= self@.skip(i + 1));
            i = i + 1;
        }
        None
    }

    /// The tree that goes by `name`. No name stands for two trees.
    pub fn find_root(&self, name: &WStr) -> (hive: Option<Hive>)
        ensures
            hive == find_root(self@, name@),
            distinct_names(self@),
            forall|i: int|
                0 <= i < self@.len() && (#[trigger] self@[i]).0 == name@ ==> hive == Some(
                    self@[i].1,
                ),
            hive is None ==> forall|i: int| 0 <= i < self@.len() ==> (#[trigger] self@[i]).0 != name@,
    {
        proof {
            use_type_invariant(self);
            assert forall|i: int, j: int|
                #![trigger self@[i], self@[j]]
                0 <= i < j < self@.len() implies self@[i].0 != self@[j].0 by {
                assert(self@[i].0 == self.keymap@[i].0@ && self@[j].0 == self.keymap@[j].0@);
            }
            assert forall|i: int| 0 <= i < self@.len() && (#[trigger] self@[i]).0
                == name@ implies find_root(self@, name@) == Some(self@[i].1) by {
                lemma_find_root_unique(self@, name@, i);
            }
            lemma_find_root_none(self@, name@);
        }
        self.first_root(name)
    }

    /// The registry key that `path` names, if it names one: see
    /// [`key_location`].
    pub fn locate(&self, path: &WStr) -> (location: Option<KeyLocation>)
        ensures
            match key_location(self@, path@) {
                Some((hive, subkey)) => location is Some && location->0.hive == hive
                    && location->0.subkey@ == subkey,
                None => location is None,
            },
    {
        let parts = components(path);
        if parts.len() == 1 {
            return match self.find_root(path) {
                Some(hive) => Some(KeyLocation { hive, subkey: WStr::new() }),
                None => None,
            };
        }
        if parts.len() == 0 {
            return None;
        }
        let ghost views = component_views(parts@);
        assert(views[0] == parts@[0]@);
        assert(views[1] == parts@[1]@);
        let (name, from): (WStr, usize) = match &parts[0] {
            Component::RootDir => (parts[1].text(), 2),
            Component::Normal(name) => (name.clone(), 1),
            _ => {
                return None;
            },
        };
        match self.find_root(&name) {
            Some(hive) => Some(KeyLocation { hive, subkey: join_from(&parts, from) }),
            None => None,
        }
    }

    /// Opens the registry key that `path` names, through `open`. A path
    /// that names no key opens nothing, and `open` is not asked.
    pub fn open_key_by_path<K, F: FnOnce(&KeyLocation) -> Option<K>>(
        &self,
        path: &WStr,
        open: F,
    ) -> (key: Option<K>)
        requires
            forall|location: KeyLocation| #[trigger] call_requires(open, (&location,)),
        ensures
            match key_location(self@, path@) {
                Some((hive, subkey)) => can_read(open, hive, subkey, key),
                None => key is None,
            },
    {
        match self.locate(path) {
            Some(location) => {
                let key = open(&location);
                assert(can_read(open, location.hive, location.subkey@, key));
                key
            },
            None => None,
        }
    }

    /// Whether `path` names a registry key that `open` can open.
    pub fn does_key_exist<K, F: FnOnce(&KeyLocation) -> Option<K>>(
        &self,
        path: &WStr,
        open: F,
    ) -> (found: bool)
        requires
            forall|location: KeyLocation| #[trigger] call_requires(open, (&location,)),
        ensures
            key_found::<K, F>(self@, path@, open, found),
    {
        self.open_key_by_path(path, open).is_some()
    }

    /// The registry value that `path` names, if it names one: the place
    /// of its key and its name. See [`value_location`].
    pub fn locate_value(&self, path: &WStr) -> (located: Option<(KeyLocation, WStr)>)
        ensures
            match value_location(self@, path@) {
                Some((hive, subkey, name)) => located matches Some((location, n))
                    && location.hive == hive && location.subkey@ == subkey && n@ == name,
                None => located is None,
            },
    {
        let mut parts = components(path);
        let ghost views = component_views(parts@);
        let name = match parts.pop() {
            Some(Component::Normal(name)) => name,
            _ => {
                return None;
            },
        };
        assert(component_views(parts@) =~= views.drop_last());
        assert(views.drop_last().skip(0) =~= views.drop_last());
        let parent = join_from(&parts, 0);
        match self.locate(&parent) {
            Some(location) => Some((location, name)),
            None => None,
        }
    }

    /// The data of the registry value that `path` names, read through
    /// `read`. A path that names no value reads nothing, and `read` is not
    /// asked.
    pub fn read_value<F: FnOnce(&KeyLocation, &WStr) -> Option<Vec<u8>>>(
        &self,
        path: &WStr,
        read: F,
    ) -> (data: Option<Vec<u8>>)
        requires
            forall|location: KeyLocation, name: WStr| #[trigger]
                call_requires(read, (&location, &name)),
        ensures
            value_read(self@, path@, read, data),
    {
        match self.locate_value(path) {
            Some((location, name)) => {
                let data = read(&location, &name);
                assert(can_read_value(read, location.hive, location.subkey@, name@, data));
                data
            },
            None => None,
        }
    }

    /// Whether `path` names a registry value that `read` can read.
    pub fn does_value_exist<F: FnOnce(&KeyLocation, &WStr) -> Option<Vec<u8>>>(
        &self,
        path: &WStr,
        read: F,
    ) -> (found: bool)
        requires
            forall|location: KeyLocation, name: WStr| #[trigger]
                call_requires(read, (&location, &name)),
        ensures
            exists|data: Option<Vec<u8>>|
                #![trigger value_read(self@, path@, read, data)]
                value_read(self@, path@, read, data) && found == data is Some,
    {
        self.read_value(path, read).is_some()
    }

    /// The metadata of `path`: see [`looked_up`]. The registry is asked
    /// for a key first, and for a value only if there is no such key; it
    /// is not asked about the root.
    pub fn basic_info<K, O, R>(&self, path: &WStr, open: O, read: R) -> (info: Option<BasicInfo>) where
        O: FnOnce(&KeyLocation) -> Option<K>,
        R: FnOnce(&KeyLocation, &WStr) -> Option<Vec<u8>>,

        requires
            forall|location: KeyLocation| #[trigger] call_requires(open, (&location,)),
            forall|location: KeyLocation, name: WStr| #[trigger]
                call_requires(read, (&location, &name)),
        ensures
            spec_is_virtualization_root(path@) ==> info == looked_up(true, false, None),
            !spec_is_virtualization_root(path@) ==> exists|found: bool, data: Option<Vec<u8>>|
                #![trigger looked_up(false, found, data)]
                {
                    &&& key_found::<K, O>(self@, path@, open, found)
                    &&& !found ==> value_read(self@, path@, read, data)
                    &&& info == looked_up(false, found, data)
                },
    {
        if is_virtualization_root(path) {
            return Some(BasicInfo { is_directory: true, file_size: 0 });
        }
        if self.does_key_exist(path, open) {
            assert(looked_up(false, true, None) == Some(
                BasicInfo { is_directory: true, file_size: 0 },
            ));
            return Some(BasicInfo { is_directory: true, file_size: 0 });
        }
        let data = self.read_value(path, read);
        let info = match &data {
            Some(bytes) => {
                let size = bytes.len() as u64;
                Some(
                    BasicInfo {
                        is_directory: false,
                        file_size: if size > i64::MAX as u64 {
                            i64::MAX
                        } else {
                            size as i64
                        },
                    },
                )
            },
            None => None,
        };
        assert(info == looked_up(false, false, data));
        info
    }

    /// The entries below `path`.
    ///
    /// The virtualization root lists the trees of the registry. Any
    /// other path lists the key that it names, as `read` gives it, without
    /// the entries that could not be read; it lists nothing if it names no
    /// key or the key cannot be read.
    pub fn enumerate_key<F: FnOnce(&KeyLocation) -> Option<KeyContent>>(
        &self,
        path: &WStr,
        read: F,
    ) -> (entries: Option<RegEntires>)
        requires
            forall|location: KeyLocation| #[trigger] call_requires(read, (&location,)),
        ensures
            spec_is_virtualization_root(path@) ==> entries is Some && entries->0@ == root_entries(
                self@,
            ),
            !spec_is_virtualization_root(path@) ==> match key_location(self@, path@) {
                Some((hive, subkey)) => exists|content: Option<KeyContent>|
                    #![trigger can_read(read, hive, subkey, content)]
                    {
                        &&& can_read(read, hive, subkey, content)
                        &&& match content {
                            Some(content) => entries is Some && entries->0@ == (RegEntiresView {
                                subkeys: kept_subkeys(content.subkeys@),
                                values: kept_values(content.values@),
                            }),
                            None => entries is None,
                        }
                    },
                None => entries is None,
            },
    {
        if is_virtualization_root(path) {
            let mut subkeys: Vec<RegEntry> = Vec::new();
            let mut i: usize = 0;
            while i < self.keymap.len()
                invariant
                    i <= self.keymap@.len(),
                    subkeys@.len() == i,
                    forall|k: int|
                        0 <= k < i ==> (#[trigger] subkeys@[k])@ == (RegEntryView {
                            name: self@[k].0,
                            size: 0,
                        }),
                decreases self.keymap@.len() - i,
            {
                subkeys.push(RegEntry::new(self.keymap[i].0.clone(), 0));
                i = i + 1;
            }
            let entries = RegEntires { subkeys, values: Vec::new() };
            assert(entries@.subkeys =~= root_entries(self@).subkeys);
            assert(entries@.values =~= root_entries(self@).values);
            return Some(entries);
        }
        let content = match self.open_key_by_path(path, read) {
            Some(content) => content,
            None => {
                return None;
            },
        };
        let mut subkeys: Vec<RegEntry> = Vec::new();
        let mut i: usize = 0;
        assert(content.subkeys@.take(0) =~= Seq::<Option<WStr>>::empty());
        while i < content.subkeys.len()
            invariant
                i <= content.subkeys@.len(),
                reg_entry_views(subkeys@) == kept_subkeys(content.subkeys@.take(i as int)),
            decreases content.subkeys@.len() - i,
        {
            let ghost before = reg_entry_views(subkeys@);
            match &content.subkeys[i] {
                Some(name) => {
                    subkeys.push(RegEntry::new(name.clone(), 0));
                    assert(reg_entry_views(subkeys@) =~= before.push(
                        RegEntryView { name: name@, size: 0 },
                    ));
                },
                None => {},
            }
            i = i + 1;
            assert(content.subkeys@.take(i as int).drop_last() =~= content.subkeys@.take(i - 1));
        }
        assert(content.subkeys@.take(content.subkeys@.len() as int) =~= content.subkeys@);
        let mut values: Vec<RegEntry> = Vec::new();
        let mut j: usize = 0;
        assert(content.values@.take(0) =~= Seq::<Option<(WStr, u64)>>::empty());
        while j < content.values.len()
            invariant
                j <= content.values@.len(),
                reg_entry_views(values@) == kept_values(content.values@.take(j as int)),
            decreases content.values@.len() - j,
        {
            let ghost before = reg_entry_views(values@);
            match &content.values[j] {
                Some(value) => {
                    values.push(RegEntry::new(value.0.clone(), value.1));
                    assert(reg_entry_views(values@) =~= before.push(
                        RegEntryView { name: value.0@, size: value.1 },
                    ));
                },
                None => {},
            }
            j = j + 1;
            assert(content.values@.take(j as int).drop_last() =~= content.values@.take(j - 1));
        }
        assert(content.values@.take(content.values@.len() as int) =~= content.values@);
        Some(RegEntires { subkeys, values })
    }

    /// The directory listing of `path`: what [`RegOps::enumerate_key`]
    /// finds below it, subkeys as directories and values as files, and
    /// nothing where it finds nothing.
    pub fn listing<F: FnOnce(&KeyLocation) -> Option<KeyContent>>(&self, path: &WStr, read: F) -> (listing:
        Vec<DirEntry>)
        requires
            forall|location: KeyLocation| #[trigger] call_requires(read, (&location,)),
        ensures
            spec_is_virtualization_root(path@) ==> entry_views(listing@) == listing_of(
                root_entries(self@),
            ),
            !spec_is_virtualization_root(path@) ==> match key_location(self@, path@) {
                Some((hive, subkey)) => exists|content: Option<KeyContent>|
                    #![trigger can_read(read, hive, subkey, content)]
                    {
                        &&& can_read(read, hive, subkey, content)
                        &&& match content {
                            Some(content) => entry_views(listing@) == listing_of(
                                RegEntiresView {
                                    subkeys: kept_subkeys(content.subkeys@),
                                    values: kept_values(content.values@),
                                },
                            ),
                            None => listing@.len() == 0,
                        }
                    },
                None => listing@.len() == 0,
            },
    {
        match self.enumerate_key(path, read) {
            Some(entries) => entries.into_listing(),
            None => Vec::new(),
        }
    }
}

} // verus!
