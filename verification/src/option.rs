//! Start-up options: which notifications the host should send, and how the
//! virtualization instance is to be run.

use vstd::prelude::*;
use crate::conv::{encode_utf16, WStr, WStrExt};
use crate::sys;

verus! {

pub const NONE: u32 = 0x0000;

pub const SUPPRESS_NOTIFICATIONS: u32 = 0x0001;

pub const FILE_OPENED: u32 = 0x0002;

pub const NEW_FILE_CREATED: u32 = 0x0004;

pub const FILE_OVERWRITTEN: u32 = 0x0008;

pub const PRE_DELETE: u32 = 0x0010;

pub const PRE_RENAME: u32 = 0x0020;

pub const PRE_SET_HARDLINK: u32 = 0x0040;

pub const FILE_RENAMED: u32 = 0x0080;

pub const HARDLINK_CREATED: u32 = 0x0100;

pub const FILE_HANDLE_CLOSED_NO_MODIFICATION: u32 = 0x0200;

pub const FILE_HANDLE_CLOSED_FILE_MODIFIED: u32 = 0x0400;

pub const FILE_HANDLE_CLOSED_FILE_DELETED: u32 = 0x0800;

pub const FILE_PRE_CONVERT_TO_FULL: u32 = 0x1000;

pub const USE_EXISTING_MASK: u32 = 0x2000;

/// Every bit that names a notification kind.
pub const ALL: u32 = 0x3FFF;

/// A set of notification kinds, one bit per kind.
#[derive(Clone, Copy, Debug, PartialEq, Eq)]
pub struct NotificationType {
    bits: u32,
}

impl View for NotificationType {
    type V = u32;

    /// The bits of the kinds in the set.
    closed spec fn view(&self) -> u32 {
        self.bits
    }
}

/// The host's encoding of the set with bits `bits`. Every kind has the same
/// bit on both sides, except the request to keep the mask in force, which the
/// host writes as all ones.
pub open spec fn raw_notify_types(bits: u32) -> sys::PrjNotifyTypes {
    if bits & USE_EXISTING_MASK == USE_EXISTING_MASK {
        sys::PRJ_NOTIFY_USE_EXISTING_MASK
    } else {
        bits
    }
}

impl NotificationType {
    #[verifier::type_invariant]
    spec fn known_bits_only(&self) -> bool {
        self.bits & !ALL == 0
    }

    /// The set with no kind in it.
    pub fn empty() -> (s: NotificationType)
        ensures
            s@ == NONE,
    {
        assert(0u32 & !0x3FFFu32 == 0) by (bit_vector);
        NotificationType { bits: NONE }
    }

    /// The set of all kinds.
    pub fn all() -> (s: NotificationType)
        ensures
            s@ == ALL,
    {
        assert(0x3FFFu32 & !0x3FFFu32 == 0) by (bit_vector);
        NotificationType { bits: ALL }
    }

    /// The set with exactly the kinds of `bits`, if every bit names one.
    pub fn from_bits(bits: u32) -> (s: Option<NotificationType>)
        ensures
            s is Some <==> bits & !ALL == 0,
            s is Some ==> s->Some_0@ == bits,
    {
        if bits & !ALL == 0 {
            Some(NotificationType { bits })
        } else {
            None
        }
    }

    /// The set with the kinds of `bits`; bits that name no kind are dropped.
    pub fn from_bits_truncate(bits: u32) -> (s: NotificationType)
        ensures
            s@ == bits & ALL,
    {
        assert((bits & 0x3FFFu32) & !0x3FFFu32 == 0) by (bit_vector);
        NotificationType { bits: bits & ALL }
    }

    /// The bits of the kinds in the set: known kinds only.
    pub fn bits(&self) -> (b: u32)
        ensures
            b == self@,
            b & !ALL == 0,
    {
        proof {
            use_type_invariant(self);
        }
        self.bits
    }

    /// Whether every kind of `other` is in this set.
    pub fn contains(&self, other: NotificationType) -> (b: bool)
        ensures
            b == (self@ & other@ == other@),
    {
        self.bits & other.bits == other.bits
    }

    /// The kinds of both sets.
    pub fn union(self, other: NotificationType) -> (s: NotificationType)
        ensures
            s@ == self@ | other@,
    {
        proof {
            use_type_invariant(&self);
            use_type_invariant(&other);
            let a = self.bits;
            let b = other.bits;
            assert((a | b) & !0x3FFFu32 == 0) by (bit_vector)
                requires
                    a & !0x3FFFu32 == 0,
                    b & !0x3FFFu32 == 0,
            ;
        }
        NotificationType { bits: self.bits | other.bits }
    }

    /// The host's value for one kind, if that kind is in the set.
    fn raw_if_set(&self, kind: u32, raw: sys::PrjNotifyTypes) -> (r: sys::PrjNotifyTypes)
        ensures
            r == if self@ & kind == kind {
                raw
            } else {
                0
            },
    {
        if self.bits & kind == kind {
            raw
        } else {
            0
        }
    }

    /// The set in the host's encoding.
    pub fn into_raw(self) -> (raw: sys::PrjNotifyTypes)
        ensures
            raw == raw_notify_types(self@),
    {
        let r0 = self.raw_if_set(NONE, sys::PRJ_NOTIFY_NONE);
        let r1 = self.raw_if_set(SUPPRESS_NOTIFICATIONS, sys::PRJ_NOTIFY_SUPPRESS_NOTIFICATIONS);
        let r2 = self.raw_if_set(FILE_OPENED, sys::PRJ_NOTIFY_FILE_OPENED);
        let r3 = self.raw_if_set(NEW_FILE_CREATED, sys::PRJ_NOTIFY_NEW_FILE_CREATED);
        let r4 = self.raw_if_set(FILE_OVERWRITTEN, sys::PRJ_NOTIFY_FILE_OVERWRITTEN);
        let r5 = self.raw_if_set(PRE_DELETE, sys::PRJ_NOTIFY_PRE_DELETE);
        let r6 = self.raw_if_set(PRE_RENAME, sys::PRJ_NOTIFY_PRE_RENAME);
        let r7 = self.raw_if_set(PRE_SET_HARDLINK, sys::PRJ_NOTIFY_PRE_SET_HARDLINK);
        let r8 = self.raw_if_set(FILE_RENAMED, sys::PRJ_NOTIFY_FILE_RENAMED);
        let r9 = self.raw_if_set(HARDLINK_CREATED, sys::PRJ_NOTIFY_HARDLINK_CREATED);
        let r10 = self.raw_if_set(
            FILE_HANDLE_CLOSED_NO_MODIFICATION,
            sys::PRJ_NOTIFY_FILE_HANDLE_CLOSED_NO_MODIFICATION,
        );
        let r11 = self.raw_if_set(
            FILE_HANDLE_CLOSED_FILE_MODIFIED,
            sys::PRJ_NOTIFY_FILE_HANDLE_CLOSED_FILE_MODIFIED,
        );
        let r12 = self.raw_if_set(
            FILE_HANDLE_CLOSED_FILE_DELETED,
            sys::PRJ_NOTIFY_FILE_HANDLE_CLOSED_FILE_DELETED,
        );
        let r13 = self.raw_if_set(FILE_PRE_CONVERT_TO_FULL, sys::PRJ_NOTIFY_FILE_PRE_CONVERT_TO_FULL);
        let r14 = self.raw_if_set(USE_EXISTING_MASK, sys::PRJ_NOTIFY_USE_EXISTING_MASK);
        let raw = r0 | r1 | r2 | r3 | r4 | r5 | r6 | r7 | r8 | r9 | r10 | r11 | r12 | r13 | r14;
        proof {
            use_type_invariant(&self);
            let b = self.bits;
            assert(raw == (if b & 0x2000 == 0x2000 {
                0xFFFF_FFFFu32
            } else {
                b
            })) by (bit_vector)
                requires
                    b & !0x3FFFu32 == 0,
                    raw == r0 | r1 | r2 | r3 | r4 | r5 | r6 | r7 | r8 | r9 | r10 | r11 | r12 | r13
                        | r14,
                    r0 == 0,
                    r1 == (if b & 0x0001 == 0x0001 { 0x0001u32 } else { 0 }),
                    r2 == (if b & 0x0002 == 0x0002 { 0x0002u32 } else { 0 }),
                    r3 == (if b & 0x0004 == 0x0004 { 0x0004u32 } else { 0 }),
                    r4 == (if b & 0x0008 == 0x0008 { 0x0008u32 } else { 0 }),
                    r5 == (if b & 0x0010 == 0x0010 { 0x0010u32 } else { 0 }),
                    r6 == (if b & 0x0020 == 0x0020 { 0x0020u32 } else { 0 }),
                    r7 == (if b & 0x0040 == 0x0040 { 0x0040u32 } else { 0 }),
                    r8 == (if b & 0x0080 == 0x0080 { 0x0080u32 } else { 0 }),
                    r9 == (if b & 0x0100 == 0x0100 { 0x0100u32 } else { 0 }),
                    r10 == (if b & 0x0200 == 0x0200 { 0x0200u32 } else { 0 }),
                    r11 == (if b & 0x0400 == 0x0400 { 0x0400u32 } else { 0 }),
                    r12 == (if b & 0x0800 == 0x0800 { 0x0800u32 } else { 0 }),
                    r13 == (if b & 0x1000 == 0x1000 { 0x1000u32 } else { 0 }),
                    r14 == (if b & 0x2000 == 0x2000 { 0xFFFF_FFFFu32 } else { 0 }),
            ;
        }
        raw
    }
}

/// One rule for the host: which notifications to send for the tree below
/// a path of the virtualization root.
#[derive(Debug)]
pub struct NotificationMapping {
    /// The notifications, in the host's encoding.
    pub notification_bit_mask: sys::PrjNotifyTypes,
    /// The path the rule applies to, relative to the root; empty for the root.
    pub notification_root: WStr,
}

/// Everything the host is told when virtualization starts.
#[derive(Debug)]
pub struct StartOptions {
    pub flags: u32,
    pub pool_thread_count: u32,
    pub concurrent_thread_count: u32,
    pub notification_mappings: Vec<NotificationMapping>,
    /// The number of mappings as the host's 32-bit count.
    pub notification_mappings_count: u32,
}

/// What a builder has been told so far.
pub struct OptionBuilderView {
    pub use_negative_path_cache: bool,
    pub pool_thread_count: Option<u32>,
    pub concurrent_thread_count: Option<u32>,
    /// Each rule as the bits of its notification set and its path.
    pub notifications: Seq<(u32, Seq<u16>)>,
}

/// What start options say.
pub struct StartOptionsView {
    pub flags: u32,
    pub pool_thread_count: u32,
    pub concurrent_thread_count: u32,
    /// Each rule as its mask in the host's encoding and its path.
    pub notification_mappings: Seq<(sys::PrjNotifyTypes, Seq<u16>)>,
    pub notification_mappings_count: u32,
}

impl View for StartOptions {
    type V = StartOptionsView;

    open spec fn view(&self) -> StartOptionsView {
        StartOptionsView {
            flags: self.flags,
            pool_thread_count: self.pool_thread_count,
            concurrent_thread_count: self.concurrent_thread_count,
            notification_mappings: Seq::new(
                self.notification_mappings@.len(),
                |i: int|
                    (
                        self.notification_mappings@[i].notification_bit_mask,
                        self.notification_mappings@[i].notification_root@,
                    ),
            ),
            notification_mappings_count: self.notification_mappings_count,
        }
    }
}

/// The start options that a builder stands for. A thread count that was
/// never set is zero, which leaves the choice to the host; the count of
/// mappings wraps at thirty-two bits.
pub open spec fn built_options(b: OptionBuilderView) -> StartOptionsView {
    StartOptionsView {
        flags: if b.use_negative_path_cache {
            sys::PRJ_FLAG_USE_NEGATIVE_PATH_CACHE
        } else {
            0
        },
        pool_thread_count: match b.pool_thread_count {
            Some(count) => count,
            None => 0,
        },
        concurrent_thread_count: match b.concurrent_thread_count {
            Some(count) => count,
            None => 0,
        },
        notification_mappings: Seq::new(
            b.notifications.len(),
            |i: int| (raw_notify_types(b.notifications[i].0), b.notifications[i].1),
        ),
        notification_mappings_count: (b.notifications.len() % 0x1_0000_0000) as u32,
    }
}

/// Collects start options step by step.
pub struct OptionBuilder {
    use_negative_path_cache: bool,
    pool_thread_count: Option<u32>,
    concurrent_thread_count: Option<u32>,
    notifications: Vec<(NotificationType, WStr)>,
}

impl View for OptionBuilder {
    type V = OptionBuilderView;

    closed spec fn view(&self) -> OptionBuilderView {
        OptionBuilderView {
            use_negative_path_cache: self.use_negative_path_cache,
            pool_thread_count: self.pool_thread_count,
            concurrent_thread_count: self.concurrent_thread_count,
            notifications: Seq::new(
                self.notifications@.len(),
                |i: int| (self.notifications@[i].0@, self.notifications@[i].1@),
            ),
        }
    }
}

impl Default for OptionBuilder {
    fn default() -> (b: OptionBuilder)
        ensures
            b@ == (OptionBuilderView {
                use_negative_path_cache: false,
                pool_thread_count: None,
                concurrent_thread_count: None,
                notifications: Seq::empty(),
            }),
    {
        let b = OptionBuilder {
            use_negative_path_cache: false,
            pool_thread_count: None,
            concurrent_thread_count: None,
            notifications: Vec::new(),
        };
        assert(b@.notifications =~= Seq::empty());
        b
    }
}

impl OptionBuilder {
    /// A builder with nothing set: no cache, thread counts left to the host,
    /// no notification.
    pub fn new() -> (b: OptionBuilder)
        ensures
            b@ == (OptionBuilderView {
                use_negative_path_cache: false,
                pool_thread_count: None,
                concurrent_thread_count: None,
                notifications: Seq::empty(),
            }),
    {
        let b = OptionBuilder {
            use_negative_path_cache: false,
            pool_thread_count: None,
            concurrent_thread_count: None,
            notifications: Vec::new(),
        };
        assert(b@.notifications =~= Seq::empty());
        b
    }

    /// Asks the host to remember paths that were reported as absent.
    pub fn use_negative_path_cache(self) -> (b: OptionBuilder)
        ensures
            b@ == (OptionBuilderView { use_negative_path_cache: true, ..self@ }),
    {
        let mut b = self;
        b.use_negative_path_cache = true;
        assert(b@.notifications =~= self@.notifications);
        b
    }

    /// Sets the number of threads that wait for callbacks.
    pub fn pool_thread_count(self, count: u32) -> (b: OptionBuilder)
        ensures
            b@ == (OptionBuilderView { pool_thread_count: Some(count), ..self@ }),
    {
        let mut b = self;
        b.pool_thread_count = Some(count);
        assert(b@.notifications =~= self@.notifications);
        b
    }

    /// Sets the number of threads that may run callbacks at once.
    pub fn concurrent_thread_count(self, count: u32) -> (b: OptionBuilder)
        ensures
            b@ == (OptionBuilderView { concurrent_thread_count: Some(count), ..self@ }),
    {
        let mut b = self;
        b.concurrent_thread_count = Some(count);
        assert(b@.notifications =~= self@.notifications);
        b
    }

    /// Adds a rule for the virtualization root itself.
    pub fn add_root_notification(self, notification: NotificationType) -> (b: OptionBuilder)
        ensures
            b@ == (OptionBuilderView {
                notifications: self@.notifications.push((notification@, Seq::empty())),
                ..self@
            }),
    {
        let mut b = self;
        b.notifications.push((notification, WStr::new()));
        assert(b@.notifications =~= self@.notifications.push((notification@, Seq::empty())));
        b
    }

    /// Adds a rule for the tree below `path`, after the rules already there.
    pub fn add_notification(self, notification: NotificationType, path: &str) -> (b:
        OptionBuilder)
        ensures
            b@ == (OptionBuilderView {
                notifications: self@.notifications.push((notification@, encode_utf16(path@))),
                ..self@
            }),
    {
        let mut b = self;
        b.notifications.push((notification, path.to_wstr()));
        assert(b@.notifications =~= self@.notifications.push(
            (notification@, encode_utf16(path@)),
        ));
        b
    }

    /// The start options that this builder stands for.
    pub fn build(&self) -> (options: StartOptions)
        ensures
            options@ == built_options(self@),
    {
        let mut mappings: Vec<NotificationMapping> = Vec::new();
        let mut i: usize = 0;
        while i < self.notifications.len()
            invariant
                i <= self.notifications@.len(),
                mappings@.len() == i,
                forall|k: int|
                    0 <= k < i ==> {
                        &&& (#[trigger] mappings@[k]).notification_bit_mask == raw_notify_types(
                            self.notifications@[k].0@,
                        )
                        &&& mappings@[k].notification_root@ == self.notifications@[k].1@
                    },
            decreases self.notifications@.len() - i,
        {
            let mapping = NotificationMapping {
                notification_bit_mask: self.notifications[i].0.into_raw(),
                notification_root: self.notifications[i].1.clone(),
            };
            mappings.push(mapping);
            i = i + 1;
        }
        let count: u64 = self.notifications.len() as u64 % 0x1_0000_0000;
        let options = StartOptions {
            flags: if self.use_negative_path_cache {
                sys::PRJ_FLAG_USE_NEGATIVE_PATH_CACHE
            } else {
                0
            },
            pool_thread_count: match self.pool_thread_count {
                Some(count) => count,
                None => 0,
            },
            concurrent_thread_count: match self.concurrent_thread_count {
                Some(count) => count,
                None => 0,
            },
            notification_mappings: mappings,
            notification_mappings_count: count as u32,
        };
        assert(options@.notification_mappings =~= built_options(self@).notification_mappings);
        options
    }
}

} // verus!
