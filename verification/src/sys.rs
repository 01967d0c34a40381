//! The host's numbering of options, notifications and callback flags.
//!
//! These values are fixed by the host and pass through the native boundary
//! unchanged.

use vstd::prelude::*;

verus! {

/// A set of notification kinds in the host's encoding.
pub type PrjNotifyTypes = u32;

/// A single notification, as the host reports it to a callback.
pub type PrjNotification = u32;

pub const PRJ_NOTIFY_NONE: PrjNotifyTypes = 0x0000_0000;

pub const PRJ_NOTIFY_SUPPRESS_NOTIFICATIONS: PrjNotifyTypes = 0x0000_0001;

pub const PRJ_NOTIFY_FILE_OPENED: PrjNotifyTypes = 0x0000_0002;

pub const PRJ_NOTIFY_NEW_FILE_CREATED: PrjNotifyTypes = 0x0000_0004;

pub const PRJ_NOTIFY_FILE_OVERWRITTEN: PrjNotifyTypes = 0x0000_0008;

pub const PRJ_NOTIFY_PRE_DELETE: PrjNotifyTypes = 0x0000_0010;

pub const PRJ_NOTIFY_PRE_RENAME: PrjNotifyTypes = 0x0000_0020;

pub const PRJ_NOTIFY_PRE_SET_HARDLINK: PrjNotifyTypes = 0x0000_0040;

pub const PRJ_NOTIFY_FILE_RENAMED: PrjNotifyTypes = 0x0000_0080;

pub const PRJ_NOTIFY_HARDLINK_CREATED: PrjNotifyTypes = 0x0000_0100;

pub const PRJ_NOTIFY_FILE_HANDLE_CLOSED_NO_MODIFICATION: PrjNotifyTypes = 0x0000_0200;

pub const PRJ_NOTIFY_FILE_HANDLE_CLOSED_FILE_MODIFIED: PrjNotifyTypes = 0x0000_0400;

pub const PRJ_NOTIFY_FILE_HANDLE_CLOSED_FILE_DELETED: PrjNotifyTypes = 0x0000_0800;

pub const PRJ_NOTIFY_FILE_PRE_CONVERT_TO_FULL: PrjNotifyTypes = 0x0000_1000;

/// Keeps whatever mask is already in force: every bit set.
pub const PRJ_NOTIFY_USE_EXISTING_MASK: PrjNotifyTypes = 0xFFFF_FFFF;

pub const PRJ_NOTIFICATION_FILE_OPENED: PrjNotification = 0x0000_0002;

pub const PRJ_NOTIFICATION_NEW_FILE_CREATED: PrjNotification = 0x0000_0004;

pub const PRJ_NOTIFICATION_FILE_OVERWRITTEN: PrjNotification = 0x0000_0008;

pub const PRJ_NOTIFICATION_PRE_DELETE: PrjNotification = 0x0000_0010;

pub const PRJ_NOTIFICATION_PRE_RENAME: PrjNotification = 0x0000_0020;

pub const PRJ_NOTIFICATION_PRE_SET_HARDLINK: PrjNotification = 0x0000_0040;

pub const PRJ_NOTIFICATION_FILE_RENAMED: PrjNotification = 0x0000_0080;

pub const PRJ_NOTIFICATION_HARDLINK_CREATED: PrjNotification = 0x0000_0100;

pub const PRJ_NOTIFICATION_FILE_HANDLE_CLOSED_NO_MODIFICATION: PrjNotification = 0x0000_0200;

pub const PRJ_NOTIFICATION_FILE_HANDLE_CLOSED_FILE_MODIFIED: PrjNotification = 0x0000_0400;

pub const PRJ_NOTIFICATION_FILE_HANDLE_CLOSED_FILE_DELETED: PrjNotification = 0x0000_0800;

pub const PRJ_NOTIFICATION_FILE_PRE_CONVERT_TO_FULL: PrjNotification = 0x0000_1000;

/// Start option: remember paths that the provider reported as absent.
pub const PRJ_FLAG_USE_NEGATIVE_PATH_CACHE: u32 = 0x0000_0001;

/// Callback flag: the enumeration starts over from its first entry.
pub const PRJ_CB_DATA_FLAG_ENUM_RESTART_SCAN: u32 = 0x0000_0001;

/// Callback flag: the host wants one entry only.
pub const PRJ_CB_DATA_FLAG_ENUM_RETURN_SINGLE_ENTRY: u32 = 0x0000_0002;

} // verus!
