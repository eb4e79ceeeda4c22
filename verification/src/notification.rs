//! Notification icon selection. Rendering the toast itself is platform work
//! performed by the embedder; this module only decides the icon.

use vstd::prelude::*;

verus! {

/// Icon shown with a notification.
#[derive(Clone, Copy, PartialEq, Eq, Structural, Debug)]
pub enum NotificationIcon {
    Normal,
    Playing,
    Pausing,
    Locked,
}

/// The icon selected by a numeric icon type; unknown values fall back to the
/// normal icon.
pub open spec fn spec_icon_of(value: i32) -> NotificationIcon {
    if value == 1 {
        NotificationIcon::Playing
    } else if value == 2 {
        NotificationIcon::Pausing
    } else if value == 3 {
        NotificationIcon::Locked
    } else {
        NotificationIcon::Normal
    }
}

impl From<i32> for NotificationIcon {
    fn from(value: i32) -> (r: Self) {
        if value == 1 {
            NotificationIcon::Playing
        } else if value == 2 {
            NotificationIcon::Pausing
        } else if value == 3 {
            NotificationIcon::Locked
        } else {
            NotificationIcon::Normal
        }
    }
}

impl vstd::std_specs::convert::FromSpecImpl<i32> for NotificationIcon {
    open spec fn obeys_from_spec() -> bool {
        true
    }

    open spec fn from_spec(value: i32) -> Self {
        spec_icon_of(value)
    }
}

} // verus!
