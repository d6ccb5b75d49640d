//! What the chat service reports of a user's presence.

use crate::text::{starts_with, str_eq};
use vstd::prelude::*;
use vstd::string::StringExecFns;

verus! {

/// A user of the chat service.
#[derive(Debug, PartialEq, Eq)]
pub struct DiscordUser {
    pub username: String,
    pub public_flags: u64,
    pub id: String,
    pub avatar: Option<String>,
}

/// The pictures and captions of an activity.
#[derive(Debug, PartialEq, Eq)]
pub struct DiscordAssets {
    pub large_image: Option<String>,
    pub large_text: Option<String>,
    pub small_image: Option<String>,
    pub small_text: Option<String>,
}

/// The address of the picture `asset` of the application `application_id`.
/// An asset that starts with "mp:external/" lies with the media proxy under
/// what follows that mark; any other asset lies with the application's assets.
pub open spec fn img_url(asset: Seq<char>, application_id: Seq<char>) -> Seq<char> {
    if "mp:external/"@.is_prefix_of(asset) {
        "https://media.discordapp.net/external/"@ + asset.skip(12)
    } else {
        "https://cdn.discordapp.com/app-assets/"@ + application_id + "/"@ + asset
    }
}

/// The address of the picture `asset` of the application `application_id`.
pub fn discord_img_url(asset: &str, application_id: &str) -> (r: String)
    ensures
        r@ == img_url(asset@, application_id@),
{
    if starts_with(asset, "mp:external/") {
        proof {
            reveal_strlit("mp:external/");
        }
        let len = asset.unicode_len();
        let rest = asset.substring_char(12, len);
        String::from_str("https://media.discordapp.net/external/").concat(rest)
    } else {
        String::from_str("https://cdn.discordapp.com/app-assets/").concat(application_id).concat(
            "/",
        ).concat(asset)
    }
}

/// The kind of device a user is active on.
#[derive(Debug, Clone, Copy, PartialEq, Eq, Structural)]
pub enum DeviceType {
    Desktop,
    Mobile,
    Unknown,
}

/// Whether, and how, a user is online.
#[derive(Debug, Clone, Copy, PartialEq, Eq, Structural)]
pub enum OnlineStatus {
    Online(DeviceType),
    Idle(DeviceType),
    DoNotDisturb(DeviceType),
    Invisible,
    Offline,
}

/// The device that counts: the desktop before the mobile.
pub open spec fn device_of(is_desktop: bool, is_mobile: bool) -> DeviceType {
    if is_desktop {
        DeviceType::Desktop
    } else if is_mobile {
        DeviceType::Mobile
    } else {
        DeviceType::Unknown
    }
}

/// The status that the service's word `status` stands for; a word that is
/// not known counts as offline.
pub open spec fn status_of(status: Seq<char>, device: DeviceType) -> OnlineStatus {
    if status == "online"@ {
        OnlineStatus::Online(device)
    } else if status == "idle"@ {
        OnlineStatus::Idle(device)
    } else if status == "dnd"@ {
        OnlineStatus::DoNotDisturb(device)
    } else if status == "invisible"@ {
        OnlineStatus::Invisible
    } else {
        OnlineStatus::Offline
    }
}

impl OnlineStatus {
    /// The status that the service reports with the word `status` for a user
    /// who is, or is not, active on a desktop and on a mobile.
    pub fn new(status: &str, is_desktop: bool, is_mobile: bool) -> (r: OnlineStatus)
        ensures
            r == status_of(status@, device_of(is_desktop, is_mobile)),
    {
        let device = if is_desktop {
            DeviceType::Desktop
        } else if is_mobile {
            DeviceType::Mobile
        } else {
            DeviceType::Unknown
        };
        if str_eq(status, "online") {
            OnlineStatus::Online(device)
        } else if str_eq(status, "idle") {
            OnlineStatus::Idle(device)
        } else if str_eq(status, "dnd") {
            OnlineStatus::DoNotDisturb(device)
        } else if str_eq(status, "invisible") {
            OnlineStatus::Invisible
        } else {
            OnlineStatus::Offline
        }
    }
}

} // verus!
