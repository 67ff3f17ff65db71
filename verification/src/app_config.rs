//! The settings file of the sync program: its fields, the defaults of the
//! fields that may be left out, and how it becomes the service's settings.

use vstd::prelude::*;
use crate::immich::ImmichConfig;
use crate::immich_sync::{default_server_url, default_temp_dir_text, is_uuid_v4_text, new_device_id, ImmichSyncConfig};

verus! {

/// The settings file of the sync program.
pub struct ImmichSyncAppConfig {
    /// Immich server URL.
    pub immich_server_url: String,
    /// Immich API key.
    pub immich_api_key: String,
    /// Approve new album shares automatically.
    pub auto_approve_shares: bool,
    /// Ask for approval by push notification.
    pub push_notification_approval: bool,
    /// Sync interval in seconds.
    pub sync_interval_secs: u64,
    /// Directory for temporary files.
    pub temp_dir: String,
    /// Device ID for uploads.
    pub device_id: String,
}

/// The value of a flag that defaults to on.
pub fn default_true() -> (res: bool)
    ensures
        res,
{
    true
}

/// The default sync interval: sixty seconds.
pub fn default_sync_interval() -> (res: u64)
    ensures
        res == 60,
{
    60
}

/// The default directory for temporary files.
pub fn default_temp_dir() -> (res: String)
    ensures
        res@ == default_temp_dir_text(),
{
    "/tmp/rustpush-immich-sync".to_string()
}

/// A fresh random device ID.
pub fn default_device_id() -> (res: String)
    ensures
        is_uuid_v4_text(res@),
{
    new_device_id()
}

impl Default for ImmichSyncAppConfig {
    fn default() -> (res: Self)
        ensures
            res.immich_server_url@ == default_server_url(),
            res.immich_api_key@.len() == 0,
            !res.auto_approve_shares,
            res.push_notification_approval,
            res.sync_interval_secs == 60,
            res.temp_dir@ == default_temp_dir_text(),
            is_uuid_v4_text(res.device_id@),
    {
        ImmichSyncAppConfig {
            immich_server_url: "http://localhost:2283".to_string(),
            immich_api_key: String::new(),
            auto_approve_shares: false,
            push_notification_approval: true,
            sync_interval_secs: 60,
            temp_dir: "/tmp/rustpush-immich-sync".to_string(),
            device_id: new_device_id(),
        }
    }
}

impl ImmichSyncAppConfig {
    /// Whether an API key is set; the program refuses to start without one.
    pub fn has_api_key(&self) -> (res: bool)
        ensures
            res == (self.immich_api_key@.len() > 0),
    {
        !self.immich_api_key.as_str().is_empty()
    }

    /// The service settings that these program settings give.
    pub fn into_sync_config(self) -> (res: ImmichSyncConfig)
        ensures
            res.immich.server_url == self.immich_server_url,
            res.immich.api_key == self.immich_api_key,
            res.auto_approve_shares == self.auto_approve_shares,
            res.push_notification_approval == self.push_notification_approval,
            res.sync_interval_secs == self.sync_interval_secs,
            res.temp_dir == self.temp_dir,
            res.device_id == self.device_id,
    {
        ImmichSyncConfig {
            immich: ImmichConfig { server_url: self.immich_server_url, api_key: self.immich_api_key },
            auto_approve_shares: self.auto_approve_shares,
            push_notification_approval: self.push_notification_approval,
            sync_interval_secs: self.sync_interval_secs,
            temp_dir: self.temp_dir,
            device_id: self.device_id,
        }
    }
}

} // verus!
