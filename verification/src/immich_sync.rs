//! Keeping Apple shared albums and Immich albums in step: the service's
//! settings, the record of which assets correspond to which, and the decisions
//! that each step of a sync takes.

use vstd::prelude::*;
use vstd::hash_map::StringHashMap;
use vstd::string::StringSliceAdditionalSpecFns;
use crate::clock::{parsed_instant, Timestamp};
use crate::immich::{ImmichAsset, ImmichConfig, ImmichError};
use crate::text::{join2, same_text};

verus! {

// ---------------------------------------------------------------------------
// Settings
// ---------------------------------------------------------------------------

/// Configuration for the Immich sync service.
pub struct ImmichSyncConfig {
    /// Immich server configuration.
    pub immich: ImmichConfig,
    /// Whether to approve new shared album invitations automatically.
    pub auto_approve_shares: bool,
    /// Whether to ask for approval by push notification (when not approving automatically).
    pub push_notification_approval: bool,
    /// Sync interval in seconds.
    pub sync_interval_secs: u64,
    /// Directory for temporary files during a sync.
    pub temp_dir: String,
    /// Device ID under which assets are uploaded to Immich.
    pub device_id: String,
}

/// A lowercase hexadecimal digit.
pub open spec fn is_lower_hex_digit(c: char) -> bool {
    ('0' <= c && c <= '9') || ('a' <= c && c <= 'f')
}

/// The hyphenated text of a version 4 UUID: 36 characters, hyphens at
/// positions 8, 13, 18 and 23, lowercase hexadecimal digits elsewhere, and the
/// version digit `4` at position 14.
pub open spec fn is_uuid_v4_text(s: Seq<char>) -> bool {
    &&& s.len() == 36
    &&& forall|i: int|
        0 <= i < 36 ==> if i == 8 || i == 13 || i == 18 || i == 23 {
            s[i] == '-'
        } else {
            is_lower_hex_digit(s[i])
        }
    &&& s[14] == '4'
}

/// Calls `uuid::Uuid::new_v4` and formats the result (`to_string`). The value is
/// random; claims only its shape, which the uuid crate's source gives: the
/// hyphenated lowercase form, with the version bits set to 4.
#[verifier::external_body]
pub(crate) fn new_device_id() -> (res: String)
    ensures
        is_uuid_v4_text(res@),
{
    uuid::Uuid::new_v4().to_string()
}

/// The default server URL.
pub open spec fn default_server_url() -> Seq<char> {
    "http://localhost:2283"@
}

/// The default directory for temporary files.
pub open spec fn default_temp_dir_text() -> Seq<char> {
    "/tmp/rustpush-immich-sync"@
}

impl Default for ImmichSyncConfig {
    fn default() -> (res: Self)
        ensures
            res.immich.server_url@ == default_server_url(),
            res.immich.api_key@.len() == 0,
            !res.auto_approve_shares,
            res.push_notification_approval,
            res.sync_interval_secs == 60,
            res.temp_dir@ == default_temp_dir_text(),
            is_uuid_v4_text(res.device_id@),
    {
        ImmichSyncConfig {
            immich: ImmichConfig {
                server_url: "http://localhost:2283".to_string(),
                api_key: String::new(),
            },
            auto_approve_shares: false,
            push_notification_approval: true,
            sync_interval_secs: 60,
            temp_dir: "/tmp/rustpush-immich-sync".to_string(),
            device_id: new_device_id(),
        }
    }
}

// ---------------------------------------------------------------------------
// The Apple side, as the sync reads it
// ---------------------------------------------------------------------------

/// An Apple shared album as the sync sees it.
pub struct SharedAlbum {
    pub album_guid: String,
    pub name: Option<String>,
    pub full_name: Option<String>,
    /// Whether the album has been subscribed to (it has a subscription date).
    pub subscribed: bool,
}

/// An asset of an Apple shared album as the sync sees it.
pub struct SharedAsset {
    pub asset_guid: String,
    pub file_name: String,
    /// The creation time from the asset's collection metadata (RFC 3339 text).
    pub created: String,
    /// The modification time from the asset's collection metadata (RFC 3339 text).
    pub modified: String,
}

/// What can go wrong during a sync.
pub enum SyncError {
    /// The shared album to approve is not known on the Apple side.
    AlbumNotFound,
    /// A failure on the Immich or file side, with its text.
    FilePackageError(String),
    /// A failure of the Apple shared-streams service, with its text.
    AppleError(String),
}

impl SyncError {
    /// The sync error that an Immich error becomes: its display text as a
    /// `FilePackageError`.
    pub fn from_immich(e: &ImmichError) -> (res: SyncError)
        ensures
            res matches SyncError::FilePackageError(m) && m@ == e.message_text(),
    {
        SyncError::FilePackageError(e.message())
    }

    /// The error for a temporary directory that could not be created.
    pub fn temp_dir_failure(reason: &str) -> (res: SyncError)
        ensures
            res matches SyncError::FilePackageError(m) && m@ == "Failed to create temp directory: "@ + reason@,
    {
        SyncError::FilePackageError(join2("Failed to create temp directory: ", reason))
    }

    /// The error for a temporary file that could not be written.
    pub fn write_failure(reason: &str) -> (res: SyncError)
        ensures
            res matches SyncError::FilePackageError(m) && m@ == "Failed to write file: "@ + reason@,
    {
        SyncError::FilePackageError(join2("Failed to write file: ", reason))
    }
}

// ---------------------------------------------------------------------------
// Per-album state
// ---------------------------------------------------------------------------

/// The sync state between an Apple shared album and an Immich album.
pub struct AlbumSyncState {
    /// Apple shared album GUID.
    pub apple_album_guid: String,
    /// Immich album ID.
    pub immich_album_id: String,
    /// Apple asset GUID to Immich asset ID.
    pub apple_to_immich: StringHashMap<String>,
    /// Immich asset ID to Apple asset GUID.
    pub immich_to_apple: StringHashMap<String>,
}

/// The model of an album's sync state.
pub struct AlbumSyncView {
    pub apple_album_guid: Seq<char>,
    pub immich_album_id: Seq<char>,
    pub apple_to_immich: Map<Seq<char>, Seq<char>>,
    pub immich_to_apple: Map<Seq<char>, Seq<char>>,
}

/// A map to `String`s, with its values taken as texts.
pub open spec fn text_map(m: Map<Seq<char>, String>) -> Map<Seq<char>, Seq<char>> {
    m.map_values(|v: String| v@)
}

impl View for AlbumSyncState {
    type V = AlbumSyncView;

    open spec fn view(&self) -> AlbumSyncView {
        AlbumSyncView {
            apple_album_guid: self.apple_album_guid@,
            immich_album_id: self.immich_album_id@,
            apple_to_immich: text_map(self.apple_to_immich@),
            immich_to_apple: text_map(self.immich_to_apple@),
        }
    }
}

impl AlbumSyncView {
    /// The state of a newly set up album: no asset synced yet.
    pub open spec fn fresh(apple_album_guid: Seq<char>, immich_album_id: Seq<char>) -> AlbumSyncView {
        AlbumSyncView {
            apple_album_guid,
            immich_album_id,
            apple_to_immich: Map::empty(),
            immich_to_apple: Map::empty(),
        }
    }

    /// The state after recording that Apple asset `apple` was uploaded as Immich asset `immich`.
    pub open spec fn record(self, apple: Seq<char>, immich: Seq<char>) -> AlbumSyncView {
        AlbumSyncView {
            apple_to_immich: self.apple_to_immich.insert(apple, immich),
            immich_to_apple: self.immich_to_apple.insert(immich, apple),
            ..self
        }
    }

    /// The two maps are each other's inverse on the Immich side: every Immich
    /// asset maps back to an Apple asset that maps to it, and every Apple
    /// asset maps to an Immich asset that the other map holds.
    pub open spec fn agrees(self) -> bool {
        &&& forall|i: Seq<char>| #[trigger]
            self.immich_to_apple.contains_key(i) ==> self.apple_to_immich.contains_key(
                self.immich_to_apple[i],
            ) && self.apple_to_immich[self.immich_to_apple[i]] == i
        &&& forall|a: Seq<char>| #[trigger]
            self.apple_to_immich.contains_key(a) ==> self.immich_to_apple.contains_key(
                self.apple_to_immich[a],
            )
    }

    /// Every asset that one map points to is itself a key of the other map.
    pub open spec fn links_consistent(self) -> bool {
        &&& forall|a: Seq<char>| #[trigger]
            self.apple_to_immich.contains_key(a) ==> self.immich_to_apple.contains_key(
                self.apple_to_immich[a],
            )
        &&& forall|i: Seq<char>| #[trigger]
            self.immich_to_apple.contains_key(i) ==> self.apple_to_immich.contains_key(
                self.immich_to_apple[i],
            )
    }
}

/// `plan` lists, in increasing order, exactly the positions of `keys` that
/// `mapped` does not hold.
pub open spec fn is_unmapped_plan(plan: Seq<usize>, keys: Seq<Seq<char>>, mapped: Map<Seq<char>, Seq<char>>) -> bool {
    &&& forall|k: int|
        0 <= k < plan.len() ==> #[trigger] plan[k] < keys.len() && !mapped.contains_key(
            keys[plan[k] as int],
        )
    &&& forall|k1: int, k2: int| 0 <= k1 < k2 < plan.len() ==> plan[k1] < plan[k2]
    &&& forall|j: int|
        0 <= j < keys.len() && !mapped.contains_key(#[trigger] keys[j]) ==> exists|k: int|
            0 <= k < plan.len() && plan[k] == j
}

/// The GUIDs of Apple assets.
pub open spec fn asset_guids(assets: Seq<SharedAsset>) -> Seq<Seq<char>> {
    assets.map_values(|a: SharedAsset| a.asset_guid@)
}

/// The IDs of Immich assets.
pub open spec fn immich_asset_ids(assets: Seq<ImmichAsset>) -> Seq<Seq<char>> {
    assets.map_values(|a: ImmichAsset| a.id@)
}

/// The texts of a list of `str`s.
pub open spec fn texts_of(keys: Seq<&str>) -> Seq<Seq<char>> {
    keys.map_values(|k: &str| k@)
}

/// The positions of `keys` that `mapped` does not hold, in increasing order.
fn unmapped_positions(mapped: &StringHashMap<String>, keys: &Vec<&str>) -> (res: Vec<usize>)
    ensures
        is_unmapped_plan(res@, texts_of(keys@), text_map(mapped@)),
{
    let ghost m = text_map(mapped@);
    let ghost ks = texts_of(keys@);
    let n = keys.len();
    let mut plan: Vec<usize> = Vec::new();
    let mut i: usize = 0;
    while i < n
        invariant
            n == keys@.len(),
            ks == texts_of(keys@),
            m == text_map(mapped@),
            i <= n,
            forall|k: int|
                0 <= k < plan@.len() ==> #[trigger] plan@[k] < i && !m.contains_key(ks[plan@[k] as int]),
            forall|k1: int, k2: int| 0 <= k1 < k2 < plan@.len() ==> plan@[k1] < plan@[k2],
            forall|j: int|
                0 <= j < i && !m.contains_key(#[trigger] ks[j]) ==> exists|k: int|
                    0 <= k < plan@.len() && plan@[k] == j,
        decreases n - i,
    {
        let known = mapped.contains_key(keys[i]);
        proof {
            assert(ks[i as int] == keys@[i as int]@);
        }
        if !known {
            let ghost before = plan@;
            plan.push(i);
            proof {
                assert forall|j: int|
                    0 <= j < i + 1 && !m.contains_key(#[trigger] ks[j]) implies exists|k: int|
                        0 <= k < plan@.len() && plan@[k] == j by {
                    if j == i {
                        assert(plan@[before.len() as int] == j);
                    } else {
                        let k = choose|k: int| 0 <= k < before.len() && before[k] == j;
                        assert(plan@[k] == j);
                    }
                }
            }
        }
        i = i + 1;
    }
    plan
}

/// The GUIDs of a list of Apple assets.
fn asset_guid_list(assets: &Vec<SharedAsset>) -> (res: Vec<&str>)
    ensures
        texts_of(res@) == asset_guids(assets@),
{
    let n = assets.len();
    let mut keys: Vec<&str> = Vec::new();
    let mut i: usize = 0;
    while i < n
        invariant
            n == assets@.len(),
            i <= n,
            texts_of(keys@) =~= asset_guids(assets@).subrange(0, i as int),
        decreases n - i,
    {
        let ghost before = keys@;
        let k = assets[i].asset_guid.as_str();
        keys.push(k);
        proof {
            assert(texts_of(keys@) =~= texts_of(before).push(assets@[i as int].asset_guid@));
            assert(asset_guids(assets@).subrange(0, i + 1) =~= asset_guids(assets@).subrange(0, i as int).push(
                assets@[i as int].asset_guid@,
            ));
        }
        i = i + 1;
    }
    proof {
        assert(asset_guids(assets@).subrange(0, n as int) =~= asset_guids(assets@));
    }
    keys
}

/// The IDs of a list of Immich assets.
fn immich_id_list(assets: &Vec<ImmichAsset>) -> (res: Vec<&str>)
    ensures
        texts_of(res@) == immich_asset_ids(assets@),
{
    let n = assets.len();
    let mut keys: Vec<&str> = Vec::new();
    let mut i: usize = 0;
    while i < n
        invariant
            n == assets@.len(),
            i <= n,
            texts_of(keys@) =~= immich_asset_ids(assets@).subrange(0, i as int),
        decreases n - i,
    {
        let ghost before = keys@;
        let k = assets[i].id.as_str();
        keys.push(k);
        proof {
            assert(texts_of(keys@) =~= texts_of(before).push(assets@[i as int].id@));
            assert(immich_asset_ids(assets@).subrange(0, i + 1) =~= immich_asset_ids(assets@).subrange(0, i as int).push(
                assets@[i as int].id@,
            ));
        }
        i = i + 1;
    }
    proof {
        assert(immich_asset_ids(assets@).subrange(0, n as int) =~= immich_asset_ids(assets@));
    }
    keys
}

// ---------------------------------------------------------------------------
// Collections of album states
// ---------------------------------------------------------------------------

/// No two states are for the same album.
pub open spec fn guids_distinct(s: Seq<AlbumSyncView>) -> bool {
    forall|i: int, j: int|
        0 <= i < s.len() && 0 <= j < s.len() && i != j ==> s[i].apple_album_guid != s[j].apple_album_guid
}

/// The position of a state for album `g`.
pub open spec fn holds_album(s: Seq<AlbumSyncView>, g: Seq<char>, i: int) -> bool {
    0 <= i < s.len() && s[i].apple_album_guid == g
}

/// The states keyed by album GUID.
pub open spec fn states_map(s: Seq<AlbumSyncView>) -> Map<Seq<char>, AlbumSyncView> {
    Map::new(
        |g: Seq<char>| exists|i: int| holds_album(s, g, i),
        |g: Seq<char>| s[choose|i: int| holds_album(s, g, i)],
    )
}

proof fn lemma_states_map_at(s: Seq<AlbumSyncView>, i: int)
    requires
        guids_distinct(s),
        0 <= i < s.len(),
    ensures
        states_map(s).contains_key(s[i].apple_album_guid),
        states_map(s)[s[i].apple_album_guid] == s[i],
{
    let g = s[i].apple_album_guid;
    assert(holds_album(s, g, i));
    let k = choose|k: int| holds_album(s, g, k);
    assert(k == i);
}

proof fn lemma_states_map_update(s: Seq<AlbumSyncView>, i: int, v: AlbumSyncView)
    requires
        guids_distinct(s),
        0 <= i < s.len(),
        v.apple_album_guid == s[i].apple_album_guid,
    ensures
        guids_distinct(s.update(i, v)),
        states_map(s.update(i, v)) == states_map(s).insert(v.apple_album_guid, v),
{
    let t = s.update(i, v);
    assert(guids_distinct(t));
    let m1 = states_map(t);
    let m2 = states_map(s).insert(v.apple_album_guid, v);
    assert forall|g: Seq<char>| m1.contains_key(g) == m2.contains_key(g) by {
        if m1.contains_key(g) {
            let k = choose|k: int| holds_album(t, g, k);
            if k != i {
                assert(holds_album(s, g, k));
            }
        }
        if states_map(s).contains_key(g) {
            let k = choose|k: int| holds_album(s, g, k);
            assert(holds_album(t, g, k));
        }
        if g == v.apple_album_guid {
            assert(holds_album(t, g, i));
        }
    }
    assert forall|g: Seq<char>| m1.contains_key(g) implies m1[g] == m2[g] by {
        let k = choose|k: int| holds_album(t, g, k);
        if g == v.apple_album_guid {
            assert(k == i);
        } else {
            assert(k != i);
            assert(holds_album(s, g, k));
            let k2 = choose|k2: int| holds_album(s, g, k2);
            assert(k2 == k);
        }
    }
    assert(m1 =~= m2);
}

proof fn lemma_states_map_push(s: Seq<AlbumSyncView>, v: AlbumSyncView)
    requires
        guids_distinct(s),
        !states_map(s).contains_key(v.apple_album_guid),
    ensures
        guids_distinct(s.push(v)),
        states_map(s.push(v)) == states_map(s).insert(v.apple_album_guid, v),
{
    let t = s.push(v);
    let n = s.len() as int;
    assert forall|i: int| 0 <= i < n implies s[i].apple_album_guid != v.apple_album_guid by {
        assert(holds_album(s, s[i].apple_album_guid, i));
    }
    assert(guids_distinct(t));
    let m1 = states_map(t);
    let m2 = states_map(s).insert(v.apple_album_guid, v);
    assert forall|g: Seq<char>| m1.contains_key(g) == m2.contains_key(g) by {
        if m1.contains_key(g) {
            let k = choose|k: int| holds_album(t, g, k);
            if k != n {
                assert(holds_album(s, g, k));
            }
        }
        if states_map(s).contains_key(g) {
            let k = choose|k: int| holds_album(s, g, k);
            assert(holds_album(t, g, k));
        }
        if g == v.apple_album_guid {
            assert(holds_album(t, g, n));
        }
    }
    assert forall|g: Seq<char>| m1.contains_key(g) implies m1[g] == m2[g] by {
        let k = choose|k: int| holds_album(t, g, k);
        if g == v.apple_album_guid {
            assert(k == n);
        } else {
            assert(k != n);
            assert(holds_album(s, g, k));
            let k2 = choose|k2: int| holds_album(s, g, k2);
            assert(k2 == k);
        }
    }
    assert(m1 =~= m2);
}

// ---------------------------------------------------------------------------
// Decisions
// ---------------------------------------------------------------------------

/// What to do about a shared album when checking for new invitations.
#[derive(Clone, Copy, Debug, PartialEq, Eq, Structural)]
pub enum ShareAction {
    /// Already synced, or already subscribed: nothing to do.
    NoAction,
    /// A new invitation that is approved automatically.
    Approve,
    /// A new invitation that needs approval, asked for by push notification.
    RequestPushApproval,
    /// A new invitation that needs approval by hand.
    AwaitManualApproval,
}

/// The action for an album, from whether it is synced and subscribed and the settings.
pub open spec fn share_action_for(synced: bool, subscribed: bool, auto_approve: bool, push_approval: bool) -> ShareAction {
    if synced || subscribed {
        ShareAction::NoAction
    } else if auto_approve {
        ShareAction::Approve
    } else if push_approval {
        ShareAction::RequestPushApproval
    } else {
        ShareAction::AwaitManualApproval
    }
}

/// The name that the Immich album of a shared album gets: its name, else the
/// owner's full name, else `Album {guid}`.
pub open spec fn album_display_name_text(album: SharedAlbum) -> Seq<char> {
    match album.name {
        Some(n) => n@,
        None => match album.full_name {
            Some(f) => f@,
            None => "Album "@ + album.album_guid@,
        },
    }
}

/// The name under which a shared album is mirrored in Immich.
pub fn album_display_name(album: &SharedAlbum) -> (res: String)
    ensures
        res@ == album_display_name_text(*album),
{
    match &album.name {
        Some(n) => n.clone(),
        None => match &album.full_name {
            Some(f) => f.clone(),
            None => join2("Album ", album.album_guid.as_str()),
        },
    }
}

/// The description given to the Immich albums that a sync creates.
pub fn synced_album_description() -> (res: String)
    ensures
        res@ == "Synced from Apple Shared Album"@,
{
    "Synced from Apple Shared Album".to_string()
}

/// The position of the first shared album with the given GUID.
pub fn find_shared_album(albums: &Vec<SharedAlbum>, album_guid: &str) -> (res: Result<usize, SyncError>)
    ensures
        match res {
            Ok(i) => i < albums@.len() && albums@[i as int].album_guid@ == album_guid@ && forall|j: int|
                0 <= j < i ==> albums@[j].album_guid@ != album_guid@,
            Err(e) => e is AlbumNotFound && forall|j: int|
                0 <= j < albums@.len() ==> albums@[j].album_guid@ != album_guid@,
        },
{
    let n = albums.len();
    let mut i: usize = 0;
    while i < n
        invariant
            n == albums@.len(),
            i <= n,
            forall|j: int| 0 <= j < i ==> albums@[j].album_guid@ != album_guid@,
        decreases n - i,
    {
        if same_text(albums[i].album_guid.as_str(), album_guid) {
            return Ok(i);
        }
        i = i + 1;
    }
    Err(SyncError::AlbumNotFound)
}

/// The time stamp under which an Apple asset is uploaded: its creation time,
/// or `now` where that does not parse as RFC 3339.
pub open spec fn upload_time(created: Seq<char>, now: Timestamp) -> Timestamp {
    match parsed_instant(created) {
        Some(t) => t,
        None => now,
    }
}

/// The time stamp under which an Apple asset is uploaded, from its parsed
/// creation time: that time, or `now` where it did not parse.
pub fn upload_time_from(parsed: Option<Timestamp>, now: Timestamp) -> (res: Timestamp)
    ensures
        res == match parsed {
            Some(t) => t,
            None => now,
        },
{
    match parsed {
        Some(t) => t,
        None => now,
    }
}

/// The time stamp under which an Apple asset is uploaded.
pub fn upload_timestamp(created: &str, now: Timestamp) -> (res: Timestamp)
    ensures
        res == upload_time(created@, now),
        created.spec_bytes().len() < 19 ==> res == now,
        created@.len() == 0 ==> res == now,
{
    upload_time_from(Timestamp::parse_rfc3339(created), now)
}

/// What an Apple asset is uploaded to Immich with.
pub struct UploadMetadata {
    pub device_asset_id: String,
    pub device_id: String,
    pub file_created_at: Timestamp,
    pub file_modified_at: Timestamp,
}

/// The model of the metadata of an upload.
pub struct UploadMetadataView {
    pub device_asset_id: Seq<char>,
    pub device_id: Seq<char>,
    pub file_created_at: Timestamp,
    pub file_modified_at: Timestamp,
}

impl View for UploadMetadata {
    type V = UploadMetadataView;

    open spec fn view(&self) -> UploadMetadataView {
        UploadMetadataView {
            device_asset_id: self.device_asset_id@,
            device_id: self.device_id@,
            file_created_at: self.file_created_at,
            file_modified_at: self.file_modified_at,
        }
    }
}

/// What an Apple asset is uploaded with: its GUID as the device asset ID, the
/// device ID, and its creation and modification times (each `now` where it
/// does not parse).
pub open spec fn metadata_for(asset: SharedAsset, device_id: Seq<char>, now: Timestamp) -> UploadMetadataView {
    UploadMetadataView {
        device_asset_id: asset.asset_guid@,
        device_id,
        file_created_at: upload_time(asset.created@, now),
        file_modified_at: upload_time(asset.modified@, now),
    }
}

// ---------------------------------------------------------------------------
// An upload pass over one album
// ---------------------------------------------------------------------------

/// Where the current asset of an upload pass stands.
pub enum PassStage {
    /// Its file is being fetched from Apple.
    Fetching,
    /// It is being uploaded to Immich with this metadata.
    Uploading(UploadMetadata),
    /// It was uploaded as this Immich asset and is being added to the album.
    Adding(String),
}

/// The model of a pass stage.
pub enum PassStageView {
    Fetching,
    Uploading(UploadMetadataView),
    Adding(Seq<char>),
}

impl View for PassStage {
    type V = PassStageView;

    open spec fn view(&self) -> PassStageView {
        match self {
            PassStage::Fetching => PassStageView::Fetching,
            PassStage::Uploading(m) => PassStageView::Uploading(m@),
            PassStage::Adding(u) => PassStageView::Adding(u@),
        }
    }
}

/// What the caller reports back of the action it performed.
pub enum UploadEvent {
    /// The file was fetched from Apple, at time `now`.
    FileFetched { now: Timestamp },
    /// The file was uploaded to Immich under this asset ID.
    Uploaded { immich_asset_id: String },
    /// The uploaded asset was added to the Immich album.
    AddedToAlbum,
    /// The action failed.
    Failed(SyncError),
}

/// What the caller is to do next in an upload pass.
pub enum UploadAction {
    /// The album is not set up for sync: there is nothing to do for it.
    NotSynced,
    /// Fetch the file of this Apple asset into a temporary file of this name.
    FetchFile { asset_guid: String, file_name: String },
    /// Upload the fetched file, of this name, with this metadata.
    UploadFile { file_name: String, metadata: UploadMetadata },
    /// Add this Immich asset to this Immich album.
    AddToAlbum { immich_album_id: String, immich_asset_id: String },
    /// Every asset of the album is synced: the pass is over.
    Complete,
    /// The pass ends with this error.
    Abort(SyncError),
}

/// The model of an upload pass: the album, the assets listed for it, the
/// positions of those to upload, the position in that plan of the asset in
/// progress and its stage, and the album's state when the pass began.
pub struct UploadPassView {
    pub album_guid: Seq<char>,
    pub immich_album_id: Seq<char>,
    pub assets: Seq<SharedAsset>,
    pub plan: Seq<usize>,
    pub next: int,
    pub stage: PassStageView,
    pub start: AlbumSyncView,
}

/// The asset in progress in a pass.
pub open spec fn pass_asset(p: UploadPassView) -> SharedAsset {
    p.assets[p.plan[p.next] as int]
}

/// No text occurs twice.
pub open spec fn texts_distinct(s: Seq<Seq<char>>) -> bool {
    forall|i: int, j: int| 0 <= i < s.len() && 0 <= j < s.len() && i != j ==> s[i] != s[j]
}

/// Every key is held by the map.
pub open spec fn all_mapped(keys: Seq<Seq<char>>, m: Map<Seq<char>, Seq<char>>) -> bool {
    forall|j: int| 0 <= j < keys.len() ==> m.contains_key(#[trigger] keys[j])
}

/// `res` is the action that the stage of the pass asks for.
pub open spec fn is_stage_action(p: UploadPassView, res: UploadAction) -> bool {
    let a = pass_asset(p);
    match p.stage {
        PassStageView::Fetching => res matches UploadAction::FetchFile { asset_guid, file_name }
            && asset_guid@ == a.asset_guid@ && file_name@ == a.file_name@,
        PassStageView::Uploading(m) => res matches UploadAction::UploadFile { file_name, metadata }
            && file_name@ == a.file_name@ && metadata@ == m,
        PassStageView::Adding(u) => res matches UploadAction::AddToAlbum {
            immich_album_id,
            immich_asset_id,
        } && immich_album_id@ == p.immich_album_id && immich_asset_id@ == u,
    }
}

/// A pass in progress agrees with the album states `m`: the album's maps hold
/// what they held when the pass began, plus the assets the pass has finished.
pub open spec fn pass_consistent(p: UploadPassView, m: Map<Seq<char>, AlbumSyncView>) -> bool {
    let keys = asset_guids(p.assets);
    let c = m[p.album_guid];
    &&& m.contains_key(p.album_guid)
    &&& c.immich_album_id == p.immich_album_id
    &&& is_unmapped_plan(p.plan, keys, p.start.apple_to_immich)
    &&& 0 <= p.next < p.plan.len()
    &&& p.start.apple_to_immich.submap_of(c.apple_to_immich)
    &&& p.start.immich_to_apple.dom().subset_of(c.immich_to_apple.dom())
    &&& forall|x: Seq<char>|
        #[trigger] c.apple_to_immich.contains_key(x) <==> (p.start.apple_to_immich.contains_key(x)
            || exists|j: int| 0 <= j < p.next && keys[p.plan[j] as int] == x)
    &&& (p.start.agrees() && texts_distinct(keys) ==> c.agrees())
}

/// One step of a pass `p` on an event: the album states before and after,
/// the pass after and the action returned. A failure ends the pass and
/// changes nothing; the record happens only when the asset is added to the
/// album after its upload; an event that does not fit the stage changes
/// nothing and asks again for what the stage needs.
pub open spec fn pass_step(
    p: UploadPassView,
    event: UploadEvent,
    before: Map<Seq<char>, AlbumSyncView>,
    device_id: Seq<char>,
    after: Map<Seq<char>, AlbumSyncView>,
    next_pass: Option<UploadPassView>,
    res: UploadAction,
) -> bool {
    let g = p.album_guid;
    let unchanged = after == before && next_pass == Some(p) && is_stage_action(p, res);
    match event {
        UploadEvent::Failed(e) => after == before && next_pass is None && res == UploadAction::Abort(e),
        UploadEvent::FileFetched { now } => if p.stage is Fetching {
            let q = UploadPassView {
                stage: PassStageView::Uploading(metadata_for(pass_asset(p), device_id, now)),
                ..p
            };
            after == before && next_pass == Some(q) && is_stage_action(q, res)
        } else {
            unchanged
        },
        UploadEvent::Uploaded { immich_asset_id } => if p.stage is Uploading {
            let q = UploadPassView { stage: PassStageView::Adding(immich_asset_id@), ..p };
            after == before && next_pass == Some(q) && is_stage_action(q, res)
        } else {
            unchanged
        },
        UploadEvent::AddedToAlbum => match p.stage {
            PassStageView::Adding(u) => {
                &&& after == before.insert(g, before[g].record(pass_asset(p).asset_guid@, u))
                &&& if p.next + 1 == p.plan.len() {
                    &&& next_pass is None
                    &&& res is Complete
                    &&& all_mapped(asset_guids(p.assets), after[g].apple_to_immich)
                } else {
                    let q = UploadPassView { next: p.next + 1, stage: PassStageView::Fetching, ..p };
                    next_pass == Some(q) && is_stage_action(q, res)
                }
            },
            _ => unchanged,
        },
    }
}

/// What a pass keeps of the album it works on, whatever happens: every entry
/// that the Apple map held when it began, every key of the Immich map, and
/// the maps' agreement where they agreed and the pass lists no asset twice.
pub open spec fn pass_keeps(p: UploadPassView, after: Map<Seq<char>, AlbumSyncView>) -> bool {
    &&& after.contains_key(p.album_guid)
    &&& p.start.apple_to_immich.submap_of(after[p.album_guid].apple_to_immich)
    &&& p.start.immich_to_apple.dom().subset_of(after[p.album_guid].immich_to_apple.dom())
    &&& (p.start.agrees() && texts_distinct(asset_guids(p.assets)) ==> after[p.album_guid].agrees())
}

/// The state of a pass in progress.
struct UploadPass {
    album_guid: String,
    immich_album_id: String,
    assets: Vec<SharedAsset>,
    plan: Vec<usize>,
    next: usize,
    stage: PassStage,
    start: Ghost<AlbumSyncView>,
}

impl View for UploadPass {
    type V = UploadPassView;

    closed spec fn view(&self) -> UploadPassView {
        UploadPassView {
            album_guid: self.album_guid@,
            immich_album_id: self.immich_album_id@,
            assets: self.assets@,
            plan: self.plan@,
            next: self.next as int,
            stage: self.stage@,
            start: self.start@,
        }
    }
}

impl UploadMetadata {
    /// A copy of the metadata.
    pub fn duplicate(&self) -> (res: UploadMetadata)
        ensures
            res@ == self@,
    {
        UploadMetadata {
            device_asset_id: self.device_asset_id.clone(),
            device_id: self.device_id.clone(),
            file_created_at: self.file_created_at,
            file_modified_at: self.file_modified_at,
        }
    }
}

impl UploadPass {
    /// The action that the stage of the pass asks for.
    fn stage_action(&self) -> (res: UploadAction)
        requires
            0 <= self.next < self.plan@.len(),
            self.plan@[self.next as int] < self.assets@.len(),
        ensures
            is_stage_action(self@, res),
    {
        let asset = &self.assets[self.plan[self.next]];
        match &self.stage {
            PassStage::Fetching => UploadAction::FetchFile {
                asset_guid: asset.asset_guid.clone(),
                file_name: asset.file_name.clone(),
            },
            PassStage::Uploading(m) => UploadAction::UploadFile {
                file_name: asset.file_name.clone(),
                metadata: m.duplicate(),
            },
            PassStage::Adding(u) => UploadAction::AddToAlbum {
                immich_album_id: self.immich_album_id.clone(),
                immich_asset_id: u.clone(),
            },
        }
    }
}

// ---------------------------------------------------------------------------
// The service
// ---------------------------------------------------------------------------

/// The state of the sync service: its settings and, for each album set up for
/// sync, which Apple asset corresponds to which Immich asset. The transport to
/// Apple and to Immich is the caller's; this type decides and records.
pub struct ImmichSyncService {
    config: ImmichSyncConfig,
    sync_states: Vec<AlbumSyncState>,
    upload_pass: Option<UploadPass>,
}

/// The models of a sequence of album states.
pub open spec fn views_of(s: Seq<AlbumSyncState>) -> Seq<AlbumSyncView> {
    s.map_values(|a: AlbumSyncState| a@)
}

/// Album states with distinct albums, each with consistent links.
pub open spec fn states_well_formed(s: Seq<AlbumSyncView>) -> bool {
    &&& guids_distinct(s)
    &&& forall|i: int| 0 <= i < s.len() ==> (#[trigger] s[i]).links_consistent()
}

impl View for ImmichSyncService {
    type V = Map<Seq<char>, AlbumSyncView>;

    closed spec fn view(&self) -> Map<Seq<char>, AlbumSyncView> {
        states_map(views_of(self.sync_states@))
    }
}

impl ImmichSyncService {
    #[verifier::type_invariant]
    closed spec fn well_formed(self) -> bool {
        &&& states_well_formed(views_of(self.sync_states@))
        &&& match self.upload_pass {
            Some(p) => pass_consistent(p@, self@) && p.plan@.len() <= p.assets@.len()
                && p.start@.links_consistent(),
            None => true,
        }
    }

    /// The upload pass in progress, if any.
    pub closed spec fn current_pass(&self) -> Option<UploadPassView> {
        match self.upload_pass {
            Some(p) => Some(p@),
            None => None,
        }
    }

    /// The service's settings.
    pub closed spec fn settings(&self) -> ImmichSyncConfig {
        self.config
    }

    /// The GUIDs of the albums set up for sync, in the order they were set up.
    pub closed spec fn album_order(&self) -> Seq<Seq<char>> {
        views_of(self.sync_states@).map_values(|v: AlbumSyncView| v.apple_album_guid)
    }

    /// Creates a sync service with no album set up.
    pub fn new(config: ImmichSyncConfig) -> (res: Self)
        ensures
            res@ == Map::<Seq<char>, AlbumSyncView>::empty(),
            res.album_order() == Seq::<Seq<char>>::empty(),
            res.settings() == config,
            res.current_pass() is None,
    {
        let res = ImmichSyncService { config, sync_states: Vec::new(), upload_pass: None };
        assert(res@ =~= Map::<Seq<char>, AlbumSyncView>::empty());
        assert(res.album_order() =~= Seq::<Seq<char>>::empty());
        res
    }

    /// The service's settings.
    pub fn config(&self) -> (res: &ImmichSyncConfig)
        ensures
            *res == self.settings(),
    {
        &self.config
    }

    /// The sync state of every album set up, in the order they were set up.
    pub fn get_sync_states(&self) -> (res: &Vec<AlbumSyncState>)
        ensures
            res@.len() == self.album_order().len(),
            forall|i: int| 0 <= i < res@.len() ==> {
                &&& (#[trigger] res@[i])@.apple_album_guid == self.album_order()[i]
                &&& self@.contains_key(self.album_order()[i])
                &&& res@[i]@ == self@[self.album_order()[i]]
            },
    {
        proof {
            use_type_invariant(self);
            let s = views_of(self.sync_states@);
            assert forall|i: int| 0 <= i < self.sync_states@.len() implies {
                &&& self.sync_states@[i]@.apple_album_guid == self.album_order()[i]
                &&& self@.contains_key(self.album_order()[i])
                &&& self.sync_states@[i]@ == self@[self.album_order()[i]]
            } by {
                lemma_states_map_at(s, i);
            }
        }
        &self.sync_states
    }

    fn position_of(&self, album_guid: &str) -> (res: Option<usize>)
        ensures
            match res {
                Some(i) => i < self.sync_states@.len() && self.sync_states@[i as int]@.apple_album_guid
                    == album_guid@ && self@.contains_key(album_guid@) && self@[album_guid@]
                    == self.sync_states@[i as int]@,
                None => !self@.contains_key(album_guid@),
            },
    {
        proof {
            use_type_invariant(self);
        }
        let n = self.sync_states.len();
        let mut i: usize = 0;
        while i < n
            invariant
                n == self.sync_states@.len(),
                i <= n,
                forall|j: int| 0 <= j < i ==> self.sync_states@[j]@.apple_album_guid != album_guid@,
            decreases n - i,
        {
            if same_text(self.sync_states[i].apple_album_guid.as_str(), album_guid) {
                proof {
                    use_type_invariant(self);
                    lemma_states_map_at(views_of(self.sync_states@), i as int);
                }
                return Some(i);
            }
            i = i + 1;
        }
        proof {
            let s = views_of(self.sync_states@);
            if self@.contains_key(album_guid@) {
                let k = choose|k: int| holds_album(s, album_guid@, k);
                assert(s[k].apple_album_guid == self.sync_states@[k]@.apple_album_guid);
            }
        }
        None
    }

    /// Whether the album is set up for sync.
    pub fn is_synced(&self, album_guid: &str) -> (res: bool)
        ensures
            res == self@.contains_key(album_guid@),
    {
        self.position_of(album_guid).is_some()
    }

    /// What to do about a shared album when checking for new invitations.
    pub fn share_action(&self, album: &SharedAlbum) -> (res: ShareAction)
        ensures
            res == share_action_for(
                self@.contains_key(album.album_guid@),
                album.subscribed,
                self.settings().auto_approve_shares,
                self.settings().push_notification_approval,
            ),
    {
        if self.is_synced(album.album_guid.as_str()) || album.subscribed {
            ShareAction::NoAction
        } else if self.config.auto_approve_shares {
            ShareAction::Approve
        } else if self.config.push_notification_approval {
            ShareAction::RequestPushApproval
        } else {
            ShareAction::AwaitManualApproval
        }
    }

    /// What an Apple asset is uploaded with: its GUID as the device asset ID,
    /// the configured device ID, and its creation and modification times, each
    /// `now` where it does not parse.
    pub fn upload_metadata(&self, asset: &SharedAsset, now: Timestamp) -> (res: UploadMetadata)
        ensures
            res.view() == metadata_for(*asset, self.settings().device_id@, now),
    {
        UploadMetadata {
            device_asset_id: asset.asset_guid.clone(),
            device_id: self.config.device_id.clone(),
            file_created_at: upload_timestamp(asset.created.as_str(), now),
            file_modified_at: upload_timestamp(asset.modified.as_str(), now),
        }
    }

    /// Sets up an album for sync against the Immich album `immich_album_id`,
    /// with no asset synced yet (an album already set up starts over). An
    /// upload pass in progress ends.
    pub fn setup_album(&mut self, album_guid: &str, immich_album_id: &str)
        ensures
            final(self)@ == old(self)@.insert(
                album_guid@,
                AlbumSyncView::fresh(album_guid@, immich_album_id@),
            ),
            final(self).settings() == old(self).settings(),
            final(self).album_order() == if old(self)@.contains_key(album_guid@) {
                old(self).album_order()
            } else {
                old(self).album_order().push(album_guid@)
            },
            final(self).current_pass() is None,
    {
        proof {
            use_type_invariant(&*self);
        }
        self.upload_pass = None;
        let state = AlbumSyncState {
            apple_album_guid: album_guid.to_string(),
            immich_album_id: immich_album_id.to_string(),
            apple_to_immich: StringHashMap::new(),
            immich_to_apple: StringHashMap::new(),
        };
        proof {
            assert(text_map(state.apple_to_immich@) =~= Map::<Seq<char>, Seq<char>>::empty());
            assert(text_map(state.immich_to_apple@) =~= Map::<Seq<char>, Seq<char>>::empty());
            assert(state@ == AlbumSyncView::fresh(album_guid@, immich_album_id@));
        }
        let pos = self.position_of(album_guid);
        let ghost old_states = self.sync_states@;
        let ghost old_views = views_of(old_states);
        let mut states: Vec<AlbumSyncState> = Vec::new();
        std::mem::swap(&mut states, &mut self.sync_states);
        match pos {
            Some(i) => {
                states[i] = state;
                proof {
                    assert(views_of(states@) =~= old_views.update(i as int, state@));
                    lemma_states_map_update(old_views, i as int, state@);
                    assert(views_of(states@).map_values(|v: AlbumSyncView| v.apple_album_guid)
                        =~= old_views.map_values(|v: AlbumSyncView| v.apple_album_guid));
                }
            },
            None => {
                states.push(state);
                proof {
                    assert(views_of(states@) =~= old_views.push(state@));
                    lemma_states_map_push(old_views, state@);
                    assert(views_of(states@).map_values(|v: AlbumSyncView| v.apple_album_guid)
                        =~= old_views.map_values(|v: AlbumSyncView| v.apple_album_guid).push(album_guid@));
                }
            },
        }
        self.sync_states = states;
    }

    /// Begins an upload pass over the listed Apple assets of an album: the
    /// assets not yet synced are taken one after the other, each fetched,
    /// uploaded, added to the Immich album and then recorded. Returns the
    /// first action. A pass in progress ends; no album state changes.
    pub fn begin_upload_pass(&mut self, album_guid: &str, assets: Vec<SharedAsset>) -> (res: UploadAction)
        ensures
            final(self)@ == old(self)@,
            final(self).settings() == old(self).settings(),
            final(self).album_order() == old(self).album_order(),
            !old(self)@.contains_key(album_guid@) ==> res is NotSynced && final(self).current_pass() is None,
            old(self)@.contains_key(album_guid@) && all_mapped(
                asset_guids(assets@),
                old(self)@[album_guid@].apple_to_immich,
            ) ==> res is Complete && final(self).current_pass() is None,
            old(self)@.contains_key(album_guid@) && !all_mapped(
                asset_guids(assets@),
                old(self)@[album_guid@].apple_to_immich,
            ) ==> (final(self).current_pass() matches Some(p) && {
                &&& p.album_guid == album_guid@
                &&& p.immich_album_id == old(self)@[album_guid@].immich_album_id
                &&& p.assets == assets@
                &&& p.start == old(self)@[album_guid@]
                &&& p.next == 0
                &&& p.stage is Fetching
                &&& is_unmapped_plan(p.plan, asset_guids(assets@), old(self)@[album_guid@].apple_to_immich)
                &&& is_stage_action(p, res)
            }),
    {
        proof {
            use_type_invariant(&*self);
        }
        self.upload_pass = None;
        let pos = match self.position_of(album_guid) {
            Some(i) => i,
            None => return UploadAction::NotSynced,
        };
        let plan = {
            let keys = asset_guid_list(&assets);
            unmapped_positions(&self.sync_states[pos].apple_to_immich, &keys)
        };
        if plan.len() == 0 {
            return UploadAction::Complete;
        }
        let ghost start = self@[album_guid@];
        let pass = UploadPass {
            album_guid: album_guid.to_string(),
            immich_album_id: self.sync_states[pos].immich_album_id.clone(),
            assets,
            plan,
            next: 0,
            stage: PassStage::Fetching,
            start: Ghost(start),
        };
        proof {
            use_type_invariant(&*self);
            assert(start == views_of(self.sync_states@)[pos as int]);
            assert(start.links_consistent());
            assert(pass.plan@[0] < pass.assets@.len());
            assert forall|k: int| 0 <= k < pass.plan@.len() implies pass.plan@[k] < pass.assets@.len() by {
            }
            if pass.plan@.len() > pass.assets@.len() {
                let n = pass.assets@.len();
                assert forall|k: int| 0 <= k <= n implies pass.plan@[k] >= k by {
                    lemma_increasing_at_least(pass.plan@, k);
                }
                assert(pass.plan@[n as int] >= n);
            }
            assert(pass_consistent(pass@, self@));
        }
        let act = pass.stage_action();
        self.upload_pass = Some(pass);
        act
    }

    /// Hands the pass in progress the outcome of the action it asked for, and
    /// returns the next action. Without a pass in progress there is nothing to
    /// do: a failure is passed on, anything else answers `Complete`.
    pub fn upload_pass_event(&mut self, event: UploadEvent) -> (res: UploadAction)
        ensures
            final(self).settings() == old(self).settings(),
            final(self).album_order() == old(self).album_order(),
            match old(self).current_pass() {
                None => {
                    &&& final(self)@ == old(self)@
                    &&& final(self).current_pass() is None
                    &&& match event {
                        UploadEvent::Failed(e) => res == UploadAction::Abort(e),
                        _ => res is Complete,
                    }
                },
                Some(p) => pass_step(
                    p,
                    event,
                    old(self)@,
                    old(self).settings().device_id@,
                    final(self)@,
                    final(self).current_pass(),
                    res,
                ),
            },
            old(self).current_pass() matches Some(p) ==> pass_keeps(p, final(self)@),
    {
        proof {
            use_type_invariant(&*self);
        }
        let mut taken: Option<UploadPass> = None;
        std::mem::swap(&mut taken, &mut self.upload_pass);
        match taken {
            Some(pass) => self.step(pass, event),
            None => match event {
                UploadEvent::Failed(e) => UploadAction::Abort(e),
                _ => UploadAction::Complete,
            },
        }
    }

    /// One step of a pass that was taken out of the service.
    fn step(&mut self, pass: UploadPass, event: UploadEvent) -> (res: UploadAction)
        requires
            old(self).current_pass() is None,
            pass_consistent(pass@, old(self)@),
            pass.plan@.len() <= pass.assets@.len(),
            pass.start@.links_consistent(),
        ensures
            final(self).settings() == old(self).settings(),
            final(self).album_order() == old(self).album_order(),
            pass_step(
                pass@,
                event,
                old(self)@,
                old(self).settings().device_id@,
                final(self)@,
                final(self).current_pass(),
                res,
            ),
            pass_keeps(pass@, final(self)@),
    {
        let mut pass = pass;
        let ghost p0 = pass@;
        match event {
            UploadEvent::Failed(e) => UploadAction::Abort(e),
            UploadEvent::FileFetched { now } => {
                let fetching = match pass.stage {
                    PassStage::Fetching => true,
                    _ => false,
                };
                if fetching {
                    let meta = self.upload_metadata(&pass.assets[pass.plan[pass.next]], now);
                    pass.stage = PassStage::Uploading(meta);
                }
                proof {
                    assert(pass@ == UploadPassView { stage: pass@.stage, ..p0 });
                }
                self.resume(pass)
            },
            UploadEvent::Uploaded { immich_asset_id } => {
                let uploading = match pass.stage {
                    PassStage::Uploading(_) => true,
                    _ => false,
                };
                if uploading {
                    pass.stage = PassStage::Adding(immich_asset_id);
                }
                proof {
                    assert(pass@ == UploadPassView { stage: pass@.stage, ..p0 });
                }
                self.resume(pass)
            },
            UploadEvent::AddedToAlbum => {
                let added = match &pass.stage {
                    PassStage::Adding(u) => Some(u.clone()),
                    _ => None,
                };
                match added {
                    None => self.resume(pass),
                    Some(u) => self.finish_asset(pass, u),
                }
            },
        }
    }

    /// Puts a pass back in progress and returns the action its stage asks for.
    fn resume(&mut self, pass: UploadPass) -> (res: UploadAction)
        requires
            old(self).current_pass() is None,
            pass_consistent(pass@, old(self)@),
            pass.plan@.len() <= pass.assets@.len(),
            pass.start@.links_consistent(),
        ensures
            final(self)@ == old(self)@,
            final(self).settings() == old(self).settings(),
            final(self).album_order() == old(self).album_order(),
            final(self).current_pass() == Some(pass@),
            is_stage_action(pass@, res),
    {
        proof {
            use_type_invariant(&*self);
        }
        let act = pass.stage_action();
        self.upload_pass = Some(pass);
        act
    }

    /// Records the asset in progress of a pass as uploaded as `u`, then moves
    /// on to the next asset or ends the pass.
    fn finish_asset(&mut self, pass: UploadPass, u: String) -> (res: UploadAction)
        requires
            old(self).current_pass() is None,
            pass_consistent(pass@, old(self)@),
            pass.plan@.len() <= pass.assets@.len(),
            pass.start@.links_consistent(),
        ensures
            ({
                let p = pass@;
                let g = p.album_guid;
                let after = final(self)@;
                &&& final(self).settings() == old(self).settings()
                &&& final(self).album_order() == old(self).album_order()
                &&& after == old(self)@.insert(g, old(self)@[g].record(pass_asset(p).asset_guid@, u@))
                &&& if p.next + 1 == p.plan.len() {
                    &&& final(self).current_pass() is None
                    &&& res is Complete
                    &&& all_mapped(asset_guids(p.assets), after[g].apple_to_immich)
                } else {
                    let q = UploadPassView { next: p.next + 1, stage: PassStageView::Fetching, ..p };
                    final(self).current_pass() == Some(q) && is_stage_action(q, res)
                }
                &&& pass_keeps(p, after)
            }),
    {
        let mut pass = pass;
        let ghost p0 = pass@;
        let asset_guid = pass.assets[pass.plan[pass.next]].asset_guid.clone();
        proof {
            lemma_pass_advance(p0, self@, u@);
        }
        self.record_upload(pass.album_guid.as_str(), asset_guid.as_str(), u.as_str());
        let n = pass.plan.len();
        assert(pass.next < n);
        if pass.next + 1 == n {
            UploadAction::Complete
        } else {
            pass.next = pass.next + 1;
            pass.stage = PassStage::Fetching;
            proof {
                assert(pass@ == UploadPassView { next: p0.next + 1, stage: PassStageView::Fetching, ..p0 });
            }
            self.resume(pass)
        }
    }

    /// The Immich album that a synced album is mirrored to.
    pub fn immich_album_id(&self, album_guid: &str) -> (res: Option<String>)
        ensures
            match res {
                Some(id) => self@.contains_key(album_guid@) && id@ == self@[album_guid@].immich_album_id,
                None => !self@.contains_key(album_guid@),
            },
    {
        match self.position_of(album_guid) {
            Some(i) => Some(self.sync_states[i].immich_album_id.clone()),
            None => None,
        }
    }

    /// The positions in `assets` of the Apple assets of an album that are not
    /// yet synced to Immich, in order; `None` where the album is not set up.
    pub fn pending_uploads(&self, album_guid: &str, assets: &Vec<SharedAsset>) -> (res: Option<Vec<usize>>)
        ensures
            match res {
                Some(plan) => self@.contains_key(album_guid@) && is_unmapped_plan(
                    plan@,
                    asset_guids(assets@),
                    self@[album_guid@].apple_to_immich,
                ),
                None => !self@.contains_key(album_guid@),
            },
    {
        let pos = match self.position_of(album_guid) {
            Some(i) => i,
            None => return None,
        };
        let keys = asset_guid_list(assets);
        Some(unmapped_positions(&self.sync_states[pos].apple_to_immich, &keys))
    }

    /// The positions in `immich_assets` of the assets of an album's Immich album
    /// that do not come from Apple, in order; `None` where the album is not set up.
    pub fn pending_downloads(&self, album_guid: &str, immich_assets: &Vec<ImmichAsset>) -> (res: Option<Vec<usize>>)
        ensures
            match res {
                Some(plan) => self@.contains_key(album_guid@) && is_unmapped_plan(
                    plan@,
                    immich_asset_ids(immich_assets@),
                    self@[album_guid@].immich_to_apple,
                ),
                None => !self@.contains_key(album_guid@),
            },
    {
        let pos = match self.position_of(album_guid) {
            Some(i) => i,
            None => return None,
        };
        let keys = immich_id_list(immich_assets);
        Some(unmapped_positions(&self.sync_states[pos].immich_to_apple, &keys))
    }

    /// Records that the Apple asset `asset_guid` of an album was uploaded as
    /// the Immich asset `immich_asset_id`, in both directions. Nothing changes
    /// where the album is not set up.
    fn record_upload(&mut self, album_guid: &str, asset_guid: &str, immich_asset_id: &str)
        requires
            old(self).current_pass() is None,
        ensures
            final(self).current_pass() is None,
            final(self)@ == if old(self)@.contains_key(album_guid@) {
                old(self)@.insert(
                    album_guid@,
                    old(self)@[album_guid@].record(asset_guid@, immich_asset_id@),
                )
            } else {
                old(self)@
            },
            final(self).settings() == old(self).settings(),
            final(self).album_order() == old(self).album_order(),
    {
        proof {
            use_type_invariant(&*self);
        }
        let pos = self.position_of(album_guid);
        match pos {
            Some(i) => {
                let ghost old_views = views_of(self.sync_states@);
                let ghost old_state = self.sync_states@[i as int]@;
                let mut states: Vec<AlbumSyncState> = Vec::new();
                std::mem::swap(&mut states, &mut self.sync_states);
                states[i].apple_to_immich.insert(asset_guid.to_string(), immich_asset_id.to_string());
                states[i].immich_to_apple.insert(immich_asset_id.to_string(), asset_guid.to_string());
                proof {
                    let new_state = old_state.record(asset_guid@, immich_asset_id@);
                    assert(states@[i as int]@.apple_to_immich =~= new_state.apple_to_immich);
                    assert(states@[i as int]@.immich_to_apple =~= new_state.immich_to_apple);
                    assert(states@[i as int]@ == new_state);
                    assert(views_of(states@) =~= old_views.update(i as int, new_state));
                    lemma_record_links(old_state, asset_guid@, immich_asset_id@);
                    lemma_states_map_update(old_views, i as int, new_state);
                    assert(views_of(states@).map_values(|v: AlbumSyncView| v.apple_album_guid)
                        =~= old_views.map_values(|v: AlbumSyncView| v.apple_album_guid));
                    assert forall|k: int| 0 <= k < views_of(states@).len() implies (#[trigger] views_of(
                        states@,
                    )[k]).links_consistent() by {
                        if k != i {
                            assert(views_of(states@)[k] == old_views[k]);
                        }
                    }
                }
                self.sync_states = states;
            },
            None => {},
        }
    }

    /// The GUIDs of the albums set up for sync, each once, in the order they
    /// were set up.
    pub fn synced_album_guids(&self) -> (res: Vec<String>)
        ensures
            res@.map_values(|g: String| g@) == self.album_order(),
            forall|g: Seq<char>| self@.contains_key(g) <==> self.album_order().contains(g),
            forall|i: int, j: int|
                0 <= i < self.album_order().len() && 0 <= j < self.album_order().len() && i != j
                    ==> self.album_order()[i] != self.album_order()[j],
    {
        proof {
            use_type_invariant(self);
            let s = views_of(self.sync_states@);
            assert forall|g: Seq<char>| self@.contains_key(g) <==> self.album_order().contains(g) by {
                if self@.contains_key(g) {
                    let k = choose|k: int| holds_album(s, g, k);
                    assert(self.album_order()[k] == g);
                }
                if self.album_order().contains(g) {
                    let k = choose|k: int|
                        0 <= k < self.album_order().len() && self.album_order()[k] == g;
                    assert(holds_album(s, g, k));
                }
            }
        }
        let n = self.sync_states.len();
        let mut res: Vec<String> = Vec::new();
        let mut i: usize = 0;
        while i < n
            invariant
                n == self.sync_states@.len(),
                n == self.album_order().len(),
                i <= n,
                res@.map_values(|g: String| g@) =~= self.album_order().subrange(0, i as int),
            decreases n - i,
        {
            let ghost before = res@;
            res.push(self.sync_states[i].apple_album_guid.clone());
            proof {
                assert(self.album_order()[i as int] == self.sync_states@[i as int].apple_album_guid@);
                assert(res@.map_values(|g: String| g@) =~= before.map_values(|g: String| g@).push(
                    self.album_order()[i as int],
                ));
                assert(self.album_order().subrange(0, i + 1) =~= self.album_order().subrange(
                    0,
                    i as int,
                ).push(self.album_order()[i as int]));
            }
            i = i + 1;
        }
        proof {
            assert(self.album_order().subrange(0, n as int) =~= self.album_order());
        }
        res
    }
}


// ---------------------------------------------------------------------------
// Laws
// ---------------------------------------------------------------------------

/// A newly set up album has consistent links, and its maps agree.
pub proof fn lemma_fresh_links_consistent(apple_album_guid: Seq<char>, immich_album_id: Seq<char>)
    ensures
        AlbumSyncView::fresh(apple_album_guid, immich_album_id).links_consistent(),
        AlbumSyncView::fresh(apple_album_guid, immich_album_id).agrees(),
{
}

/// Recording an upload links the two assets both ways, keeps the links of an
/// album consistent, and forgets no asset that was already synced.
pub proof fn lemma_record_links(v: AlbumSyncView, apple: Seq<char>, immich: Seq<char>)
    requires
        v.links_consistent(),
    ensures
        v.record(apple, immich).links_consistent(),
        v.record(apple, immich).apple_to_immich[apple] == immich,
        v.record(apple, immich).immich_to_apple[immich] == apple,
        v.record(apple, immich).apple_to_immich.dom() == v.apple_to_immich.dom().insert(apple),
        v.record(apple, immich).immich_to_apple.dom() == v.immich_to_apple.dom().insert(immich),
{
    let r = v.record(apple, immich);
    assert(r.apple_to_immich.dom() =~= v.apple_to_immich.dom().insert(apple));
    assert(r.immich_to_apple.dom() =~= v.immich_to_apple.dom().insert(immich));
}

/// An Apple asset, once its upload is recorded, is never planned for upload again.
pub proof fn lemma_recorded_asset_not_planned(
    v: AlbumSyncView,
    apple: Seq<char>,
    immich: Seq<char>,
    keys: Seq<Seq<char>>,
    plan: Seq<usize>,
)
    requires
        is_unmapped_plan(plan, keys, v.record(apple, immich).apple_to_immich),
    ensures
        forall|k: int| 0 <= k < plan.len() ==> keys[plan[k] as int] != apple,
{
    assert forall|k: int| 0 <= k < plan.len() implies keys[plan[k] as int] != apple by {
        assert(plan[k] < keys.len());
    }
}

/// A pass that ends with `Complete` leaves nothing to upload of the assets
/// it was given: a new plan for them is empty, so a second pass over the same
/// list makes no call and changes nothing.
pub proof fn lemma_completed_pass_leaves_nothing_pending(
    p: UploadPassView,
    before: Map<Seq<char>, AlbumSyncView>,
    device_id: Seq<char>,
    after: Map<Seq<char>, AlbumSyncView>,
    next_pass: Option<UploadPassView>,
    res: UploadAction,
    next_plan: Seq<usize>,
)
    requires
        pass_step(p, UploadEvent::AddedToAlbum, before, device_id, after, next_pass, res),
        res is Complete,
        is_unmapped_plan(next_plan, asset_guids(p.assets), after[p.album_guid].apple_to_immich),
    ensures
        all_mapped(asset_guids(p.assets), after[p.album_guid].apple_to_immich),
        next_plan.len() == 0,
{
    if next_plan.len() > 0 {
        let j = next_plan[0] as int;
        assert(!after[p.album_guid].apple_to_immich.contains_key(asset_guids(p.assets)[j]));
    }
}

/// An album, once set up, needs no approval any more, whatever its
/// subscription and the settings.
pub proof fn lemma_set_up_album_needs_no_action(
    states: Map<Seq<char>, AlbumSyncView>,
    album_guid: Seq<char>,
    immich_album_id: Seq<char>,
    subscribed: bool,
    auto_approve: bool,
    push_approval: bool,
)
    ensures
        share_action_for(
            states.insert(album_guid, AlbumSyncView::fresh(album_guid, immich_album_id)).contains_key(
                album_guid,
            ),
            subscribed,
            auto_approve,
            push_approval,
        ) == ShareAction::NoAction,
{
}


/// A new invitation (an album neither synced nor subscribed) is approved
/// exactly when automatic approval is on, whether or not push approval is
/// also on; push approval is asked for only when automatic approval is off.
pub proof fn lemma_auto_approval_comes_first(synced: bool, subscribed: bool, auto_approve: bool, push_approval: bool)
    ensures
        (share_action_for(synced, subscribed, auto_approve, push_approval) == ShareAction::Approve) <==> (!synced
            && !subscribed && auto_approve),
        share_action_for(synced, subscribed, true, push_approval) == share_action_for(
            synced,
            subscribed,
            true,
            !push_approval,
        ),
        (share_action_for(synced, subscribed, auto_approve, push_approval) == ShareAction::RequestPushApproval)
            <==> (!synced && !subscribed && !auto_approve && push_approval),
        (share_action_for(synced, subscribed, auto_approve, push_approval) == ShareAction::NoAction) <==> (synced
            || subscribed),
{
}

/// A shared album that has a name is mirrored under that name, whatever its
/// owner's full name; the full name is used only where there is no name, and
/// `Album {guid}` only where there is neither.
pub proof fn lemma_display_name_prefers_album_name(album: SharedAlbum, other_full_name: Option<String>)
    ensures
        album.name is Some ==> album_display_name_text(album) == album.name.unwrap()@,
        album.name is Some ==> album_display_name_text(album) == album_display_name_text(
            SharedAlbum { full_name: other_full_name, ..album },
        ),
        album.name is None && album.full_name is Some ==> album_display_name_text(album)
            == album.full_name.unwrap()@,
        album.name is None && album.full_name is None ==> album_display_name_text(album) == "Album "@
            + album.album_guid@,
{
}

/// Recording an upload of an Apple asset that was not yet synced keeps the
/// two maps each other's inverse.
pub proof fn lemma_record_keeps_agreement(v: AlbumSyncView, apple: Seq<char>, immich: Seq<char>)
    requires
        v.agrees(),
        !v.apple_to_immich.contains_key(apple),
    ensures
        v.record(apple, immich).agrees(),
{
    let r = v.record(apple, immich);
    assert forall|i: Seq<char>| #[trigger] r.immich_to_apple.contains_key(i) implies r.apple_to_immich.contains_key(
        r.immich_to_apple[i],
    ) && r.apple_to_immich[r.immich_to_apple[i]] == i by {
        if i != immich {
            assert(v.immich_to_apple.contains_key(i));
            let a = v.immich_to_apple[i];
            assert(v.apple_to_immich.contains_key(a));
            assert(a != apple);
        }
    }
    assert forall|a: Seq<char>| #[trigger] r.apple_to_immich.contains_key(a) implies r.immich_to_apple.contains_key(
        r.apple_to_immich[a],
    ) by {
        if a != apple {
            assert(v.apple_to_immich.contains_key(a));
        }
    }
}

/// Finishing the asset in progress of a consistent pass: the maps keep what
/// they held when the pass began, they stay each other's inverse where they
/// were so and the pass lists no asset twice, and either the pass goes on
/// consistently or every listed asset is synced.
proof fn lemma_pass_advance(p: UploadPassView, m: Map<Seq<char>, AlbumSyncView>, u: Seq<char>)
    requires
        pass_consistent(p, m),
    ensures
        ({
            let g = p.album_guid;
            let keys = asset_guids(p.assets);
            let m2 = m.insert(g, m[g].record(pass_asset(p).asset_guid@, u));
            &&& p.start.apple_to_immich.submap_of(m2[g].apple_to_immich)
            &&& p.start.immich_to_apple.dom().subset_of(m2[g].immich_to_apple.dom())
            &&& (p.start.agrees() && texts_distinct(keys) ==> m2[g].agrees())
            &&& (p.next + 1 < p.plan.len() ==> pass_consistent(
                UploadPassView { next: p.next + 1, stage: PassStageView::Fetching, ..p },
                m2,
            ))
            &&& (p.next + 1 == p.plan.len() ==> all_mapped(keys, m2[g].apple_to_immich))
        }),
{
    let g = p.album_guid;
    let keys = asset_guids(p.assets);
    let c = m[g];
    let idx = p.plan[p.next] as int;
    assert(idx < keys.len());
    let a = pass_asset(p).asset_guid@;
    assert(keys[idx] == a);
    assert(!p.start.apple_to_immich.contains_key(a));
    let c2 = c.record(a, u);
    let m2 = m.insert(g, c2);
    assert(m2[g] == c2);
    assert forall|x: Seq<char>| #[trigger] p.start.apple_to_immich.contains_key(x) implies c2.apple_to_immich.contains_key(
        x,
    ) && c2.apple_to_immich[x] == p.start.apple_to_immich[x] by {
        assert(x != a);
        assert(c.apple_to_immich.contains_key(x));
    }
    assert(p.start.apple_to_immich.submap_of(c2.apple_to_immich));
    assert(p.start.immich_to_apple.dom().subset_of(c2.immich_to_apple.dom()));
    if p.start.agrees() && texts_distinct(keys) {
        if c.apple_to_immich.contains_key(a) {
            let j = choose|j: int| 0 <= j < p.next && keys[p.plan[j] as int] == a;
            assert(p.plan[j] < p.plan[p.next]);
            assert(keys[p.plan[j] as int] != keys[idx]);
        }
        lemma_record_keeps_agreement(c, a, u);
    }
    if p.next + 1 < p.plan.len() {
        let q = UploadPassView { next: p.next + 1, stage: PassStageView::Fetching, ..p };
        assert forall|x: Seq<char>|
            #[trigger] c2.apple_to_immich.contains_key(x) <==> (p.start.apple_to_immich.contains_key(x)
                || exists|j: int| 0 <= j < q.next && keys[q.plan[j] as int] == x) by {
            if c2.apple_to_immich.contains_key(x) {
                if x == a {
                    assert(0 <= p.next < q.next && keys[q.plan[p.next] as int] == x);
                } else {
                    assert(c.apple_to_immich.contains_key(x));
                    if !p.start.apple_to_immich.contains_key(x) {
                        let j = choose|j: int| 0 <= j < p.next && keys[p.plan[j] as int] == x;
                        assert(0 <= j < q.next && keys[q.plan[j] as int] == x);
                    }
                }
            }
            if p.start.apple_to_immich.contains_key(x) {
                assert(c.apple_to_immich.contains_key(x));
            }
            if exists|j: int| 0 <= j < q.next && keys[q.plan[j] as int] == x {
                let j = choose|j: int| 0 <= j < q.next && keys[q.plan[j] as int] == x;
                if j < p.next {
                    assert(0 <= j < p.next && keys[p.plan[j] as int] == x);
                    assert(c.apple_to_immich.contains_key(x));
                } else {
                    assert(x == a);
                }
            }
        }
        assert(pass_consistent(q, m2));
    }
    if p.next + 1 == p.plan.len() {
        assert forall|j: int| 0 <= j < keys.len() implies c2.apple_to_immich.contains_key(#[trigger] keys[j]) by {
            if !p.start.apple_to_immich.contains_key(keys[j]) {
                let k = choose|k: int| 0 <= k < p.plan.len() && p.plan[k] == j;
                if k < p.next {
                    assert(keys[p.plan[k] as int] == keys[j]);
                    assert(c.apple_to_immich.contains_key(keys[j]));
                }
            } else {
                assert(c.apple_to_immich.contains_key(keys[j]));
            }
        }
    }
}


/// In a strictly increasing sequence of positions, the `k`-th is at least `k`.
proof fn lemma_increasing_at_least(plan: Seq<usize>, k: int)
    requires
        0 <= k < plan.len(),
        forall|k1: int, k2: int| 0 <= k1 < k2 < plan.len() ==> plan[k1] < plan[k2],
    ensures
        plan[k] >= k,
    decreases k,
{
    if k > 0 {
        lemma_increasing_at_least(plan, k - 1);
    }
}

} // verus!
