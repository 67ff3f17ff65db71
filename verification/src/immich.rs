//! The Immich API as this library uses it: connection settings, the data that
//! the server returns, the requests that each operation sends and how each
//! operation reads the status of the answer.

use vstd::prelude::*;
use crate::clock::{rfc3339_text, Timestamp};
use crate::http_status::{is_success, status_line, status_line_text, valid_status};
use crate::text::{ends_with, has_suffix, join2, join3, same_text, trim_end_slashes, trim_trailing_slashes};

verus! {

/// Configuration for connecting to an Immich server.
pub struct ImmichConfig {
    /// Base URL of the Immich server (e.g. `http://localhost:2283`).
    pub server_url: String,
    /// API key for authentication.
    pub api_key: String,
}

/// What can go wrong when talking to Immich. Failures of the transport and of
/// the file system are carried as the text that they display.
pub enum ImmichError {
    RequestFailed(String),
    FileReadError(String),
    ApiError(String),
    AuthenticationFailed,
    AlbumNotFound(String),
    AssetNotFound(String),
}

impl ImmichError {
    /// The text that the error displays.
    pub open spec fn message_text(&self) -> Seq<char> {
        match self {
            ImmichError::RequestFailed(m) => "HTTP request failed: "@ + m@,
            ImmichError::FileReadError(m) => "Failed to read file: "@ + m@,
            ImmichError::ApiError(m) => "API error: "@ + m@,
            ImmichError::AuthenticationFailed => "Authentication failed"@,
            ImmichError::AlbumNotFound(id) => "Album not found: "@ + id@,
            ImmichError::AssetNotFound(id) => "Asset not found: "@ + id@,
        }
    }

    /// Formats the error for display.
    pub fn message(&self) -> (res: String)
        ensures
            res@ == self.message_text(),
    {
        match self {
            ImmichError::RequestFailed(m) => join2("HTTP request failed: ", m.as_str()),
            ImmichError::FileReadError(m) => join2("Failed to read file: ", m.as_str()),
            ImmichError::ApiError(m) => join2("API error: ", m.as_str()),
            ImmichError::AuthenticationFailed => "Authentication failed".to_string(),
            ImmichError::AlbumNotFound(id) => join2("Album not found: ", id.as_str()),
            ImmichError::AssetNotFound(id) => join2("Asset not found: ", id.as_str()),
        }
    }
}

/// An asset (photo or video) in Immich.
pub struct ImmichAsset {
    pub id: String,
    pub device_asset_id: String,
    pub owner_id: String,
    pub device_id: String,
    pub asset_type: String,
    pub original_path: String,
    pub original_file_name: String,
    pub file_created_at: String,
    pub file_modified_at: String,
    pub is_favorite: bool,
    pub is_archived: bool,
    pub duration: Option<String>,
}

/// An album in Immich.
pub struct ImmichAlbum {
    pub id: String,
    pub album_name: String,
    pub description: Option<String>,
    pub owner_id: String,
    pub album_thumbnail_asset_id: Option<String>,
    pub created_at: String,
    pub updated_at: String,
    pub asset_count: u32,
    pub assets: Vec<ImmichAsset>,
}

/// The body of a request to create an album.
pub struct CreateAlbumRequest {
    pub album_name: String,
    pub description: Option<String>,
}

/// The answer to an upload.
pub struct UploadAssetResponse {
    pub id: String,
    pub duplicate: bool,
}

/// The HTTP methods that the Immich API is called with.
#[derive(Clone, Copy, Debug, PartialEq, Eq, Structural)]
pub enum HttpMethod {
    Get,
    Post,
    Put,
    Delete,
}

/// A request to send: method, URL and headers. Every request carries the
/// `x-api-key` header; `accept_json` adds `Accept: application/json` and
/// `json_body` adds `Content-Type: application/json`.
pub struct ApiRequest {
    pub method: HttpMethod,
    pub url: String,
    pub api_key: String,
    pub accept_json: bool,
    pub json_body: bool,
}

/// A text field of a multipart form.
pub struct FormField {
    pub name: String,
    pub value: String,
}

/// The multipart form of an upload: the file part (under `file_part_name`,
/// with its file name and MIME type) and the text fields, in order.
pub struct UploadForm {
    pub file_part_name: String,
    pub file_name: String,
    pub mime_type: String,
    pub fields: Vec<FormField>,
}

/// The URL of an API path on a server: the server URL without trailing `/`,
/// then `/api`, then the path.
pub open spec fn api_url_text(server_url: Seq<char>, path: Seq<char>) -> Seq<char> {
    trim_trailing_slashes(server_url) + "/api"@ + path
}

/// The lowercase form that `str::to_lowercase` gives of a text.
pub uninterp spec fn lowercase_text(s: Seq<char>) -> Seq<char>;

/// The last component of a path as `std::path::Path::file_name` finds it.
pub uninterp spec fn path_file_name(path: Seq<char>) -> Option<Seq<char>>;

/// Calls `str::to_lowercase`. Claims only that the result is the one named `lowercase_text`.
#[verifier::external_body]
fn to_lowercase(s: &str) -> (res: String)
    ensures
        res@ == lowercase_text(s@),
{
    s.to_lowercase()
}

/// Calls `std::path::Path::file_name` on the path and converts the name to text
/// (a name taken from a `str` is valid UTF-8). Claims only that the result is the
/// one named `path_file_name`.
#[verifier::external_body]
fn file_name_of(path: &str) -> (res: Option<String>)
    ensures
        match res {
            Some(n) => path_file_name(path@) == Some(n@),
            None => path_file_name(path@) is None,
        },
{
    match std::path::Path::new(path).file_name() {
        Some(name) => match name.to_str() {
            Some(text) => Some(text.to_string()),
            None => None,
        },
        None => None,
    }
}

/// The MIME type for a file name that is already in lowercase.
pub open spec fn mime_type_of_lowercase(name: Seq<char>) -> Seq<char> {
    if has_suffix(name, ".jpg"@) || has_suffix(name, ".jpeg"@) {
        "image/jpeg"@
    } else if has_suffix(name, ".png"@) {
        "image/png"@
    } else if has_suffix(name, ".heic"@) {
        "image/heic"@
    } else if has_suffix(name, ".mp4"@) {
        "video/mp4"@
    } else if has_suffix(name, ".mov"@) {
        "video/quicktime"@
    } else {
        "application/octet-stream"@
    }
}

/// The MIME type for a file name that is already in lowercase, chosen by its extension.
pub fn mime_type_for_lowercase(lower: &str) -> (res: String)
    ensures
        res@ == mime_type_of_lowercase(lower@),
{
    if ends_with(lower, ".jpg") || ends_with(lower, ".jpeg") {
        "image/jpeg".to_string()
    } else if ends_with(lower, ".png") {
        "image/png".to_string()
    } else if ends_with(lower, ".heic") {
        "image/heic".to_string()
    } else if ends_with(lower, ".mp4") {
        "video/mp4".to_string()
    } else if ends_with(lower, ".mov") {
        "video/quicktime".to_string()
    } else {
        "application/octet-stream".to_string()
    }
}

/// The MIME type under which a file is uploaded, chosen by the extension of
/// its name, whatever its case.
pub fn mime_type_for(file_name: &str) -> (res: String)
    ensures
        res@ == mime_type_of_lowercase(lowercase_text(file_name@)),
{
    let lower = to_lowercase(file_name);
    mime_type_for_lowercase(lower.as_str())
}

/// The name under which a file is uploaded: the last component of its path,
/// or `unknown` where the path has none.
pub open spec fn upload_file_name_text(path: Seq<char>) -> Seq<char> {
    match path_file_name(path) {
        Some(n) => n,
        None => "unknown"@,
    }
}

/// The name under which a file is uploaded, from the last component of its
/// path: that component, or `unknown` where there is none.
pub fn upload_file_name(path_name: Option<&str>) -> (res: String)
    ensures
        res@ == match path_name {
            Some(n) => n@,
            None => "unknown"@,
        },
{
    match path_name {
        Some(n) => n.to_string(),
        None => "unknown".to_string(),
    }
}

/// The multipart form of an upload, from the file's name, that name in
/// lowercase, and the RFC 3339 texts of its times.
pub fn upload_form(
    file_name: &str,
    lowercase_name: &str,
    device_asset_id: &str,
    device_id: &str,
    file_created_at: &str,
    file_modified_at: &str,
) -> (res: UploadForm)
    ensures
        res.file_part_name@ == "assetData"@,
        res.file_name@ == file_name@,
        res.mime_type@ == mime_type_of_lowercase(lowercase_name@),
        res.fields@.len() == 4,
        res.fields@[0].name@ == "deviceAssetId"@,
        res.fields@[0].value@ == device_asset_id@,
        res.fields@[1].name@ == "deviceId"@,
        res.fields@[1].value@ == device_id@,
        res.fields@[2].name@ == "fileCreatedAt"@,
        res.fields@[2].value@ == file_created_at@,
        res.fields@[3].name@ == "fileModifiedAt"@,
        res.fields@[3].value@ == file_modified_at@,
{
    let mut fields: Vec<FormField> = Vec::new();
    fields.push(FormField { name: "deviceAssetId".to_string(), value: device_asset_id.to_string() });
    fields.push(FormField { name: "deviceId".to_string(), value: device_id.to_string() });
    fields.push(FormField { name: "fileCreatedAt".to_string(), value: file_created_at.to_string() });
    fields.push(FormField { name: "fileModifiedAt".to_string(), value: file_modified_at.to_string() });
    UploadForm {
        file_part_name: "assetData".to_string(),
        file_name: file_name.to_string(),
        mime_type: mime_type_for_lowercase(lowercase_name),
        fields,
    }
}

/// The index of the first album with the given name, if there is one.
pub open spec fn first_album_named(albums: Seq<ImmichAlbum>, name: Seq<char>) -> Option<int> {
    if exists|i: int| 0 <= i < albums.len() && albums[i].album_name@ == name {
        Some(choose|i: int|
            0 <= i < albums.len() && albums[i].album_name@ == name && forall|j: int|
                0 <= j < i ==> albums[j].album_name@ != name)
    } else {
        None
    }
}

/// Whether an `ApiError` carries the text of `status_failure(prefix, status)`.
pub open spec fn is_status_failure(e: ImmichError, prefix: Seq<char>, status: u16) -> bool {
    match e {
        ImmichError::ApiError(m) => m@ == prefix + status_line_text(status),
        _ => false,
    }
}

fn api_failure(prefix: &str, status: u16) -> (res: ImmichError)
    requires
        valid_status(status),
    ensures
        is_status_failure(res, prefix@, status),
{
    let line = status_line(status);
    ImmichError::ApiError(join2(prefix, line.as_str()))
}

/// The result of an operation that fails, on an unsuccessful status, with
/// `ApiError(prefix + status line)`.
pub open spec fn checked_with_prefix(res: Result<(), ImmichError>, prefix: Seq<char>, status: u16) -> bool {
    if 200 <= status <= 299 {
        res is Ok
    } else {
        res is Err && is_status_failure(res->Err_0, prefix, status)
    }
}

/// Client for the Immich API: builds the requests that each operation sends
/// and reads the answers' status. The transport itself is the caller's.
pub struct ImmichClient {
    config: ImmichConfig,
}

impl ImmichClient {
    /// The configuration that the client was made with.
    pub closed spec fn spec_config(&self) -> ImmichConfig {
        self.config
    }

    /// The request with this method and path, with the client's API key.
    pub open spec fn is_request(
        &self,
        req: ApiRequest,
        method: HttpMethod,
        path: Seq<char>,
        accept_json: bool,
        json_body: bool,
    ) -> bool {
        &&& req.method == method
        &&& req.url@ == api_url_text(self.spec_config().server_url@, path)
        &&& req.api_key@ == self.spec_config().api_key@
        &&& req.accept_json == accept_json
        &&& req.json_body == json_body
    }

    /// Creates a new Immich client.
    pub fn new(config: ImmichConfig) -> (res: Self)
        ensures
            res.spec_config() == config,
    {
        ImmichClient { config }
    }

    /// The configuration that the client was made with.
    pub fn config(&self) -> (res: &ImmichConfig)
        ensures
            *res == self.spec_config(),
    {
        &self.config
    }

    /// The URL of an API path.
    pub fn api_url(&self, path: &str) -> (res: String)
        ensures
            res@ == api_url_text(self.spec_config().server_url@, path@),
    {
        let base = trim_end_slashes(self.config.server_url.as_str());
        join3(base.as_str(), "/api", path)
    }

    fn request(&self, method: HttpMethod, path: &str, accept_json: bool, json_body: bool) -> (res: ApiRequest)
        ensures
            self.is_request(res, method, path@, accept_json, json_body),
    {
        ApiRequest {
            method,
            url: self.api_url(path),
            api_key: self.config.api_key.clone(),
            accept_json,
            json_body,
        }
    }

    /// The request that lists all albums: `GET /albums`.
    pub fn list_albums_request(&self) -> (res: ApiRequest)
        ensures
            self.is_request(res, HttpMethod::Get, "/albums"@, true, false),
    {
        self.request(HttpMethod::Get, "/albums", true, false)
    }

    /// How listing albums reads the answer's status.
    pub fn list_albums_status(&self, status: u16) -> (res: Result<(), ImmichError>)
        requires
            valid_status(status),
        ensures
            checked_with_prefix(res, "Failed to list albums: "@, status),
    {
        if is_success(status) {
            Ok(())
        } else {
            Err(api_failure("Failed to list albums: ", status))
        }
    }

    /// The request that fetches one album: `GET /albums/{album_id}`.
    pub fn get_album_request(&self, album_id: &str) -> (res: ApiRequest)
        ensures
            self.is_request(res, HttpMethod::Get, "/albums/"@ + album_id@, true, false),
    {
        let path = join2("/albums/", album_id);
        self.request(HttpMethod::Get, path.as_str(), true, false)
    }

    /// How fetching an album reads the answer's status: an unsuccessful one
    /// means that the album was not found.
    pub fn get_album_status(&self, album_id: &str, status: u16) -> (res: Result<(), ImmichError>)
        requires
            valid_status(status),
        ensures
            200 <= status <= 299 ==> res is Ok,
            !(200 <= status <= 299) ==> (res matches Err(ImmichError::AlbumNotFound(id)) && id@ == album_id@),
    {
        if is_success(status) {
            Ok(())
        } else {
            Err(ImmichError::AlbumNotFound(album_id.to_string()))
        }
    }

    /// The first album with the given name, if any.
    pub fn find_album_by_name(&self, albums: Vec<ImmichAlbum>, name: &str) -> (res: Option<ImmichAlbum>)
        ensures
            res == match first_album_named(albums@, name@) {
                Some(k) => Some(albums@[k]),
                None => None,
            },
    {
        let ghost orig = albums@;
        let mut list = albums;
        let n = list.len();
        let mut i: usize = 0;
        while i < n
            invariant
                list@ == orig,
                orig == albums@,
                n == orig.len(),
                i <= n,
                forall|j: int| 0 <= j < i ==> orig[j].album_name@ != name@,
            decreases n - i,
        {
            if same_text(list[i].album_name.as_str(), name) {
                proof {
                    assert(orig[i as int].album_name@ == name@);
                    assert(0 <= i < orig.len() && orig[i as int].album_name@ == name@ && forall|j: int|
                        0 <= j < i ==> orig[j].album_name@ != name@);
                    let k = choose|k: int|
                        0 <= k < orig.len() && orig[k].album_name@ == name@ && forall|j: int|
                            0 <= j < k ==> orig[j].album_name@ != name@;
                    assert(k == i) by {
                        if k < i {
                            assert(orig[k].album_name@ != name@);
                        } else if k > i {
                            assert(orig[i as int].album_name@ == name@);
                        }
                    }
                }
                return Some(list.remove(i));
            }
            i = i + 1;
        }
        None
    }

    /// The body and request that create an album: `POST /albums` with a JSON body.
    pub fn create_album_request(&self, name: &str, description: Option<&str>) -> (res: (ApiRequest, CreateAlbumRequest))
        ensures
            self.is_request(res.0, HttpMethod::Post, "/albums"@, true, true),
            res.1.album_name@ == name@,
            match description {
                Some(d) => res.1.description matches Some(x) && x@ == d@,
                None => res.1.description is None,
            },
    {
        let body = CreateAlbumRequest {
            album_name: name.to_string(),
            description: match description {
                Some(d) => Some(d.to_string()),
                None => None,
            },
        };
        (self.request(HttpMethod::Post, "/albums", true, true), body)
    }

    /// How creating an album reads the answer's status.
    pub fn create_album_status(&self, status: u16) -> (res: Result<(), ImmichError>)
        requires
            valid_status(status),
        ensures
            checked_with_prefix(res, "Failed to create album: "@, status),
    {
        if is_success(status) {
            Ok(())
        } else {
            Err(api_failure("Failed to create album: ", status))
        }
    }

    /// The request and multipart form that upload the file at `file_path`:
    /// `POST /assets`. `None` where chrono cannot represent one of the instants.
    pub fn upload_asset_request(
        &self,
        file_path: &str,
        device_asset_id: &str,
        device_id: &str,
        file_created_at: Timestamp,
        file_modified_at: Timestamp,
    ) -> (res: Option<(ApiRequest, UploadForm)>)
        ensures
            (res is Some) == (rfc3339_text(file_created_at.secs, file_created_at.nanos) is Some
                && rfc3339_text(file_modified_at.secs, file_modified_at.nanos) is Some),
            res matches Some(r) ==> {
                let file_name = upload_file_name_text(file_path@);
                &&& self.is_request(r.0, HttpMethod::Post, "/assets"@, true, false)
                &&& r.1.file_part_name@ == "assetData"@
                &&& r.1.file_name@ == file_name
                &&& r.1.mime_type@ == mime_type_of_lowercase(lowercase_text(file_name))
                &&& r.1.fields@.len() == 4
                &&& r.1.fields@[0].name@ == "deviceAssetId"@
                &&& r.1.fields@[0].value@ == device_asset_id@
                &&& r.1.fields@[1].name@ == "deviceId"@
                &&& r.1.fields@[1].value@ == device_id@
                &&& r.1.fields@[2].name@ == "fileCreatedAt"@
                &&& Some(r.1.fields@[2].value@) == rfc3339_text(file_created_at.secs, file_created_at.nanos)
                &&& r.1.fields@[3].name@ == "fileModifiedAt"@
                &&& Some(r.1.fields@[3].value@) == rfc3339_text(file_modified_at.secs, file_modified_at.nanos)
            },
    {
        let created = match file_created_at.to_rfc3339() {
            Some(t) => t,
            None => return None,
        };
        let modified = match file_modified_at.to_rfc3339() {
            Some(t) => t,
            None => return None,
        };
        let path_name = file_name_of(file_path);
        let file_name = match &path_name {
            Some(n) => upload_file_name(Some(n.as_str())),
            None => upload_file_name(None),
        };
        let lower = to_lowercase(file_name.as_str());
        let form = upload_form(
            file_name.as_str(),
            lower.as_str(),
            device_asset_id,
            device_id,
            created.as_str(),
            modified.as_str(),
        );
        Some((self.request(HttpMethod::Post, "/assets", true, false), form))
    }

    /// How an upload reads the answer: an unsuccessful status gives an
    /// `ApiError` quoting the status and the body of the answer.
    pub fn upload_asset_status(&self, status: u16, body: &str) -> (res: Result<(), ImmichError>)
        requires
            valid_status(status),
        ensures
            200 <= status <= 299 ==> res is Ok,
            !(200 <= status <= 299) ==> (res matches Err(ImmichError::ApiError(m))
                && m@ == "Failed to upload asset: "@ + status_line_text(status) + " - "@ + body@),
    {
        if is_success(status) {
            Ok(())
        } else {
            let line = status_line(status);
            let mut m = join2("Failed to upload asset: ", line.as_str());
            m.append(" - ");
            m.append(body);
            Err(ImmichError::ApiError(m))
        }
    }

    /// The request that adds assets to an album: `PUT /albums/{album_id}/assets`
    /// with the JSON body `{"ids": [...]}`.
    pub fn add_assets_to_album_request(&self, album_id: &str) -> (res: ApiRequest)
        ensures
            self.is_request(res, HttpMethod::Put, "/albums/"@ + album_id@ + "/assets"@, true, true),
    {
        let path = join3("/albums/", album_id, "/assets");
        self.request(HttpMethod::Put, path.as_str(), true, true)
    }

    /// How adding assets to an album reads the answer's status.
    pub fn add_assets_to_album_status(&self, status: u16) -> (res: Result<(), ImmichError>)
        requires
            valid_status(status),
        ensures
            checked_with_prefix(res, "Failed to add assets to album: "@, status),
    {
        if is_success(status) {
            Ok(())
        } else {
            Err(api_failure("Failed to add assets to album: ", status))
        }
    }

    /// The request that downloads the original of an asset:
    /// `GET /assets/{asset_id}/original`, without an `Accept` header.
    pub fn download_asset_request(&self, asset_id: &str) -> (res: ApiRequest)
        ensures
            self.is_request(res, HttpMethod::Get, "/assets/"@ + asset_id@ + "/original"@, false, false),
    {
        let path = join3("/assets/", asset_id, "/original");
        self.request(HttpMethod::Get, path.as_str(), false, false)
    }

    /// How a download reads the answer's status: an unsuccessful one means that
    /// the asset was not found.
    pub fn download_asset_status(&self, asset_id: &str, status: u16) -> (res: Result<(), ImmichError>)
        requires
            valid_status(status),
        ensures
            200 <= status <= 299 ==> res is Ok,
            !(200 <= status <= 299) ==> (res matches Err(ImmichError::AssetNotFound(id)) && id@ == asset_id@),
    {
        if is_success(status) {
            Ok(())
        } else {
            Err(ImmichError::AssetNotFound(asset_id.to_string()))
        }
    }

    /// The assets of an album.
    pub fn get_album_assets(&self, album: ImmichAlbum) -> (res: Vec<ImmichAsset>)
        ensures
            res == album.assets,
    {
        album.assets
    }

    /// The request that deletes an asset: `DELETE /assets/{asset_id}`.
    pub fn delete_asset_request(&self, asset_id: &str) -> (res: ApiRequest)
        ensures
            self.is_request(res, HttpMethod::Delete, "/assets/"@ + asset_id@, true, false),
    {
        let path = join2("/assets/", asset_id);
        self.request(HttpMethod::Delete, path.as_str(), true, false)
    }

    /// How deleting an asset reads the answer's status.
    pub fn delete_asset_status(&self, status: u16) -> (res: Result<(), ImmichError>)
        requires
            valid_status(status),
        ensures
            checked_with_prefix(res, "Failed to delete asset: "@, status),
    {
        if is_success(status) {
            Ok(())
        } else {
            Err(api_failure("Failed to delete asset: ", status))
        }
    }
}


/// A trailing `/` on the server URL changes no API URL.
pub proof fn lemma_trailing_slash_ignored(server_url: Seq<char>, path: Seq<char>)
    ensures
        api_url_text(server_url.push('/'), path) == api_url_text(server_url, path),
{
    assert(server_url.push('/').drop_last() =~= server_url);
}

/// Reading an answer's status succeeds exactly on the success range 200 to
/// 299 (any 2xx, such as `201 Created` or `204 No Content`); any other status
/// is an `ApiError` that quotes the operation and the status line.
pub proof fn lemma_status_check_succeeds_on_2xx(res: Result<(), ImmichError>, prefix: Seq<char>, status: u16)
    requires
        checked_with_prefix(res, prefix, status),
    ensures
        (res is Ok) <==> (200 <= status && status <= 299),
        res matches Err(e) ==> (e matches ImmichError::ApiError(m) && m@ == prefix + status_line_text(status)),
{
}

/// Looking an album up by name gives an album whose name is exactly that
/// name, and no album before it has that name; it gives none exactly when no
/// album has that name.
pub proof fn lemma_album_lookup_matches_name_exactly(albums: Seq<ImmichAlbum>, name: Seq<char>)
    ensures
        match first_album_named(albums, name) {
            Some(k) => {
                &&& 0 <= k < albums.len()
                &&& albums[k].album_name@ == name
                &&& forall|j: int| 0 <= j < k ==> albums[j].album_name@ != name
            },
            None => forall|i: int| 0 <= i < albums.len() ==> albums[i].album_name@ != name,
        },
{
    if exists|i: int| 0 <= i < albums.len() && albums[i].album_name@ == name {
        let i = choose|i: int| 0 <= i < albums.len() && albums[i].album_name@ == name;
        lemma_first_of_name_exists(albums, name, i);
    }
}

/// Where some album has the name, a first one has it.
proof fn lemma_first_of_name_exists(albums: Seq<ImmichAlbum>, name: Seq<char>, i: int)
    requires
        0 <= i < albums.len(),
        albums[i].album_name@ == name,
    ensures
        exists|k: int|
            0 <= k < albums.len() && albums[k].album_name@ == name && forall|j: int|
                0 <= j < k ==> albums[j].album_name@ != name,
    decreases i,
{
    if exists|j: int| 0 <= j < i && albums[j].album_name@ == name {
        let j = choose|j: int| 0 <= j < i && albums[j].album_name@ == name;
        lemma_first_of_name_exists(albums, name, j);
    } else {
        assert(forall|j: int| 0 <= j < i ==> albums[j].album_name@ != name);
    }
}

/// The character at position `i` of a suffix that `s` ends with.
proof fn lemma_suffix_char(s: Seq<char>, suffix: Seq<char>, i: int)
    requires
        has_suffix(s, suffix),
        0 <= i < suffix.len(),
    ensures
        s[s.len() - suffix.len() + i] == suffix[i],
{
    assert(s.subrange(s.len() - suffix.len(), s.len() as int)[i] == suffix[i]);
}

/// A name ends with the extension it was given.
proof fn lemma_ends_with_extension(stem: Seq<char>, ext: Seq<char>)
    ensures
        has_suffix(stem + ext, ext),
{
    let s = stem + ext;
    assert(s.subrange(s.len() - ext.len(), s.len() as int) =~= ext);
}

/// The MIME type of a lowercase name is chosen by its extension alone,
/// whatever comes before it (other dots, spaces, digits): `.jpg` and `.jpeg`
/// give `image/jpeg`, `.png` `image/png`, `.heic` `image/heic`, `.mp4`
/// `video/mp4` and `.mov` `video/quicktime`.
pub proof fn lemma_mime_type_by_extension(stem: Seq<char>)
    ensures
        mime_type_of_lowercase(stem + ".jpg"@) == "image/jpeg"@,
        mime_type_of_lowercase(stem + ".jpeg"@) == "image/jpeg"@,
        mime_type_of_lowercase(stem + ".png"@) == "image/png"@,
        mime_type_of_lowercase(stem + ".heic"@) == "image/heic"@,
        mime_type_of_lowercase(stem + ".mp4"@) == "video/mp4"@,
        mime_type_of_lowercase(stem + ".mov"@) == "video/quicktime"@,
{
    reveal_strlit(".jpg");
    reveal_strlit(".jpeg");
    reveal_strlit(".png");
    reveal_strlit(".heic");
    reveal_strlit(".mp4");
    reveal_strlit(".mov");
    lemma_ends_with_extension(stem, ".jpg"@);
    lemma_ends_with_extension(stem, ".jpeg"@);
    lemma_ends_with_extension(stem, ".png"@);
    lemma_ends_with_extension(stem, ".heic"@);
    lemma_ends_with_extension(stem, ".mp4"@);
    lemma_ends_with_extension(stem, ".mov"@);
    // `.png`: its last letters are not those of `.jpg` or `.jpeg`.
    let s = stem + ".png"@;
    lemma_suffix_char(s, ".png"@, 3);
    lemma_suffix_char(s, ".png"@, 2);
    if has_suffix(s, ".jpg"@) {
        lemma_suffix_char(s, ".jpg"@, 2);
    }
    if has_suffix(s, ".jpeg"@) {
        lemma_suffix_char(s, ".jpeg"@, 3);
    }
    // `.heic`, `.mp4` and `.mov` end in a letter that no earlier extension ends in.
    let s = stem + ".heic"@;
    lemma_suffix_char(s, ".heic"@, 4);
    if has_suffix(s, ".jpg"@) {
        lemma_suffix_char(s, ".jpg"@, 3);
    }
    if has_suffix(s, ".jpeg"@) {
        lemma_suffix_char(s, ".jpeg"@, 4);
    }
    if has_suffix(s, ".png"@) {
        lemma_suffix_char(s, ".png"@, 3);
    }
    let s = stem + ".mp4"@;
    lemma_suffix_char(s, ".mp4"@, 3);
    if has_suffix(s, ".jpg"@) {
        lemma_suffix_char(s, ".jpg"@, 3);
    }
    if has_suffix(s, ".jpeg"@) {
        lemma_suffix_char(s, ".jpeg"@, 4);
    }
    if has_suffix(s, ".png"@) {
        lemma_suffix_char(s, ".png"@, 3);
    }
    if has_suffix(s, ".heic"@) {
        lemma_suffix_char(s, ".heic"@, 4);
    }
    let s = stem + ".mov"@;
    lemma_suffix_char(s, ".mov"@, 3);
    if has_suffix(s, ".jpg"@) {
        lemma_suffix_char(s, ".jpg"@, 3);
    }
    if has_suffix(s, ".jpeg"@) {
        lemma_suffix_char(s, ".jpeg"@, 4);
    }
    if has_suffix(s, ".png"@) {
        lemma_suffix_char(s, ".png"@, 3);
    }
    if has_suffix(s, ".heic"@) {
        lemma_suffix_char(s, ".heic"@, 4);
    }
    if has_suffix(s, ".mp4"@) {
        lemma_suffix_char(s, ".mp4"@, 3);
    }
}

} // verus!
