use immich_sync::clock::Timestamp;
use immich_sync::http_status::{format_status_line, is_success, status_line};
use immich_sync::immich::{
    mime_type_for, mime_type_for_lowercase, upload_file_name, upload_form, HttpMethod, ImmichAlbum, ImmichAsset,
    ImmichClient, ImmichConfig, ImmichError,
};
use immich_sync::text::{decimal_string, ends_with, same_text, trim_end_slashes};

fn client(url: &str) -> ImmichClient {
    ImmichClient::new(ImmichConfig { server_url: url.to_string(), api_key: "SECRET-REDACTED".to_string() })
}

fn album(id: &str, name: &str) -> ImmichAlbum {
    ImmichAlbum {
        id: id.to_string(),
        album_name: name.to_string(),
        description: None,
        owner_id: "owner".to_string(),
        album_thumbnail_asset_id: None,
        created_at: "2024-01-01T00:00:00Z".to_string(),
        updated_at: "2024-01-01T00:00:00Z".to_string(),
        asset_count: 0,
        assets: Vec::new(),
    }
}

fn asset(id: &str, name: &str) -> ImmichAsset {
    ImmichAsset {
        id: id.to_string(),
        device_asset_id: "dev-asset".to_string(),
        owner_id: "owner".to_string(),
        device_id: "device".to_string(),
        asset_type: "IMAGE".to_string(),
        original_path: format!("/upload/{}", name),
        original_file_name: name.to_string(),
        file_created_at: "2024-01-01T00:00:00Z".to_string(),
        file_modified_at: "2024-01-01T00:00:00Z".to_string(),
        is_favorite: false,
        is_archived: false,
        duration: None,
    }
}

#[test]
fn api_url_joins_server_and_path() {
    let c = client("http://localhost:2283");
    assert_eq!(c.api_url("/albums"), "http://localhost:2283/api/albums");
}

#[test]
fn api_url_ignores_trailing_slashes() {
    assert_eq!(client("http://immich:2283/").api_url("/albums"), "http://immich:2283/api/albums");
    assert_eq!(client("http://immich:2283///").api_url("/assets"), "http://immich:2283/api/assets");
    assert_eq!(
        client("http://immich:2283/").api_url("/albums"),
        client("http://immich:2283").api_url("/albums")
    );
}

#[test]
fn trim_end_slashes_edge_cases() {
    assert_eq!(trim_end_slashes(""), "");
    assert_eq!(trim_end_slashes("///"), "");
    assert_eq!(trim_end_slashes("a/b/"), "a/b");
    assert_eq!(trim_end_slashes("a/b"), "a/b");
}

#[test]
fn text_helpers() {
    assert!(ends_with("photo.jpg", ".jpg"));
    assert!(!ends_with("jpg", ".jpg"));
    assert!(ends_with("x", ""));
    assert!(same_text("abc", "abc"));
    assert!(!same_text("abc", "abd"));
    assert_eq!(decimal_string(0), "0");
    assert_eq!(decimal_string(404), "404");
    assert_eq!(decimal_string(65535), "65535");
}

#[test]
fn requests_have_method_url_and_headers() {
    let c = client("http://h");
    let r = c.list_albums_request();
    assert_eq!(r.method, HttpMethod::Get);
    assert_eq!(r.url, "http://h/api/albums");
    assert_eq!(r.api_key, "SECRET-REDACTED");
    assert!(r.accept_json && !r.json_body);

    let r = c.get_album_request("a1");
    assert_eq!((r.method, r.url.as_str()), (HttpMethod::Get, "http://h/api/albums/a1"));

    let (r, body) = c.create_album_request("Trip", Some("Synced from Apple Shared Album"));
    assert_eq!((r.method, r.url.as_str()), (HttpMethod::Post, "http://h/api/albums"));
    assert!(r.accept_json && r.json_body);
    assert_eq!(body.album_name, "Trip");
    assert_eq!(body.description.as_deref(), Some("Synced from Apple Shared Album"));
    let (_, body) = c.create_album_request("Trip", None);
    assert!(body.description.is_none());

    let r = c.add_assets_to_album_request("a1");
    assert_eq!((r.method, r.url.as_str()), (HttpMethod::Put, "http://h/api/albums/a1/assets"));
    assert!(r.accept_json && r.json_body);

    let r = c.download_asset_request("x9");
    assert_eq!((r.method, r.url.as_str()), (HttpMethod::Get, "http://h/api/assets/x9/original"));
    assert!(!r.accept_json && !r.json_body);

    let r = c.delete_asset_request("x9");
    assert_eq!((r.method, r.url.as_str()), (HttpMethod::Delete, "http://h/api/assets/x9"));
    assert!(r.accept_json);
}

#[test]
fn status_lines_quote_code_and_reason() {
    assert!(is_success(200) && is_success(204) && is_success(299));
    assert!(!is_success(199) && !is_success(300) && !is_success(404));
    assert_eq!(status_line(404), "404 Not Found");
    assert_eq!(status_line(500), "500 Internal Server Error");
    assert_eq!(status_line(599), "599 <unknown status code>");
}

#[test]
fn failed_answers_give_api_errors() {
    let c = client("http://h");
    assert!(c.list_albums_status(200).is_ok());
    match c.list_albums_status(500) {
        Err(ImmichError::ApiError(m)) => assert_eq!(m, "Failed to list albums: 500 Internal Server Error"),
        _ => panic!("expected an API error"),
    }
    match c.create_album_status(400) {
        Err(ImmichError::ApiError(m)) => assert_eq!(m, "Failed to create album: 400 Bad Request"),
        _ => panic!("expected an API error"),
    }
    match c.add_assets_to_album_status(403) {
        Err(ImmichError::ApiError(m)) => assert_eq!(m, "Failed to add assets to album: 403 Forbidden"),
        _ => panic!("expected an API error"),
    }
    match c.delete_asset_status(404) {
        Err(ImmichError::ApiError(m)) => assert_eq!(m, "Failed to delete asset: 404 Not Found"),
        _ => panic!("expected an API error"),
    }
    match c.upload_asset_status(413, "too big") {
        Err(ImmichError::ApiError(m)) => {
            assert_eq!(m, "Failed to upload asset: 413 Payload Too Large - too big")
        },
        _ => panic!("expected an API error"),
    }
    assert!(c.upload_asset_status(201, "").is_ok());
}

#[test]
fn missing_album_and_asset_errors() {
    let c = client("http://h");
    assert!(c.get_album_status("a1", 200).is_ok());
    match c.get_album_status("a1", 404) {
        Err(ImmichError::AlbumNotFound(id)) => assert_eq!(id, "a1"),
        _ => panic!("expected AlbumNotFound"),
    }
    assert!(c.download_asset_status("x", 200).is_ok());
    match c.download_asset_status("x", 410) {
        Err(ImmichError::AssetNotFound(id)) => assert_eq!(id, "x"),
        _ => panic!("expected AssetNotFound"),
    }
}

#[test]
fn error_messages() {
    assert_eq!(ImmichError::RequestFailed("timeout".to_string()).message(), "HTTP request failed: timeout");
    assert_eq!(ImmichError::FileReadError("denied".to_string()).message(), "Failed to read file: denied");
    assert_eq!(ImmichError::ApiError("x".to_string()).message(), "API error: x");
    assert_eq!(ImmichError::AuthenticationFailed.message(), "Authentication failed");
    assert_eq!(ImmichError::AlbumNotFound("a".to_string()).message(), "Album not found: a");
    assert_eq!(ImmichError::AssetNotFound("b".to_string()).message(), "Asset not found: b");
}

#[test]
fn mime_types_by_extension_in_any_case() {
    assert_eq!(mime_type_for("a.jpg"), "image/jpeg");
    assert_eq!(mime_type_for("IMG_0001.JPEG"), "image/jpeg");
    assert_eq!(mime_type_for("Photo.PnG"), "image/png");
    assert_eq!(mime_type_for("x.HEIC"), "image/heic");
    assert_eq!(mime_type_for("clip.mp4"), "video/mp4");
    assert_eq!(mime_type_for("clip.MOV"), "video/quicktime");
    assert_eq!(mime_type_for("notes.txt"), "application/octet-stream");
    assert_eq!(mime_type_for("jpg"), "application/octet-stream");
    assert_eq!(mime_type_for(""), "application/octet-stream");
}

#[test]
fn upload_request_builds_the_multipart_form() {
    let c = client("http://h/");
    let t = Timestamp { secs: 1704164645, nanos: 0 };
    let (r, form) = c.upload_asset_request("/tmp/sync/IMG_1.HEIC", "apple-guid", "dev-1", t, t).unwrap();
    assert_eq!((r.method, r.url.as_str()), (HttpMethod::Post, "http://h/api/assets"));
    assert!(r.accept_json && !r.json_body);
    assert_eq!(form.file_part_name, "assetData");
    assert_eq!(form.file_name, "IMG_1.HEIC");
    assert_eq!(form.mime_type, "image/heic");
    let fields: Vec<(&str, &str)> = form.fields.iter().map(|f| (f.name.as_str(), f.value.as_str())).collect();
    assert_eq!(
        fields,
        vec![
            ("deviceAssetId", "apple-guid"),
            ("deviceId", "dev-1"),
            ("fileCreatedAt", "2024-01-02T03:04:05+00:00"),
            ("fileModifiedAt", "2024-01-02T03:04:05+00:00"),
        ]
    );
}

#[test]
fn upload_request_without_file_name_uses_unknown() {
    let c = client("http://h");
    let t = Timestamp { secs: 0, nanos: 0 };
    let (_, form) = c.upload_asset_request("/", "g", "d", t, t).unwrap();
    assert_eq!(form.file_name, "unknown");
    assert_eq!(form.mime_type, "application/octet-stream");
    let (_, form) = c.upload_asset_request("dir/..", "g", "d", t, t).unwrap();
    assert_eq!(form.file_name, "unknown");
}

#[test]
fn upload_request_refuses_unrepresentable_instants() {
    let c = client("http://h");
    let ok = Timestamp { secs: 0, nanos: 0 };
    let bad = Timestamp { secs: i64::MAX, nanos: 0 };
    assert!(c.upload_asset_request("a.jpg", "g", "d", bad, ok).is_none());
    assert!(c.upload_asset_request("a.jpg", "g", "d", ok, bad).is_none());
}

#[test]
fn find_album_by_name_returns_first_match() {
    let c = client("http://h");
    let albums = vec![album("1", "Trip"), album("2", "Family"), album("3", "Family")];
    let found = c.find_album_by_name(albums, "Family").unwrap();
    assert_eq!(found.id, "2");
    let albums = vec![album("1", "Trip")];
    assert!(c.find_album_by_name(albums, "trip").is_none());
    assert!(c.find_album_by_name(Vec::new(), "Trip").is_none());
}

#[test]
fn album_assets_are_the_albums_assets() {
    let c = client("http://h");
    let mut a = album("1", "Trip");
    a.assets = vec![asset("x", "a.jpg"), asset("y", "b.jpg")];
    let ids: Vec<String> = c.get_album_assets(a).into_iter().map(|x| x.id).collect();
    assert_eq!(ids, vec!["x".to_string(), "y".to_string()]);
}

#[test]
fn config_is_kept() {
    let c = client("http://h/");
    assert_eq!(c.config().server_url, "http://h/");
    assert_eq!(c.config().api_key, "SECRET-REDACTED");
}

#[test]
fn status_lines_from_given_reasons() {
    assert_eq!(format_status_line(404, Some("Not Found")), "404 Not Found");
    assert_eq!(format_status_line(777, None), "777 <unknown status code>");
    assert_eq!(format_status_line(100, Some("Continue")), "100 Continue");
}

#[test]
fn mime_types_of_lowercase_names() {
    assert_eq!(mime_type_for_lowercase("a.jpeg"), "image/jpeg");
    assert_eq!(mime_type_for_lowercase("a.mov"), "video/quicktime");
    assert_eq!(mime_type_for_lowercase("a.JPG"), "application/octet-stream");
}

#[test]
fn upload_names_and_forms() {
    assert_eq!(upload_file_name(Some("IMG.HEIC")), "IMG.HEIC");
    assert_eq!(upload_file_name(None), "unknown");
    let form = upload_form("IMG.HEIC", "img.heic", "g", "d", "c", "m");
    assert_eq!(form.file_part_name, "assetData");
    assert_eq!(form.file_name, "IMG.HEIC");
    assert_eq!(form.mime_type, "image/heic");
    let fields: Vec<(&str, &str)> = form.fields.iter().map(|f| (f.name.as_str(), f.value.as_str())).collect();
    assert_eq!(fields, vec![("deviceAssetId", "g"), ("deviceId", "d"), ("fileCreatedAt", "c"), ("fileModifiedAt", "m")]);
}
