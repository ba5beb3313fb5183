use apple_music::{access_token, catalog_url, index_script_name, index_script_url, lyrics_path};

#[test]
fn index_script_is_found() {
    let page = "<script type=\"module\" src=\"/assets/index.3d5f9a.js\"></script>";
    assert_eq!(index_script_name(page), Some("3d5f9a".to_string()));
    assert_eq!(index_script_name("<html></html>"), None);
}

#[test]
fn index_script_address() {
    assert_eq!(index_script_url("3d5f9a"), "https://music.apple.com/assets/index.3d5f9a.js");
}

#[test]
fn token_is_found() {
    let script = "const a=1;const t=\"eyJhbGciOiJFUzI1NiJ9.body.sig\",b=2;";
    assert_eq!(access_token(script), Some("eyJhbGciOiJFUzI1NiJ9.body.sig".to_string()));
    assert_eq!(access_token("no token here"), None);
}

#[test]
fn catalog_addresses() {
    assert_eq!(catalog_url("us", "search"), "https://amp-api.music.apple.com/v1/catalog/us/search");
    assert_eq!(lyrics_path("1440857781"), "songs/1440857781/lyrics");
}
