use apple_music::{artwork_url, release_fields, AppleMusicArtwork, CalendarDate};

#[test]
fn artwork_template_is_filled() {
    let art = AppleMusicArtwork {
        url: "https://is1.example/image/{w}x{h}bb.{f}{c}".to_string(),
        width: 3000,
        height: 2000,
    };
    assert_eq!(artwork_url(&art), "https://is1.example/image/3000x2000bb.png");
}

#[test]
fn artwork_without_placeholders_is_kept() {
    let art = AppleMusicArtwork { url: "https://a/b.jpg".to_string(), width: 1, height: 0 };
    assert_eq!(artwork_url(&art), "https://a/b.jpg");
    let art = AppleMusicArtwork { url: "{w}{w}/{h}".to_string(), width: 7, height: 0 };
    assert_eq!(artwork_url(&art), "77/0");
}

#[test]
fn release_year_alone() {
    assert_eq!(release_fields(&Some("2020".to_string())), (Some(2020), None));
    assert_eq!(release_fields(&Some("20a0".to_string())), (None, None));
}

#[test]
fn release_full_date() {
    assert_eq!(
        release_fields(&Some("2020-05-17".to_string())),
        (None, Some(CalendarDate { year: 2020, month: 5, day: 17 }))
    );
    assert_eq!(release_fields(&Some("2020-13-01".to_string())), (None, None));
    assert_eq!(release_fields(&None), (None, None));
}
