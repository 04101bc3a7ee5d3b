use handler::rpc::{
    cover_source, imgur_upload_result, litterbox_upload_result, CoverSource, UploadError,
};

#[test]
fn imgur_success() {
    let image = imgur_upload_result(
        r#"{"success":true,"data":{"link":"https://i.imgur.com/abc.png","deletehash":"XYZ"}}"#,
    )
    .unwrap();
    assert_eq!(image.link, "https://i.imgur.com/abc.png");
    assert_eq!(image.delete_hash.as_deref(), Some("XYZ"));
}

#[test]
fn imgur_refusals() {
    assert!(matches!(
        imgur_upload_result(r#"{"success":false,"data":{"error":"Too large"}}"#),
        Err(UploadError::Refused(s)) if s == "\"Too large\""
    ));
    assert!(matches!(
        imgur_upload_result(r#"{"success":false}"#),
        Err(UploadError::Refused(s)) if s == "null"
    ));
    assert!(matches!(
        imgur_upload_result(r#"{"data":{"link":"https://i.imgur.com/a.png","deletehash":"h"}}"#),
        Err(UploadError::Refused(_))
    ));
    assert!(matches!(imgur_upload_result("not json"), Err(UploadError::Unreadable(s)) if s == "not json"));
}

#[test]
fn imgur_incomplete_answers() {
    assert!(matches!(
        imgur_upload_result(r#"{"success":true,"data":{}}"#),
        Err(UploadError::MissingLink)
    ));
    assert!(matches!(
        imgur_upload_result(r#"{"success":true,"data":{"link":"nope","deletehash":"h"}}"#),
        Err(UploadError::BadLink(s)) if s == "nope"
    ));
    assert!(matches!(
        imgur_upload_result(r#"{"success":true,"data":{"link":"https://i.imgur.com/a.png"}}"#),
        Err(UploadError::MissingDeleteHash)
    ));
}

#[test]
fn litterbox_answers() {
    let image = litterbox_upload_result("https://litter.catbox.moe/x.png").unwrap();
    assert_eq!(image.link, "https://litter.catbox.moe/x.png");
    assert!(image.delete_hash.is_none());
    assert!(matches!(litterbox_upload_result("error"), Err(UploadError::BadLink(s)) if s == "error"));
}

#[test]
fn cover_sources() {
    assert!(matches!(cover_source("file:///a/b%20c.jpg"), CoverSource::Upload(p) if p == "/a/b c.jpg"));
    assert!(matches!(cover_source("https://x.org/c.jpg"), CoverSource::Link(u) if u == "https://x.org/c.jpg"));
    assert!(matches!(cover_source("junk"), CoverSource::Invalid(u) if u == "junk"));
}
