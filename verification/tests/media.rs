use wcgate::media::{
    classify_image_input, decode_attachment_data, decode_image_payload, ends_with_chars,
    extension_for_content_type, file_content_type, image_content_type, image_extension_for_path,
    path_extension, str_eq_chars, ImageSource,
};

#[test]
fn image_content_types_by_ending() {
    assert_eq!(image_content_type("C:/tmp/a.jpg"), "image/jpeg");
    assert_eq!(image_content_type("C:/tmp/a.jpeg"), "image/jpeg");
    assert_eq!(image_content_type("C:/tmp/a.png"), "image/png");
    assert_eq!(image_content_type("C:/tmp/a.gif"), "application/octet-stream");
    assert_eq!(image_content_type("noext"), "application/octet-stream");
}

#[test]
fn file_content_types_from_the_table() {
    assert_eq!(file_content_type("C:/docs/report.pdf"), "application/pdf");
    assert_eq!(file_content_type("C:\\docs\\REPORT.PDF"), "application/pdf");
    assert_eq!(file_content_type("a/b/notes.DOCX"), "application/msword");
    assert_eq!(file_content_type("sheet.xlsx"), "application/vnd.ms-excel");
    assert_eq!(file_content_type("deck.ppt"), "application/vnd.ms-powerpoint");
    assert_eq!(file_content_type("bundle.zip"), "application/zip");
    assert_eq!(file_content_type("old.rar"), "application/x-rar-compressed");
    assert_eq!(file_content_type("readme.txt"), "text/plain");
    assert_eq!(file_content_type("data.json"), "application/json");
    assert_eq!(file_content_type("feed.xml"), "application/xml");
    assert_eq!(file_content_type("page.html"), "text/html");
    assert_eq!(file_content_type("page.htm"), "text/html");
    assert_eq!(file_content_type("style.css"), "text/css");
    assert_eq!(file_content_type("app.js"), "application/javascript");
    assert_eq!(file_content_type("song.mp3"), "audio/mpeg");
    assert_eq!(file_content_type("clip.mp4"), "video/mp4");
    assert_eq!(file_content_type("pic.jpg"), "image/jpeg");
    assert_eq!(file_content_type("pic.jpeg"), "image/jpeg");
    assert_eq!(file_content_type("pic.png"), "image/png");
    assert_eq!(file_content_type("anim.gif"), "image/gif");
}

#[test]
fn unknown_or_missing_extensions_stream_as_octets() {
    assert_eq!(file_content_type("archive.tar.gz"), "application/octet-stream");
    assert_eq!(file_content_type("noext"), "application/octet-stream");
    assert_eq!(file_content_type(".bashrc"), "application/octet-stream");
    assert_eq!(file_content_type("dir.v2/file"), "application/octet-stream");
    assert_eq!(file_content_type("trailing."), "application/octet-stream");
}

#[test]
fn extension_extraction_matches_the_final_component() {
    assert_eq!(path_extension("a/b.c/d.txt"), Some(String::from("txt")));
    assert_eq!(path_extension("a/b.c/d"), None);
    assert_eq!(path_extension("C:\\x\\.hidden"), None);
    assert_eq!(path_extension("plain"), None);
    assert_eq!(path_extension("double..dot"), Some(String::from("dot")));
}

#[test]
fn image_extension_choice_follows_the_name() {
    assert_eq!(image_extension_for_path("photo.jpg"), "jpg");
    assert_eq!(image_extension_for_path("photo.jpeg"), "jpg");
    assert_eq!(image_extension_for_path("photo.png"), "png");
    assert_eq!(image_extension_for_path("whatever.bmp"), "png");
}

#[test]
fn image_extension_choice_follows_the_content_type() {
    assert_eq!(extension_for_content_type("image/jpeg"), "jpg");
    assert_eq!(extension_for_content_type("image/png"), "png");
    assert_eq!(extension_for_content_type("text/html"), "png");
}

#[test]
fn image_input_classification() {
    assert_eq!(classify_image_input("ignored.png", "AAEC"), ImageSource::EmbeddedBase64);
    assert_eq!(classify_image_input("http://host/pic.png", ""), ImageSource::RemoteUrl);
    assert_eq!(classify_image_input("https://host/pic.png", ""), ImageSource::RemoteUrl);
    assert_eq!(classify_image_input("C:/pics/pic.png", ""), ImageSource::LocalPath);
}

#[test]
fn base64_payloads_decode_or_fail_with_the_gateway_message() {
    assert_eq!(decode_attachment_data("AAEC"), Ok(vec![0u8, 1, 2]));
    assert_eq!(decode_attachment_data("aGVsbG8gd29ybGQ="), Ok(b"hello world".to_vec()));
    assert_eq!(decode_attachment_data("!!!"), Err(String::from("base64 decode failed")));
}

#[test]
fn embedded_image_payloads_decode_with_an_extension() {
    let (bytes, ext) = decode_image_payload("AAEC", "pic.jpeg").unwrap();
    assert_eq!(bytes, vec![0u8, 1, 2]);
    assert_eq!(ext, "jpg");
    assert_eq!(
        decode_image_payload("%%%", "pic.jpeg"),
        Err(String::from("base64 decode failed"))
    );
}

#[test]
fn char_level_helpers() {
    assert!(ends_with_chars("path/to/a.jpg", ".jpg"));
    assert!(!ends_with_chars("a.jpgx", ".jpg"));
    assert!(!ends_with_chars("jpg", ".jpg"));
    assert!(str_eq_chars("image/png", "image/png"));
    assert!(!str_eq_chars("image/png", "image/jpeg"));
}
