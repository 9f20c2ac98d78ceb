use colek::classify::{classify, sniff, verdict, verdict_lowered, visit, ScanEntry, Verdict};
use colek::filters::{Filter, Filters, IMAGES_EXT, MUSIC_EXT, VIDEOS_EXT};

#[test]
fn listed_extensions_are_accepted_under_their_own_filter() {
    for ext in IMAGES_EXT {
        assert!(classify(Filters::from(vec![Filter::Image]), Some(ext), None));
    }
    for ext in VIDEOS_EXT {
        assert!(classify(Filters::from(vec![Filter::Video]), Some(ext), None));
    }
    for ext in MUSIC_EXT {
        assert!(classify(Filters::from(vec![Filter::Music]), Some(ext), None));
    }
}

#[test]
fn unknown_extension_and_content_is_rejected() {
    for filters in [
        Filters::from(vec![Filter::Image]),
        Filters::from(vec![Filter::Video]),
        Filters::from(vec![Filter::Music]),
        Filters::from(vec![Filter::All]),
    ] {
        assert!(!classify(filters, Some("txt"), Some(b"plain text")));
        assert!(!classify(filters, None, Some(b"plain text")));
        assert!(!classify(filters, Some("txt"), None));
        assert!(!classify(filters, None, Some(b"")));
    }
}

#[test]
fn a_signature_decides_where_the_extension_does_not() {
    let images = Filters::default();
    let png = b"\x89PNG\r\n\x1a\n\0\0\0\rIHDR";
    assert!(classify(images, None, Some(png)));
    assert!(classify(images, Some("bin"), Some(png)));
    assert!(classify(images, Some("mp4"), Some(png)));
    assert!(classify(Filters::from(vec![Filter::All]), Some("dat"), Some(png)));
}

#[test]
fn content_is_not_looked_at_without_the_image_filter() {
    let png = b"\x89PNG\r\n\x1a\n";
    assert!(!classify(Filters::from(vec![Filter::Video]), None, Some(png)));
    assert!(!classify(Filters::from(vec![Filter::Music]), Some("bin"), Some(png)));
    assert!(!classify(Filters::from(vec![Filter::Video, Filter::Music]), Some("png"), Some(png)));
    assert_eq!(verdict(Filters::from(vec![Filter::Video]), None), Verdict::Reject);
}

#[test]
fn extensions_are_compared_in_lower_case() {
    let images = Filters::default();
    assert_eq!(verdict(images, Some("JPG")), Verdict::Accept);
    assert_eq!(verdict(images, Some("Png")), Verdict::Accept);
    assert_eq!(verdict(Filters::from(vec![Filter::Music]), Some("FLAC")), Verdict::Accept);
    assert_eq!(verdict_lowered(images, Some("JPG")), Verdict::Sniff);
    assert!(classify(images, Some("JPEG"), None));
}

#[test]
fn verdicts_by_extension() {
    let images = Filters::default();
    assert_eq!(verdict(images, Some("jpg")), Verdict::Accept);
    assert_eq!(verdict(images, Some("mp4")), Verdict::Sniff);
    assert_eq!(verdict(images, Some("txt")), Verdict::Sniff);
    assert_eq!(verdict(images, None), Verdict::Sniff);
    let videos = Filters::from(vec![Filter::Video]);
    assert_eq!(verdict(videos, Some("mp4")), Verdict::Accept);
    assert_eq!(verdict(videos, Some("jpg")), Verdict::Reject);
    assert_eq!(verdict(videos, None), Verdict::Reject);
    let none = Filters::from(Vec::new());
    assert_eq!(verdict(none, Some("jpg")), Verdict::Reject);
}

#[test]
fn an_unreadable_file_is_not_media() {
    assert!(!sniff(None));
    assert!(sniff(Some(b"GIF89a")));
    assert!(!sniff(Some(b"GIF")));
    assert!(!classify(Filters::default(), None, None));
}

fn entry(extension: Option<&str>, is_file: bool) -> Result<ScanEntry, String> {
    Ok(ScanEntry {
        path: "/data/x".to_string(),
        file_name: Some("x".to_string()),
        extension: extension.map(|e| e.to_string()),
        is_file,
    })
}

#[test]
fn only_regular_files_are_looked_at() {
    let images = Filters::default();
    assert_eq!(visit(images, &entry(Some("jpg"), true)), Verdict::Accept);
    assert_eq!(visit(images, &entry(Some("JPG"), true)), Verdict::Accept);
    assert_eq!(visit(images, &entry(Some("jpg"), false)), Verdict::Reject);
    assert_eq!(visit(images, &entry(None, true)), Verdict::Sniff);
    assert_eq!(visit(images, &entry(None, false)), Verdict::Reject);
    assert_eq!(visit(images, &Err("permission denied".to_string())), Verdict::Reject);
    assert_eq!(visit(Filters::from(vec![Filter::Music]), &entry(Some("txt"), true)), Verdict::Reject);
}
