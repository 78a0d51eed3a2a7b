use image_renamer::discover::{
    discover, is_image_file, is_image_type, Finding, Sample, HEAD_LEN,
};

const JPEG: [u8; 4] = [0xFF, 0xD8, 0xFF, 0xAA];
const PNG: [u8; 8] = [0x89, 0x50, 0x4E, 0x47, 0x0D, 0x0A, 0x1A, 0x0A];
const GIF: [u8; 6] = [0x47, 0x49, 0x46, 0x38, 0x39, 0x61];
const PDF: [u8; 8] = [0x25, 0x50, 0x44, 0x46, 0x2D, 0x31, 0x2E, 0x34];

fn padded(head: &[u8]) -> Vec<u8> {
    let mut buffer = vec![0; 4096];
    buffer[..head.len()].copy_from_slice(head);
    buffer
}

fn sample(path: &str, head: &[u8]) -> Sample {
    Sample { path: path.to_string(), head: Some(padded(head)) }
}

fn unreadable(path: &str) -> Sample {
    Sample { path: path.to_string(), head: None }
}

fn strings(list: &[&str]) -> Vec<String> {
    list.iter().map(|s| s.to_string()).collect()
}

#[test]
fn images_are_told_by_their_content() {
    assert!(is_image_file(&JPEG));
    assert!(is_image_file(&PNG));
    assert!(is_image_file(&GIF));
    assert!(is_image_file(&padded(&JPEG)));
    assert!(!is_image_file(&PDF));
    assert!(!is_image_file(b"just some notes"));
    assert!(!is_image_file(&[]));
    assert!(!is_image_file(&vec![0; 4096]));
}

#[test]
fn discovery_of_nothing_finds_nothing() {
    let found = discover(&Vec::new());
    assert!(found.candidates.is_empty());
    assert!(found.rejected.is_empty());
}

#[test]
fn a_file_is_a_candidate_only_if_it_holds_an_image() {
    let findings = vec![
        Finding::File(sample("a.jpg", &JPEG)),
        Finding::File(sample("b.jpg", b"named like an image")),
        Finding::File(sample("c.txt", &PNG)),
        Finding::File(unreadable("d.png")),
    ];
    let found = discover(&findings);
    assert_eq!(found.candidates, strings(&["a.jpg", "c.txt"]));
    assert!(found.rejected.is_empty());
}

#[test]
fn a_directory_gives_its_images_in_walk_order() {
    let findings = vec![Finding::Directory(vec![
        sample("photos/z.png", &PNG),
        sample("photos/notes.txt", b"hello"),
        sample("photos/a/deep.gif", &GIF),
        unreadable("photos/locked.jpg"),
        sample("photos/b.jpg", &JPEG),
    ])];
    let found = discover(&findings);
    assert_eq!(found.candidates, strings(&["photos/z.png", "photos/a/deep.gif", "photos/b.jpg"]));
    assert!(found.rejected.is_empty());
}

#[test]
fn paths_that_are_neither_file_nor_directory_are_rejected() {
    let findings = vec![
        Finding::Neither("missing-1".to_string()),
        Finding::File(sample("a.jpg", &JPEG)),
        Finding::Neither("missing-2".to_string()),
        Finding::Directory(Vec::new()),
    ];
    let found = discover(&findings);
    assert_eq!(found.candidates, strings(&["a.jpg"]));
    assert_eq!(found.rejected, strings(&["missing-1", "missing-2"]));
}

#[test]
fn inputs_are_taken_in_order_and_duplicates_are_kept() {
    let findings = vec![
        Finding::Directory(vec![sample("p/one.jpg", &JPEG), sample("p/two.png", &PNG)]),
        Finding::File(sample("p/one.jpg", &JPEG)),
        Finding::Directory(vec![sample("p/one.jpg", &JPEG), sample("p/two.png", &PNG)]),
    ];
    let found = discover(&findings);
    assert_eq!(
        found.candidates,
        strings(&["p/one.jpg", "p/two.png", "p/one.jpg", "p/one.jpg", "p/two.png"])
    );
}

#[test]
fn image_types_begin_with_image() {
    assert!(is_image_type("image/jpeg"));
    assert!(is_image_type("image/png"));
    assert!(is_image_type("image/"));
    assert!(!is_image_type("image"));
    assert!(!is_image_type("video/mp4"));
    assert!(!is_image_type("application/image/png"));
    assert!(!is_image_type(""));
}

#[test]
fn only_the_head_of_a_file_is_looked_at() {
    assert_eq!(HEAD_LEN, 4096);
    let mut long = padded(&JPEG);
    long.extend_from_slice(&vec![0x5A; 10_000]);
    assert!(is_image_file(&long));
    assert_eq!(is_image_file(&long), is_image_file(&long[..HEAD_LEN]));

    let mut late = vec![0; HEAD_LEN];
    late.extend_from_slice(&PNG);
    assert!(!is_image_file(&late));

    let mut other = long.clone();
    other[HEAD_LEN] = 0;
    other.truncate(HEAD_LEN + 1);
    assert_eq!(is_image_file(&other), is_image_file(&long));
}

#[test]
fn a_long_run_of_skippable_frames_is_no_image() {
    let frame = [0x50, 0x2A, 0x4D, 0x18, 0x00, 0x00, 0x00, 0x00];
    let mut bytes: Vec<u8> = Vec::new();
    for _ in 0..100_000 {
        bytes.extend_from_slice(&frame);
    }
    assert!(!is_image_file(&bytes));
    let found = discover(&vec![Finding::File(Sample {
        path: "frames.bin".to_string(),
        head: Some(bytes),
    })]);
    assert!(found.candidates.is_empty());
}
