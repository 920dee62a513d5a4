use airdrop::discovery::Addr;
use airdrop::protocol::{encode_framed_header, FileHeader};
use airdrop::receive::{receive_file, resolve_collision, sanitize_filename};

fn sender() -> Addr {
    Addr { ip: String::from("192.168.1.9"), port: 60000 }
}

fn taken(names: &[&str]) -> Vec<String> {
    names.iter().map(|n| String::from(*n)).collect()
}

#[test]
fn sanitize_replaces_path_separators() {
    // A traversal attempt keeps no separator and no leading dot.
    let s = sanitize_filename("../../evil.txt");
    assert_eq!(s, "_.._evil.txt");
    assert!(!s.contains('/'));
    assert!(!s.contains('\\'));
    assert!(!s.starts_with('.'));
}

#[test]
fn sanitize_replaces_reserved_characters() {
    assert_eq!(sanitize_filename("a:b*c?d\"e<f>g|h\\i"), "a_b_c_d_e_f_g_h_i");
}

#[test]
fn sanitize_drops_control_characters() {
    assert_eq!(sanitize_filename("a\u{1}b\u{7f}c\nd"), "abcd");
    assert_eq!(sanitize_filename("tab\tname"), "tabname");
}

#[test]
fn sanitize_strips_leading_dots_only() {
    assert_eq!(sanitize_filename(".hidden"), "hidden");
    assert_eq!(sanitize_filename("..."), "");
    assert_eq!(sanitize_filename("file.tar.gz"), "file.tar.gz");
}

#[test]
fn sanitize_keeps_ordinary_names() {
    assert_eq!(sanitize_filename("photo (1).jpg"), "photo (1).jpg");
    assert_eq!(sanitize_filename("résumé.pdf"), "résumé.pdf");
}

#[test]
fn resolve_keeps_free_names() {
    let r = resolve_collision(&String::from("file.txt"), &taken(&["other.txt"]));
    assert_eq!(r, "file.txt");
}

#[test]
fn resolve_counts_up_suffixes() {
    let r1 = resolve_collision(&String::from("file.txt"), &taken(&["file.txt"]));
    assert_eq!(r1, "file_1.txt");
    let r2 = resolve_collision(&String::from("file.txt"), &taken(&["file.txt", "file_1.txt"]));
    assert_eq!(r2, "file_2.txt");
}

#[test]
fn resolve_without_extension() {
    let r = resolve_collision(&String::from("notes"), &taken(&["notes"]));
    assert_eq!(r, "notes_1");
}

#[test]
fn resolve_with_empty_name() {
    let r = resolve_collision(&String::from(""), &taken(&[""]));
    assert_eq!(r, "_1");
}

#[test]
fn resolve_splits_at_last_dot() {
    let r = resolve_collision(&String::from("a.tar.gz"), &taken(&["a.tar.gz"]));
    assert_eq!(r, "a.tar_1.gz");
}

#[test]
fn sequential_identical_names_get_distinct_files() {
    // Two files of the same declared name, received one after the other,
    // are retained under two distinct names; neither overwrites the other.
    let mut dir = taken(&["data.txt"]);
    let first = resolve_collision(&String::from("data.txt"), &dir);
    dir.push(first.clone());
    let second = resolve_collision(&String::from("data.txt"), &dir);
    assert_ne!(first, second);
    assert!(!dir.contains(&second));
}

fn stream(name: &str, declared: u64, content: &[u8]) -> Vec<u8> {
    let h = FileHeader { file_name: String::from(name), file_size: declared };
    let mut s = encode_framed_header(&h).unwrap();
    s.extend_from_slice(content);
    s
}

#[test]
fn receive_reports_written_bytes_and_content() {
    // A transfer of N content bytes yields file_size == N — the bytes on the
    // stream, not the declared size — and byte-identical content.
    let content: Vec<u8> = (0..200u8).collect();
    let data = stream("hello.txt", 12345, &content);
    let (res, got) = receive_file(&data, &taken(&[]), "downloads", &sender())
        .expect("a well-formed stream is received");
    assert_eq!(res.file_name, "hello.txt");
    assert_eq!(res.file_size, 200);
    assert_eq!(got, content);
    assert_eq!(res.file_path, "downloads/hello.txt");
    assert_eq!(res.sender_addr.ip, "192.168.1.9");
    assert_eq!(res.sender_addr.port, 60000);
}

#[test]
fn receive_renames_on_collision() {
    let data = stream("hello.txt", 0, b"xyz");
    let (res, _) = receive_file(&data, &taken(&["hello.txt"]), "downloads", &sender())
        .expect("a well-formed stream is received");
    assert_eq!(res.file_path, "downloads/hello_1.txt");
    // The declared name is reported unchanged.
    assert_eq!(res.file_name, "hello.txt");
}

#[test]
fn receive_never_escapes_download_dir() {
    let data = stream("../../evil.txt", 0, b"payload");
    let (res, _) = receive_file(&data, &taken(&[]), "downloads", &sender())
        .expect("a well-formed stream is received");
    assert_eq!(res.file_path, "downloads/_.._evil.txt");
    assert!(res.file_path.starts_with("downloads/"));
    assert!(!res.file_path["downloads/".len()..].contains('/'));
}

#[test]
fn receive_rejects_malformed_streams() {
    let err = receive_file(&vec![1u8, 2, 3], &taken(&[]), "downloads", &sender())
        .expect_err("a malformed stream fails the transfer");
    assert_eq!(err, "malformed transfer header");
}
