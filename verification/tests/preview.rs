use urglance::meta::LocalTime;
use urglance::mime::{category_for, detect_mime, mime_for_extension, Category};
use urglance::path::{extension, join};
use urglance::preview::{
    directory_preview, finish_preview, generate_image_thumbnail, jpeg_data_url,
    missing_file_preview, needs_thumbnail, plan_preview, plan_reads_text, plan_shows_image,
    assemble_preview, FileMeta, PathFacts,
};
use urglance::base64::base64_encode;
use urglance::snippet::SnippetBuilder;

fn snippet_of(chunks: &[&[u8]]) -> String {
    let mut b = SnippetBuilder::new();
    for c in chunks {
        if let Some(done) = b.feed(c) {
            return done;
        }
    }
    b.finish()
}

fn b64_decode(s: &str) -> Vec<u8> {
    let alpha = b"ABCDEFGHIJKLMNOPQRSTUVWXYZabcdefghijklmnopqrstuvwxyz0123456789+/";
    let mut out = Vec::new();
    let mut acc: u32 = 0;
    let mut bits = 0;
    for c in s.bytes() {
        if c == b'=' {
            break;
        }
        let v = alpha.iter().position(|&a| a == c).unwrap() as u32;
        acc = (acc << 6) | v;
        bits += 6;
        if bits >= 8 {
            bits -= 8;
            out.push((acc >> bits) as u8);
        }
    }
    out
}

fn png_bytes(w: u32, h: u32) -> Vec<u8> {
    let img = image::RgbImage::from_fn(w, h, |x, y| image::Rgb([(x % 256) as u8, (y % 256) as u8, 7]));
    let mut buf = std::io::Cursor::new(Vec::new());
    img.write_to(&mut buf, image::ImageFormat::Png).unwrap();
    buf.into_inner()
}

#[test]
fn extensions_follow_path_rules() {
    assert_eq!(extension("a/b.txt").as_deref(), Some("txt"));
    assert_eq!(extension("archive.tar.gz").as_deref(), Some("gz"));
    assert_eq!(extension(".bashrc"), None);
    assert_eq!(extension("dir/.hidden"), None);
    assert_eq!(extension("foo.").as_deref(), Some(""));
    assert_eq!(extension("foo.txt/.").as_deref(), Some("txt"));
    assert_eq!(extension("foo.txt//").as_deref(), Some("txt"));
    assert_eq!(extension("foo.txt/.."), None);
    assert_eq!(extension("/"), None);
    assert_eq!(extension(""), None);
    assert_eq!(extension("."), None);
    assert_eq!(extension("dir.d/file"), None);
    assert_eq!(extension("..x").as_deref(), Some("x"));
    for p in ["a/b.txt", "archive.tar.gz", ".bashrc", "foo.", "foo.txt/.", "x/..", "/", "",
        "dir.d/file", "..x", "a.b/c.d/"] {
        let std_ext = std::path::Path::new(p).extension().map(|e| e.to_str().unwrap().to_string());
        assert_eq!(extension(p), std_ext, "path {}", p);
    }
}

#[test]
fn join_adds_one_separator() {
    assert_eq!(join("/home/u", ".config"), "/home/u/.config");
    assert_eq!(join("/home/u/", ".config"), "/home/u/.config");
    assert_eq!(join("", ".config"), ".config");
}

#[test]
fn mime_types() {
    assert_eq!(mime_for_extension("png"), "image/png");
    assert_eq!(mime_for_extension("jpeg"), "image/jpeg");
    assert_eq!(mime_for_extension("yml"), "text/x-yaml");
    assert_eq!(mime_for_extension("cxx"), "text/x-c++");
    assert_eq!(mime_for_extension("ogg"), "audio/*");
    assert_eq!(mime_for_extension("mkv"), "video/*");
    assert_eq!(mime_for_extension("xlsx"), "application/vnd.ms-excel");
    assert_eq!(mime_for_extension("PNG"), "application/octet-stream");
    assert_eq!(mime_for_extension(""), "application/octet-stream");
}

#[test]
fn detect_mime_lowercases_extension() {
    assert_eq!(detect_mime("/pics/HOLIDAY.PNG"), "image/png");
    assert_eq!(detect_mime("notes.Md"), "text/plain");
    assert_eq!(detect_mime("Makefile"), "application/octet-stream");
    assert_eq!(detect_mime("data.unknown"), "application/octet-stream");
}

#[test]
fn categories() {
    assert_eq!(category_for("image/svg+xml", "svg"), Category::Image);
    assert_eq!(category_for("text/x-toml", "toml"), Category::TextCode);
    assert_eq!(category_for("application/json", "json"), Category::TextCode);
    assert_eq!(category_for("application/xml", "xml"), Category::TextCode);
    assert_eq!(category_for("application/pdf", "pdf"), Category::Document);
    assert_eq!(category_for("application/msword", "docx"), Category::OfficeDocument);
    assert_eq!(category_for("audio/*", "mp3"), Category::Audio);
    assert_eq!(category_for("video/*", "mov"), Category::Video);
    assert_eq!(category_for("application/octet-stream", "bin"), Category::Generic);
    let p = plan_preview("src/Main.RS");
    assert_eq!(p.ext, "rs");
    assert_eq!(p.category, Category::TextCode);
    assert!(plan_reads_text(&p));
    assert!(!plan_shows_image(&p));
    let p = plan_preview("photo.JPG");
    assert_eq!(p.category, Category::Image);
    assert!(plan_shows_image(&p));
    let p = plan_preview("blob");
    assert_eq!(p.ext, "");
    assert_eq!(p.category, Category::Generic);
    assert!(plan_reads_text(&p));
}

#[test]
fn special_previews() {
    let m = missing_file_preview();
    assert_eq!(m.file_type, "Unknown / Non-existent");
    assert_eq!(m.content_snippet, "[File not found on disk]");
    assert_eq!(m.metadata_summary, "N/A");
    assert!(m.preview_image_b64.is_none());
    assert!(!m.success);
    let d = directory_preview(12);
    assert_eq!(d.file_type, "Directory");
    assert_eq!(d.content_snippet, "[Directory]");
    assert_eq!(d.metadata_summary, "Items: 12");
    assert!(d.success);
}

#[test]
fn finished_previews_by_category() {
    let meta = Some(FileMeta {
        size: 1536,
        modified: Some(LocalTime { tm_year: 120, tm_mon: 1, tm_mday: 29, tm_hour: 8, tm_min: 30, tm_sec: 0 }),
        mode: 0o644,
    });
    let p = finish_preview(plan_preview("song.mp3"), meta, None, None);
    assert_eq!(p.file_type, "Audio File (mp3)");
    assert_eq!(p.content_snippet, "[Audio file - 1.50 KB]");
    assert_eq!(
        p.metadata_summary,
        "Size: 1.50 KB | Modified: 2020-02-29 08:30:00 | Permissions: rw-r--r--"
    );
    assert!(p.success);

    let p = finish_preview(plan_preview("blob"), Some(FileMeta { size: 10, modified: None, mode: 0 }),
        Some("[Empty file]".to_string()), None);
    assert_eq!(p.file_type, "Binary / Generic File (no extension)");
    assert_eq!(p.content_snippet, "[Binary file - 10 Bytes]");

    // documents are shown by their text too, or as binary when reading gave a note
    let p = plan_preview("report.pdf");
    assert_eq!(p.category, Category::Document);
    assert!(plan_reads_text(&p));
    let p = finish_preview(p, Some(FileMeta { size: 0, modified: None, mode: 0 }),
        Some("[Empty file]".to_string()), None);
    assert_eq!(p.content_snippet, "[Binary file - 0 Bytes]");
    let p = plan_preview("notes.docx");
    assert_eq!(p.category, Category::OfficeDocument);
    assert!(plan_reads_text(&p));
    let p = finish_preview(p, None, Some("plain words".to_string()), None);
    assert_eq!(p.content_snippet, "plain words");
    assert!(!plan_reads_text(&plan_preview("song.mp3")));
    assert!(!plan_reads_text(&plan_preview("clip.mov")));
    assert!(!plan_reads_text(&plan_preview("pic.png")));

    let p = finish_preview(plan_preview("data.bin"), None, Some("hello".to_string()), None);
    assert_eq!(p.content_snippet, "hello");
    assert_eq!(p.metadata_summary, "");

    let p = finish_preview(plan_preview("clip.MOV"), None, None, None);
    assert_eq!(p.content_snippet, "[Video file - ]");
    assert_eq!(p.file_type, "Video File (mov)");

    let p = finish_preview(plan_preview("a.png"), None, None, None);
    assert_eq!(p.content_snippet, "[Could not decode image]");
    assert!(p.preview_image_b64.is_none());
    let p = finish_preview(plan_preview("a.png"), None, None, Some("data:x".to_string()));
    assert_eq!(p.content_snippet, "[Image Preview Available Below]");
    assert_eq!(p.preview_image_b64.as_deref(), Some("data:x"));

    let p = finish_preview(plan_preview("cfg.toml"), None, Some("[section]".to_string()), None);
    assert_eq!(p.content_snippet, "[section]");
    assert_eq!(p.file_type, "Text / Code File (toml)");
}

#[test]
fn snippet_limits_lines() {
    let text: String = (1..=40).map(|i| format!("line {}\n", i)).collect();
    let s = snippet_of(&[text.as_bytes()]);
    let kept: String = (1..=30).map(|i| format!("line {}\n", i)).collect();
    assert_eq!(s, format!("{}... [Lines truncated]", kept));
    assert_eq!(s.matches('\n').count(), 30);
    let body = s.strip_suffix("\n... [Lines truncated]").unwrap();
    assert_eq!(body.lines().count(), 30);
    // exactly thirty lines are shown whole
    let thirty: String = (1..=30).map(|i| format!("line {}\n", i)).collect();
    assert_eq!(snippet_of(&[thirty.as_bytes()]), thirty);
    // a thirty-first line without a line break is cut
    let more = format!("{}tail", thirty);
    assert_eq!(snippet_of(&[more.as_bytes()]), format!("{}... [Lines truncated]", thirty));
}

#[test]
fn snippet_limits_bytes() {
    let text = "a".repeat(5000);
    let s = snippet_of(&[text.as_bytes()]);
    assert_eq!(s, format!("{}...\n[Preview truncated]", "a".repeat(4096)));
    let exactly = "b".repeat(4096);
    assert_eq!(snippet_of(&[exactly.as_bytes()]), exactly);
    let mut wide = "c".repeat(4095);
    wide.push('\u{e9}');
    wide.push('d');
    let s = snippet_of(&[wide.as_bytes()]);
    assert_eq!(s, format!("{}\u{e9}...\n[Preview truncated]", "c".repeat(4095)));
}

#[test]
fn snippet_empty_and_short() {
    assert_eq!(snippet_of(&[]), "[Empty file]");
    assert_eq!(snippet_of(&[b""]), "[Empty file]");
    assert_eq!(snippet_of(&[b"hi\nthere"]), "hi\nthere");
}

#[test]
fn snippet_chunks_equal_whole_text() {
    let text: String = (0..200).map(|i| format!("row {} of the file\n", i)).collect();
    let bytes = text.as_bytes();
    let whole = snippet_of(&[bytes]);
    let pieces: Vec<&[u8]> = bytes.chunks(512).collect();
    assert_eq!(snippet_of(&pieces), whole);
    let small: Vec<&[u8]> = bytes.chunks(7).collect();
    assert_eq!(snippet_of(&small), whole);
}

#[test]
fn snippet_keeps_split_characters_whole() {
    assert_eq!(snippet_of(&[b"ok\xffok"]), "ok\u{fffd}ok");
    // a character split between two chunks is decoded whole
    let e = "\u{e9}".as_bytes();
    assert_eq!(snippet_of(&[&e[..1], &e[1..]]), "\u{e9}");
    let text = "h\u{e9}llo \u{20ac}uro \u{1f600} done";
    let bytes = text.as_bytes();
    for size in 1..6 {
        let pieces: Vec<&[u8]> = bytes.chunks(size).collect();
        assert_eq!(snippet_of(&pieces), text);
    }
    // bytes of an unfinished character at the end become a replacement character
    assert_eq!(snippet_of(&[b"ab\xe2\x82"]), "ab\u{fffd}");
    assert_eq!(snippet_of(&[b"ab", b"\xe2"]), "ab\u{fffd}");
    // a held leading byte followed by a byte that cannot continue it
    assert_eq!(snippet_of(&[b"a\xe2", b"x"]), "a\u{fffd}x");
    assert_eq!(snippet_of(&[b"\xe2"]), "\u{fffd}");
    // a character spread over more than two chunks
    let face = "\u{1f600}".as_bytes();
    assert_eq!(snippet_of(&[&face[..1], &face[1..2], &face[2..]]), "\u{1f600}");
    assert_eq!(snippet_of(&[b"x", &face[..1], &face[1..2], &face[2..3], &face[3..], b"y"]), "x\u{1f600}y");
    // invalid bytes split between chunks are each decoded with their own chunk
    assert_eq!(snippet_of(&[b"\xf0\x90", b"\x80\x41"]), "\u{fffd}\u{fffd}A");
    assert_eq!(
        snippet_of(&[b"\xf0\x90", b"\x80\x41"]),
        format!("{}{}", String::from_utf8_lossy(b"\xf0\x90"), String::from_utf8_lossy(b"\x80\x41"))
    );
    assert_eq!(snippet_of(&[b"\xf0\x90\x80\x41"]), "\u{fffd}A");
}

#[test]
fn thumbnails() {
    assert!(needs_thumbnail(801, 10));
    assert!(needs_thumbnail(10, 801));
    assert!(!needs_thumbnail(800, 800));
    assert_eq!(jpeg_data_url(b"foo"), "data:image/jpeg;base64,Zm9v");

    let small = png_bytes(20, 10);
    let url = generate_image_thumbnail("dir/pic.PNG", &small).expect("thumbnail");
    let prefix = "data:image/jpeg;base64,";
    assert!(url.starts_with(prefix));
    let jpeg = b64_decode(&url[prefix.len()..]);
    let decoded = image::load_from_memory_with_format(&jpeg, image::ImageFormat::Jpeg).unwrap();
    assert_eq!((decoded.width(), decoded.height()), (20, 10));

    let big = png_bytes(1000, 10);
    let url = generate_image_thumbnail("big.png", &big).expect("thumbnail");
    let jpeg = b64_decode(&url[prefix.len()..]);
    let decoded = image::load_from_memory_with_format(&jpeg, image::ImageFormat::Jpeg).unwrap();
    assert_eq!(decoded.width(), 800);
    assert!(decoded.height() <= 800);

    assert!(generate_image_thumbnail("pic.svg", &small).is_none());
    assert!(generate_image_thumbnail("noext", &small).is_none());
    assert!(generate_image_thumbnail("pic.png", b"not an image").is_none());
    // the format comes from the extension, not the contents
    assert!(generate_image_thumbnail("pic.gif", &small).is_none());
}

#[test]
fn snippet_from_decoded_text() {
    let mut b = SnippetBuilder::new();
    assert_eq!(b.feed_text("abc\n"), None);
    assert_eq!(b.feed_text("def"), None);
    assert_eq!(b.finish(), "abc\ndef");
    let mut b = SnippetBuilder::new();
    let long = "x\n".repeat(31);
    let cut = format!("{}... [Lines truncated]", "x\n".repeat(30));
    assert_eq!(b.feed_text(&long).as_deref(), Some(cut.as_str()));
    // once finished, further text changes nothing
    assert_eq!(b.feed_text("more").as_deref(), Some(cut.as_str()));
}

#[test]
fn preview_succeeds_exactly_when_the_path_exists() {
    let p = assemble_preview("gone.txt", PathFacts::Missing);
    assert!(!p.success);
    assert_eq!(p.content_snippet, "[File not found on disk]");
    let p = assemble_preview("dir", PathFacts::Directory { entries: 3 });
    assert!(p.success);
    assert_eq!(p.metadata_summary, "Items: 3");
    let p = assemble_preview(
        "empty.pdf",
        PathFacts::File {
            meta: Some(FileMeta { size: 0, modified: None, mode: 0 }),
            text: Some("[Empty file]".to_string()),
            thumbnail: None,
        },
    );
    assert!(p.success);
    assert_eq!(p.file_type, "Document File (pdf)");
    assert_eq!(p.content_snippet, "[Binary file - 0 Bytes]");
    let p = assemble_preview("broken.png", PathFacts::File { meta: None, text: None, thumbnail: None });
    assert!(p.success);
    assert_eq!(p.content_snippet, "[Could not decode image]");
}

#[test]
fn base64_decodes_back() {
    let samples: Vec<Vec<u8>> = vec![
        vec![],
        vec![0],
        vec![255, 254],
        vec![1, 2, 3],
        (0..=255u8).collect(),
        b"any carnal pleasure.".to_vec(),
    ];
    for d in &samples {
        assert_eq!(&b64_decode(&base64_encode(d)), d);
    }
    // different data never share an encoding
    assert_ne!(base64_encode(&[0]), base64_encode(&[0, 0]));
}
