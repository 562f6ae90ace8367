use context_generator::classify::is_text_content;
use context_generator::emit::emit_file_block;
use context_generator::filter::Filter;
use context_generator::scanner::{ScanEntry, ScanRoot, Scanner};

fn entry(rel: &str, name: &str, is_dir: bool, is_file: bool, content: &[u8]) -> ScanEntry {
    ScanEntry {
        rel_path: rel.to_string(),
        name: name.to_string(),
        is_dir,
        is_file,
        content: content.to_vec(),
    }
}

#[test]
fn test_empty_content_is_text() {
    assert!(is_text_content(&[]));
}

#[test]
fn test_null_byte_is_binary() {
    assert!(!is_text_content(&[b'a', 0u8, b'b']));
    let mut big = vec![b'x'; 600];
    big.push(0u8);
    assert!(!is_text_content(&big));
}

#[test]
fn test_plain_ascii_is_text() {
    assert!(is_text_content(b"fn main() {}\n"));
}

#[test]
fn test_emit_block_format() {
    let (out, ok) = emit_file_block("src/a.txt", b"one\ntwo\n");
    assert!(ok);
    assert_eq!(
        out,
        "--------------------\nfile: src/a.txt\n--------------------\n    one\n    two\n"
    );
}

#[test]
fn test_emit_block_strips_crlf() {
    let (out, ok) = emit_file_block("x", b"a\r\nb");
    assert!(ok);
    assert_eq!(out, "--------------------\nfile: x\n--------------------\n    a\n    b\n");
}

#[test]
fn test_emit_block_skips_binary() {
    let (out, ok) = emit_file_block("x", &[0u8, 1, 2]);
    assert!(ok);
    assert_eq!(out, "");
}

#[test]
fn test_emit_block_aborts_on_invalid_text_line() {
    let (out, ok) = emit_file_block("x", b"good\n\xffbad");
    assert!(!ok);
    assert_eq!(out, "--------------------\nfile: x\n--------------------\n    good\n");
}

#[test]
fn test_scan_scenario_binary_skipped() {
    let filter = Filter::new_with_defaults(vec![], &["build".to_string()]).unwrap();
    let scanner = Scanner::new(filter);
    let root = ScanRoot::Dir {
        entries: vec![
            entry("", "proj", true, false, b""),
            entry("main.txt", "main.txt", false, true, b"hello\n"),
            entry("build", "build", true, false, b""),
            entry("build/app.bin", "app.bin", false, true, &[0u8, 159, 146, 150]),
        ],
    };
    let outcome = scanner.scan(&root);
    assert!(outcome.failed.is_none());
    assert_eq!(
        outcome.output,
        "--------------------\nfile: main.txt\n--------------------\n    hello\n--------------------\n"
    );
    assert!(!outcome.output.contains("app.bin"));
}

#[test]
fn test_scan_idempotent() {
    let make_root = || ScanRoot::Dir {
        entries: vec![
            entry("a.txt", "a.txt", false, true, b"alpha\n"),
            entry("b.log", "b.log", false, true, b"beta\n"),
        ],
    };
    let filter1 = Filter::new(vec!["*.log".to_string()]).unwrap();
    let filter2 = Filter::new(vec!["*.log".to_string()]).unwrap();
    let out1 = Scanner::new(filter1).scan(&make_root());
    let out2 = Scanner::new(filter2).scan(&make_root());
    assert_eq!(out1.output, out2.output);
    assert!(!out1.output.contains("beta"));
    assert!(out1.output.contains("    alpha\n"));
}

#[test]
fn test_single_file_root() {
    let filter = Filter::new(vec![]).unwrap();
    let scanner = Scanner::new(filter);
    let root = ScanRoot::File { content: b"hello\n".to_vec() };
    let outcome = scanner.scan(&root);
    assert!(outcome.failed.is_none());
    assert_eq!(
        outcome.output,
        "--------------------\nfile: .\n--------------------\n    hello\n--------------------\n"
    );
    assert_eq!(outcome.output.matches("file:").count(), 1);
}

#[test]
fn test_scan_failure_keeps_prefix() {
    let filter = Filter::new(vec![]).unwrap();
    let scanner = Scanner::new(filter);
    let root = ScanRoot::Dir {
        entries: vec![entry("bad.txt", "bad.txt", false, true, b"ok\n\xffoops")],
    };
    let outcome = scanner.scan(&root);
    assert_eq!(outcome.failed.as_deref(), Some("bad.txt"));
    assert!(outcome.output.starts_with("--------------------\nfile: bad.txt\n"));
    assert!(outcome.output.ends_with("    ok\n"));
}

#[test]
fn test_empty_scan_trailing_separator() {
    let filter = Filter::new(vec![]).unwrap();
    let scanner = Scanner::new(filter);
    let outcome = scanner.scan(&ScanRoot::Dir { entries: vec![] });
    assert_eq!(outcome.output, "--------------------\n");
}
