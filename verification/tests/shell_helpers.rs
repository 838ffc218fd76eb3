use latcarf::glsl::parse_error_line;
use latcarf::glsl::nth_line;
use latcarf::cli::choose_device;
use latcarf::cli::DeviceChoice;
use latcarf::pacer::FramePacer;
use latcarf::text_atlas::PrintableChars;
use latcarf::text_atlas::AtlasCursor;
use latcarf::text_atlas::estimate_atlas_size;

#[test]
fn test_parse_error_line_variants() {
    assert_eq!(parse_error_line(b"0:15(12): error: x undeclared"), Some(15));
    assert_eq!(parse_error_line(b"0:15: error"), Some(15));
    assert_eq!(parse_error_line(b"0:7"), Some(7));
    assert_eq!(parse_error_line(b"no separators here"), None);
    assert_eq!(parse_error_line(b"a:xy: nonsense"), None);
    assert_eq!(parse_error_line(b"a:: empty field"), None);
    assert_eq!(parse_error_line(b"0:99999999999999999999999999(1): huge"), None);
}

#[test]
fn test_nth_line_lookup() {
    let src = b"#version 330\nvoid main() {\nbad;\n}";
    let (a, b) = nth_line(src, 0).unwrap();
    assert_eq!(&src[a..b], b"#version 330");
    let (a, b) = nth_line(src, 2).unwrap();
    assert_eq!(&src[a..b], b"bad;");
    let (a, b) = nth_line(src, 3).unwrap();
    assert_eq!(&src[a..b], b"}");
    assert_eq!(nth_line(src, 4), None);
}

#[test]
fn test_failing_shader_line_is_found() {
    // The whole diagnostic path: the log names line 3, one-based, and the
    // lookup hands the line back.
    let log = b"0:3(2): error: syntax error";
    let src = b"#version 330\nvoid main() {\nbad;\n}";
    let line = parse_error_line(log).unwrap();
    let (a, b) = nth_line(src, (line - 1) as usize).unwrap();
    assert_eq!(&src[a..b], b"bad;");
}

#[test]
fn test_choose_device() {
    assert_eq!(choose_device(Some(b"cpu")), DeviceChoice::Cpu);
    assert_eq!(choose_device(Some(b"gpu")), DeviceChoice::Gpu);
    assert_eq!(choose_device(Some(b"tpu")), DeviceChoice::Invalid);
    assert_eq!(choose_device(Some(b"")), DeviceChoice::Invalid);
    assert_eq!(choose_device(None), DeviceChoice::Gpu);
}

#[test]
fn test_pacer_reports_only_when_full() {
    let mut pacer = FramePacer::new();
    for _ in 0..9 {
        assert_eq!(pacer.record(1000), None);
    }
    // The tenth sample fills the window: mean of ten 1000 ns frames is
    // one microsecond.
    assert_eq!(pacer.record(1000), Some(1));
    // The next sample evicts the oldest: nine at 1000 ns and one at
    // 11000 ns average two microseconds.
    assert_eq!(pacer.record(11000), Some(2));
}

#[test]
fn test_printable_chars_cover_ascii() {
    let mut chars = PrintableChars::new();
    assert_eq!(chars.next(), Some(' '));
    let mut count = 1;
    let mut last = ' ';
    while let Some(c) = chars.next() {
        count += 1;
        last = c;
    }
    assert_eq!(count, 95);
    assert_eq!(last, '~');
    assert_eq!(chars.next(), None);
}

#[test]
fn test_estimate_atlas_size_exact() {
    let dims = vec![(10u32, 20u32), (30, 40)];
    // Advance 44, tallest 40: area 1760; grown by two extra rows of
    // sqrt-area times height, 1760 + 41 * 80 = 5040, whose root is 70.
    assert_eq!(estimate_atlas_size(&dims, 2), (70, 70));
}

#[test]
fn test_atlas_cursor_wraps_rows() {
    let mut cur = AtlasCursor::new();
    assert_eq!(cur.place(40, 2, 100, 32), Some((0, 0)));
    assert_eq!(cur.place(40, 2, 100, 32), Some((42, 0)));
    // The third glyph would reach the right edge: a new row opens.
    assert_eq!(cur.place(40, 2, 100, 32), Some((0, 32)));
    assert_eq!(cur.place(0, 2, 100, 32), None);
    assert_eq!(cur.place(40, 2, 100, 32), Some((42, 32)));
}
