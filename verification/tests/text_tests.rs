use modelo720::field::{read_char, read_int, read_opt_char, read_opt_int, read_opt_text, read_text};
use modelo720::order::{compare_bytes, Relation};
use modelo720::text::{int_bytes, parse_int, trim};

#[test]
fn trim_drops_blanks_at_both_ends_only() {
    assert_eq!(trim(b"  a b \t\r\n"), b"a b".to_vec());
    assert_eq!(trim(b"    "), b"".to_vec());
    assert_eq!(trim(b""), b"".to_vec());
    assert_eq!(trim(b"\x0bx\x0c"), b"x".to_vec());
    assert_eq!(trim(b"\x08x\x0e"), b"\x08x\x0e".to_vec());
}

#[test]
fn whole_numbers_are_written_in_digits() {
    assert_eq!(int_bytes(0), b"0".to_vec());
    assert_eq!(int_bytes(720), b"720".to_vec());
    assert_eq!(int_bytes(-45), b"-45".to_vec());
    assert_eq!(int_bytes(i64::MIN as i128), b"-9223372036854775808".to_vec());
}

#[test]
fn whole_numbers_are_read_with_an_optional_sign() {
    assert_eq!(parse_int(b"123", true, -128, 127), Some(123));
    assert_eq!(parse_int(b"+12", true, -128, 127), Some(12));
    assert_eq!(parse_int(b"-128", true, -128, 127), Some(-128));
    assert_eq!(parse_int(b"128", true, -128, 127), None);
    assert_eq!(parse_int(b"-129", true, -128, 127), None);
    assert_eq!(parse_int(b"-0", true, -128, 127), Some(0));
    assert_eq!(parse_int(b"-1", false, 0, 255), None);
    assert_eq!(parse_int(b"+1", false, 0, 255), Some(1));
    assert_eq!(parse_int(b"", true, -128, 127), None);
    assert_eq!(parse_int(b"-", true, -128, 127), None);
    assert_eq!(parse_int(b"+", true, -128, 127), None);
    assert_eq!(parse_int(b"1 2", true, -128, 127), None);
    assert_eq!(parse_int(b"0000000000000000000000000000000000000000000007", true, -128, 127), Some(7));
    assert_eq!(parse_int(b"99999999999999999999999999999999999999999999", true, -128, 127), None);
}

#[test]
fn whole_numbers_are_read_as_the_standard_library_reads_them() {
    let texts: [&str; 12] =
        ["0", "7", "-7", "+7", "127", "128", "-128", "-129", "", "-", "0x1", "007"];
    for t in texts {
        assert_eq!(
            parse_int(t.as_bytes(), true, -128, 127),
            t.parse::<i8>().ok().map(|n| n as i128)
        );
        assert_eq!(parse_int(t.as_bytes(), false, 0, 255), t.parse::<u8>().ok().map(|n| n as i128));
    }
}

#[test]
fn fields_are_read_between_their_blanks() {
    assert_eq!(read_text(b"  DOE JOHN   ").as_deref(), Some("DOE JOHN"));
    assert_eq!(read_text(b"     ").as_deref(), Some(""));
    assert_eq!(read_text(&[b'a', 0xc3, b' ']), None);
    assert_eq!(read_text("NU\u{d1}EZ  ".as_bytes()).as_deref(), Some("NU\u{d1}EZ"));
    assert_eq!(read_opt_text(b"     "), Some(None));
    assert_eq!(read_opt_text(b" x   "), Some(Some("x".to_string())));
    assert_eq!(read_opt_text(&[0xff, b' ']), None);
    assert_eq!(read_char(b" "), Some(' '));
    assert_eq!(read_char(b"T"), Some('T'));
    assert_eq!(read_char(&[0xc3]), None);
    assert_eq!(read_char(b"AB"), None);
    assert_eq!(read_opt_char(b" "), Some(None));
    assert_eq!(read_opt_char(b"M"), Some(Some('M')));
    assert_eq!(read_int(b" 2023", true, -32768, 32767), Some(2023));
    assert_eq!(read_int(b"     ", true, -32768, 32767), None);
    assert_eq!(read_opt_int(b"     ", true, -128, 127), Some(None));
    assert_eq!(read_opt_int(b"00000", true, -128, 127), Some(Some(0)));
    assert_eq!(read_opt_int(b"0000x", true, -128, 127), None);
}

#[test]
fn byte_strings_compare_as_strings_do() {
    let texts: [&str; 7] = ["", "A", "AB", "B", "a", "IE00B4L5Y983", "IE00BK5BQT80"];
    for a in texts {
        for b in texts {
            let want = if a < b {
                Relation::Before
            } else if a == b {
                Relation::Same
            } else {
                Relation::After
            };
            assert_eq!(compare_bytes(a.as_bytes(), b.as_bytes()), want);
        }
    }
}
