//! Text, numbers, paths and tables.

use astropi::catalogue::{
    extract_messier_number, find_messier_object, number_in_name, parse_catalogue,
};
use astropi::lookup::look_up;
use astropi::number::{decimal_text, padded_text, read_decimal, read_in_base};
use astropi::paths::{file_extension, file_stem, has_extension, join_path, last_part_of};
use astropi::progress::parse_progress;
use astropi::reals::{is_from_to, is_from_zero_to, shortest_text, text_writes_real};
use astropi::sexagesimal::{
    parse_angle, parse_dec, parse_loose_triple, parse_ra, parse_real_triple, parse_time, Angle,
};
use astropi::text::{
    chars_of, concat3, leading_word, replaced_text, split_by, string_of, text_begins, text_ends,
    text_has, trimmed_text,
};
use astropi::textmap::TextMap;

fn chars(s: &str) -> Vec<char> {
    chars_of(s)
}

#[test]
fn trimming_drops_unicode_white_space() {
    assert_eq!(trimmed_text("\u{3000}\t a b \u{a0}\n"), "a b");
    assert_eq!(trimmed_text(""), "");
    assert_eq!(trimmed_text(" \t"), "");
}

#[test]
fn searching_and_replacing() {
    assert!(text_has("abcabc", "cab"));
    assert!(!text_has("abc", "abcd"));
    assert!(text_begins("PROGRESS:1", "PROGRESS:"));
    assert!(text_ends("a.fits", ".fits"));
    assert!(!text_ends("fits", ".fits"));
    assert_eq!(replaced_text("a..b...c", "..", ""), "ab.c");
    assert_eq!(replaced_text("aaa", "aa", "b"), "ba");
    assert_eq!(concat3("a", "", "b"), "ab");
    assert_eq!(string_of(&chars("ä€")), "ä€");
}

#[test]
fn splitting_keeps_empty_parts() {
    let parts = split_by(&chars("::a:"), &chars(":"));
    assert_eq!(parts, vec![chars(""), chars(""), chars("a"), chars("")]);
}

#[test]
fn the_first_word() {
    assert_eq!(leading_word(&chars("  13:05  x")).map(string_of), Some("13:05".to_string()));
    assert_eq!(leading_word(&chars(" \n")), None);
}

#[test]
fn numbers_are_written_and_read_back() {
    for n in [0u64, 9, 10, 4711, u64::MAX] {
        assert_eq!(decimal_text(n), n.to_string());
        assert_eq!(read_decimal(&decimal_text(n), u64::MAX), Some(n));
    }
    assert_eq!(padded_text(7, 10, 4), "0007");
    assert_eq!(padded_text(12345, 10, 4), "12345");
    assert_eq!(padded_text(0xabc, 16, 6), "000ABC");
    assert_eq!(read_in_base(&chars("00aBc"), 16, 0xffff), Some(0xabc));
}

#[test]
fn reading_numbers_follows_the_standard_library() {
    for s in ["", "+", "-", "+7", "-7", "007", "7 ", " 7", "0x7", "4294967295", "4294967296", "٣"] {
        assert_eq!(
            read_decimal(s, u32::MAX as u64).map(|v| v as u32),
            s.parse::<u32>().ok(),
            "{}",
            s
        );
    }
}

#[test]
fn real_numbers_follow_the_standard_library() {
    let texts = [
        "", ".", "+", "-", "1", "-1", "+1", "1.", ".5", "1.5", "1.5.2", "1e5", "1e", "1e+", "1E-3",
        "e5", ".e5", "inf", "-INF", "Infinity", "nan", "NaN", "infin", " 1", "1 ", "1_0", "0x1",
        "1,5", "--1", "9".repeat(400).as_str(), "1e999",
    ]
    .map(|s| s.to_string());
    for s in texts {
        assert_eq!(text_writes_real(&s), s.parse::<f64>().is_ok(), "{:?}", s);
    }
}

#[test]
fn decimals_are_compared_with_bounds() {
    for v in [-1.0f64, -0.0, 0.0, 0.001, 12.5, 23.999, 24.0, 24.0001, 1e30] {
        assert_eq!(is_from_zero_to(&format!("{}", v), 24), (0.0..=24.0).contains(&v), "{}", v);
    }
    for v in [-90.0001f64, -90.0, -89.5, 0.0, 89.5, 90.0, 90.5] {
        assert_eq!(is_from_to(&format!("{}", v), 90, 90), (-90.0..=90.0).contains(&v), "{}", v);
    }
    assert!(!is_from_zero_to("NaN", 24));
}

fn angle(negative: bool, degrees: u64, minutes: i64, seconds: &str) -> Option<Angle> {
    Some(Angle { negative, degrees, minutes, seconds: seconds.to_string() })
}

#[test]
fn sexagesimal_triples() {
    assert_eq!(parse_time(" 12:34:56.7 "), Some((12, 34, "56.7".to_string())));
    assert_eq!(parse_time("256:0:0"), None);
    assert_eq!(parse_time("-1:0:0"), None);
    assert_eq!(parse_time("1:2"), None);
    assert_eq!(parse_time("1:2:3:4"), None);
    assert_eq!(parse_angle("-05:30:00"), Some((-5, 30, "00".to_string())));
    assert_eq!(parse_angle("+05:30:00"), Some((5, 30, "00".to_string())));
    assert_eq!(parse_angle("-00:30:00"), Some((0, 30, "00".to_string())));
    assert_eq!(parse_angle("5.5:30:00"), None);
    assert_eq!(
        parse_real_triple("1.5:2:x"),
        None
    );
    assert_eq!(
        parse_real_triple("1.5:2:3"),
        Some(("1.5".to_string(), "2".to_string(), "3".to_string()))
    );
    assert_eq!(
        parse_loose_triple("1:x:3"),
        Some(("1".to_string(), "0".to_string(), "3".to_string()))
    );
    assert_eq!(parse_loose_triple("1:2"), None);
}

#[test]
fn catalogue_coordinates() {
    assert_eq!(parse_ra("14:03:12.54"), Some((14, 3, "12.54".to_string())));
    assert_eq!(parse_ra(" 14:03:12.54"), None);
    assert_eq!(parse_dec("+54:20:56.2"), angle(false, 54, 20, "56.2"));
    assert_eq!(parse_dec("54:20:56.2"), angle(false, 54, 20, "56.2"));
    assert_eq!(parse_dec(" -23:10:44.7 "), angle(true, 23, 10, "44.7"));
    assert_eq!(parse_dec("-00:49:23.7"), angle(true, 0, 49, "23.7"));
    assert_eq!(parse_dec("+00:49:23.7"), angle(false, 0, 49, "23.7"));
    assert_eq!(parse_dec("--5:1:2"), angle(false, 5, 1, "2"));
    assert_eq!(parse_dec("--9223372036854775808:0:0"), angle(false, 1 << 63, 0, "0"));
    assert_eq!(parse_dec("54:20"), None);
}

#[test]
fn decimals_take_their_shortest_form() {
    for s in ["2.50", "2.5", "+3", "-0.0", "007", ".5", "5.", "100", "0.10", "123456789012345"] {
        assert_eq!(shortest_text(s), Some(s.parse::<f64>().unwrap().to_string()), "{}", s);
    }
    for s in ["1e2", "inf", "x", "", ".", "-", "1234567890123456", "1.2.3"] {
        assert_eq!(shortest_text(s), None);
    }
}

#[test]
fn paths_are_joined() {
    for (dir, name) in [("a", "b"), ("a/", "b"), ("", "b"), ("a", "/b"), ("a", "b/c"), ("/", "b")] {
        let path = std::path::Path::new(dir).join(name);
        assert_eq!(join_path(dir, name), path.display().to_string());
        let last = path.file_name().unwrap().to_string_lossy().into_owned();
        assert_eq!(last_part_of(&join_path(dir, name)), last);
    }
}

#[test]
fn stems_and_extensions_follow_the_standard_library() {
    for name in ["a.b", "a", ".a", ".a.b", "a.", "a.b.c", ".."] {
        let path = std::path::Path::new(name);
        if path.file_name().is_some() {
            let stem = path.file_stem().unwrap().to_string_lossy().to_string();
            assert_eq!(file_stem(name), stem, "{}", name);
        }
        let ext = path.extension().map(|e| e.to_string_lossy().to_string());
        assert_eq!(has_extension(name), ext.is_some(), "{}", name);
        assert_eq!(file_extension(name), ext.unwrap_or_default(), "{}", name);
    }
}

#[test]
fn progress_is_read_from_messages() {
    let p = parse_progress("PROGRESS:3/10:Capturing lights frame 3/5 (30s)...").unwrap();
    assert_eq!((p.current, p.total), (3, 10));
    assert_eq!(p.msg, "Capturing lights frame 3/5 (30s)...");
    for m in [
        "", "PROGRESS", "PROGRESS:1/2", "PROGRESS:1:x", "PROGRESS:1/2/3:x", "PROGRESS:a/2:x",
        "PROGRESS:1/4294967296:x", "Captured frame 1/2",
    ] {
        assert!(parse_progress(m).is_none(), "{}", m);
    }
}

#[test]
fn a_text_map_keeps_one_value_for_each_key() {
    let mut m: TextMap<u32> = TextMap::new();
    m.insert("a".to_string(), 1);
    m.insert("b".to_string(), 2);
    m.insert("a".to_string(), 3);
    assert_eq!(m.get("a"), Some(&3));
    assert_eq!(m.get("c"), None);
    assert_eq!(m.keys().len(), 2);
    assert_eq!(m.remove("a"), Some(3));
    assert_eq!(m.get("a"), None);
    assert_eq!(m.remove("a"), None);
    m.clear();
    assert!(m.keys().is_empty());
}

fn catalogue_lines() -> Vec<String> {
    [
        "Name,RA,Dec",
        "M31,00:42:44.3,+41:16:09",
        "not an object",
        " m101 , 14:03:12.54 ,+54:20:56.2,spiral",
        "M1,05:34:31.94,+22:00:52.2",
        "M7,x,+1:2:3",
        "M8,1:2:3,y",
    ]
    .map(|s| s.to_string())
    .to_vec()
}

#[test]
fn messier_numbers() {
    assert_eq!(extract_messier_number("M101"), Some(101));
    assert_eq!(extract_messier_number("m31 Andromeda"), Some(31));
    assert_eq!(extract_messier_number("NGC 224"), None);
    assert_eq!(extract_messier_number("M"), None);
    assert_eq!(number_in_name("M42"), Some(42));
    assert_eq!(number_in_name("m42"), None);
}

#[test]
fn the_catalogue_is_sorted_and_searched() {
    let catalogue = parse_catalogue(&catalogue_lines());
    let numbers: Vec<u32> = catalogue.iter().map(|o| o.number).collect();
    let mut sorted = numbers.clone();
    sorted.sort();
    assert_eq!(numbers, sorted);
    let o = find_messier_object(&catalogue, 101).unwrap();
    assert_eq!(o.ra, "14:03:12.54");
    assert_eq!(o.dec, "+54:20:56.2");
    assert!(find_messier_object(&catalogue, 2).is_none());
}

#[test]
fn looking_up_objects() {
    let catalogue = parse_catalogue(&catalogue_lines());
    let r = look_up(" m101 \n", &catalogue);
    assert_eq!(r.notes.len(), 1);
    assert!(r.notes[0].ends_with(" - RA: 14:03:12.54, Dec: +54:20:56.2"));
    let t = r.target.unwrap();
    assert_eq!(t.ra, (14, 3, "12.54".to_string()));
    assert_eq!(Some(t.dec), angle(false, 54, 20, "56.2"));

    let r = look_up("hello", &catalogue);
    assert_eq!(
        r.notes,
        vec!["Invalid input: 'hello'. Please enter a valid Messier object like M101."]
    );
    assert!(r.target.is_none());

    let r = look_up("M99", &catalogue);
    assert_eq!(r.notes, vec!["Messier object M99 not found in catalogue."]);

    let r = look_up("M7", &catalogue);
    assert_eq!(r.notes[1], "Failed to parse RA: x");
    assert!(r.target.is_none());

    let r = look_up("M8", &catalogue);
    assert_eq!(r.notes[1], "Failed to parse Dec: y");
    assert!(r.target.is_none());
}
