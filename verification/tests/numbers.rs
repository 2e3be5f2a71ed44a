use crackmes::number::{format_u64, parse_u64};
use crackmes::stats::is_float;
use crackmes::text::{
    is_blank_str, is_whitespace, last_segment_of, second_piece_of, str_eq, to_chars, trim,
};
use crackmes::{Language, Platform, Rating, Stats};

#[test]
fn counts_are_read_like_std() {
    let cases: [&str; 22] = [
        "",
        "0",
        "1",
        "+1",
        "-1",
        "+",
        "++1",
        "007",
        "42",
        " 42",
        "42 ",
        "4_2",
        "4.2",
        "0x10",
        "18446744073709551615",
        "18446744073709551616",
        "+18446744073709551615",
        "99999999999999999999999",
        "000000000000000000000000000001",
        "١٢٣",
        "12a",
        "a12",
    ];
    for s in cases {
        assert_eq!(parse_u64(s), s.parse::<u64>().ok(), "{:?}", s);
    }
}

#[test]
fn counts_have_exact_values() {
    assert_eq!(parse_u64("0"), Some(0));
    assert_eq!(parse_u64("+120"), Some(120));
    assert_eq!(parse_u64("18446744073709551615"), Some(u64::MAX));
    assert_eq!(parse_u64("18446744073709551616"), None);
    assert_eq!(parse_u64("-0"), None);
}

#[test]
fn counts_are_written_like_std() {
    let cases: [u64; 12] =
        [0, 1, 9, 10, 11, 99, 100, 101, 1234567890, 1 << 32, u64::MAX - 1, u64::MAX];
    for n in cases {
        assert_eq!(format_u64(n), n.to_string());
        assert_eq!(parse_u64(&format_u64(n)), Some(n));
    }
    assert_eq!(format_u64(0), "0");
    assert_eq!(format_u64(1050), "1050");
}

#[test]
fn ratings_are_recognised_like_floats() {
    let cases: [&str; 60] = [
        "", "1", "1.0", "4.0", "3.7", "+1.5", "-1.5", ".5", "5.", ".", "+", "-", "+.", "1e5",
        "1E5", "1e+5", "1e-5", "1e", "1e+", "e5", ".e5", "1.e5", ".5e5", "1.5e5x", "1..5",
        "1.5.2", "inf", "INF", "Inf", "+inf", "-inf", "infinity", "INFINITY", "-Infinity",
        "infinit", "infinityy", "nan", "NaN", "-nan", "+NAN", "nanx", "in", " 1.0", "1.0 ",
        "1,0", "0x10", "1_000", "1f32", "--1", "+-1", "1e5.0", "00.00", "123456789012345678901234567890",
        "1e400", "1e-400", "٣", "1٣", "İnf", "ınf", "infınity",
    ];
    for s in cases {
        assert_eq!(is_float(s), s.parse::<f32>().is_ok(), "{:?}", s);
        assert_eq!(Rating::parse(s).is_some(), s.parse::<f32>().is_ok(), "{:?}", s);
    }
}

#[test]
fn rating_keeps_its_text() {
    let rating = Rating::parse("3.7").unwrap();
    assert_eq!(rating.as_str(), "3.7");
    assert_eq!(rating.clone(), rating);
    assert_eq!(Rating::parse("good"), None);
    let stats = Stats::new(Rating::parse("4.0").unwrap(), Rating::parse("1.0").unwrap());
    assert_eq!(stats.quality.as_str(), "4.0");
    assert_eq!(stats.difficulty.as_str(), "1.0");
}

#[test]
fn white_space_is_the_same_as_std() {
    let mut code: u32 = 0;
    while code <= 0x10ffff {
        if let Some(c) = char::from_u32(code) {
            assert_eq!(is_whitespace(c), c.is_whitespace(), "U+{:04X}", code);
        }
        code += 1;
    }
}

#[test]
fn trimming_is_the_same_as_std() {
    let cases: [&str; 12] = [
        "",
        " ",
        "a",
        " a",
        "a ",
        "  a b  ",
        "\n\t EZwan \r\n",
        "\u{a0}x\u{3000}",
        "\u{2003}\u{2028}",
        "é ",
        " 日本語 ",
        "a\u{200b}",
    ];
    for s in cases {
        assert_eq!(trim(s), s.trim(), "{:?}", s);
        assert_eq!(is_blank_str(s), s.chars().all(char::is_whitespace), "{:?}", s);
    }
    assert_eq!(trim("  EZwan \n"), "EZwan");
}

#[test]
fn characters_and_equality() {
    assert_eq!(to_chars("aé日"), vec!['a', 'é', '日']);
    assert!(str_eq("C/C++", "C/C++"));
    assert!(!str_eq("C/C++", "C/C+"));
    assert!(!str_eq("abc", "abd"));
    assert!(str_eq("", ""));
}

#[test]
fn last_segment_is_what_follows_the_last_slash() {
    let cases: [&str; 8] = [
        "/crackme/60957b9a33c5d458ce0ec88e",
        "60957b9a33c5d458ce0ec88e",
        "/crackme/",
        "",
        "/",
        "a/b/c",
        "//x",
        "é/日本",
    ];
    for s in cases {
        assert_eq!(Some(last_segment_of(s)), s.rsplit('/').next(), "{:?}", s);
    }
    assert_eq!(last_segment_of("/crackme/60957b9a33c5d458ce0ec88e"), "60957b9a33c5d458ce0ec88e");
}

#[test]
fn second_piece_is_the_same_as_split() {
    let cases: [&str; 10] = [
        "'s SAFE_01",
        "oles's SAFE_01",
        "SAFE_01",
        "",
        "'s ",
        "'s a's b",
        "'s's 's ",
        "x's",
        "''s s's 's y",
        "é's 日本",
    ];
    for s in cases {
        assert_eq!(second_piece_of(s, "'s "), s.split("'s ").nth(1), "{:?}", s);
    }
    assert_eq!(second_piece_of("'s SAFE_01", "'s "), Some("SAFE_01"));
    assert_eq!(second_piece_of("aXXbXXc", "XX"), Some("b"));
    assert_eq!(second_piece_of("aXXXb", "XX"), Some("Xb"));
}

#[test]
fn language_names() {
    let cases: [(&str, Option<Language>); 16] = [
        ("cpp", Some(Language::COrCPlusPlus)),
        ("C/C++", Some(Language::COrCPlusPlus)),
        ("Assembler", Some(Language::Assembler)),
        ("Java", Some(Language::Java)),
        ("vb", Some(Language::VisualBasic)),
        ("(Visual) Basic", Some(Language::VisualBasic)),
        ("Borland Delphi", Some(Language::BorlandDelphi)),
        ("Turbo Pascal", Some(Language::TurboPascal)),
        ("dotnet", Some(Language::DotNet)),
        (".NET", Some(Language::DotNet)),
        ("other", Some(Language::Other)),
        ("Unspecified/other", Some(Language::Other)),
        ("COrCPlusPlus", None),
        ("java", None),
        ("", None),
        ("C/C++ ", None),
    ];
    for (name, language) in cases {
        assert_eq!(Language::from_name(name), language, "{:?}", name);
    }
    let shown: [(Language, &str); 8] = [
        (Language::COrCPlusPlus, "C/C++"),
        (Language::Assembler, "Assembler"),
        (Language::Java, "Java"),
        (Language::VisualBasic, "(Visual) Basic"),
        (Language::BorlandDelphi, "Borland Delphi"),
        (Language::TurboPascal, "Turbo Pascal"),
        (Language::DotNet, "dotnet"),
        (Language::Other, "Unspecified/other"),
    ];
    for (language, name) in shown {
        assert_eq!(language.name(), name);
        assert_eq!(language.to_string(), name);
        assert_eq!(Language::from_name(name), Some(language));
    }
}

#[test]
fn platform_names() {
    let cases: [(&str, Option<Platform>); 20] = [
        ("DOS", Some(Platform::DOS)),
        ("macos", Some(Platform::MacOSX)),
        ("Mac OS X", Some(Platform::MacOSX)),
        ("multiplatform", Some(Platform::Multiplatform)),
        ("Multiplatform", Some(Platform::Multiplatform)),
        ("linux", Some(Platform::UnixLinux)),
        ("unix", Some(Platform::UnixLinux)),
        ("Unix/linux etc.", Some(Platform::UnixLinux)),
        ("Unix/Linux", Some(Platform::UnixLinux)),
        ("windows", Some(Platform::Windows)),
        ("Windows", Some(Platform::Windows)),
        ("Windows 2000/XP only", Some(Platform::Windows2000XP)),
        ("Windows 7 Only", Some(Platform::Windows7)),
        ("Windows Vista Only", Some(Platform::WindowsVista)),
        ("other", Some(Platform::Other)),
        ("Unspecified/other", Some(Platform::Other)),
        ("dos", None),
        ("Linux", None),
        ("UnixLinux", None),
        ("", None),
    ];
    for (name, platform) in cases {
        assert_eq!(Platform::from_name(name), platform, "{:?}", name);
    }
    let shown: [(Platform, &str); 9] = [
        (Platform::DOS, "DOS"),
        (Platform::MacOSX, "Mac OS X"),
        (Platform::Multiplatform, "Multiplatform"),
        (Platform::UnixLinux, "Unix/linux etc."),
        (Platform::Windows, "Windows"),
        (Platform::Windows2000XP, "Windows 2000/XP only"),
        (Platform::Windows7, "Windows 7 Only"),
        (Platform::WindowsVista, "Windows Vista Only"),
        (Platform::Other, "Unspecified/other"),
    ];
    for (platform, name) in shown {
        assert_eq!(platform.name(), name);
        assert_eq!(platform.to_string(), name);
        assert_eq!(Platform::from_name(name), Some(platform));
    }
}

fn words(alphabet: &[char], longest: usize) -> Vec<String> {
    let mut all: Vec<String> = vec![String::new()];
    let mut last: Vec<String> = vec![String::new()];
    for _ in 0..longest {
        let mut next: Vec<String> = Vec::new();
        for word in &last {
            for c in alphabet {
                let mut longer = word.clone();
                longer.push(*c);
                next.push(longer);
            }
        }
        all.extend(next.iter().cloned());
        last = next;
    }
    all
}

#[test]
fn every_short_rating_is_recognised_like_a_float() {
    let alphabet: [char; 12] = ['+', '-', '.', 'e', 'E', '0', '7', 'i', 'n', 'f', 'a', ' '];
    for word in words(&alphabet, 5) {
        assert_eq!(is_float(&word), word.parse::<f32>().is_ok(), "{:?}", word);
    }
    let special: [char; 9] = ['i', 'n', 'f', 't', 'y', 'I', 'N', 'a', '-'];
    for word in words(&special, 3) {
        let long = format!("{}inity", word);
        assert_eq!(is_float(&long), long.parse::<f32>().is_ok(), "{:?}", long);
    }
}

#[test]
fn every_short_count_is_read_like_std() {
    let alphabet: [char; 8] = ['+', '-', '0', '1', '9', '_', ' ', 'a'];
    for word in words(&alphabet, 5) {
        assert_eq!(parse_u64(&word), word.parse::<u64>().ok(), "{:?}", word);
    }
    let digits: [char; 3] = ['0', '5', '9'];
    for word in words(&digits, 4) {
        let long = format!("1844674407370955{}", word);
        assert_eq!(parse_u64(&long), long.parse::<u64>().ok(), "{:?}", long);
    }
}

#[test]
fn every_short_text_is_trimmed_like_std() {
    let alphabet: [char; 6] = [' ', '\n', '\u{a0}', 'a', '/', '\u{3000}'];
    for word in words(&alphabet, 5) {
        assert_eq!(trim(&word), word.trim(), "{:?}", word);
        assert_eq!(Some(last_segment_of(&word)), word.rsplit('/').next(), "{:?}", word);
    }
    let pieces: [char; 4] = ['\'', 's', ' ', 'x'];
    for word in words(&pieces, 8) {
        assert_eq!(second_piece_of(&word, "'s "), word.split("'s ").nth(1), "{:?}", word);
    }
}
