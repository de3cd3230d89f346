use ek_single_mic::util::float32::Float32;
use ek_single_mic::util::path::{
    join_path, normalize_relative_path, normalized_path_key, normalized_path_set, parent_path,
    same_paths,
};
use ek_single_mic::util::text::{
    chars_of, decimal_text, decimal_two_text, find_line_end, is_white_space, joined, joined3,
    lower_text, sorted_texts, text_between, text_occurs_in, trim_text,
};
use ek_single_mic::util::time::{
    MODEL_SAMPLE_RATE, TimestampError, current_utc_timestamp_rfc3339, utc_timestamp_rfc3339,
};

const SAMPLES: [f32; 14] = [
    0.0,
    -0.0,
    1.0,
    -1.0,
    0.5,
    -0.25,
    f32::MIN_POSITIVE,
    1e-45,
    -1e-45,
    f32::MAX,
    f32::MIN,
    f32::INFINITY,
    f32::NEG_INFINITY,
    f32::NAN,
];

fn held(value: f32) -> Float32 {
    Float32 { bits: value.to_bits() }
}

#[test]
fn comparisons_are_those_of_the_numbers() {
    for left in SAMPLES {
        for right in SAMPLES {
            assert_eq!(held(left).lt(held(right)), left < right, "{left} < {right}");
            assert_eq!(held(left).le(held(right)), left <= right, "{left} <= {right}");
            assert_eq!(held(left).gt(held(right)), left > right, "{left} > {right}");
            assert_eq!(held(left).ge(held(right)), left >= right, "{left} >= {right}");
            assert_eq!(
                held(left).total_order_key() < held(right).total_order_key(),
                left.total_cmp(&right).is_lt(),
                "{left} before {right}"
            );
        }
    }
}

#[test]
fn extremes_are_those_of_the_numbers() {
    for left in SAMPLES {
        assert_eq!(held(left).is_nan(), left.is_nan());
        assert_eq!(held(left).abs(), held(left.abs()));
        for right in SAMPLES {
            let larger = f32::from_bits(held(left).larger(held(right)).bits);
            let smaller = f32::from_bits(held(left).smaller(held(right)).bits);
            assert!(larger == left.max(right) || (left.is_nan() && right.is_nan()));
            assert!(smaller == left.min(right) || (left.is_nan() && right.is_nan()));
        }
        if !left.is_nan() {
            assert_eq!(
                f32::from_bits(held(left).clamped(held(-1.0), held(1.0)).bits),
                left.clamp(-1.0, 1.0)
            );
        }
    }
    assert!(held(f32::NAN).clamped(held(-1.0), held(1.0)).is_nan());
}

#[test]
fn white_space_is_what_the_language_says() {
    for code in 0..=0x10FFFF_u32 {
        if let Some(c) = char::from_u32(code) {
            assert_eq!(is_white_space(c), c.is_whitespace(), "{code:x}");
        }
    }
}

#[test]
fn numbers_are_written_in_decimal() {
    for number in [0, 7, 10, 99, 100, 1_234_567, u64::MAX] {
        assert_eq!(decimal_text(number), format!("{number}"));
        assert_eq!(decimal_two_text(number), format!("{number:02}"));
    }
}

#[test]
fn texts_are_cut_and_joined() {
    assert_eq!(joined("录", "音"), "录音");
    assert_eq!(joined3("a", "", "c"), "ac");
    assert_eq!(trim_text(" \u{3000}a b\t\n"), "a b");
    assert_eq!(trim_text(" \n"), "");
    assert_eq!(lower_text("ÄBC-Z录"), "Äbc-z录");
    let chars = chars_of("录音\n室");
    assert_eq!(text_between(&chars, 1, 4), "音\n室");
    assert_eq!(find_line_end(&chars, 0), 2);
    assert_eq!(find_line_end(&chars, 3), 4);
    assert!(text_occurs_in("vb-audio cable", "cable"));
    assert!(text_occurs_in("abc", ""));
    assert!(text_occurs_in("", ""));
    assert!(!text_occurs_in("cabl", "cable"));
}

#[test]
fn texts_are_sorted_as_strings_are() {
    let list: Vec<String> =
        ["b", "", "录音", "a/b", "a", "ab", "\u{10000}", "\u{FFFD}", "a", "B"]
            .iter()
            .map(|text| text.to_string())
            .collect();
    let mut expected = list.clone();
    expected.sort();
    assert_eq!(sorted_texts(list), expected);
}

#[test]
fn parents_are_those_of_the_path() {
    let paths = [
        "profiles/default/recordings/a.wav",
        "a.wav",
        "/a.wav",
        "/",
        "",
        "a/",
        "a//b",
        "a/b//",
        "a/./b",
        "a/b/.",
        "./a",
        ".",
        "..",
        "a/..",
        "//a",
        "///",
        "/.",
        "./",
        "././a",
        "a\\b",
    ];
    for path in paths {
        let parent = std::path::Path::new(path).parent().map(|parent| parent.to_str().unwrap());
        assert_eq!(parent_path(path).as_deref(), parent, "{path}");
    }
}

#[test]
fn paths_are_portable() {
    assert_eq!(join_path("profiles", "default"), "profiles/default");
    assert_eq!(join_path("profiles/", "default"), "profiles/default");
    assert_eq!(join_path("", "default"), "default");
    assert_eq!(normalize_relative_path("a\\b/c\\"), "a/b/c/");
    assert_eq!(normalized_path_key("A\\B/c.WAV"), "a/b/c.wav");
    let left = vec!["A\\b.wav".to_owned(), "c.wav".to_owned(), "a/B.wav".to_owned()];
    let right = vec!["C.WAV".to_owned(), "a/b.wav".to_owned()];
    assert_eq!(normalized_path_set(&left), vec!["a/b.wav", "c.wav"]);
    assert!(same_paths(&left, &right));
    assert!(!same_paths(&left, &vec!["a/b.wav".to_owned()]));
    assert!(same_paths(&Vec::new(), &Vec::new()));
}

#[test]
fn moments_are_written_as_internet_timestamps() {
    assert_eq!(MODEL_SAMPLE_RATE, 16_000);
    assert_eq!(utc_timestamp_rfc3339(0).ok().as_deref(), Some("1970-01-01T00:00:00Z"));
    assert_eq!(
        utc_timestamp_rfc3339(1_773_532_800_500_000_000).ok().as_deref(),
        Some("2026-03-15T00:00:00.5Z")
    );
    assert_eq!(
        utc_timestamp_rfc3339(-1_000_000_000).ok().as_deref(),
        Some("1969-12-31T23:59:59Z")
    );
    let failure: TimestampError = utc_timestamp_rfc3339(i128::MAX).err().expect("out of range");
    assert_eq!(failure.message(), "failed to format current UTC timestamp");
    assert!(utc_timestamp_rfc3339(-100_000_000_000_000_000_000).is_err());
    let now = current_utc_timestamp_rfc3339().expect("the present can be written");
    assert!(now.starts_with("20") && now.ends_with('Z'));
}
