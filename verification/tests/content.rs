//! Dates, post ordering, numerals, math spans, and media paths, on
//! concrete values.

use slide_nav::date::{PostDate, format_date, month_name};
use slide_nav::deck::SlideKind;
use slide_nav::mathspan::math_delimiters;
use slide_nav::media::video_url_base;
use slide_nav::numeral::{parse_dec_u32, parse_dec_usize, usize_to_dec};
use slide_nav::posts::{PostLayout, PostMetadata, sort_posts_by_date};
use slide_nav::text::{join_slash_prefix, split_sep, str_eq};

#[test]
fn numerals_render_in_decimal() {
    assert_eq!(usize_to_dec(0), "0");
    assert_eq!(usize_to_dec(7), "7");
    assert_eq!(usize_to_dec(1234), "1234");
    assert_eq!(usize_to_dec(1000), "1000");
}

#[test]
fn numeral_parsing_accepts_exactly_digit_strings() {
    assert_eq!(parse_dec_usize("0"), Some(0));
    assert_eq!(parse_dec_usize("123"), Some(123));
    assert_eq!(parse_dec_usize("007"), Some(7));
    assert_eq!(parse_dec_usize(""), None);
    assert_eq!(parse_dec_usize("12a"), None);
    assert_eq!(parse_dec_usize("-3"), None);
    assert_eq!(parse_dec_usize(" 3"), None);

    assert_eq!(parse_dec_u32("4294967295"), Some(u32::MAX));
    assert_eq!(parse_dec_u32("4294967296"), None);
}

#[test]
fn dates_parse_from_dashed_form() {
    assert_eq!(
        PostDate::from_str("2024-1-15"),
        Ok(PostDate { year: 2024, month: 1, day: 15 })
    );
    // Anything after the first three pieces is ignored.
    assert_eq!(
        PostDate::from_str("2024-01-02-draft"),
        Ok(PostDate { year: 2024, month: 1, day: 2 })
    );
}

#[test]
fn date_parsing_names_the_missing_piece() {
    assert_eq!(PostDate::from_str("abc-1-2"), Err("could not parse year"));
    assert_eq!(PostDate::from_str(""), Err("could not parse year"));
    assert_eq!(PostDate::from_str("2024"), Err("could not parse month"));
    assert_eq!(PostDate::from_str("2024-"), Err("could not parse month"));
    assert_eq!(PostDate::from_str("2024-5"), Err("could not parse date"));
    assert_eq!(PostDate::from_str("2024-5-x"), Err("could not parse date"));
}

#[test]
fn dates_order_chronologically() {
    let earlier = PostDate { year: 2023, month: 12, day: 31 };
    let later = PostDate { year: 2024, month: 1, day: 1 };
    assert!(earlier < later);
    assert!(later > earlier);
    let by_day = PostDate { year: 2024, month: 1, day: 2 };
    assert!(later < by_day);
    assert_eq!(later.partial_cmp(&later), Some(std::cmp::Ordering::Equal));
}

#[test]
fn dates_format_for_display() {
    assert_eq!(format_date(&PostDate { year: 2024, month: 3, day: 5 }), "Mar 5, 2024");
    assert_eq!(format_date(&PostDate { year: 1999, month: 12, day: 31 }), "Dec 31, 1999");
    assert_eq!(month_name(1), "Jan");
    assert_eq!(month_name(6), "Jun");
}

fn post(filename: &str, year: u32, month: u32, day: u32) -> PostMetadata {
    PostMetadata {
        title: filename.to_string(),
        date: PostDate { year, month, day },
        desc: String::new(),
        tags: Vec::new(),
        layout: PostLayout::Prose,
        render_math: false,
        filename: filename.to_string(),
    }
}

#[test]
fn posts_list_newest_first() {
    let posts = vec![
        post("middle", 2023, 6, 1),
        post("newest", 2024, 2, 29),
        post("oldest", 2021, 1, 1),
    ];
    let sorted = sort_posts_by_date(posts);
    let names: Vec<&str> = sorted.iter().map(|p| p.filename.as_str()).collect();
    assert_eq!(names, ["newest", "middle", "oldest"]);
}

#[test]
fn sorting_keeps_every_post() {
    let posts = vec![
        post("a", 2020, 5, 5),
        post("b", 2020, 5, 5),
        post("c", 2019, 1, 1),
    ];
    let sorted = sort_posts_by_date(posts);
    assert_eq!(sorted.len(), 3);
    let mut names: Vec<&str> = sorted.iter().map(|p| p.filename.as_str()).collect();
    names.sort();
    assert_eq!(names, ["a", "b", "c"]);
    assert_eq!(sorted[2].filename, "c");
}

#[test]
fn slide_kinds_parse_from_their_names() {
    assert_eq!(SlideKind::from_str("text"), Ok(SlideKind::Text));
    assert_eq!(SlideKind::from_str("split"), Ok(SlideKind::Split));
    assert_eq!(SlideKind::from_str("video"), Err(()));
    assert_eq!(SlideKind::from_str(""), Err(()));
}

#[test]
fn math_spans_get_their_delimiters() {
    assert_eq!(math_delimiters("math math-display"), ("$$", "$$"));
    assert_eq!(math_delimiters("math math-inline"), ("\\(", "\\)"));
    assert_eq!(math_delimiters("prose"), ("", ""));
}

#[test]
fn media_base_drops_the_manifest_and_its_directory() {
    assert_eq!(
        video_url_base("posts/intro/slides/index.json"),
        Some("posts/intro".to_string())
    );
    assert_eq!(video_url_base("slides/index.json"), Some(String::new()));
    assert_eq!(video_url_base("index.json"), None);
    assert_eq!(
        video_url_base("a/b/c/d/e"),
        Some("a/b/c".to_string())
    );
}

#[test]
fn splitting_keeps_empty_pieces() {
    let parts = split_sep("a//b", '/');
    assert_eq!(parts, ["a", "", "b"]);
    assert_eq!(split_sep("", '/'), [""]);
    assert_eq!(split_sep("/", '/'), ["", ""]);
    assert_eq!(split_sep("2024-1-15", '-'), ["2024", "1", "15"]);
    let joined = join_slash_prefix(&parts, 2);
    assert_eq!(joined, "a/");
}

#[test]
fn string_equality_compares_contents() {
    assert!(str_eq("abc", "abc"));
    assert!(!str_eq("abc", "abd"));
    assert!(!str_eq("abc", "ab"));
    assert!(str_eq("", ""));
}
