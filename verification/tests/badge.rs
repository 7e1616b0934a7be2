use base64::engine::general_purpose::STANDARD;
use base64::Engine;
use datadog_badges::badge::{
    human_str, Badge, BadgeOptions, COLOR_DANGER, COLOR_OTHER, COLOR_SUCCESS, COLOR_WARNING,
};
use datadog_badges::text::{chars_of, decimal_string, parse_u64, signed_decimal_string, string_of};

#[test]
fn default_badge_is_ok() {
    let options = BadgeOptions::default();
    assert_eq!(options.status, "Ok");
    assert_eq!(options.duration, None);
    assert_eq!(options.color, "#4c1");
    assert!(!options.muted);
    assert_eq!(options.width, None);
    assert_eq!(options.height, None);
    assert_eq!(options.clone(), options);
}

#[test]
fn colors_are_fixed() {
    assert_eq!(COLOR_DANGER, "#eb364b");
    assert_eq!(COLOR_WARNING, "#ffb52b");
    assert_eq!(COLOR_SUCCESS, "#41c464");
    assert_eq!(COLOR_OTHER, "#949196");
}

#[test]
fn durations_are_told_in_their_largest_unit() {
    assert_eq!(human_str(0), "0 seconds");
    assert_eq!(human_str(1), "1 second");
    assert_eq!(human_str(2), "2 seconds");
    assert_eq!(human_str(59), "59 seconds");
    assert_eq!(human_str(60), "1 minute");
    assert_eq!(human_str(119), "1 minute");
    assert_eq!(human_str(120), "2 minutes");
    assert_eq!(human_str(3599), "59 minutes");
    assert_eq!(human_str(3600), "1 hour");
    assert_eq!(human_str(7199), "1 hour");
    assert_eq!(human_str(7200), "2 hours");
    assert_eq!(human_str(16 * 3600), "16 hours");
    assert_eq!(human_str(86399), "23 hours");
    assert_eq!(human_str(86400), "1 day");
    assert_eq!(human_str(2 * 86400), "2 days");
    assert_eq!(human_str(604799), "6 days");
    assert_eq!(human_str(604800), "1 week");
    assert_eq!(human_str(2 * 604800 - 1), "1 week");
    assert_eq!(human_str(2 * 604800), "2 weeks");
    assert_eq!(human_str(i64::MAX), "15250284452471 weeks");
    assert_eq!(human_str(-1), "-1 seconds");
    assert_eq!(human_str(-3600), "-3600 seconds");
    assert_eq!(human_str(i64::MIN), "-9223372036854775808 seconds");
}

#[test]
fn durations_are_told_as_chrono_counts_them() {
    for seconds in [0i64, 1, 59, 60, 61, 3599, 3600, 86399, 86400, 604799, 604800, 1209600, 98765432, -1, -75] {
        let d = chrono::Duration::seconds(seconds);
        let expected = if d.num_weeks() > 1 {
            format!("{} weeks", d.num_weeks())
        } else if d.num_weeks() > 0 {
            format!("{} week", d.num_weeks())
        } else if d.num_days() > 1 {
            format!("{} days", d.num_days())
        } else if d.num_days() > 0 {
            format!("{} day", d.num_days())
        } else if d.num_hours() > 1 {
            format!("{} hours", d.num_hours())
        } else if d.num_hours() > 0 {
            format!("{} hour", d.num_hours())
        } else if d.num_minutes() > 1 {
            format!("{} minutes", d.num_minutes())
        } else if d.num_minutes() > 0 {
            format!("{} minute", d.num_minutes())
        } else if d.num_seconds() != 1 {
            format!("{} seconds", d.num_seconds())
        } else {
            format!("{} second", d.num_seconds())
        };
        assert_eq!(human_str(seconds), expected);
    }
}

#[test]
fn the_right_side_of_a_badge_tells_the_duration() {
    let mut options = BadgeOptions::default();
    assert_eq!(options.duration_text(), "n/a");
    options.duration = Some(16 * 3600);
    assert_eq!(options.duration_text(), "16 hours");
}

#[test]
fn numbers_are_written_in_decimal() {
    assert_eq!(decimal_string(0), "0");
    assert_eq!(decimal_string(7), "7");
    assert_eq!(decimal_string(10), "10");
    assert_eq!(decimal_string(503), "503");
    assert_eq!(decimal_string(1234567890), "1234567890");
    assert_eq!(decimal_string(u64::MAX), "18446744073709551615");
    assert_eq!(signed_decimal_string(0), "0");
    assert_eq!(signed_decimal_string(-1), "-1");
    assert_eq!(signed_decimal_string(-120), "-120");
    assert_eq!(signed_decimal_string(i64::MAX), "9223372036854775807");
    assert_eq!(signed_decimal_string(i64::MIN), "-9223372036854775808");
}

#[test]
fn strings_and_their_characters_go_both_ways() {
    assert_eq!(chars_of(""), Vec::<char>::new());
    assert_eq!(chars_of("aé\u{10000}"), vec!['a', 'é', '\u{10000}']);
    assert_eq!(string_of(&vec![]), "");
    assert_eq!(string_of(&vec!['x', 'ß', 'y']), "xßy");
}

fn drawn(options: &BadgeOptions, left_text: u32, right_text: u32) -> String {
    let mute = r#"<path
     d="m 9.7196219,4.2202987 -2.7802854,2.7796601 -3.1893438,0 C 3.3356217,6.9999588 3,7.3355788 3,7.7499488 l 0,4.4999592 c 0,0.41405 0.3356217,0.74999 0.7499927,0.74999 l 3.1893438,0 2.7802854,2.77966 c 0.4696831,0.46968 1.2803001,0.13969 1.2803001,-0.53031 l 0,-10.4986493 c 0,-0.67061 -0.811242,-0.99936 -1.2803001,-0.5303 z m 7.7064871,5.7796295 1.426236,-1.426239 c 0.196873,-0.19687 0.196873,-0.51624 0,-0.7131204 l -0.713118,-0.71311 c -0.196873,-0.19688 -0.516245,-0.19688 -0.713118,0 L 15.999873,8.5736892 14.573637,7.1474588 c -0.196873,-0.19688 -0.516245,-0.19688 -0.713118,0 l -0.713118,0.71311 c -0.196873,0.1968804 -0.196873,0.5162504 0,0.7131204 l 1.426236,1.426239 -1.425924,1.4259198 c -0.196873,0.19688 -0.196873,0.51625 0,0.71312 l 0.713118,0.71312 c 0.196874,0.19687 0.516245,0.19687 0.713118,0 l 1.425924,-1.42593 1.426236,1.42624 c 0.196873,0.19687 0.516245,0.19687 0.713118,0 l 0.713118,-0.71312 c 0.196873,-0.19687 0.196873,-0.51624 0,-0.71312 L 17.426109,9.9999282 Z"
     />"#;
    let duration = options.duration_text();
    let left_width = left_text + 6;
    let right_width = right_text + 6;
    let offset = if options.muted { 20 } else { 0 };
    format!(
        r###"<svg xmlns="http://www.w3.org/2000/svg" xmlns:xlink="http://www.w3.org/1999/xlink" width="{}" height="{}">
  <linearGradient id="smooth" x2="0" y2="100%">
    <stop offset="0" stop-color="#bbb" stop-opacity=".1"/>
    <stop offset="1" stop-opacity=".1"/>
  </linearGradient>

  <mask id="round">
    <rect width="{}" height="20" rx="3" fill="#fff"/>
  </mask>

  <g mask="url(#round)">
    <rect width="{}" height="20" fill="{}"/>
    <rect x="{}" width="{}" height="20" fill="#555"/>
    <rect width="{}" height="20" fill="url(#smooth)"/>
  </g>

  <g fill="#fff" text-anchor="middle" font-family="DejaVu Sans,Verdana,Geneva,sans-serif" font-size="11">
    {}
    <text x="{}" y="15" fill="#010101" fill-opacity=".3">{}</text>
    <text x="{}" y="14">{}</text>
    <text x="{}" y="15" fill="#010101" fill-opacity=".3">{}</text>
    <text x="{}" y="14">{}</text>
  </g>
</svg>"###,
        options.width.unwrap_or(offset + left_width + right_width),
        options.height.unwrap_or(20),
        offset + left_width + right_width,
        offset + left_width,
        options.color,
        offset + left_width,
        right_width,
        offset + left_width + right_width,
        if options.muted { mute } else { "" },
        offset + (left_width) / 2,
        &options.status,
        offset + (left_width) / 2,
        &options.status,
        offset + left_width + (right_width / 2),
        &duration,
        offset + left_width + (right_width / 2),
        &duration
    )
}

#[test]
fn a_badge_is_drawn_as_svg() {
    let alert = BadgeOptions {
        duration: Some(16 * 3600),
        status: "ALERT".to_owned(),
        muted: true,
        color: COLOR_WARNING.to_string(),
        ..BadgeOptions::default()
    };
    let sized = BadgeOptions { width: Some(200), height: Some(40), ..BadgeOptions::default() };
    for options in [BadgeOptions::default(), alert, sized] {
        for (left, right) in [(0, 0), (31, 48), (37, 51), (1000, 7)] {
            let badge = Badge::new(options.clone(), left, right);
            assert_eq!(badge.to_svg(), drawn(&options, left, right));
        }
    }
}

#[test]
fn the_parts_of_a_badge_stand_where_they_belong() {
    let svg = Badge::new(BadgeOptions::default(), 31, 48).to_svg();
    assert!(svg.starts_with(
        "<svg xmlns=\"http://www.w3.org/2000/svg\" xmlns:xlink=\"http://www.w3.org/1999/xlink\" width=\"91\" height=\"20\">\n"
    ));
    assert!(svg.contains("<rect width=\"91\" height=\"20\" rx=\"3\" fill=\"#fff\"/>"));
    assert!(svg.contains("<rect width=\"37\" height=\"20\" fill=\"#4c1\"/>"));
    assert!(svg.contains("<rect x=\"37\" width=\"54\" height=\"20\" fill=\"#555\"/>"));
    assert!(svg.contains("<text x=\"18\" y=\"14\">Ok</text>"));
    assert!(svg.contains("<text x=\"64\" y=\"14\">n/a</text>"));
    assert!(svg.ends_with("</text>\n  </g>\n</svg>"));
    assert!(!svg.contains("<path"));
    let muted = BadgeOptions { muted: true, ..BadgeOptions::default() };
    let svg = Badge::new(muted, 31, 48).to_svg();
    assert!(svg.contains("width=\"111\" height=\"20\">"));
    assert!(svg.contains("<rect width=\"57\" height=\"20\" fill=\"#4c1\"/>"));
    assert!(svg.contains("<text x=\"38\" y=\"14\">Ok</text>"));
    assert!(svg.contains("<text x=\"84\" y=\"14\">n/a</text>"));
    assert!(svg.contains("<path"));
}

#[test]
fn widths_that_a_pixel_count_can_hold_are_drawn() {
    let svg = Badge::new(BadgeOptions::default(), u32::MAX, u32::MAX).to_svg();
    assert!(svg.contains("<rect width=\"8589934602\" height=\"20\" rx=\"3\""));
    assert!(svg.contains("<rect x=\"4294967301\" width=\"4294967301\""));
}

#[test]
fn a_badge_is_held_by_a_data_address() {
    let badge = Badge::new(BadgeOptions::default(), 31, 48);
    let uri = badge.to_svg_data_uri();
    let head = "data:image/svg+xml;base64,";
    assert!(uri.starts_with(head));
    assert!(uri[head.len()..].starts_with("PHN2ZyB4bWxucz0i"));
    let decoded = STANDARD.decode(&uri[head.len()..]).unwrap();
    assert_eq!(String::from_utf8(decoded).unwrap(), badge.to_svg());
}

#[test]
fn numbers_are_read_as_the_standard_library_reads_them() {
    let texts = [
        "", "+", "-", "0", "+0", "-0", "00", "007", "+007", "++7", "7+", "15", " 15", "15 ", "1_5",
        "1.5", "0x10", "१५", "１５", "18446744073709551615", "18446744073709551616",
        "+18446744073709551615", "99999999999999999999", "000000000000000000000000000000012",
        "18446744073709551610", "1844674407370955161", "184467440737095516150",
    ];
    for text in texts {
        assert_eq!(parse_u64(text), text.parse::<u64>().ok());
    }
    for n in [0u64, 9, 10, 99, 100, 12345, u64::MAX - 1, u64::MAX] {
        assert_eq!(parse_u64(&decimal_string(n)), Some(n));
    }
}
