use markplus_render::template::date_fmt_outcome;
use markplus_render::filters::{filter_date_fmt, filter_safe_html, filter_slugify, month_name};

#[test]
fn slugify_filter_example() {
    assert_eq!(filter_slugify("Hello, World! (2026)"), "hello-world-2026");
}

#[test]
fn date_fmt_default_format() {
    assert_eq!(filter_date_fmt("2026-06-07", "%B %d, %Y"), "June 07, 2026");
}

#[test]
fn date_fmt_iso_format() {
    assert_eq!(filter_date_fmt("2026-06-07", "%Y-%m-%d"), "2026-06-07");
}

#[test]
fn date_fmt_month_and_year() {
    assert_eq!(filter_date_fmt("2026-06-07", "%B %Y"), "June 2026");
}

#[test]
fn date_fmt_keeps_time_suffix_out() {
    assert_eq!(filter_date_fmt("2026-01-05T10:00:00Z", "%d/%m/%Y"), "05/01/2026");
}

#[test]
fn date_fmt_pads_short_fields() {
    assert_eq!(filter_date_fmt("0099-1-2x", "%Y|%m|%d"), "0099-1-2x");
    assert_eq!(filter_date_fmt("99-01-0002", "%Y|%m|%d"), "0099|01|02");
}

#[test]
fn date_fmt_out_of_range_dates_pass_through() {
    assert_eq!(filter_date_fmt("2026-13-01", "%B|%m"), "2026-13-01");
    assert_eq!(filter_date_fmt("2026-13-45", "%B %d, %Y"), "2026-13-45");
    assert_eq!(filter_date_fmt("2026-00-10", "%Y"), "2026-00-10");
    assert_eq!(filter_date_fmt("2026-06-00", "%Y"), "2026-06-00");
    assert_eq!(filter_date_fmt("2026-06-32", "%Y"), "2026-06-32");
    assert_eq!(filter_date_fmt("2026-12-31", "%B %d"), "December 31");
}

#[test]
fn date_fmt_passes_non_dates_through() {
    assert_eq!(filter_date_fmt("not a date at all", "%Y"), "not a date at all");
    assert_eq!(filter_date_fmt("2026-06", "%Y"), "2026-06");
    assert_eq!(filter_date_fmt("2026-06-0a", "%Y"), "2026-06-0a");
    assert_eq!(filter_date_fmt("", "%Y"), "");
}

#[test]
fn date_fmt_reads_only_the_first_ten_characters() {
    assert_eq!(filter_date_fmt("2026-06-301", "%d"), "30");
    assert_eq!(filter_date_fmt("2026-06-999", "%d"), "2026-06-999");
    assert_eq!(filter_date_fmt("2026-0-6-99", "%d"), "2026-0-6-99");
}

#[test]
fn month_names() {
    assert_eq!(month_name(1), "January");
    assert_eq!(month_name(6), "June");
    assert_eq!(month_name(12), "December");
    assert_eq!(month_name(0), "");
    assert_eq!(month_name(13), "");
}

#[test]
fn safe_html_escapes_all_special_characters() {
    assert_eq!(filter_safe_html("<script>"), "&lt;script&gt;");
    assert_eq!(filter_safe_html("a & b \"c\" 'd'"), "a &amp; b &quot;c&quot; &#39;d&#39;");
    assert_eq!(filter_safe_html("plain"), "plain");
}

#[test]
fn date_fmt_outcome_follows_the_format_argument() {
    match date_fmt_outcome("2026-06-07", Ok(Some("%d/%m/%Y".to_string()))) {
        Ok(s) => assert_eq!(s, "07/06/2026"),
        Err(e) => panic!("{}", e),
    }
    match date_fmt_outcome("2026-06-07", Ok(None)) {
        Ok(s) => assert_eq!(s, "June 07, 2026"),
        Err(e) => panic!("{}", e),
    }
    let err = minijinja::Error::new(minijinja::ErrorKind::InvalidOperation, "bad format");
    match date_fmt_outcome("2026-06-07", Err(err)) {
        Err(e) => assert!(e.to_string().contains("bad format")),
        Ok(s) => panic!("unexpected {}", s),
    }
}
