use xcop::extract_plain_str_from_html;
use xcop::utils::next_backoff;
use xcop::Rand;

#[test]
fn test_extract_plain_str_from_html() {
    // Test case: basic HTML
    assert_eq!(extract_plain_str_from_html("<b>Hello</b>"), "Hello");

    // Test case: nested tags
    assert_eq!(
        extract_plain_str_from_html("<div><p>Test</p></div>"),
        "Test"
    );

    // Test case: text with multiple tags
    assert_eq!(
        extract_plain_str_from_html("<h1>Title</h1> <p>Paragraph</p>"),
        "Title Paragraph"
    );

    // Test case: HTML with attributes
    assert_eq!(
        extract_plain_str_from_html("<a href='https://example.com'>Link</a>"),
        "Link"
    );

    // Test case: empty string
    assert_eq!(extract_plain_str_from_html(""), "");

    // Test case: plain text without tags
    assert_eq!(extract_plain_str_from_html("Just text"), "Just text");

    // Test case: incorrectly formatted HTML
    assert_eq!(extract_plain_str_from_html("<b>Bold text"), "Bold text");

    // Test case: multiple consecutive tags
    assert_eq!(
        extract_plain_str_from_html("<i><b>Styled</b></i>"),
        "Styled"
    );
}

#[test]
fn html_keeps_multibyte_text_and_drops_unclosed_tag() {
    assert_eq!(extract_plain_str_from_html("<p>Grüße, 世界</p>"), "Grüße, 世界");
    assert_eq!(extract_plain_str_from_html("a<b"), "a");
    assert_eq!(extract_plain_str_from_html("a>b"), "ab");
}

#[test]
fn xorshift_yields_known_sequence() {
    let mut r = Rand::new(7);
    assert_eq!(r.rand(), 3701702101);
    assert_eq!(r.rand(), 458299110);
    assert_eq!(r.rand(), 2500872618);
}

#[test]
fn rand_range_stays_inside_bounds() {
    let mut r = Rand::new(7);
    assert_eq!(r.rand_range(-5, 5), 4);
    assert_eq!(r.rand_range(-5, 5), 0);
    assert_eq!(r.rand_range(-5, 5), -3);
    let mut q = Rand::new(1);
    for _ in 0..100 {
        let v = q.rand_range(10, 12);
        assert!((10..=12).contains(&v));
    }
}

#[test]
fn backoff_doubles_until_attempts_run_out() {
    assert_eq!(next_backoff(0, 5, 100), Some(100));
    assert_eq!(next_backoff(1, 5, 100), Some(200));
    assert_eq!(next_backoff(4, 5, 100), Some(1600));
    assert_eq!(next_backoff(5, 5, 100), None);
    assert_eq!(next_backoff(9, 5, 100), None);
}
