use upkeep::news::{
    check_requires_attention, decode_html_entities, decode_numeric_entities,
    find_related_packages, format_pub_date, format_short_date, parse_rss_feed, strip_html,
    word_in_text, NewsItem,
};

fn chars(s: &str) -> Vec<char> {
    s.chars().collect()
}

#[test]
fn test_strip_html() {
    let html = "<p>Hello <strong>world</strong>!</p>";
    let result = strip_html(html);
    assert_eq!(result, "Hello world!");
}

#[test]
fn test_check_requires_attention() {
    assert!(check_requires_attention("Manual intervention required"));
    assert!(check_requires_attention("Please do this immediately"));
    assert!(!check_requires_attention("Regular update available"));
}

#[test]
fn test_find_related_packages() {
    let installed = vec!["grub".to_string(), "linux".to_string(), "go".to_string()];
    let text = "The grub package needs updating";
    let related = find_related_packages(text, &installed);
    assert!(related.contains(&"grub".to_string()));
    assert!(!related.contains(&"go".to_string()));
}

#[test]
fn test_find_related_packages_variants() {
    let installed = vec![
        "grub".to_string(),
        "grub-btrfs".to_string(),
        "python-numpy".to_string(),
    ];
    let text = "Users of grub need to regenerate config";
    let related = find_related_packages(text, &installed);
    assert!(related.contains(&"grub".to_string()));
    assert!(related.contains(&"grub-btrfs".to_string()));
    assert!(!related.contains(&"python-numpy".to_string()));
}

#[test]
fn test_word_boundaries() {
    let installed = vec!["mesa".to_string(), "lib".to_string()];
    let text = "Update your mesa drivers";
    let related = find_related_packages(text, &installed);
    assert!(related.contains(&"mesa".to_string()));

    let text2 = "gamescope update available";
    let related2 = find_related_packages(text2, &installed);
    assert!(!related2.contains(&"mesa".to_string()));
}

#[test]
fn test_format_pub_date() {
    let date = "Fri, 20 Dec 2024 00:00:00 +0000";
    assert_eq!(format_pub_date(date), "Dec 20, 2024");
}

#[test]
fn test_html_entity_decoding() {
    assert_eq!(
        strip_html("&lt;script&gt; &amp; &quot;test&quot;"),
        "<script> & \"test\""
    );
    assert_eq!(strip_html("test&mdash;value"), "test\u{2014}value");
    assert_eq!(strip_html("a&ndash;b"), "a\u{2013}b");
    assert_eq!(strip_html("wait&hellip;"), "wait\u{2026}");
    assert_eq!(
        strip_html("&ldquo;quoted&rdquo;"),
        "\u{201C}quoted\u{201D}"
    );
    assert_eq!(
        strip_html("&lsquo;single&rsquo;"),
        "\u{2018}single\u{2019}"
    );
}

#[test]
fn test_numeric_entity_decoding() {
    assert_eq!(strip_html("&#39;"), "'");
    assert_eq!(strip_html("&#34;"), "\"");
    assert_eq!(strip_html("&#169;"), "©");
    assert_eq!(strip_html("&#x27;"), "'");
    assert_eq!(strip_html("&#x22;"), "\"");
    assert_eq!(strip_html("&#xA9;"), "©");
    assert_eq!(
        strip_html("It&#39;s &ldquo;great&rdquo;"),
        "It's \u{201C}great\u{201D}"
    );
}

#[test]
fn grub_prefix_matches_but_not_inside_longer_word() {
    let installed = vec!["grub-btrfs".to_string()];
    let related = find_related_packages("A grub update is out", &installed);
    assert_eq!(related, vec!["grub-btrfs".to_string()]);
    let installed = vec!["grubby".to_string()];
    let related = find_related_packages("A grub update is out", &installed);
    assert!(related.is_empty());
}

#[test]
fn related_packages_ignore_case_and_keep_order() {
    let installed = vec!["linux".to_string(), "mesa".to_string(), "vim".to_string()];
    let related = find_related_packages("MESA and Linux news", &installed);
    assert_eq!(related, vec!["linux".to_string(), "mesa".to_string()]);
}

#[test]
fn hyphen_after_word_is_no_boundary() {
    assert!(!word_in_text(&chars("mesa-utils released"), &chars("mesa")));
    assert!(word_in_text(&chars("(mesa) released"), &chars("mesa")));
    assert!(!word_in_text(&chars("libmesa"), &chars("mesa")));
}

#[test]
fn attention_phrases() {
    assert!(check_requires_attention("This is a BREAKING CHANGE"));
    assert!(check_requires_attention("Config must be migrated"));
    assert!(!check_requires_attention("Nothing to see"));
}

#[test]
fn numeric_references_without_character_stay() {
    assert_eq!(decode_numeric_entities("a&#;b"), "a&#b");
    assert_eq!(decode_numeric_entities("&#xZZ"), "&#xZZ");
    assert_eq!(decode_numeric_entities("&#55296;"), "&#55296");
    assert_eq!(decode_numeric_entities("&#99999999999;x"), "&#99999999999x");
    assert_eq!(decode_numeric_entities("&#65&#66;"), "AB");
}

#[test]
fn named_then_numeric_entities() {
    assert_eq!(decode_html_entities("&amp;#39;"), "'");
    assert_eq!(decode_html_entities("&copy; &reg; &trade;"), "© ® ™");
}

#[test]
fn strip_html_lists_and_blank_lines() {
    let html = "<ul><li>one</li><li>two</li></ul>\n\n  <p>  end  </p>";
    assert_eq!(strip_html(html), "- one\n- two\nend");
}

#[test]
fn short_date_and_odd_dates() {
    assert_eq!(format_short_date("Dec 20, 2024"), "Dec 20");
    assert_eq!(format_short_date("no comma"), "no comma");
    assert_eq!(format_pub_date("20 Dec"), "20 Dec");
}

#[test]
fn news_item_details_split_lines() {
    let item = NewsItem {
        title: "T".to_string(),
        link: "L".to_string(),
        description: "one\ntwo".to_string(),
        author: "A".to_string(),
        pub_date: "D".to_string(),
        requires_attention: false,
        related_packages: vec!["x".to_string()],
    };
    let info = item.to_info();
    assert_eq!(info.content, vec!["one".to_string(), "two".to_string()]);
    assert_eq!(info.date, "D");
    assert_eq!(info.related_packages, vec!["x".to_string()]);
}

#[test]
fn rss_feed_is_read_into_items() {
    let xml = r#"<?xml version="1.0"?><rss version="2.0"><channel><title>News</title><link>https://example.org</link><description>d</description>
<item><title>Manual intervention for grub</title><link>https://example.org/1</link><description>&lt;p&gt;Users of grub must act&lt;/p&gt;</description><pubDate>Fri, 20 Dec 2024 00:00:00 +0000</pubDate></item>
</channel></rss>"#;
    let installed = vec!["grub-btrfs".to_string(), "vim".to_string()];
    let items = parse_rss_feed(xml, &installed).unwrap();
    assert_eq!(items.len(), 1);
    assert_eq!(items[0].title, "Manual intervention for grub");
    assert_eq!(items[0].description, "Users of grub must act");
    assert_eq!(items[0].pub_date, "Dec 20, 2024");
    assert!(items[0].requires_attention);
    assert_eq!(items[0].related_packages, vec!["grub-btrfs".to_string()]);
}

#[test]
fn malformed_feed_is_an_error() {
    let installed: Vec<String> = Vec::new();
    let r = parse_rss_feed("not xml at all", &installed);
    assert!(r.is_err());
}
