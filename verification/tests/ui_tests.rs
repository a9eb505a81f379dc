use flare::attachment::AttachmentType;
use flare::ui::{
    channel_clear_confirmed, channel_filter, clear_messages_removes, compare_channels, date_label, date_label_text, disappearing_timer_parts,
    fix_emoji, format_disappearing_messages_timer, format_last_message, letter_of,
    markup_escape_text, markup_urls, never_msgid, part_plural_args, picked_emoji, section_key_of, section_starts,
    should_autoload, should_send, shows_as_emoji, sort_order_by_text, strip_captcha_prefix,
    timestamp_with_date, unit_texts, widget_for, AttachmentWidget, DateLabel, ListOrder, TimeUnit,
    StoredData, Utility,
};

#[test]
fn utility_helpers() {
    assert!(Utility::not(false));
    assert!(Utility::or(false, true));
    assert!(!Utility::and(true, false));
    assert!(Utility::is_some(&Some(1)));
    assert!(Utility::is_none::<u8>(&None));
    assert!(!Utility::is_empty(None));
    assert!(Utility::is_empty(Some(String::new())));
    assert!(Utility::not_empty(Some("x".to_string())));
    assert!(!Utility::not_empty(None));
    assert!(Utility::uint_equal(3, 3));
    assert!(!Utility::uint_equal(3, -3));
    assert_eq!(Utility::resize_width(100), 100);
    assert_eq!(Utility::resize_width(1000), 250);
}

#[test]
fn timer_parts_and_text() {
    assert_eq!(
        disappearing_timer_parts(694_861),
        vec![(TimeUnit::Week, 1), (TimeUnit::Hour, 1), (TimeUnit::Day, 1), (TimeUnit::Minute, 1), (TimeUnit::Second, 1)]
    );
    assert_eq!(disappearing_timer_parts(3600), vec![(TimeUnit::Hour, 1)]);
    assert_eq!(unit_texts(TimeUnit::Day), ("{} day", "{} days"));
    assert_eq!(format_disappearing_messages_timer(0), "Never");
    assert_eq!(format_disappearing_messages_timer(7_200), "2 hours");
    assert_eq!(format_disappearing_messages_timer(90_061), "1 hour 1 day 1 minute 1 second");
}

#[test]
fn date_labels() {
    assert_eq!(date_label(2024, 100, 2024, 100), DateLabel::Today);
    assert_eq!(date_label(2024, 100, 2024, 99), DateLabel::Yesterday);
    assert_eq!(date_label(2024, 1, 2023, 365), DateLabel::WithYear);
    assert_eq!(date_label(2024, 100, 2024, 50), DateLabel::WithoutYear);
    assert_eq!(date_label_text(DateLabel::WithYear), "%Y-%m-%d");
    assert!(timestamp_with_date(Some(24)));
    assert!(!timestamp_with_date(Some(23)));
    assert!(!timestamp_with_date(None));
}

#[test]
fn markup_escaping() {
    assert_eq!(markup_escape_text("a<b & 'c' \"d\">"), "a&lt;b &amp; &#39;c&#39; &quot;d&quot;&gt;");
    assert_eq!(markup_escape_text("bell\u{7}"), "bell&#x7;");
    assert_eq!(markup_escape_text("tab\tok"), "tab\tok");
}

#[test]
fn last_message_lines() {
    assert_eq!(format_last_message(true, "Bob is typing", "draft", "Draft", None, false), "Bob is typing");
    assert_eq!(
        format_last_message(false, "", "a<b", "Draft", Some(("Bob", "hi")), true),
        "<span font-weight='500'>Draft:</span> a&lt;b"
    );
    assert_eq!(
        format_last_message(false, "", "", "Draft", Some(("Bob & co", "hi")), true),
        "<span font-weight='500'>Bob &amp; co:</span> hi"
    );
    assert_eq!(format_last_message(false, "", "", "Draft", Some(("Bob", "1 < 2")), false), "1 &lt; 2");
    assert_eq!(format_last_message(false, "", "", "Draft", None, false), "");
}

#[test]
fn channel_list_filter_and_order() {
    assert!(channel_filter("Alice Liddell", "LIDD", true, false));
    assert!(!channel_filter("Alice", "bob", true, true));
    assert!(!channel_filter("Alice", "ali", false, false));
    assert!(channel_filter("Alice", "", false, true));
    assert_eq!(compare_channels(Some(1), None, "a", "b"), ListOrder::Larger);
    assert_eq!(compare_channels(None, Some(1), "a", "b"), ListOrder::Smaller);
    assert_eq!(compare_channels(Some(5), Some(3), "a", "b"), ListOrder::Smaller);
    assert_eq!(compare_channels(Some(3), Some(3), "a", "b"), ListOrder::Larger);
    assert_eq!(compare_channels(None, None, "a", "b"), ListOrder::Smaller);
    assert_eq!(compare_channels(None, None, "b", "a"), ListOrder::Larger);
}

#[test]
fn contact_list_sections() {
    assert_eq!(letter_of(Some("émile")), Some("É".to_string()));
    assert_eq!(letter_of(Some("")), None);
    assert_eq!(letter_of(None), None);
    assert_eq!(section_key_of("Bob"), "b");
    assert_eq!(section_key_of(""), "\0");
    let names = vec!["bob".to_string(), "Alice".to_string(), "anna".to_string(), "Bea".to_string()];
    assert_eq!(sort_order_by_text(&names), vec![1, 3, 2, 0]);
    let sorted = vec!["Alice".to_string(), "anna".to_string(), "Bea".to_string(), "bob".to_string()];
    assert_eq!(section_starts(&sorted), vec![0, 2]);
    assert_eq!(section_starts(&Vec::new()), Vec::<usize>::new());
}

#[test]
fn emoji_handling() {
    assert_eq!(fix_emoji(Some("\u{2764}".to_string())), Some("\u{2764}\u{fe0f}".to_string()));
    assert_eq!(fix_emoji(Some("👍".to_string())), Some("👍".to_string()));
    assert_eq!(fix_emoji(None), None);
    assert_eq!(picked_emoji("\u{2764}\u{fe0f}\u{fe0f}"), "\u{2764}\u{fe0f}");
    assert!(shows_as_emoji(Some("👍 🎉")));
    assert!(!shows_as_emoji(Some("hi 👍")));
    assert!(!shows_as_emoji(None));
}

#[test]
fn links_become_markup_links() {
    assert_eq!(
        markup_urls(Some("see https://example.org/a?b=1 now")),
        Some("see <a href=\"https://example.org/a?b=1\">https://example.org/a?b=1</a> now".to_string())
    );
    assert_eq!(markup_urls(Some("no <links>")), Some("no &lt;links&gt;".to_string()));
    assert_eq!(markup_urls(None), None);
}

#[test]
fn captcha_keys_and_attachments() {
    assert_eq!(strip_captcha_prefix("signalcaptcha://abc.def"), "abc.def");
    assert_eq!(strip_captcha_prefix("abc"), "abc");
    assert!(should_send(true, true, false, false));
    assert!(!should_send(true, true, false, true));
    assert!(should_send(true, false, true, false));
    assert!(!should_send(false, true, false, false));
    assert!(should_autoload(Some(AttachmentType::Image), true, false, false, false));
    assert!(!should_autoload(None, true, false, false, false));
    assert!(should_autoload(Some(AttachmentType::File), false, false, false, true));
    assert!(!should_autoload(Some(AttachmentType::Gif), true, true, true, true));
    assert_eq!(widget_for(AttachmentType::Gif), AttachmentWidget::Photo);
    assert_eq!(widget_for(AttachmentType::Audio), AttachmentWidget::Audio);
}

#[test]
fn dialogs_and_shortcuts() {
    use_unlink_and_shortcuts();
}

fn use_unlink_and_shortcuts() {
    assert_eq!(flare::ui::unlink_removes("unlink-keep"), vec![flare::ui::StoredData::Registration]);
    assert_eq!(flare::ui::unlink_removes("unlink-delete").len(), 4);
    assert!(flare::ui::unlink_removes("cancel").is_empty());
    assert_eq!(flare::ui::shortcut_row(3), 2);
    assert_eq!(flare::ui::shortcut_row(0), 0);
    assert_eq!(flare::ui::shortcut_row(-5), 0);
}

#[test]
fn timer_translation_arguments() {
    assert_eq!(never_msgid(), "Never");
    assert_eq!(part_plural_args((TimeUnit::Hour, 2)), ("{} hour", "{} hours", 2));
    assert_eq!(part_plural_args((TimeUnit::Week, 1)), ("{} week", "{} weeks", 1));
}

#[test]
fn clear_dialog_responses() {
    assert_eq!(clear_messages_removes("clear"), vec![StoredData::Messages]);
    assert_eq!(clear_messages_removes("cancel"), Vec::<StoredData>::new());
    assert!(channel_clear_confirmed("remove"));
    assert!(!channel_clear_confirmed("cancel"));
}
