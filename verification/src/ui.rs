//! The decisions of the user interface: small helpers of the templates, how durations and
//! dates are put into words, how the channel list filters and orders its channels, how the
//! last message of a channel is shown, and what a key press or a pasted link means.
use vstd::prelude::*;

use crate::attachment::AttachmentType;
use crate::devices::{parse_url, url_of_text};
use crate::i18n::{gettext, ngettext};
use crate::text::{
    contains_seq, decimal, decimal_string, hex, join, join_strings, owned, push_char, push_hex,
    replace, replace_all, seq_lt, starts_with, str_contains, str_eq, str_lt, str_starts_with,
    sub_string, utf8_char_len, utf8_len, views,
};

verus! {

/// The widest that a picture or video is shown, in pixels.
pub const MAX_MEDIA_WIDTH: i32 = 250;

/// Helpers that the interface templates call.
pub struct Utility {}

impl Utility {
    /// Negation.
    pub fn not(b: bool) -> (r: bool)
        ensures
            r == !b,
    {
        !b
    }

    /// Disjunction.
    pub fn or(b1: bool, b2: bool) -> (r: bool)
        ensures
            r == (b1 || b2),
    {
        b1 || b2
    }

    /// Conjunction.
    pub fn and(b1: bool, b2: bool) -> (r: bool)
        ensures
            r == (b1 && b2),
    {
        b1 && b2
    }

    /// Whether there is a value.
    pub fn is_some<T>(opt: &Option<T>) -> (r: bool)
        ensures
            r == opt.is_some(),
    {
        opt.is_some()
    }

    /// Whether there is no value.
    pub fn is_none<T>(opt: &Option<T>) -> (r: bool)
        ensures
            r == opt.is_none(),
    {
        opt.is_none()
    }

    /// Whether there is a text and it is empty.
    pub fn is_empty(s: Option<String>) -> (r: bool)
        ensures
            r == (s matches Some(x) && x@.len() == 0),
    {
        match s {
            Some(x) => x.unicode_len() == 0,
            None => false,
        }
    }

    /// Whether there is a text and it is not empty.
    pub fn not_empty(s: Option<String>) -> (r: bool)
        ensures
            r == (s matches Some(x) && x@.len() > 0),
    {
        match s {
            Some(x) => x.unicode_len() > 0,
            None => false,
        }
    }

    /// Whether an unsigned number, taken as a signed one, equals a signed number.
    pub fn uint_equal(i1: u32, i2: i32) -> (r: bool)
        ensures
            r == ((i1 as i32) == i2),
    {
        #[verifier::truncate]
        let a = i1 as i32;
        a == i2
    }

    /// The width at which media of the given width are shown: the width itself, taken as a
    /// signed number, where that is below the widest, else the widest.
    pub fn resize_width(width: u32) -> (r: i32)
        ensures
            r == if (width as i32) < MAX_MEDIA_WIDTH {
                width as i32
            } else {
                MAX_MEDIA_WIDTH
            },
    {
        #[verifier::truncate]
        let w = width as i32;
        if w < MAX_MEDIA_WIDTH {
            w
        } else {
            MAX_MEDIA_WIDTH
        }
    }
}

/// A unit of a duration.
#[derive(Clone, Copy, Debug, PartialEq, Eq, Structural)]
pub enum TimeUnit {
    Week,
    Day,
    Hour,
    Minute,
    Second,
}

/// Seconds in a week.
pub const WEEK_SECONDS: u32 = 604800;

/// Seconds in a day.
pub const DAY_SECONDS: u32 = 86400;

/// Seconds in an hour.
pub const HOUR_SECONDS: u32 = 3600;

/// The part of a duration in `unit`, where it is there.
pub open spec fn part_if(unit: TimeUnit, n: u32) -> Seq<(TimeUnit, u32)> {
    if n > 0 {
        seq![(unit, n)]
    } else {
        seq![]
    }
}

/// The parts of a duration of `time` seconds, in the order weeks, hours, days, minutes,
/// seconds: whole weeks, then whole days, hours and minutes of what is left, and the seconds
/// that are left; parts that are 0 are left out.
pub open spec fn timer_parts(time: u32) -> Seq<(TimeUnit, u32)> {
    let weeks = time / WEEK_SECONDS;
    let r1 = time % WEEK_SECONDS;
    let days = r1 / DAY_SECONDS;
    let r2 = r1 % DAY_SECONDS;
    let hours = r2 / HOUR_SECONDS;
    let r3 = r2 % HOUR_SECONDS;
    let minutes = r3 / 60;
    let seconds = r3 % 60;
    part_if(TimeUnit::Week, weeks as u32) + part_if(TimeUnit::Hour, hours as u32) + part_if(
        TimeUnit::Day,
        days as u32,
    ) + part_if(TimeUnit::Minute, minutes as u32) + part_if(TimeUnit::Second, seconds as u32)
}

/// Appends the part of a duration in `unit`, where it is there.
fn push_part(v: &mut Vec<(TimeUnit, u32)>, unit: TimeUnit, n: u32)
    ensures
        final(v)@ == old(v)@ + part_if(unit, n),
{
    if n > 0 {
        v.push((unit, n));
        assert(final(v)@ =~= old(v)@ + part_if(unit, n));
    } else {
        assert(old(v)@ + part_if(unit, n) =~= old(v)@);
    }
}

/// The parts of a duration (see [timer_parts]).
pub fn disappearing_timer_parts(time: u32) -> (r: Vec<(TimeUnit, u32)>)
    ensures
        r@ == timer_parts(time),
{
    let weeks = time / WEEK_SECONDS;
    let r1 = time % WEEK_SECONDS;
    let days = r1 / DAY_SECONDS;
    let r2 = r1 % DAY_SECONDS;
    let hours = r2 / HOUR_SECONDS;
    let r3 = r2 % HOUR_SECONDS;
    let minutes = r3 / 60;
    let seconds = r3 % 60;
    let mut v: Vec<(TimeUnit, u32)> = Vec::new();
    push_part(&mut v, TimeUnit::Week, weeks);
    push_part(&mut v, TimeUnit::Hour, hours);
    push_part(&mut v, TimeUnit::Day, days);
    push_part(&mut v, TimeUnit::Minute, minutes);
    push_part(&mut v, TimeUnit::Second, seconds);
    assert(v@ =~= timer_parts(time));
    v
}

/// The untranslated singular and plural texts of a unit.
pub open spec fn unit_msgids(u: TimeUnit) -> (Seq<char>, Seq<char>) {
    match u {
        TimeUnit::Week => ("{} week"@, "{} weeks"@),
        TimeUnit::Day => ("{} day"@, "{} days"@),
        TimeUnit::Hour => ("{} hour"@, "{} hours"@),
        TimeUnit::Minute => ("{} minute"@, "{} minutes"@),
        TimeUnit::Second => ("{} second"@, "{} seconds"@),
    }
}

/// The untranslated texts of a unit (see [unit_msgids]).
pub fn unit_texts(u: TimeUnit) -> (r: (&'static str, &'static str))
    ensures
        (r.0@, r.1@) == unit_msgids(u),
{
    match u {
        TimeUnit::Week => ("{} week", "{} weeks"),
        TimeUnit::Day => ("{} day", "{} days"),
        TimeUnit::Hour => ("{} hour", "{} hours"),
        TimeUnit::Minute => ("{} minute", "{} minutes"),
        TimeUnit::Second => ("{} second", "{} seconds"),
    }
}

/// What a part of a duration hands to the plural translation: the unit's singular and plural
/// texts (see [unit_msgids]) and the part's number, which picks the form.
pub fn part_plural_args(part: (TimeUnit, u32)) -> (r: (&'static str, &'static str, u32))
    ensures
        (r.0@, r.1@) == unit_msgids(part.0),
        r.2 == part.1,
{
    let (one, many) = unit_texts(part.0);
    (one, many, part.1)
}

/// The untranslated text of a timer that never runs out.
pub fn never_msgid() -> (r: &'static str)
    ensures
        r@ == "Never"@,
{
    "Never"
}

/// A duration in words for the translations `templates` of its parts: each part's translation
/// with `{}` replaced by its number, separated by spaces.
pub open spec fn timer_text(parts: Seq<(TimeUnit, u32)>, templates: Seq<Seq<char>>) -> Seq<char> {
    join(filled_parts(parts, templates), " "@)
}

/// Each part's translation with `{}` replaced by its number.
pub open spec fn filled_parts(parts: Seq<(TimeUnit, u32)>, templates: Seq<Seq<char>>) -> Seq<
    Seq<char>,
> {
    Seq::new(
        parts.len(),
        |i: int| replace_all(templates[i], "{}"@, decimal(parts[i].1 as nat)),
    )
}

/// The time after which the messages of a channel disappear, in words: the translation of
/// [never_msgid] for 0; else its [parts](timer_parts), each translated (with the texts and the
/// number of [part_plural_args]) and filled in with its number, separated by spaces (see
/// [timer_text]).
pub fn format_disappearing_messages_timer(time: u32) -> (r: String)
    ensures
        time > 0 ==> exists|templates: Seq<Seq<char>>|
            templates.len() == timer_parts(time).len() && r@ == timer_text(
                timer_parts(time),
                templates,
            ),
{
    if time == 0 {
        let id = never_msgid();
        proof {
            reveal_strlit("Never");
        }
        return gettext(id);
    }
    let parts = disappearing_timer_parts(time);
    let mut texts: Vec<String> = Vec::new();
    let ghost mut templates: Seq<Seq<char>> = seq![];
    let mut i: usize = 0;
    while i < parts.len()
        invariant
            i <= parts@.len(),
            texts@.len() == i,
            templates.len() == i,
            forall|j: int|
                0 <= j < i ==> (#[trigger] texts@[j])@ == replace_all(
                    templates[j],
                    "{}"@,
                    decimal(parts@[j].1 as nat),
                ),
        decreases parts.len() - i,
    {
        let (one, many, n) = part_plural_args(parts[i]);
        proof {
            reveal_strlit("{} week");
            reveal_strlit("{} weeks");
            reveal_strlit("{} day");
            reveal_strlit("{} days");
            reveal_strlit("{} hour");
            reveal_strlit("{} hours");
            reveal_strlit("{} minute");
            reveal_strlit("{} minutes");
            reveal_strlit("{} second");
            reveal_strlit("{} seconds");
            reveal_strlit("{}");
        }
        let template = ngettext(one, many, n);
        let count = decimal_string(n as u64);
        let text = replace(template.as_str(), "{}", count.as_str());
        proof {
            templates = templates.push(template@);
        }
        texts.push(text);
        i += 1;
    }
    proof {
        reveal_strlit(" ");
        assert(views(texts@) =~= filled_parts(parts@, templates));
    }
    let r = join_strings(&texts, " ");
    assert(r@ == timer_text(timer_parts(time), templates));
    r
}

/// How a date is named, seen from today.
#[derive(Clone, Copy, Debug, PartialEq, Eq, Structural)]
pub enum DateLabel {
    Today,
    Yesterday,
    /// A date of another year, with its year.
    WithYear,
    /// A date of this year, without its year.
    WithoutYear,
}

/// How a date (year and day of the year) is named on the day `now_year`, `now_day`: today or
/// yesterday within the same year, else with its year where the year differs, else without.
pub open spec fn date_label_of(now_year: i32, now_day: i32, year: i32, day: i32) -> DateLabel {
    if now_day == day && now_year == year {
        DateLabel::Today
    } else if now_day == day + 1 && now_year == year {
        DateLabel::Yesterday
    } else if now_year != year {
        DateLabel::WithYear
    } else {
        DateLabel::WithoutYear
    }
}

/// How a date is named (see [date_label_of]).
pub fn date_label(now_year: i32, now_day: i32, year: i32, day: i32) -> (r: DateLabel)
    ensures
        r == date_label_of(now_year, now_day, year, day),
{
    let yesterday = (now_day as i64) == (day as i64) + 1;
    if now_day == day && now_year == year {
        DateLabel::Today
    } else if yesterday && now_year == year {
        DateLabel::Yesterday
    } else if now_year != year {
        DateLabel::WithYear
    } else {
        DateLabel::WithoutYear
    }
}

/// The untranslated text, or date format, for a date label.
pub open spec fn date_label_msgid(l: DateLabel) -> Seq<char> {
    match l {
        DateLabel::Today => "Today"@,
        DateLabel::Yesterday => "Yesterday"@,
        DateLabel::WithYear => "%Y-%m-%d"@,
        DateLabel::WithoutYear => "%a., %e. %b"@,
    }
}

/// The untranslated text, or date format, for a date label (see [date_label_msgid]).
pub fn date_label_text(l: DateLabel) -> (r: &'static str)
    ensures
        r@ == date_label_msgid(l),
{
    match l {
        DateLabel::Today => "Today",
        DateLabel::Yesterday => "Yesterday",
        DateLabel::WithYear => "%Y-%m-%d",
        DateLabel::WithoutYear => "%a., %e. %b",
    }
}

/// Whether a message time is shown with its date: where it lies a day (24 hours) or more in
/// the past.
pub fn timestamp_with_date(difference_hours: Option<i64>) -> (r: bool)
    ensures
        r == (difference_hours matches Some(h) && h >= 24),
{
    match difference_hours {
        Some(h) => h >= 24,
        None => false,
    }
}

/// The markup form of a character: the five characters that markup gives a meaning to as
/// entities, the control characters other than tab, line feed and carriage return (and the
/// C1 controls other than U+0085) as hexadecimal character references, anything else as it is.
pub open spec fn escape_char(c: char) -> Seq<char> {
    let n = c as int;
    if c == '&' {
        "&amp;"@
    } else if c == '<' {
        "&lt;"@
    } else if c == '>' {
        "&gt;"@
    } else if c == '\'' {
        "&#39;"@
    } else if c == '"' {
        "&quot;"@
    } else if (1 <= n <= 8) || (11 <= n <= 12) || (14 <= n <= 31) || (127 <= n <= 132) || (134
        <= n <= 159) {
        "&#x"@ + hex(n as nat) + ";"@
    } else {
        seq![c]
    }
}

/// A text escaped for markup, character by character (see [escape_char]).
pub open spec fn markup_escaped(s: Seq<char>) -> Seq<char>
    decreases s.len(),
{
    if s.len() == 0 {
        seq![]
    } else {
        markup_escaped(s.drop_last()) + escape_char(s.last())
    }
}

/// Escapes a text for markup (see [markup_escaped]), as GLib's `g_markup_escape_text` does.
pub fn markup_escape_text(s: &str) -> (r: String)
    ensures
        r@ == markup_escaped(s@),
{
    let n = s.unicode_len();
    let mut out = String::new();
    let mut i: usize = 0;
    while i < n
        invariant
            n == s@.len(),
            i <= n,
            out@ == markup_escaped(s@.take(i as int)),
        decreases n - i,
    {
        let c = s.get_char(i);
        let ghost before = out@;
        assert(s@.take(i + 1).drop_last() =~= s@.take(i as int));
        assert(s@.take(i + 1).last() == c);
        let code = c as u32;
        proof {
            reveal_strlit("&amp;");
            reveal_strlit("&lt;");
            reveal_strlit("&gt;");
            reveal_strlit("&#39;");
            reveal_strlit("&quot;");
            reveal_strlit("&#x");
            reveal_strlit(";");
        }
        if c == '&' {
            out.append("&amp;");
        } else if c == '<' {
            out.append("&lt;");
        } else if c == '>' {
            out.append("&gt;");
        } else if c == '\'' {
            out.append("&#39;");
        } else if c == '"' {
            out.append("&quot;");
        } else if (1 <= code && code <= 8) || (11 <= code && code <= 12) || (14 <= code && code
            <= 31) || (127 <= code && code <= 132) || (134 <= code && code <= 159) {
            out.append("&#x");
            push_hex(&mut out, code as u64);
            out.append(";");
        } else {
            push_char(&mut out, c);
        }
        assert(out@ =~= before + escape_char(c));
        i += 1;
    }
    assert(s@.take(n as int) =~= s@);
    out
}

/// How the last message of a channel is shown in the channel list, given the channel's typing
/// label, the translation of "Draft" and, for a last message, its sender's title and its
/// description: the typing label while someone types; else the draft, in markup after the bold
/// word for a draft; else the message's description in markup, in a group after its sender's
/// title in bold; else nothing.
pub open spec fn last_message_markup(
    is_typing: bool,
    typing_label: Seq<char>,
    draft: Seq<char>,
    draft_word: Seq<char>,
    message: Option<(Seq<char>, Seq<char>)>,
    is_group: bool,
) -> Seq<char> {
    if is_typing {
        typing_label
    } else if draft.len() > 0 {
        "<span font-weight='500'>"@ + draft_word + ":</span> "@ + markup_escaped(draft)
    } else {
        match message {
            Some((sender, description)) => if is_group {
                "<span font-weight='500'>"@ + markup_escaped(sender) + ":</span> "@
                    + markup_escaped(description)
            } else {
                markup_escaped(description)
            },
            None => Seq::<char>::empty(),
        }
    }
}

/// How the last message of a channel is shown in the channel list (see [last_message_markup]).
pub fn format_last_message(
    is_typing: bool,
    typing_label: &str,
    draft: &str,
    draft_word: &str,
    message: Option<(&str, &str)>,
    is_group: bool,
) -> (r: String)
    ensures
        r@ == last_message_markup(
            is_typing,
            typing_label@,
            draft@,
            draft_word@,
            match message {
                Some((a, b)) => Some((a@, b@)),
                None => None,
            },
            is_group,
        ),
{
    proof {
        reveal_strlit("<span font-weight='500'>");
        reveal_strlit(":</span> ");
    }
    if is_typing {
        owned(typing_label)
    } else if draft.unicode_len() > 0 {
        let mut s = owned("<span font-weight='500'>");
        s.append(draft_word);
        s.append(":</span> ");
        let d = markup_escape_text(draft);
        s.append(d.as_str());
        s
    } else {
        match message {
            Some((sender, description)) => if is_group {
                let mut s = owned("<span font-weight='500'>");
                let t = markup_escape_text(sender);
                s.append(t.as_str());
                s.append(":</span> ");
                let d = markup_escape_text(description);
                s.append(d.as_str());
                s
            } else {
                markup_escape_text(description)
            },
            None => String::new(),
        }
    }
}

/// The lower-case form of a text, as Rust's `str::to_lowercase` gives it.
pub uninterp spec fn lowercase(s: Seq<char>) -> Seq<char>;

/// The lower-case form of a text, with `str::to_lowercase`: the result is named, not stated
/// (Unicode's case mapping, see [lowercase]).
#[verifier::external_body]
fn to_lowercase(s: &str) -> (r: String)
    ensures
        r@ == lowercase(s@),
{
    s.to_lowercase()
}

/// The upper-case form of a character, as Rust's `char::to_uppercase` gives it.
pub uninterp spec fn uppercase_char(c: char) -> Seq<char>;

/// The upper-case form of a character, with `char::to_uppercase`: the result is named, not
/// stated (Unicode's case mapping, see [uppercase_char]).
#[verifier::external_body]
fn char_to_uppercase(c: char) -> (r: String)
    ensures
        r@ == uppercase_char(c),
{
    c.to_uppercase().collect::<String>()
}

/// The lower-case form of a character, as Rust's `char::to_lowercase` gives it.
pub uninterp spec fn lowercase_char(c: char) -> Seq<char>;

/// The lower-case form of a character, with `char::to_lowercase`: the result is named, not
/// stated (Unicode's case mapping, see [lowercase_char]).
#[verifier::external_body]
fn char_to_lowercase(c: char) -> (r: String)
    ensures
        r@ == lowercase_char(c),
{
    c.to_lowercase().collect::<String>()
}

/// Whether the channel list shows a channel: its title holds the search, both in lower case,
/// and it has a last message or is the selected channel.
pub open spec fn channel_shown(title: Seq<char>, search: Seq<char>, has_message: bool, is_selected: bool) -> bool {
    contains_seq(lowercase(title), lowercase(search)) && (has_message || is_selected)
}

/// Whether the channel list shows a channel (see [channel_shown]).
pub fn channel_filter(title: &str, search: &str, has_message: bool, is_selected: bool) -> (r: bool)
    ensures
        r == channel_shown(title@, search@, has_message, is_selected),
{
    let t = to_lowercase(title);
    let s = to_lowercase(search);
    str_contains(t.as_str(), s.as_str()) && (has_message || is_selected)
}

/// Where a channel goes in the channel list, relative to another one.
#[derive(Clone, Copy, Debug, PartialEq, Eq, Structural)]
pub enum ListOrder {
    /// Before the other.
    Smaller,
    /// After the other.
    Larger,
}

/// Where a channel goes relative to another, given the timestamps of their last messages and
/// their titles: a channel without messages before one with messages; of two with messages, the
/// one with the later last message first; of two without, the one whose title comes first in
/// text order first. No two channels are ever placed as equal.
pub open spec fn channel_order(m1: Option<u64>, m2: Option<u64>, t1: Seq<char>, t2: Seq<char>) -> ListOrder {
    match (m1, m2) {
        (Some(_), None) => ListOrder::Larger,
        (None, Some(_)) => ListOrder::Smaller,
        (Some(s1), Some(s2)) => if s1 > s2 {
            ListOrder::Smaller
        } else {
            ListOrder::Larger
        },
        (None, None) => if seq_lt(t1, t2) {
            ListOrder::Smaller
        } else {
            ListOrder::Larger
        },
    }
}

/// Where a channel goes relative to another (see [channel_order]).
pub fn compare_channels(m1: Option<u64>, m2: Option<u64>, t1: &str, t2: &str) -> (r: ListOrder)
    ensures
        r == channel_order(m1, m2, t1@, t2@),
{
    match (m1, m2) {
        (Some(_), None) => ListOrder::Larger,
        (None, Some(_)) => ListOrder::Smaller,
        (Some(s1), Some(s2)) => if s1 > s2 {
            ListOrder::Smaller
        } else {
            ListOrder::Larger
        },
        (None, None) => if str_lt(t1, t2) {
            ListOrder::Smaller
        } else {
            ListOrder::Larger
        },
    }
}

/// The letter that a section of the contact list shows: the first character of the name, in
/// upper case; none for an empty name.
pub open spec fn divider_letter(name: Seq<char>) -> Option<Seq<char>> {
    if name.len() == 0 {
        None
    } else {
        Some(uppercase_char(name[0]))
    }
}

/// The letter that a section of the contact list shows (see [divider_letter]).
pub fn letter_of(name: Option<&str>) -> (r: Option<String>)
    ensures
        match name {
            Some(n) => match r {
                Some(l) => divider_letter(n@) == Some(l@),
                None => divider_letter(n@) is None,
            },
            None => r is None,
        },
{
    match name {
        Some(n) => if n.unicode_len() == 0 {
            None
        } else {
            Some(char_to_uppercase(n.get_char(0)))
        },
        None => None,
    }
}

/// The key by which names are grouped into sections: the first character in lower case (that
/// of the NUL character for an empty name).
pub open spec fn section_key(name: Seq<char>) -> Seq<char> {
    if name.len() == 0 {
        lowercase_char('\0')
    } else {
        lowercase_char(name[0])
    }
}

/// The key by which names are grouped into sections (see [section_key]).
pub fn section_key_of(name: &str) -> (r: String)
    ensures
        r@ == section_key(name@),
{
    if name.unicode_len() == 0 {
        char_to_lowercase('\0')
    } else {
        char_to_lowercase(name.get_char(0))
    }
}

/// Signal's old heart emoji, which is shown as a black heart.
pub open spec fn old_heart() -> Seq<char> {
    seq!['\u{2764}']
}

/// The emoji as it is shown: Signal's old heart as the red heart (with the emoji variation
/// selector), anything else as it is.
pub fn fix_emoji(emoji: Option<String>) -> (r: Option<String>)
    ensures
        match emoji {
            Some(e) => if e@ == old_heart() {
                r matches Some(s) && s@ == seq!['\u{2764}', '\u{fe0f}']
            } else {
                r == Some(e)
            },
            None => r is None,
        },
{
    match emoji {
        Some(e) => {
            proof {
                reveal_strlit("\u{2764}");
                reveal_strlit("\u{2764}\u{fe0f}");
            }
            assert("\u{2764}"@ =~= old_heart());
            if str_eq(e.as_str(), "\u{2764}") {
                let r = owned("\u{2764}\u{fe0f}");
                assert(r@ =~= seq!['\u{2764}', '\u{fe0f}']);
                Some(r)
            } else {
                Some(e)
            }
        },
        None => None,
    }
}

/// Whether the emoji of the emoji picker can lose its last three bytes: its UTF-8 form ends
/// with characters that take exactly three bytes together.
pub open spec fn has_three_byte_tail(s: Seq<char>) -> bool {
    exists|k: int| 0 <= k <= s.len() && #[trigger] utf8_len(s.subrange(k, s.len() as int)) == 3
}

/// The emoji of the emoji picker without its last three bytes: the picker adds a second
/// variation selector, which Signal does not take.
pub fn picked_emoji(emoji: &str) -> (r: String)
    requires
        has_three_byte_tail(emoji@),
    ensures
        exists|k: int|
            0 <= k <= emoji@.len() && utf8_len(emoji@.subrange(k, emoji@.len() as int)) == 3 && r@
                == emoji@.subrange(0, k),
{
    let n = emoji.unicode_len();
    let mut k = n;
    let mut bytes: usize = 0;
    proof {
        assert(emoji@.subrange(n as int, n as int) =~= Seq::<char>::empty());
    }
    while k > 0 && bytes < 3
        invariant
            k <= n == emoji@.len(),
            bytes == utf8_len(emoji@.subrange(k as int, n as int)),
            bytes <= 6,
            k < n ==> utf8_len(emoji@.subrange(k + 1, n as int)) < 3,
        decreases k,
    {
        let c = emoji.get_char(k - 1);
        let ghost tail = emoji@.subrange(k as int, n as int);
        let ghost tail2 = emoji@.subrange(k - 1, n as int);
        proof {
            lemma_utf8_len_prepend(c, tail);
            assert(tail2 =~= seq![c] + tail);
        }
        let w: usize = if (c as u32) < 0x80 {
            1
        } else if (c as u32) < 0x800 {
            2
        } else if (c as u32) < 0x10000 {
            3
        } else {
            4
        };
        bytes = bytes + w;
        k -= 1;
    }
    proof {
        let j = choose|j: int|
            0 <= j <= emoji@.len() && #[trigger] utf8_len(emoji@.subrange(j, emoji@.len() as int))
                == 3;
        lemma_utf8_tail_unique(emoji@, j, k as int);
    }
    sub_string(emoji, 0, k)
}

/// The bytes of a character put before a text add to its bytes.
pub proof fn lemma_utf8_len_prepend(c: char, s: Seq<char>)
    ensures
        utf8_len(seq![c] + s) == utf8_char_len(c) + utf8_len(s),
    decreases s.len(),
{
    let t = seq![c] + s;
    assert(t.len() > 0);
    assert(utf8_len(t) == utf8_len(t.drop_last()) + utf8_char_len(t.last()));
    if s.len() == 0 {
        assert(t.drop_last() =~= Seq::<char>::empty());
        assert(t.last() == c);
        assert(utf8_len(s) == 0);
        assert(utf8_len(t.drop_last()) == 0);
    } else {
        lemma_utf8_len_prepend(c, s.drop_last());
        assert(t.drop_last() =~= seq![c] + s.drop_last());
        assert(t.last() == s.last());
    }
}

/// Longer tails have more bytes; so at most one tail has three bytes, and the scan from the
/// end stops at it.
pub proof fn lemma_utf8_tail_unique(s: Seq<char>, j: int, k: int)
    requires
        0 <= j <= s.len(),
        0 <= k <= s.len(),
        utf8_len(s.subrange(j, s.len() as int)) == 3,
        utf8_len(s.subrange(k, s.len() as int)) >= 3 || k == 0,
        k < s.len() ==> utf8_len(s.subrange(k + 1, s.len() as int)) < 3,
    ensures
        utf8_len(s.subrange(k, s.len() as int)) == 3,
        k == j,
    decreases s.len() - k,
{
    lemma_utf8_tails_grow(s, j, k);
    lemma_utf8_tails_grow(s, k, j);
    if k < s.len() {
        lemma_utf8_tails_grow(s, k + 1, j);
        lemma_utf8_tails_grow(s, j, k + 1);
    }
    if k == 0 && j > 0 {
        lemma_utf8_tails_grow(s, 1, j);
    }
}

/// A tail that starts earlier has at least as many bytes, and more where it is longer.
pub proof fn lemma_utf8_tails_grow(s: Seq<char>, a: int, b: int)
    requires
        0 <= a <= s.len(),
        0 <= b <= s.len(),
    ensures
        a <= b ==> utf8_len(s.subrange(b, s.len() as int)) <= utf8_len(
            s.subrange(a, s.len() as int),
        ),
        a < b ==> utf8_len(s.subrange(b, s.len() as int)) < utf8_len(
            s.subrange(a, s.len() as int),
        ),
    decreases b - a,
{
    if a < b {
        lemma_utf8_tails_grow(s, a + 1, b);
        lemma_utf8_len_prepend(s[a], s.subrange(a + 1, s.len() as int));
        assert(s.subrange(a, s.len() as int) =~= seq![s[a]] + s.subrange(a + 1, s.len() as int));
    }
}

/// A pasted captcha without the scheme of the captcha link: what follows
/// `signalcaptcha://` where the text starts with it, else the text itself.
pub open spec fn captcha_token(s: Seq<char>) -> Seq<char> {
    if starts_with(s, "signalcaptcha://"@) {
        s.skip(16)
    } else {
        s
    }
}

/// A pasted captcha without the scheme of the captcha link (see [captcha_token]).
pub fn strip_captcha_prefix(s: &str) -> (r: String)
    ensures
        r@ == captcha_token(s@),
{
    proof {
        reveal_strlit("signalcaptcha://");
    }
    if str_starts_with(s, "signalcaptcha://") {
        let r = sub_string(s, 16, s.unicode_len());
        assert(s@.skip(16) =~= s@.subrange(16, s@.len() as int));
        r
    } else {
        owned(s)
    }
}

/// Whether a key press sends the message: it is the enter key, and, where enter sends, neither
/// control nor shift is held; else control is held.
pub open spec fn sends_message(enter: bool, send_on_enter: bool, control: bool, shift: bool) -> bool {
    enter && if send_on_enter {
        !control && !shift
    } else {
        control
    }
}

/// Whether a key press sends the message (see [sends_message]).
pub fn should_send(enter: bool, send_on_enter: bool, control: bool, shift: bool) -> (r: bool)
    ensures
        r == sends_message(enter, send_on_enter, control, shift),
{
    enter && if send_on_enter {
        !control && !shift
    } else {
        control
    }
}

/// Whether an attachment is downloaded as soon as it is shown, by the settings for each kind:
/// an image (where there is an attachment), a video, a voice message or a file.
pub open spec fn autoloads(
    kind: Option<AttachmentType>,
    images: bool,
    videos: bool,
    voice: bool,
    files: bool,
) -> bool {
    ||| kind is Some && images && kind->0 == AttachmentType::Image
    ||| videos && kind->0 == AttachmentType::Video
    ||| voice && kind->0 == AttachmentType::Audio
    ||| files && kind->0 == AttachmentType::File
}

/// Whether an attachment is downloaded as soon as it is shown (see [autoloads]); without an
/// attachment, only the setting for images may be on.
pub fn should_autoload(
    kind: Option<AttachmentType>,
    images: bool,
    videos: bool,
    voice: bool,
    files: bool,
) -> (r: bool)
    requires
        kind is Some || (!videos && !voice && !files),
    ensures
        r == autoloads(kind, images, videos, voice, files),
{
    kind.is_some() && images && kind.unwrap() == AttachmentType::Image || videos && kind.unwrap()
        == AttachmentType::Video || voice && kind.unwrap() == AttachmentType::Audio || files
        && kind.unwrap() == AttachmentType::File
}

/// The widget that shows an attachment.
#[derive(Clone, Copy, Debug, PartialEq, Eq, Structural)]
pub enum AttachmentWidget {
    Photo,
    Video,
    File,
    Audio,
}

/// The widget that shows an attachment of a kind: images and GIFs as photos.
pub fn widget_for(kind: AttachmentType) -> (r: AttachmentWidget)
    ensures
        r == match kind {
            AttachmentType::Image => AttachmentWidget::Photo,
            AttachmentType::Gif => AttachmentWidget::Photo,
            AttachmentType::Video => AttachmentWidget::Video,
            AttachmentType::File => AttachmentWidget::File,
            AttachmentType::Audio => AttachmentWidget::Audio,
        },
{
    match kind {
        AttachmentType::Image => AttachmentWidget::Photo,
        AttachmentType::Gif => AttachmentWidget::Photo,
        AttachmentType::Video => AttachmentWidget::Video,
        AttachmentType::File => AttachmentWidget::File,
        AttachmentType::Audio => AttachmentWidget::Audio,
    }
}

/// The pattern of a web link in a message body; the whole link is the group `l`.
pub const LINK_PATTERN: &'static str = r"(?P<l>[a-z]*://[-a-zA-Z0-9@:%._\+~#=]{1,256}\.[a-zA-Z0-9()]{1,6}\b([-a-zA-Z0-9()@:%_\+.~#?&//=;]*))";

/// What a web link becomes: a markup link to itself.
pub const LINK_TEMPLATE: &'static str = r#"<a href="$l">$l</a>"#;

/// The pattern of a text made only of emojis (other than ASCII characters), emoji variation
/// selectors, zero-width joiners and spaces.
pub const EMOJI_PATTERN: &'static str = r"^[[\p{Emoji}--\p{Ascii}]\u{fe0f}\u{200d} ]+$";

/// The text with every match of `pattern` replaced by `replacement` (where `$l` stands for the
/// group `l`), as `regex::Regex::replace_all` gives it; none where `regex::Regex::new` refuses
/// the pattern.
pub uninterp spec fn regex_replaced(pattern: Seq<char>, text: Seq<char>, replacement: Seq<char>) -> Option<Seq<char>>;

/// Replaces every match of a pattern with `regex::Regex::new` and `Regex::replace_all`; none
/// where the crate refuses the pattern. The result is named, [regex_replaced]: the crate's
/// pattern language takes pages to state.
#[verifier::external_body]
fn regex_replace_all(pattern: &str, text: &str, replacement: &str) -> (r: Option<String>)
    ensures
        match r {
            Some(t) => regex_replaced(pattern@, text@, replacement@) == Some(t@),
            None => regex_replaced(pattern@, text@, replacement@) is None,
        },
{
    match regex::Regex::new(pattern) {
        Ok(re) => Some(re.replace_all(text, replacement).to_string()),
        Err(_) => None,
    }
}

/// Whether `pattern` matches somewhere in `text`, as `regex::Regex::is_match` tells; none
/// where `regex::Regex::new` refuses the pattern.
pub uninterp spec fn regex_match(pattern: Seq<char>, text: Seq<char>) -> Option<bool>;

/// Whether a pattern matches a text, with `regex::Regex::new` and `Regex::is_match`; none where
/// the crate refuses the pattern. The result is named, [regex_match].
#[verifier::external_body]
fn regex_is_match(pattern: &str, text: &str) -> (r: Option<bool>)
    ensures
        r == regex_match(pattern@, text@),
{
    match regex::Regex::new(pattern) {
        Ok(re) => Some(re.is_match(text)),
        Err(_) => None,
    }
}

/// The text with its web links wrapped into markup links (see [LINK_PATTERN] and
/// [LINK_TEMPLATE]); the text as it is where the pattern is refused.
pub open spec fn url_links(s: Seq<char>) -> Seq<char> {
    match regex_replaced(LINK_PATTERN@, s, LINK_TEMPLATE@) {
        Some(t) => t,
        None => s,
    }
}

/// Wraps the web links of a text into markup links (see [url_links]).
fn link_urls(s: &str) -> (r: String)
    ensures
        r@ == url_links(s@),
{
    match regex_replace_all(LINK_PATTERN, s, LINK_TEMPLATE) {
        Some(t) => t,
        None => owned(s),
    }
}

/// A message body in markup with its links made clickable: escaped for markup, then its links
/// wrapped (see [url_links]).
pub fn markup_urls(s: Option<&str>) -> (r: Option<String>)
    ensures
        match s {
            Some(t) => r matches Some(x) && x@ == url_links(markup_escaped(t@)),
            None => r is None,
        },
{
    match s {
        Some(t) => {
            let escaped = markup_escape_text(t);
            Some(link_urls(escaped.as_str()))
        },
        None => None,
    }
}

/// Whether a text is made only of emojis: the emoji pattern ([EMOJI_PATTERN]) matches it; not
/// where the pattern is refused.
pub open spec fn only_emoji(s: Seq<char>) -> bool {
    regex_match(EMOJI_PATTERN@, s) == Some(true)
}

/// Whether a text is made only of emojis (see [only_emoji]).
fn is_only_emoji(s: &str) -> (r: bool)
    ensures
        r == only_emoji(s@),
{
    match regex_is_match(EMOJI_PATTERN, s) {
        Some(b) => b,
        None => false,
    }
}

/// Whether a message is shown as a large emoji, without its sender: where its body is made only
/// of emojis (see [only_emoji]).
pub fn shows_as_emoji(body: Option<&str>) -> (r: bool)
    ensures
        r == (body matches Some(b) && only_emoji(b@)),
{
    match body {
        Some(b) => is_only_emoji(b),
        None => false,
    }
}

/// `out_keys` is `keys` sorted ascending in text order, stably: `idx` tells for each position
/// where it was; it takes every position once; no key comes before the one before it; equal
/// keys keep their order.
pub open spec fn sorted_text_asc(keys: Seq<Seq<char>>, out_keys: Seq<Seq<char>>, idx: Seq<int>) -> bool {
    &&& out_keys.len() == keys.len()
    &&& idx.len() == keys.len()
    &&& forall|a: int| 0 <= a < idx.len() ==> 0 <= #[trigger] idx[a] < keys.len()
    &&& forall|a: int| 0 <= a < idx.len() ==> out_keys[a] == keys[#[trigger] idx[a]]
    &&& forall|a: int, b: int| 0 <= a < b < idx.len() ==> #[trigger] idx[a] != #[trigger] idx[b]
    &&& forall|a: int, b: int|
        0 <= a < b < out_keys.len() ==> !seq_lt(#[trigger] out_keys[b], #[trigger] out_keys[a])
    &&& forall|a: int, b: int|
        0 <= a < b < out_keys.len() && out_keys[a] == out_keys[b] ==> #[trigger] idx[a]
            < #[trigger] idx[b]
}

/// Where a key goes among keys sorted ascending: after those that do not come after it.
fn text_insertion_position(keys: &Vec<String>, k: &str) -> (r: usize)
    requires
        forall|a: int, b: int|
            0 <= a < b < keys@.len() ==> !seq_lt(#[trigger] keys@[b]@, #[trigger] keys@[a]@),
    ensures
        r <= keys@.len(),
        forall|a: int| 0 <= a < r ==> !seq_lt(k@, #[trigger] keys@[a]@),
        forall|a: int| r <= a < keys@.len() ==> seq_lt(k@, #[trigger] keys@[a]@),
{
    let mut p: usize = 0;
    while p < keys.len() && !str_lt(k, keys[p].as_str())
        invariant
            p <= keys@.len(),
            forall|a: int| 0 <= a < p ==> !seq_lt(k@, #[trigger] keys@[a]@),
        decreases keys.len() - p,
    {
        p += 1;
    }
    proof {
        assert forall|a: int| p <= a < keys@.len() implies seq_lt(k@, #[trigger] keys@[a]@) by {
            if a > p {
                assert(!seq_lt(keys@[a]@, keys@[p as int]@));
                crate::text::lemma_seq_lt_total(keys@[a]@, keys@[p as int]@);
                if keys@[a]@ != keys@[p as int]@ {
                    crate::text::lemma_seq_lt_transitive(k@, keys@[p as int]@, keys@[a]@);
                }
            }
        }
    }
    p
}

/// Inserting a new last key after those that do not come after it keeps a stable ascending
/// order.
proof fn lemma_text_insert(keys: Seq<Seq<char>>, out: Seq<Seq<char>>, idx: Seq<int>, p: int)
    requires
        keys.len() > 0,
        sorted_text_asc(keys.drop_last(), out, idx),
        0 <= p <= out.len(),
        forall|a: int| 0 <= a < p ==> !seq_lt(keys.last(), #[trigger] out[a]),
        forall|a: int| p <= a < out.len() ==> seq_lt(keys.last(), #[trigger] out[a]),
    ensures
        sorted_text_asc(keys, out.insert(p, keys.last()), idx.insert(p, keys.len() - 1)),
{
    let n = keys.len() - 1;
    let k = keys.last();
    let o2 = out.insert(p, k);
    let i2 = idx.insert(p, n);
    let pre = keys.drop_last();
    assert forall|a: int| 0 <= a < i2.len() implies 0 <= #[trigger] i2[a] < keys.len() by {
        if a < p {
            assert(i2[a] == idx[a]);
        } else if a > p {
            assert(i2[a] == idx[a - 1]);
        }
    }
    assert forall|a: int| 0 <= a < i2.len() implies o2[a] == keys[#[trigger] i2[a]] by {
        if a < p {
            assert(i2[a] == idx[a]);
            assert(keys[idx[a]] == pre[idx[a]]);
        } else if a > p {
            assert(i2[a] == idx[a - 1]);
            assert(keys[idx[a - 1]] == pre[idx[a - 1]]);
        }
    }
    assert forall|a: int, b: int| 0 <= a < b < i2.len() implies #[trigger] i2[a] != #[trigger] i2[b] by {
        if a != p && b != p {
            let x = if a < p {
                a
            } else {
                a - 1
            };
            let y = if b < p {
                b
            } else {
                b - 1
            };
            assert(i2[a] == idx[x] && i2[b] == idx[y]);
        } else if a == p {
            assert(i2[b] == idx[b - 1]);
        } else {
            assert(i2[a] == idx[a]);
        }
    }
    assert forall|a: int, b: int| 0 <= a < b < o2.len() implies !seq_lt(
        #[trigger] o2[b],
        #[trigger] o2[a],
    ) by {
        if a < p && b < p {
            assert(o2[a] == out[a] && o2[b] == out[b]);
        } else if a < p && b == p {
            assert(o2[a] == out[a]);
        } else if a < p {
            assert(o2[a] == out[a] && o2[b] == out[b - 1]);
        } else if a == p {
            assert(o2[b] == out[b - 1]);
            crate::text::lemma_seq_lt_total(k, out[b - 1]);
        } else {
            assert(o2[a] == out[a - 1] && o2[b] == out[b - 1]);
        }
    }
    assert forall|a: int, b: int| 0 <= a < b < o2.len() && o2[a] == o2[b] implies #[trigger] i2[a]
        < #[trigger] i2[b] by {
        if a < p && b < p {
            assert(o2[a] == out[a] && o2[b] == out[b]);
            assert(i2[a] == idx[a] && i2[b] == idx[b]);
        } else if a < p && b == p {
            assert(i2[a] == idx[a]);
        } else if a < p {
            assert(o2[a] == out[a] && o2[b] == out[b - 1]);
            assert(i2[a] == idx[a] && i2[b] == idx[b - 1]);
        } else if a == p {
            assert(o2[b] == out[b - 1]);
            crate::text::lemma_seq_lt_total(k, out[b - 1]);
        } else {
            assert(o2[a] == out[a - 1] && o2[b] == out[b - 1]);
            assert(i2[a] == idx[a - 1] && i2[b] == idx[b - 1]);
        }
    }
}

/// Positions taken as mathematical integers.
pub open spec fn int_positions(s: Seq<usize>) -> Seq<int> {
    s.map_values(|i: usize| i as int)
}

/// The order of positions that sorts texts ascending, stably (see [sorted_text_asc]).
pub fn sort_order_by_text(keys: &Vec<String>) -> (r: Vec<usize>)
    ensures
        exists|out: Seq<Seq<char>>|
            #![trigger sorted_text_asc(views(keys@), out, int_positions(r@))]
            sorted_text_asc(views(keys@), out, int_positions(r@)),
{
    let ghost ks = views(keys@);
    let mut out: Vec<String> = Vec::new();
    let mut order: Vec<usize> = Vec::new();
    let n = keys.len();
    let mut i: usize = 0;
    while i < n
        invariant
            n == keys@.len() == ks.len(),
            ks == views(keys@),
            i <= n,
            forall|a: int| 0 <= a < order@.len() ==> (#[trigger] order@[a]) < i,
            sorted_text_asc(ks.take(i as int), views(out@), int_positions(order@)),
        decreases n - i,
    {
        let k = keys[i].as_str();
        proof {
            assert forall|a: int, b: int|
                0 <= a < b < out@.len() implies !seq_lt(#[trigger] out@[b]@, #[trigger] out@[a]@) by {
                assert(views(out@)[a] == out@[a]@ && views(out@)[b] == out@[b]@);
            }
        }
        let p = text_insertion_position(&out, k);
        let ghost old_out = views(out@);
        let ghost old_idx = int_positions(order@);
        proof {
            assert(ks.take(i + 1).drop_last() =~= ks.take(i as int));
            assert(ks.take(i + 1).last() == k@);
            assert forall|a: int| 0 <= a < p implies !seq_lt(k@, #[trigger] old_out[a]) by {
                assert(old_out[a] == out@[a]@);
            }
            assert forall|a: int| p <= a < old_out.len() implies seq_lt(k@, #[trigger] old_out[a]) by {
                assert(old_out[a] == out@[a]@);
            }
            lemma_text_insert(ks.take(i + 1), old_out, old_idx, p as int);
        }
        out.insert(p, owned(k));
        order.insert(p, i);
        proof {
            assert(views(out@) =~= old_out.insert(p as int, k@));
            assert(int_positions(order@) =~= old_idx.insert(p as int, i as int));
        }
        i += 1;
    }
    proof {
        assert(ks.take(n as int) =~= ks);
    }
    order
}

/// The positions at which the sections of a sorted list of names start: the first name, and
/// every name whose [section key](section_key) differs from that of the name before it.
pub open spec fn is_section_start(names: Seq<Seq<char>>, i: int) -> bool {
    0 <= i < names.len() && (i == 0 || section_key(names[i]) != section_key(names[i - 1]))
}

/// The positions at which the sections of a sorted list of names start (see
/// [is_section_start]), ascending.
pub fn section_starts(names: &Vec<String>) -> (r: Vec<usize>)
    ensures
        forall|a: int, b: int| 0 <= a < b < r@.len() ==> #[trigger] r@[a] < #[trigger] r@[b],
        forall|i: int|
            is_section_start(views(names@), i) <==> exists|a: int|
                0 <= a < r@.len() && #[trigger] r@[a] == i,
{
    let ghost ns = views(names@);
    let mut starts: Vec<usize> = Vec::new();
    if names.len() == 0 {
        return starts;
    }
    let mut prev = section_key_of(names[0].as_str());
    starts.push(0);
    assert(starts@[0] == 0);
    let mut i: usize = 1;
    while i < names.len()
        invariant
            ns == views(names@),
            1 <= i <= names@.len(),
            prev@ == section_key(ns[i - 1]),
            forall|a: int| 0 <= a < starts@.len() ==> #[trigger] starts@[a] < i,
            forall|a: int, b: int| 0 <= a < b < starts@.len() ==> #[trigger] starts@[a] < #[trigger] starts@[b],
            forall|j: int|
                0 <= j < i ==> (is_section_start(ns, j) <==> exists|a: int|
                    0 <= a < starts@.len() && #[trigger] starts@[a] == j),
        decreases names.len() - i,
    {
        let key = section_key_of(names[i].as_str());
        assert(ns[i as int] == names@[i as int]@);
        let ghost before = starts@;
        let differs = !str_eq(key.as_str(), prev.as_str());
        if differs {
            starts.push(i);
        }
        proof {
            assert forall|j: int|
                0 <= j < i + 1 implies (is_section_start(ns, j) <==> exists|a: int|
                    0 <= a < starts@.len() && #[trigger] starts@[a] == j) by {
                if j < i {
                    if exists|a: int| 0 <= a < before.len() && #[trigger] before[a] == j {
                        let a = choose|a: int| 0 <= a < before.len() && #[trigger] before[a] == j;
                        assert(starts@[a] == j);
                    }
                    if exists|a: int| 0 <= a < starts@.len() && #[trigger] starts@[a] == j {
                        let a = choose|a: int| 0 <= a < starts@.len() && #[trigger] starts@[a] == j;
                        if a < before.len() {
                            assert(before[a] == j);
                        }
                    }
                } else {
                    if differs {
                        assert(starts@[before.len() as int] == j);
                    } else {
                        if exists|a: int| 0 <= a < starts@.len() && #[trigger] starts@[a] == j {
                            let a = choose|a: int| 0 <= a < starts@.len() && #[trigger] starts@[a] == j;
                            assert(before[a] < i);
                        }
                    }
                }
            }
        }
        prev = key;
        i += 1;
    }
    proof {
        assert forall|j: int| is_section_start(views(names@), j) <==> exists|a: int|
            0 <= a < starts@.len() && #[trigger] starts@[a] == j by {
            if exists|a: int| 0 <= a < starts@.len() && #[trigger] starts@[a] == j {
                let a = choose|a: int| 0 <= a < starts@.len() && #[trigger] starts@[a] == j;
                assert(starts@[a] < names@.len());
            }
        }
    }
    starts
}

/// The URL that calls a phone number: `tel:` followed by the number, as `url::Url::parse` reads
/// it (see [url_of_text]); none without a number or where it reads as none.
pub fn phone_call_url(phone_number: Option<&str>) -> (r: Option<String>)
    ensures
        match phone_number {
            Some(p) => match r {
                Some(u) => url_of_text("tel:"@ + p@) == Some(u@),
                None => url_of_text("tel:"@ + p@) is None,
            },
            None => r is None,
        },
{
    match phone_number {
        Some(p) => {
            let mut text = owned("tel:");
            text.append(p);
            parse_url(text.as_str())
        },
        None => None,
    }
}

/// Data that the client keeps and can remove.
#[derive(Clone, Copy, Debug, PartialEq, Eq, Structural)]
pub enum StoredData {
    Registration,
    Contacts,
    Groups,
    Messages,
}

/// What the dialog that unlinks this device removes for a response, in order: the
/// registration for "unlink-keep"; the registration, the contacts, the groups and the messages
/// for "unlink-delete"; nothing otherwise.
pub fn unlink_removes(response: &str) -> (r: Vec<StoredData>)
    ensures
        r@ == if response@ == "unlink-keep"@ {
            seq![StoredData::Registration]
        } else if response@ == "unlink-delete"@ {
            seq![
                StoredData::Registration,
                StoredData::Contacts,
                StoredData::Groups,
                StoredData::Messages,
            ]
        } else {
            Seq::<StoredData>::empty()
        },
{
    let mut r: Vec<StoredData> = Vec::new();
    if str_eq(response, "unlink-keep") {
        r.push(StoredData::Registration);
    } else if str_eq(response, "unlink-delete") {
        r.push(StoredData::Registration);
        r.push(StoredData::Contacts);
        r.push(StoredData::Groups);
        r.push(StoredData::Messages);
    }
    assert(r@ =~= (if response@ == "unlink-keep"@ {
        seq![StoredData::Registration]
    } else if response@ == "unlink-delete"@ {
        seq![StoredData::Registration, StoredData::Contacts, StoredData::Groups, StoredData::Messages]
    } else {
        Seq::<StoredData>::empty()
    }));
    r
}

/// What the dialog that clears all messages removes for a response: the messages for "clear",
/// after which the window closes; nothing otherwise.
pub fn clear_messages_removes(response: &str) -> (r: Vec<StoredData>)
    ensures
        r@ == if response@ == "clear"@ {
            seq![StoredData::Messages]
        } else {
            Seq::<StoredData>::empty()
        },
{
    let mut r: Vec<StoredData> = Vec::new();
    if str_eq(response, "clear") {
        r.push(StoredData::Messages);
    }
    assert(r@ =~= (if response@ == "clear"@ {
        seq![StoredData::Messages]
    } else {
        Seq::<StoredData>::empty()
    }));
    r
}

/// Whether a response to the dialog that clears the messages of the shown channel confirms
/// it: only "remove" does.
pub fn channel_clear_confirmed(response: &str) -> (r: bool)
    ensures
        r == (response@ == "remove"@),
{
    str_eq(response, "remove")
}

/// The row of the channel list that the shortcut with the number `parameter` activates: the
/// number less one, or the first row where that is negative. The number must have a
/// predecessor.
pub fn shortcut_row(parameter: i32) -> (r: u32)
    requires
        parameter > i32::MIN,
    ensures
        r == if parameter >= 1 {
            (parameter - 1) as u32
        } else {
            0u32
        },
{
    if parameter >= 1 {
        (parameter - 1) as u32
    } else {
        0
    }
}

} // verus!
