//! Text of the dashboard's cells: durations, language labels, truncation and
//! scrolling of long lists.
use crate::text::{
    ascii_lower, ascii_lowercase, chars_of, decimal, decimal_exec, digit_char, push_char, push_chars,
    str_eq,
};
use vstd::prelude::*;
use vstd::string::*;

verus! {

/// Columns that `s` takes on a terminal, as unicode-width computes them.
pub uninterp spec fn display_width(s: Seq<char>) -> nat;

/// `UnicodeWidthStr::width` of unicode-width: the number of terminal columns
/// of `s`, ambiguous-width characters counted as one. Its value is named by
/// `display_width`; of it only this is stated: the empty text takes no
/// column.
#[verifier::external_body]
fn str_width(s: &str) -> (w: usize)
    ensures
        w as nat == display_width(s@),
        s@.len() == 0 ==> w == 0,
{
    unicode_width::UnicodeWidthStr::width(s)
}

/// Icon shown before a language name, by the lower-case name.
pub open spec fn language_icon_of(lower: Seq<char>) -> Seq<char> {
    if lower == "rust"@ {
        "\u{1f980}"@
    } else if lower == "c"@ || lower == "c header"@ {
        "\u{e61e}"@
    } else if lower == "c++"@ || lower == "c++ header"@ || lower == "c++ module"@ {
        "\u{e61d}"@
    } else if lower == "java"@ {
        "\u{2615}"@
    } else if lower == "go"@ {
        "\u{e627}"@
    } else if lower == "python"@ {
        "\u{1f40d}"@
    } else if lower == "javascript"@ || lower == "jsx"@ {
        "\u{e781}"@
    } else if lower == "typescript"@ || lower == "tsx"@ {
        "\u{e628}"@
    } else if lower == "markdown"@ {
        "\u{e609}"@
    } else if lower == "shell"@ || lower == "bash"@ || lower == "zsh"@ || lower == "fish"@ {
        "\u{e795}"@
    } else if lower == "liquid"@ {
        "\u{1f4a7}"@
    } else if lower == "toml"@ {
        "\u{2699}\u{fe0f}"@
    } else if lower == "json"@ {
        "\u{e60b}"@
    } else if lower == "html"@ {
        "\u{1f310}"@
    } else if lower == "plain text"@ {
        "\u{1f4c4}"@
    } else if lower == "xml"@ {
        "\u{f05c0}"@
    } else if lower == "glsl"@ || lower == "webgpu shader language"@ {
        "\u{1f53a}"@
    } else if lower == "svg"@ {
        "\u{1f4d0}"@
    } else if lower == "yaml"@ {
        "\u{e615}"@
    } else if lower == "bitbake"@ {
        "\u{1f35e}"@
    } else if lower == "cmake"@ {
        "\u{25b3}"@
    } else if lower == "makefile"@ {
        "\u{1f6e0}\u{fe0f}"@
    } else if lower == "autoconf"@ {
        "\u{1f527}"@
    } else if lower == "asciidoc"@ {
        "\u{f1219}"@
    } else if lower == "batch"@ {
        "\u{f018d}"@
    } else if lower == "rusty object notation"@ {
        "\u{f0626}"@
    } else {
        ""@
    }
}

/// The icon for a language (compared without ASCII case).
pub fn language_icon(language: &str) -> (r: &'static str)
    ensures
        r@ == language_icon_of(ascii_lower(language@)),
{
    let lower = ascii_lowercase(language);
    let l = lower.as_str();
    if str_eq(l, "rust") {
        "\u{1f980}"
    } else if str_eq(l, "c") || str_eq(l, "c header") {
        "\u{e61e}"
    } else if str_eq(l, "c++") || str_eq(l, "c++ header") || str_eq(l, "c++ module") {
        "\u{e61d}"
    } else if str_eq(l, "java") {
        "\u{2615}"
    } else if str_eq(l, "go") {
        "\u{e627}"
    } else if str_eq(l, "python") {
        "\u{1f40d}"
    } else if str_eq(l, "javascript") || str_eq(l, "jsx") {
        "\u{e781}"
    } else if str_eq(l, "typescript") || str_eq(l, "tsx") {
        "\u{e628}"
    } else if str_eq(l, "markdown") {
        "\u{e609}"
    } else if str_eq(l, "shell") || str_eq(l, "bash") || str_eq(l, "zsh") || str_eq(l, "fish") {
        "\u{e795}"
    } else if str_eq(l, "liquid") {
        "\u{1f4a7}"
    } else if str_eq(l, "toml") {
        "\u{2699}\u{fe0f}"
    } else if str_eq(l, "json") {
        "\u{e60b}"
    } else if str_eq(l, "html") {
        "\u{1f310}"
    } else if str_eq(l, "plain text") {
        "\u{1f4c4}"
    } else if str_eq(l, "xml") {
        "\u{f05c0}"
    } else if str_eq(l, "glsl") || str_eq(l, "webgpu shader language") {
        "\u{1f53a}"
    } else if str_eq(l, "svg") {
        "\u{1f4d0}"
    } else if str_eq(l, "yaml") {
        "\u{e615}"
    } else if str_eq(l, "bitbake") {
        "\u{1f35e}"
    } else if str_eq(l, "cmake") {
        "\u{25b3}"
    } else if str_eq(l, "makefile") {
        "\u{1f6e0}\u{fe0f}"
    } else if str_eq(l, "autoconf") {
        "\u{1f527}"
    } else if str_eq(l, "asciidoc") {
        "\u{f1219}"
    } else if str_eq(l, "batch") {
        "\u{f018d}"
    } else if str_eq(l, "rusty object notation") {
        "\u{f0626}"
    } else {
        ""
    }
}

/// Whether a language's icon is drawn bright (only CMake's).
pub fn language_icon_is_bright(language: &str) -> (r: bool)
    ensures
        r == (ascii_lower(language@) == "cmake"@),
{
    let lower = ascii_lowercase(language);
    str_eq(lower.as_str(), "cmake")
}

/// `n` spaces.
pub open spec fn spaces(n: nat) -> Seq<char> {
    Seq::new(n, |i: int| ' ')
}

/// Spaces after an icon of `width` columns: enough to reach three columns,
/// at least one.
pub open spec fn label_gap(width: nat) -> nat {
    if width >= 2 {
        1
    } else {
        (3 - width) as nat
    }
}

/// A language label with an icon `icon_width` columns wide: icon, gap,
/// name.
pub open spec fn label_with_width(language: Seq<char>, icon_width: nat) -> Seq<char> {
    language_icon_of(ascii_lower(language)) + spaces(label_gap(icon_width)) + language
}

/// A language label: icon, gap, name.
pub open spec fn language_label_of(language: Seq<char>) -> Seq<char> {
    label_with_width(language, display_width(language_icon_of(ascii_lower(language))))
}

/// The text of a language's label, given how many columns its icon takes
/// (see `label_with_width`).
pub fn language_label_with_width(language: &str, icon_width: usize) -> (r: String)
    ensures
        r@ == label_with_width(language@, icon_width as nat),
{
    let icon = language_icon(language);
    let gap: usize = if icon_width >= 2 {
        1
    } else {
        3 - icon_width
    };
    let mut r = String::from_str(icon);
    let mut i: usize = 0;
    while i < gap
        invariant
            i <= gap,
            r@ == icon@ + spaces(i as nat),
        decreases gap - i,
    {
        push_char(&mut r, ' ');
        i += 1;
        assert(r@ =~= icon@ + spaces(i as nat));
    }
    r.append(language);
    r
}

/// The text of a language's label, icon first; the icon's width is as
/// unicode-width measures it.
pub fn language_label_text(language: &str) -> (r: String)
    ensures
        r@ == language_label_of(language@),
        language_icon_of(ascii_lower(language@)).len() == 0 ==> r@ == spaces(3) + language@,
{
    let icon = language_icon(language);
    let width = str_width(icon);
    language_label_with_width(language, width)
}

/// `value` cut to at most `max` characters, the last one replaced by `…`
/// when something was cut.
pub open spec fn truncated(value: Seq<char>, max: nat) -> Seq<char> {
    if value.len() <= max {
        value
    } else {
        value.take(if max == 0 {
            0
        } else {
            max - 1
        }) + seq!['\u{2026}']
    }
}

/// Cuts `value` to `max` characters (see `truncated`).
pub fn truncate(value: &str, max: usize) -> (r: String)
    ensures
        r@ == truncated(value@, max as nat),
{
    let v = chars_of(value);
    if v.len() <= max {
        return String::from_str(value);
    }
    let keep = if max == 0 {
        0
    } else {
        max - 1
    };
    let mut r = String::new();
    let mut i: usize = 0;
    while i < keep
        invariant
            i <= keep,
            keep < v.len(),
            v@ == value@,
            r@ == value@.take(i as int),
        decreases keep - i,
    {
        push_char(&mut r, v[i]);
        i += 1;
        assert(r@ =~= value@.take(i as int));
    }
    push_char(&mut r, '\u{2026}');
    r
}

/// At least two digits, a leading zero added to a single one.
pub open spec fn two_digits(d: Seq<char>) -> Seq<char> {
    if d.len() < 2 {
        seq!['0'] + d
    } else {
        d
    }
}

/// A duration as minutes and seconds, `mm:ss`; `—` when unknown.
pub open spec fn duration_text(secs: Option<u64>) -> Seq<char> {
    match secs {
        None => seq!['\u{2014}'],
        Some(s) => two_digits(decimal((s / 60) as nat)) + seq![':'] + two_digits(
            decimal((s % 60) as nat),
        ),
    }
}

/// The number that the decimal digits `s` write (`0` for no digits).
pub open spec fn digits_value(s: Seq<char>) -> int
    decreases s.len(),
{
    if s.len() == 0 {
        0
    } else {
        digits_value(s.drop_last()) * 10 + ((s.last() as u32) as int - 48)
    }
}

proof fn lemma_decimal_value(n: nat)
    ensures
        digits_value(decimal(n)) == n,
        all_digits(decimal(n)),
        decimal(n).len() >= 1,
    decreases n,
{
    if n < 10 {
        assert(decimal(n).drop_last() =~= Seq::<char>::empty());
        assert(decimal(n).last() == digit_char(n));
        assert(((n + 48) as u32) as char as u32 == n + 48);
        assert(digits_value(decimal(n)) == digits_value(decimal(n).drop_last()) * 10 + ((digit_char(n) as u32) as int - 48));
    } else {
        lemma_decimal_value(n / 10);
        let d = (n % 10) as nat;
        assert(decimal(n).drop_last() =~= decimal(n / 10));
        assert(decimal(n).last() == digit_char(d));
        assert(((d + 48) as u32) as char as u32 == d + 48);
        assert(digits_value(decimal(n)) == digits_value(decimal(n / 10)) * 10 + d);
        assert forall|i: int| 0 <= i < decimal(n).len() implies is_digit_char(#[trigger] decimal(n)[i]) by {
            if i < decimal(n / 10).len() {
                assert(decimal(n)[i] == decimal(n / 10)[i]);
            }
        }
    }
}

proof fn lemma_two_digits_value(d: Seq<char>)
    requires
        all_digits(d),
        d.len() >= 1,
    ensures
        digits_value(two_digits(d)) == digits_value(d),
        all_digits(two_digits(d)),
        two_digits(d).len() >= 2,
{
    if d.len() < 2 {
        let t = seq!['0'] + d;
        assert(t.drop_last() =~= seq!['0']);
        assert(seq!['0'].drop_last() =~= Seq::<char>::empty());
        assert(d.drop_last() =~= Seq::<char>::empty());
        assert(('0' as u32) == 48);
        assert(seq!['0'].last() == '0');
        assert(digits_value(seq!['0']) == digits_value(seq!['0'].drop_last()) * 10 + (('0' as u32) as int - 48));
        assert(digits_value(Seq::<char>::empty()) == 0);
        assert(digits_value(seq!['0']) == 0);
        assert(t.last() == d.last());
        assert(digits_value(t) == digits_value(seq!['0']) * 10 + ((d.last() as u32) as int - 48));
        assert(digits_value(d) == digits_value(d.drop_last()) * 10 + ((d.last() as u32) as int - 48));
        assert forall|i: int| 0 <= i < t.len() implies is_digit_char(#[trigger] t[i]) by {
            if i > 0 {
                assert(t[i] == d[i - 1]);
            }
        }
    }
}

/// The uptime text is minutes, `:`, seconds, in digits: the two digits after
/// the colon are the seconds past the minute, and the digits before it (at
/// least two) the whole minutes.
pub proof fn law_duration_reads_back(secs: u64)
    ensures
        ({
            let t = duration_text(Some(secs));
            &&& t.len() >= 5
            &&& t[t.len() - 3] == ':'
            &&& all_digits(t.subrange(0, t.len() - 3))
            &&& all_digits(t.subrange(t.len() - 2, t.len() as int))
            &&& digits_value(t.subrange(t.len() - 2, t.len() as int)) == secs % 60
            &&& digits_value(t.subrange(0, t.len() - 3)) == secs / 60
        }),
{
    let m = two_digits(decimal((secs / 60) as nat));
    let sd = decimal((secs % 60) as nat);
    let s2 = two_digits(sd);
    lemma_decimal_value((secs / 60) as nat);
    lemma_decimal_value((secs % 60) as nat);
    lemma_two_digits_value(decimal((secs / 60) as nat));
    lemma_two_digits_value(sd);
    assert(sd.len() <= 2) by {
        if (secs % 60) as nat >= 10 {
            assert(decimal((secs % 60) as nat).drop_last() =~= decimal(((secs % 60) as nat) / 10));
            assert(((secs % 60) as nat) / 10 < 10);
        }
    }
    let t = m + seq![':'] + s2;
    assert(t == duration_text(Some(secs)));
    assert(t.subrange(0, t.len() - 3) =~= m);
    assert(t.subrange(t.len() - 2, t.len() as int) =~= s2);
}

fn push_two_digits(r: &mut String, n: u64)
    ensures
        final(r)@ == old(r)@ + two_digits(decimal(n as nat)),
{
    let d = decimal_exec(n);
    if d.len() < 2 {
        push_char(r, '0');
    }
    push_chars(r, &d);
}

/// Uptime text of a running target, from its whole seconds.
pub fn format_duration(duration_secs: Option<u64>) -> (r: String)
    ensures
        r@ == duration_text(duration_secs),
{
    match duration_secs {
        None => {
            let mut r = String::new();
            push_char(&mut r, '\u{2014}');
            r
        },
        Some(secs) => {
            let mut r = String::new();
            push_two_digits(&mut r, secs / 60);
            push_char(&mut r, ':');
            push_two_digits(&mut r, secs % 60);
            r
        },
    }
}

/// The character is an ASCII digit.
pub open spec fn is_digit_char(c: char) -> bool {
    '0' <= c <= '9'
}

/// Every character of `s` is an ASCII digit.
pub open spec fn all_digits(s: Seq<char>) -> bool {
    forall|i: int| 0 <= i < s.len() ==> is_digit_char(#[trigger] s[i])
}

/// A year as chrono's `%Y` writes it: four digits for years 0 to 9999,
/// otherwise a sign and at least four digits.
pub open spec fn year_text(y: Seq<char>) -> bool {
    ||| y.len() == 4 && all_digits(y)
    ||| y.len() >= 5 && (y[0] == '+' || y[0] == '-') && all_digits(y.drop_first())
}

/// Two digits after the separator `sep`, ending `t`.
pub open spec fn ends_with_field(t: Seq<char>, sep: char) -> bool {
    &&& t.len() >= 3
    &&& t[t.len() - 3] == sep
    &&& is_digit_char(t[t.len() - 2])
    &&& is_digit_char(t[t.len() - 1])
}

/// A day as chrono's `%Y-%m-%d` writes it: the year, then two-digit month
/// and day.
pub open spec fn day_text(t: Seq<char>) -> bool {
    &&& t.len() >= 10
    &&& year_text(t.subrange(0, t.len() - 6))
    &&& ends_with_field(t.subrange(0, t.len() - 3), '-')
    &&& ends_with_field(t, '-')
}

/// A minute as chrono's `%Y-%m-%d %H:%M` writes it: the day, then two-digit
/// hour and minute.
pub open spec fn minute_text(t: Seq<char>) -> bool {
    &&& t.len() >= 16
    &&& day_text(t.subrange(0, t.len() - 6))
    &&& ends_with_field(t.subrange(0, t.len() - 3), ' ')
    &&& ends_with_field(t, ':')
}

/// Whether chrono can represent the Unix time `seconds`.
pub uninterp spec fn time_representable(seconds: u64) -> bool;

/// `DateTime::<Utc>::from_timestamp` of chrono, then the day in the
/// machine's time zone formatted with `%Y-%m-%d`; none when chrono cannot
/// represent the time. Whether it can depends on `seconds` alone and is
/// named by `time_representable`; the day depends on the machine's time
/// zone, so only its `%Y-%m-%d` shape is stated.
#[verifier::external_body]
fn local_day_text(seconds: u64) -> (r: Option<String>)
    ensures
        r is Some <==> time_representable(seconds),
        r matches Some(t) ==> day_text(t@),
{
    chrono::DateTime::<chrono::Utc>::from_timestamp(seconds as i64, 0).map(
        |dt| dt.with_timezone(&chrono::Local).format("%Y-%m-%d").to_string(),
    )
}

/// The day, in the machine's time zone, a project was last opened; a dash
/// when it never was or the time cannot be represented.
pub fn format_timestamp(timestamp: Option<u64>) -> (r: String)
    ensures
        (timestamp matches Some(t) && time_representable(t)) ==> day_text(r@),
        !(timestamp matches Some(t) && time_representable(t)) ==> r@ == seq!['\u{2014}'],
{
    let day = match timestamp {
        Some(t) => local_day_text(t),
        None => None,
    };
    match day {
        Some(d) => d,
        None => {
            let mut r = String::new();
            push_char(&mut r, '\u{2014}');
            r
        },
    }
}

/// Whether `value` parses as an RFC 3339 date and time.
pub uninterp spec fn parses_rfc3339(value: Seq<char>) -> bool;

/// `DateTime::parse_from_rfc3339` of chrono, then the time in the machine's
/// time zone formatted with `%Y-%m-%d %H:%M`; none when `value` does not
/// parse. Whether it parses depends on `value` alone and is named by
/// `parses_rfc3339`; the text depends on the machine's time zone, so only
/// its `%Y-%m-%d %H:%M` shape is stated.
#[verifier::external_body]
fn local_minute_text(value: &str) -> (r: Option<String>)
    ensures
        r is Some <==> parses_rfc3339(value@),
        r matches Some(t) ==> minute_text(t@),
{
    chrono::DateTime::parse_from_rfc3339(value).ok().map(
        |dt| dt.with_timezone(&chrono::Local).format("%Y-%m-%d %H:%M").to_string(),
    )
}

/// A CI run's creation time in the machine's time zone, as date, hour and
/// minute; the text as it is when it is no RFC 3339 time.
pub fn format_ci_time(value: &str) -> (r: String)
    ensures
        parses_rfc3339(value@) ==> minute_text(r@),
        !parses_rfc3339(value@) ==> r@ == value@,
{
    match local_minute_text(value) {
        Some(t) => t,
        None => String::from_str(value),
    }
}

/// First row shown of a list of `len` rows with the cursor at `cursor`, so
/// that the cursor sits mid-screen where the list allows it.
pub open spec fn scroll_start(len: nat, cursor: int, visible_rows: nat) -> nat {
    if len == 0 || visible_rows == 0 || cursor < 0 {
        0
    } else {
        let max_offset: int = if len >= visible_rows {
            len - visible_rows
        } else {
            0
        };
        let centered: int = if cursor >= visible_rows / 2 {
            cursor - visible_rows / 2
        } else {
            0
        };
        (if centered <= max_offset {
            centered
        } else {
            max_offset
        }) as nat
    }
}

/// The scroll offset of a list (see `scroll_start`).
pub fn scroll_offset(len: usize, cursor: isize, visible_rows: usize) -> (r: usize)
    ensures
        r as nat == scroll_start(len as nat, cursor as int, visible_rows as nat),
{
    if len == 0 || visible_rows == 0 || cursor < 0 {
        return 0;
    }
    let max_offset = if len >= visible_rows {
        len - visible_rows
    } else {
        0
    };
    let cursor = cursor as usize;
    let center = visible_rows / 2;
    let centered = if cursor >= center {
        cursor - center
    } else {
        0
    };
    if centered <= max_offset {
        centered
    } else {
        max_offset
    }
}

} // verus!
