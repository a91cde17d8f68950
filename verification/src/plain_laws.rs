//! What the plainest conventions do with texts, titles, projects, times and
//! messages.

use crate::conventions::Conventions;
use crate::models::{MessageKind, MessageModel, Role};
use crate::plain::PlainConventions;
use crate::text;
use crate::text_laws;
use crate::time;
use vstd::prelude::*;

verus! {

/// A text is cut to the limit and no further: what is left begins it, all of it is
/// left where it is not longer, and what was cut is told.
pub proof fn law_texts_are_cut_to_the_limit(rules: &PlainConventions, s: Seq<char>, max: nat)
    ensures
        ({
            let cut = rules.clipped(s, max);
            &&& cut.0.is_prefix_of(s)
            &&& cut.1 <==> s.len() > max
            &&& s.len() <= max ==> cut.0.len() == s.len()
            &&& s.len() > max ==> cut.0.len() == max
        }),
        rules.msg_limit() == rules.max_msg_text,
        rules.tool_limit() == rules.max_tool_io,
        rules.no_title() == rules.untitled@,
{
    if s.len() <= max {
        assert(s =~= s.subrange(0, s.len() as int));
    } else {
        assert(s.take(max as int) =~= s.subrange(0, max as int));
    }
}

/// The title of a text is its first line that is not blank, without the white space
/// round it.
pub proof fn law_a_title_is_the_first_line(rules: &PlainConventions, s: Seq<char>, line: Seq<char>)
    requires
        text_laws::is_first_line(text::trimmed(s), line),
    ensures
        rules.title_of(s) == text::trimmed(line),
{
    text_laws::law_the_first_mark_is_found(text::trimmed(s), "\n"@, line.len() as int);
}

/// The name of a project is what stands behind the last slash or backslash of its
/// directory.
pub proof fn law_a_project_is_named_by_its_last_part(
    rules: &PlainConventions,
    path: Seq<char>,
    name: Seq<char>,
)
    requires
        forall|i: int| #![trigger name[i]] 0 <= i < name.len() ==> name[i] != '/' && name[i] != '\\',
    ensures
        path.len() == 0 || path.last() == '/' || path.last() == '\\' ==> rules.project_of(
            path + name,
        ) == name,
    decreases name.len(),
{
    if path.len() == 0 || path.last() == '/' || path.last() == '\\' {
        let whole = path + name;
        if name.len() == 0 {
            assert(whole =~= path);
            assert(rules.project_of(whole) =~= name);
        } else {
            let rest = name.drop_last();
            assert(whole.drop_last() =~= path + rest);
            assert(whole.last() == name[name.len() - 1]);
            assert forall|i: int| #![trigger rest[i]] 0 <= i < rest.len() implies rest[i] != '/'
                && rest[i] != '\\' by {
                assert(rest[i] == name[i]);
            }
            law_a_project_is_named_by_its_last_part(rules, path, rest);
            assert(rules.project_of(whole) =~= name);
        }
    }
}

/// A message that holds a text and nothing else.
pub proof fn law_a_note_holds_a_text(rules: &PlainConventions, role: Role, s: Seq<char>, at: i64)
    ensures
        ({
            let m = rules.note(role, s, at);
            &&& m.role == role
            &&& m.kind == MessageKind::Text
            &&& m.text == rules.clipped(s, rules.msg_limit()).0
            &&& m.truncated == rules.clipped(s, rules.msg_limit()).1
            &&& at > 0 ==> m.timestamp == Some(at)
            &&& at <= 0 ==> m.timestamp is None
            &&& m.tool_calls.len() == 0
            &&& m.thinking is None
            &&& m.model is None
            &&& m.images.len() == 0
        }),
        rules.kind_of(s) == MessageKind::Text,
{
}

/// The search index holds of each message its number and its text.
pub proof fn law_each_message_is_indexed(
    rules: &PlainConventions,
    messages: Seq<MessageModel>,
    i: int,
)
    ensures
        rules.units_of(messages).len() == messages.len(),
        0 <= i < messages.len() ==> rules.units_of(messages)[i].seq == messages[i].seq
            && rules.units_of(messages)[i].text == messages[i].text,
{
}

/// Days are counted from the first of January 1970, one by one: the day that follows
/// another in a month, the first of the month that follows another, and the first of
/// the year that follows another, are each one day later.
#[verifier::spinoff_prover]
pub proof fn law_days_follow_each_other(y: int, m: int, d: int)
    requires
        y >= 1,
    ensures
        time::days_since_epoch(1970, 1, 1) == 0,
        time::days_since_epoch(y, m, d + 1) == time::days_since_epoch(y, m, d) + 1,
        1 <= m < 12 ==> time::days_since_epoch(y, m + 1, 1) == time::days_since_epoch(
            y,
            m,
            days_of(y, m),
        ) + 1,
        time::days_since_epoch(y + 1, 1, 1) == time::days_since_epoch(y, 12, 31) + 1,
{
    reveal_with_fuel(time::days_before_month, 13);
}

/// How many days a month has.
pub open spec fn days_of(y: int, m: int) -> int {
    if m == 4 || m == 6 || m == 9 || m == 11 {
        30
    } else if m != 2 {
        31
    } else if (y % 4 == 0 && y % 100 != 0) || y % 400 == 0 {
        29
    } else {
        28
    }
}

/// Whether two digits that write a number stand at a place.
pub open spec fn two_at(s: Seq<char>, i: int, n: int) -> bool {
    &&& 0 <= i
    &&& i + 2 <= s.len()
    &&& '0' <= s[i] <= '9'
    &&& '0' <= s[i + 1] <= '9'
    &&& n == 10 * (s[i] as int - 48) + (s[i + 1] as int - 48)
}

/// A time is read as the milliseconds from 1970 to it: those of its day, of its time
/// of day and of the three first digits of its fraction, where there is one.
pub proof fn law_a_time_is_read(
    rules: &PlainConventions,
    s: Seq<char>,
    century: int,
    year: int,
    month: int,
    day: int,
    hour: int,
    minute: int,
    second: int,
)
    requires
        s.len() >= 20,
        two_at(s, 0, century),
        two_at(s, 2, year),
        s[4] == '-',
        two_at(s, 5, month),
        s[7] == '-',
        two_at(s, 8, day),
        s[10] == 'T' || s[10] == ' ',
        two_at(s, 11, hour),
        s[13] == ':',
        two_at(s, 14, minute),
        s[16] == ':',
        two_at(s, 17, second),
        100 * century + year >= 1,
        1 <= month <= 12,
        1 <= day <= days_of(100 * century + year, month),
        hour <= 23,
        minute <= 59,
        second <= 59,
    ensures
        ({
            let days = time::days_since_epoch(100 * century + year, month, day);
            let whole = ((days * 24 + hour) * 60 + minute) * 60000 + second * 1000;
            &&& s.len() == 20 && s[19] == 'Z' ==> rules.iso_time(s) == whole && rules.store_time(s)
                == whole
            &&& s.len() == 24 && s[19] == '.' && '0' <= s[20] <= '9' && '0' <= s[21] <= '9' && '0'
                <= s[22] <= '9' && s[23] == 'Z' ==> rules.iso_time(s) == whole + 100 * (
            s[20] as int - 48) + 10 * (s[21] as int - 48) + (s[22] as int - 48)
        }),
{
    reveal_with_fuel(time::number_at, 5);
    reveal_with_fuel(time::digits_end, 5);
    reveal_with_fuel(time::days_before_month, 13);
    assert(time::number_at(s, 0, 4) == Some(100 * century + year));
    assert(time::number_at(s, 5, 2) == Some(month));
    assert(time::number_at(s, 8, 2) == Some(day));
    assert(time::number_at(s, 11, 2) == Some(hour));
    assert(time::number_at(s, 14, 2) == Some(minute));
    assert(time::number_at(s, 17, 2) == Some(second));
}

/// Whether two digits stand at a place.
pub open spec fn is_two(s: Seq<char>, i: int) -> bool {
    i + 2 <= s.len() && '0' <= s[i] <= '9' && '0' <= s[i + 1] <= '9'
}

/// The number that two digits write.
pub open spec fn two_in(s: Seq<char>, i: int) -> int {
    10 * (s[i] as int - 48) + (s[i + 1] as int - 48)
}

/// The year at the beginning of a time.
pub open spec fn year_in(s: Seq<char>) -> int {
    100 * two_in(s, 0) + two_in(s, 2)
}

/// Whether a text begins with a date and a time of day that there is.
pub open spec fn begins_with_moment(s: Seq<char>) -> bool {
    &&& is_two(s, 0) && is_two(s, 2) && is_two(s, 5) && is_two(s, 8)
    &&& is_two(s, 11) && is_two(s, 14) && is_two(s, 17)
    &&& s[4] == '-' && s[7] == '-' && s[13] == ':' && s[16] == ':'
    &&& s[10] == 'T' || s[10] == ' '
    &&& year_in(s) >= 1
    &&& 1 <= two_in(s, 5) <= 12
    &&& 1 <= two_in(s, 8) <= days_of(year_in(s), two_in(s, 5))
    &&& two_in(s, 11) <= 23
    &&& two_in(s, 14) <= 59
    &&& two_in(s, 17) <= 59
}

/// Whether what stands behind the seconds and before a place is nothing, or a full
/// stop and digits.
pub open spec fn fraction_fits(s: Seq<char>, z: int) -> bool {
    z == 19 || (21 <= z <= s.len() && s[19] == '.' && forall|i: int|
        #![trigger s[i]]
        20 <= i < z ==> '0' <= s[i] <= '9')
}

/// Whether what stands from a place on is nothing, a mark of UTC, or a sign with
/// hours and minutes.
pub open spec fn zone_fits(s: Seq<char>, z: int) -> bool {
    ||| z == s.len()
    ||| z + 1 == s.len() && s[z] == 'Z'
    ||| {
        &&& z + 6 == s.len()
        &&& s[z] == '+' || s[z] == '-'
        &&& is_two(s, z + 1) && s[z + 3] == ':' && is_two(s, z + 4)
        &&& two_in(s, z + 1) <= 23
        &&& two_in(s, z + 4) <= 59
    }
}

/// The minutes that a zone is ahead of UTC.
pub open spec fn minutes_ahead(s: Seq<char>, z: int) -> int {
    if z + 6 != s.len() {
        0
    } else if s[z] == '-' {
        -(60 * two_in(s, z + 1) + two_in(s, z + 4))
    } else {
        60 * two_in(s, z + 1) + two_in(s, z + 4)
    }
}

/// The thousandths of a second in a fraction that ends before a place.
pub open spec fn thousandths(s: Seq<char>, z: int) -> int {
    (if z > 20 {
        100 * (s[20] as int - 48)
    } else {
        0
    }) + (if z > 21 {
        10 * (s[21] as int - 48)
    } else {
        0
    }) + (if z > 22 {
        s[22] as int - 48
    } else {
        0
    })
}

/// Digits end before the first character that is none.
proof fn lemma_digits_end(s: Seq<char>, i: int)
    requires
        0 <= i <= s.len(),
    ensures
        ({
            let end = time::digits_end(s, i);
            &&& i <= end <= s.len()
            &&& end < s.len() ==> !('0' <= s[end] <= '9')
            &&& forall|j: int| #![trigger s[j]] i <= j < end ==> '0' <= s[j] <= '9'
        }),
    decreases s.len() - i,
{
    if i < s.len() && time::is_digit(s[i]) {
        lemma_digits_end(s, i + 1);
    }
}

/// A zone is read as the minutes that it is ahead, and nothing else is.
proof fn lemma_zone(s: Seq<char>, z: int)
    requires
        0 <= z <= s.len(),
    ensures
        zone_fits(s, z) ==> time::zone_minutes(s, z) == Some(minutes_ahead(s, z)),
        !zone_fits(s, z) ==> time::zone_minutes(s, z) is None,
{
    reveal_with_fuel(time::number_at, 3);
}

/// A fraction is read as its thousandths, with the zone behind it.
proof fn lemma_fraction(s: Seq<char>, z: int)
    requires
        19 <= s.len(),
        fraction_fits(s, z),
        zone_fits(s, z),
    ensures
        time::fraction_at(s, 19) == Some((thousandths(s, z), minutes_ahead(s, z))),
{
    lemma_zone(s, z);
    lemma_zone(s, 19);
    if z > 19 {
        lemma_digits_end(s, 20);
        let end = time::digits_end(s, 20);
        assert(end == z) by {
            if end < z {
                assert('0' <= s[end] <= '9');
            }
            if z < end {
                assert('0' <= s[z] <= '9');
            }
        }
    }
}

/// The numbers of a date and a time of day are read.
proof fn lemma_moment(s: Seq<char>)
    requires
        begins_with_moment(s),
    ensures
        time::number_at(s, 0, 4) == Some(year_in(s)),
        time::number_at(s, 5, 2) == Some(two_in(s, 5)),
        time::number_at(s, 8, 2) == Some(two_in(s, 8)),
        time::number_at(s, 11, 2) == Some(two_in(s, 11)),
        time::number_at(s, 14, 2) == Some(two_in(s, 14)),
        time::number_at(s, 17, 2) == Some(two_in(s, 17)),
{
    reveal_with_fuel(time::number_at, 5);
}

/// A date of four digits in the year is less than four million days from 1970.
proof fn lemma_days_are_few(y: int, m: int, d: int)
    requires
        1 <= y <= 9999,
        1 <= m <= 12,
        1 <= d <= 31,
    ensures
        -4000000 < time::days_since_epoch(y, m, d) < 4000000,
{
    reveal_with_fuel(time::days_before_month, 13);
}

/// A time is read as the milliseconds from 1970 to it in UTC: those of its day and
/// its time of day, less those that its zone is ahead, and the thousandths of its
/// fraction. Both the zone and the fraction may be missing.
pub proof fn law_a_time_is_that_of_its_zone(rules: &PlainConventions, s: Seq<char>, z: int)
    requires
        begins_with_moment(s),
        fraction_fits(s, z),
        zone_fits(s, z),
    ensures
        ({
            let days = time::days_since_epoch(year_in(s), two_in(s, 5), two_in(s, 8));
            let minutes = (days * 24 + two_in(s, 11)) * 60 + two_in(s, 14) - minutes_ahead(s, z);
            let ms = minutes * 60000 + two_in(s, 17) * 1000 + thousandths(s, z);
            rules.iso_time(s) == ms && rules.store_time(s) == ms
        }),
{
    lemma_fraction(s, z);
    lemma_moment(s);
    lemma_days_are_few(year_in(s), two_in(s, 5), two_in(s, 8));
}

/// What is no date and time of day, with a fraction and a zone as far as there are
/// any, is read as zero.
pub proof fn law_what_is_no_time_is_zero(rules: &PlainConventions, s: Seq<char>)
    requires
        !(begins_with_moment(s) && exists|z: int|
            #![trigger zone_fits(s, z)]
            fraction_fits(s, z) && zone_fits(s, z)),
    ensures
        rules.iso_time(s) == 0,
        rules.store_time(s) == 0,
{
    reveal_with_fuel(time::number_at, 5);
    if time::utc_ms(s) != 0 {
        assert(begins_with_moment(s));
        lemma_zone(s, 19);
        if zone_fits(s, 19) {
            assert(fraction_fits(s, 19));
        } else {
            lemma_digits_end(s, 20);
            let end = time::digits_end(s, 20);
            lemma_zone(s, end);
            assert(fraction_fits(s, end) && zone_fits(s, end));
        }
    }
}

} // verus!
