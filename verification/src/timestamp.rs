//! Timestamps in milliseconds since the Unix epoch, and how they are read and written.

use crate::error::ArchiveError;
use crate::text::{differs_at, replace_chars, replaced, text_before};
use vstd::prelude::*;

verus! {

/// The first second of the year -9999, the earliest that a date can stand for.
pub const FIRST_SECOND: i64 = -377_705_116_800;

/// The last second of the year 9999, the latest that a date can stand for.
pub const LAST_SECOND: i64 = 253_402_300_799;

/// The first second of the year 0, the earliest that RFC 3339 can write.
pub const FIRST_WRITABLE_SECOND: i64 = -62_167_219_200;

/// No second count that `time` hands out is further from the epoch than this.
pub const SECOND_LIMIT: i64 = 1_000_000_000_000;

/// The RFC 3339 text, in UTC, of a whole second counted from the Unix epoch.
pub uninterp spec fn rfc3339_utc(seconds: i64) -> Seq<char>;

/// Whether a character is a decimal digit.
pub open spec fn is_digit(c: char) -> bool {
    '0' <= c <= '9'
}

/// Whether a character can stand at a place of an RFC 3339 text in UTC without a fraction: the year
/// has four digits, and the month, the day, the hour, the minute and the second have two each. There
/// is no sixtieth minute or second.
pub open spec fn rfc3339_place(i: int, c: char) -> bool {
    if i == 4 || i == 7 {
        c == '-'
    } else if i == 10 {
        c == 'T'
    } else if i == 13 || i == 16 {
        c == ':'
    } else if i == 14 || i == 17 {
        '0' <= c <= '5'
    } else if i == 19 {
        c == 'Z'
    } else {
        is_digit(c)
    }
}

/// Whether the first place where two texts differ holds a digit in both, the smaller one in the
/// first text.
pub open spec fn smaller_digit_first(a: Seq<char>, b: Seq<char>) -> bool {
    exists|at: int|
        #[trigger] differs_at(a, b, at) && at < a.len() && '0' <= a[at] && a[at] < b[at] && b[at]
            <= '9'
}

/// `OffsetDateTime::from_unix_timestamp`, and `OffsetDateTime::format` with `Rfc3339` on its
/// result; the `Display` of the error where one of them fails. The first refuses what lies outside
/// the years -9999 to 9999, the second what lies before the year 0. A text has twenty characters in
/// fixed places, from the year down to the second, so that of two texts the one of the earlier
/// second has the smaller digit at the first place where they differ.
#[verifier::external_body]
pub(crate) fn format_unix_seconds(seconds: i64) -> (result: Result<Result<String, String>, String>)
    ensures
        result is Ok <==> FIRST_SECOND <= seconds <= LAST_SECOND,
        result matches Err(reason) ==> reason@ == "timestamp was not in range"@,
        result matches Ok(formatted) ==> (formatted is Ok <==> seconds >= FIRST_WRITABLE_SECOND),
        result matches Ok(Err(reason)) ==> reason@
            == "The year component cannot be formatted into the requested format."@,
        result matches Ok(Ok(text)) ==> {
            &&& text@ == rfc3339_utc(seconds)
            &&& text@.len() == 20
            &&& forall|i: int| 0 <= i < text@.len() ==> rfc3339_place(
                i,
                #[trigger] text@[i],
            )
        },
        result matches Ok(Ok(text)) ==> forall|earlier: i64|
            FIRST_WRITABLE_SECOND <= earlier < seconds ==> smaller_digit_first(
                #[trigger] rfc3339_utc(earlier),
                text@,
            ),
{
    time::OffsetDateTime::from_unix_timestamp(seconds).map(
        |datetime|
            datetime.format(&time::format_description::well_known::Rfc3339).map_err(
                |error| error.to_string(),
            ),
    ).map_err(|error| error.to_string())
}

/// The instant that an RFC 3339 text stands for: the second since the Unix epoch, and the
/// milliseconds within it; or the text of the error, if the text is no RFC 3339 timestamp.
pub uninterp spec fn rfc3339_instant(text: Seq<char>) -> Result<(i64, u16), Seq<char>>;

/// The number that a digit stands for.
pub open spec fn digit_value(c: char) -> int {
    c as int - '0' as int
}

/// The number that two digits stand for.
pub open spec fn two_digits(text: Seq<char>, at: int) -> int {
    digit_value(text[at]) * 10 + digit_value(text[at + 1])
}

/// Whether the zone of a timestamp is written as `Z`.
pub open spec fn in_utc(text: Seq<char>) -> bool {
    text.last() == 'Z' || text.last() == 'z'
}

/// Where the zone of a timestamp begins.
pub open spec fn zone_start(text: Seq<char>) -> int {
    if in_utc(text) {
        text.len() - 1
    } else {
        text.len() - 6
    }
}

/// Whether a timestamp ends in a zone: a `Z`, or a sign, two digits, a colon and two digits that are
/// less than a day.
pub open spec fn has_zone(text: Seq<char>) -> bool {
    let at = zone_start(text);
    text.len() >= 6 && (in_utc(text) || {
        &&& text[at] == '+' || text[at] == '-'
        &&& is_digit(text[at + 1]) && is_digit(text[at + 2])
        &&& text[at + 3] == ':'
        &&& is_digit(text[at + 4]) && is_digit(text[at + 5])
        &&& two_digits(text, at + 1) <= 23
        &&& two_digits(text, at + 4) <= 59
    })
}

/// How far the zone of a timestamp is ahead of UTC.
pub open spec fn zone_seconds(text: Seq<char>) -> int {
    let at = zone_start(text);
    let seconds = two_digits(text, at + 1) * 3600 + two_digits(text, at + 4) * 60;
    if in_utc(text) {
        0
    } else if text[at] == '-' {
        -seconds
    } else {
        seconds
    }
}

/// Whether what stands behind the second of a timestamp is a fraction, or nothing, and a zone; and
/// one ASCII character parts the date from the time.
pub open spec fn rfc3339_form(text: Seq<char>) -> bool {
    let at = zone_start(text);
    &&& has_zone(text)
    &&& at == 19 || at > 20 && text[19] == '.' && forall|i: int|
        20 <= i < at ==> is_digit(#[trigger] text[i])
    &&& (text[10] as u32) < 0x80
}

/// The milliseconds of the fraction of a timestamp, rounded down.
pub open spec fn fraction_ms(text: Seq<char>) -> int {
    if zone_start(text) == 19 {
        0
    } else if zone_start(text) == 21 {
        digit_value(text[20]) * 100
    } else if zone_start(text) == 22 {
        two_digits(text, 20) * 10
    } else {
        two_digits(text, 20) * 10 + digit_value(text[22])
    }
}

/// Whether the second of a timestamp is a leap second.
pub open spec fn leap_second(text: Seq<char>) -> bool {
    text.len() > 18 && text[17] == '6' && text[18] == '0'
}

/// Whether a timestamp stands for an instant: a second since the Unix epoch, and the milliseconds
/// within it. The date and the time are those of the second in the zone.
pub open spec fn stands_for(text: Seq<char>, instant: (i64, u16)) -> bool {
    let local = instant.0 + zone_seconds(text);
    &&& rfc3339_form(text)
    &&& FIRST_WRITABLE_SECOND <= local <= LAST_SECOND
    &&& text.take(19).update(10, 'T') + seq!['Z'] == rfc3339_utc(local as i64)
    &&& instant.1 == fraction_ms(text)
}

/// `OffsetDateTime::parse` with `Rfc3339`, then `unix_timestamp` and `millisecond` of its result; or
/// the `Display` of its error. The milliseconds stay below a thousand, and the seconds within a few
/// days of the years that a date can have. What it accepts has a fraction, or none, and a zone. But
/// for leap seconds, it accepts just what stands for an instant, which is then the only one, and
/// gives that instant. Which leap seconds it accepts is not said.
#[verifier::external_body]
fn parse_rfc3339(text: &str) -> (result: Result<(i64, u16), String>)
    ensures
        match rfc3339_instant(text@) {
            Ok(instant) => result == Ok::<(i64, u16), String>(instant),
            Err(reason) => result matches Err(told) && told@ == reason,
        },
        result matches Ok(instant) ==> {
            &&& -SECOND_LIMIT <= instant.0 <= SECOND_LIMIT
            &&& instant.1 < 1000
        },
        result is Ok ==> rfc3339_form(text@),
        !leap_second(text@) ==> match result {
            Ok(instant) => stands_for(text@, instant) && forall|other: (i64, u16)|
                #[trigger] stands_for(text@, other) ==> other == instant,
            Err(_) => forall|instant: (i64, u16)| !#[trigger] stands_for(text@, instant),
        },
{
    time::OffsetDateTime::parse(text, &time::format_description::well_known::Rfc3339).map(
        |instant| (instant.unix_timestamp(), instant.millisecond()),
    ).map_err(|error| error.to_string())
}

/// `OffsetDateTime::now_utc`, then `unix_timestamp` of its result. What the clock shows is
/// unknown; it lies in the years that a date can have, or there is no result, because `now_utc`
/// panics on a clock that shows no date.
#[verifier::external_body]
pub(crate) fn read_clock() -> (result: i64)
    ensures
        FIRST_SECOND <= result <= LAST_SECOND,
{
    time::OffsetDateTime::now_utc().unix_timestamp()
}

/// The whole seconds of a count of milliseconds, rounded towards zero.
pub open spec fn whole_seconds(timestamp_ms: int) -> int {
    if timestamp_ms >= 0 {
        timestamp_ms / 1000
    } else {
        -((-timestamp_ms) / 1000)
    }
}

/// The characters of an RFC 3339 text that do not go into a file name.
pub open spec fn timestamp_separators() -> Seq<char> {
    ":."@
}

/// Whether a character can stand at a place of a timestamp in a file name.
pub open spec fn file_place(i: int, c: char) -> bool {
    if i == 13 || i == 16 {
        c == '-'
    } else {
        rfc3339_place(i, c)
    }
}

/// What `file_timestamp` returns.
pub open spec fn file_timestamp_result(timestamp_ms: i64) -> Result<Seq<char>, ArchiveError> {
    let seconds = whole_seconds(timestamp_ms as int);
    if !(FIRST_SECOND <= seconds <= LAST_SECOND) {
        Err(ArchiveError::ConvertTimestamp { timestamp_ms })
    } else if seconds < FIRST_WRITABLE_SECOND {
        Err(ArchiveError::FormatTimestamp { timestamp_ms })
    } else {
        Ok(replaced(rfc3339_utc(seconds as i64), timestamp_separators(), '-'))
    }
}

/// Whether a text that was written for a timestamp sorts as the timestamps do: what is written for
/// an earlier second comes before it, and what is written for the same second is the same text.
pub open spec fn sorts_by_time(timestamp_ms: i64, written: Seq<char>) -> bool {
    forall|earlier_ms: i64|
        earlier_ms <= timestamp_ms && (#[trigger] file_timestamp_result(earlier_ms)) is Ok ==> {
            let earlier = file_timestamp_result(earlier_ms)->Ok_0;
            if whole_seconds(earlier_ms as int) == whole_seconds(timestamp_ms as int) {
                earlier == written
            } else {
                earlier != written && text_before(earlier, written)
            }
        }
}

/// Putting hyphens for colons and points keeps the order of timestamps.
proof fn lemma_separators_keep_order(a: Seq<char>, b: Seq<char>)
    requires
        smaller_digit_first(a, b),
    ensures
        ({
            let first = replaced(a, timestamp_separators(), '-');
            let second = replaced(b, timestamp_separators(), '-');
            first != second && text_before(first, second)
        }),
{
    reveal_strlit(":.");
    let first = replaced(a, timestamp_separators(), '-');
    let second = replaced(b, timestamp_separators(), '-');
    let at = choose|at: int|
        #[trigger] differs_at(a, b, at) && at < a.len() && '0' <= a[at] && a[at] < b[at] && b[at]
            <= '9';
    assert forall|i: int| 0 <= i < at implies first[i] == second[i] by {
        assert(a.take(at)[i] == b.take(at)[i]);
    }
    assert(first.take(at) =~= second.take(at));
    assert(differs_at(first, second, at));
    assert(first[at] == a[at] && second[at] == b[at]);
}

/// Writes a timestamp down for a file name: in RFC 3339, with hyphens for colons and points. The
/// texts sort by time, and only timestamps within the same second share one.
pub fn file_timestamp(timestamp_ms: i64) -> (result: Result<String, ArchiveError>)
    ensures
        match file_timestamp_result(timestamp_ms) {
            Ok(text) => result matches Ok(written) && written@ == text,
            Err(error) => result == Err::<String, ArchiveError>(error),
        },
        result matches Ok(written) ==> written@.len() == 20 && forall|i: int|
            0 <= i < written@.len() ==> file_place(i, #[trigger] written@[i]),
        result matches Ok(written) ==> sorts_by_time(timestamp_ms, written@),
{
    match format_unix_seconds(timestamp_ms / 1000) {
        Err(_) => Err(ArchiveError::ConvertTimestamp { timestamp_ms }),
        Ok(Err(_)) => Err(ArchiveError::FormatTimestamp { timestamp_ms }),
        Ok(Ok(text)) => {
            proof {
                reveal_strlit(":.");
                assert(":."@[0] == ':');
                assert forall|earlier_ms: i64|
                    earlier_ms <= timestamp_ms && (#[trigger] file_timestamp_result(
                        earlier_ms,
                    )) is Ok && whole_seconds(earlier_ms as int) != whole_seconds(
                        timestamp_ms as int,
                    ) implies smaller_digit_first(
                    rfc3339_utc(whole_seconds(earlier_ms as int) as i64),
                    text@,
                ) by {
                    assert(whole_seconds(earlier_ms as int) < whole_seconds(timestamp_ms as int));
                }
                assert forall|earlier_ms: i64|
                    earlier_ms <= timestamp_ms && (#[trigger] file_timestamp_result(
                        earlier_ms,
                    )) is Ok && whole_seconds(earlier_ms as int) != whole_seconds(
                        timestamp_ms as int,
                    ) implies {
                    let earlier = file_timestamp_result(earlier_ms)->Ok_0;
                    let written = replaced(text@, timestamp_separators(), '-');
                    earlier != written && text_before(earlier, written)
                } by {
                    lemma_separators_keep_order(
                        rfc3339_utc(whole_seconds(earlier_ms as int) as i64),
                        text@,
                    );
                }
            }
            Ok(replace_chars(text.as_str(), ":.", '-'))
        },
    }
}

/// The milliseconds since the Unix epoch of an instant.
pub fn instant_ms(seconds: i64, milliseconds: u16) -> (result: i64)
    requires
        i64::MIN <= seconds * 1000,
        seconds * 1000 + milliseconds <= i64::MAX,
    ensures
        result == seconds * 1000 + milliseconds,
{
    seconds * 1000 + milliseconds as i64
}

/// The milliseconds since the Unix epoch of an instant: a second, and milliseconds within it.
pub open spec fn milliseconds(instant: (i64, u16)) -> int {
    instant.0 * 1000 + instant.1
}

/// Whether a number of milliseconds is that of the instant that a timestamp stands for; or whether
/// there is none, and the timestamp stands for no instant.
pub open spec fn reads_instant<E>(result: Result<i64, E>, text: Seq<char>) -> bool {
    match result {
        Ok(ms) => {
            &&& exists|instant: (i64, u16)| #[trigger] stands_for(text, instant)
            &&& forall|instant: (i64, u16)| #[trigger]
                stands_for(text, instant) ==> ms == milliseconds(instant)
        },
        Err(_) => forall|instant: (i64, u16)| !#[trigger] stands_for(text, instant),
    }
}

/// Reads an RFC 3339 timestamp as milliseconds since the Unix epoch; or tells why it is none.
pub fn timestamp_ms(value: &str) -> (result: Result<i64, String>)
    ensures
        match rfc3339_instant(value@) {
            Ok(instant) => result matches Ok(ms) && ms == instant.0 * 1000 + instant.1,
            Err(reason) => result matches Err(told) && told@ == reason,
        },
        result is Ok ==> rfc3339_form(value@),
        !leap_second(value@) ==> reads_instant(result, value@),
{
    match parse_rfc3339(value) {
        Ok(instant) => Ok(instant_ms(instant.0, instant.1)),
        Err(reason) => Err(reason),
    }
}

} // verus!
