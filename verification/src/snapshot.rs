//! Names of snapshots and of the places they live in.

use vstd::prelude::*;
use vstd::utf8::encode_utf8;

use chrono::DateTime;

use crate::clock::{current_unix_ts, is_reading, Reading};
use crate::number::{decimal, decimal_text, is_digit};
use crate::order::lex_le;
use crate::path::{join, joined_path};
use crate::text::{debug_text, joined, quoted};

verus! {

broadcast use vstd::string::group_string_axioms;

/// Temporary snapshot name used on Disk A while a backup is in progress.
pub const SNAP_TMP: &'static str = ".snap_tmp";

/// Base snapshot name kept on Disk A as the parent for the next incremental.
pub const SNAP_BASE_FULL: &'static str = ".snap_base_full";

/// Prefix for full-backup snapshot names, used when constructing and parsing names.
pub const FULL_PREFIX: &'static str = "full_";

/// Prefix for incremental snapshot names, used when constructing and parsing names.
pub const INCR_PREFIX: &'static str = "incr_";

/// The `YYYYMMDD_HHMMSS` pattern: eight digits, an underscore, six digits.
pub open spec fn is_timestamp(s: Seq<char>) -> bool {
    &&& s.len() == 15
    &&& s[8] == '_'
    &&& forall|i: int| 0 <= i < 15 && i != 8 ==> is_digit(#[trigger] s[i])
}

/// The `strftime` pattern of a timestamp.
pub const STAMP_FORMAT: &'static str = "%Y%m%d_%H%M%S";

/// The last second that a calendar with the years 1 to 262142 can hold.
pub const LAST_CALENDAR_SECOND: i64 = 8_210_266_876_799;

/// The last second of the year 9999.
pub const LAST_FOUR_DIGIT_SECOND: i64 = 253_402_300_799;

/// The UTC date and time `secs` seconds after the Unix epoch, formatted as
/// `format` says.
pub uninterp spec fn utc_text(secs: i64, format: Seq<char>) -> Seq<char>;

/// `chrono::DateTime::from_timestamp` and `DateTime::format`: the text that
/// `utc_text` names. It has the shape of a timestamp exactly up to the end of the
/// year 9999; chrono writes later years with a sign and more digits. Up to then
/// every field has a fixed width, the more significant ones first, so that no
/// earlier second has a text that comes later.
#[verifier::external_body]
fn format_utc(secs: i64, format: &str) -> (r: String)
    requires
        0 <= secs <= LAST_CALENDAR_SECOND,
        format@ == STAMP_FORMAT@,
    ensures
        r@ == utc_text(secs, format@),
        is_timestamp(r@) <==> secs <= LAST_FOUR_DIGIT_SECOND,
        forall|earlier: i64|
            0 <= earlier <= secs <= LAST_FOUR_DIGIT_SECOND ==> lex_le(#[trigger] utc_text(earlier, format@), r@),
{
    DateTime::from_timestamp(secs, 0).unwrap_or_default().format(format).to_string()
}

/// Returns the UTC time `secs` seconds after the Unix epoch, formatted as
/// `YYYYMMDD_HHMMSS`.
///
/// Up to the end of the year 9999 a later time has a text that is not smaller in
/// string order.
pub fn timestamp_at(secs: i64) -> (r: String)
    requires
        0 <= secs <= LAST_CALENDAR_SECOND,
    ensures
        r@ == utc_text(secs, STAMP_FORMAT@),
        is_timestamp(r@) <==> secs <= LAST_FOUR_DIGIT_SECOND,
        forall|earlier: i64|
            0 <= earlier <= secs <= LAST_FOUR_DIGIT_SECOND ==> lex_le(
                #[trigger] utc_text(earlier, STAMP_FORMAT@),
                r@,
            ),
{
    format_utc(secs, STAMP_FORMAT)
}

/// The UTC text of a reading of the clock; empty for one that the calendar does
/// not hold.
pub open spec fn stamp_text(now: Reading) -> Seq<char> {
    match now {
        Ok(secs) => if secs <= LAST_CALENDAR_SECOND {
            utc_text(secs as i64, STAMP_FORMAT@)
        } else {
            seq![]
        },
        Err(_) => seq![],
    }
}

/// Whether `r` is the text of the reading `now`. It has the shape of a timestamp
/// exactly up to the end of the year 9999, and until then no earlier second has a
/// text that comes after it.
pub open spec fn is_stamp_of(now: Reading, r: Seq<char>) -> bool {
    &&& r == stamp_text(now)
    &&& is_timestamp(r) <==> (now matches Ok(secs) && secs <= LAST_FOUR_DIGIT_SECOND)
    &&& forall|earlier: u64|
        (now matches Ok(secs) && earlier <= secs <= LAST_FOUR_DIGIT_SECOND) ==> lex_le(
            #[trigger] stamp_text(Ok(earlier)),
            r,
        )
}

/// Returns the UTC text of a reading of the clock, formatted as
/// `YYYYMMDD_HHMMSS`; empty for one that the calendar does not hold.
pub fn stamp_at(now: &Reading) -> (r: String)
    ensures
        is_stamp_of(*now, r@),
{
    match now {
        Ok(secs) => {
            if *secs <= LAST_CALENDAR_SECOND as u64 {
                timestamp_at(*secs as i64)
            } else {
                String::new()
            }
        },
        Err(_) => String::new(),
    }
}

/// Up to the end of the year 9999 a later reading of the clock has a text that is
/// not smaller in string order.
pub proof fn later_stamps_are_not_smaller(earlier: u64, a: Seq<char>, later: u64, b: Seq<char>)
    requires
        is_stamp_of(Ok(earlier), a),
        is_stamp_of(Ok(later), b),
        earlier <= later <= LAST_FOUR_DIGIT_SECOND,
    ensures
        lex_le(a, b),
{
    assert(a == stamp_text(Ok(earlier)));
}

/// The text of a reading is that of its own second, in the format of a timestamp,
/// for every second that the calendar holds.
pub proof fn stamp_is_of_its_second(now: Reading, r: Seq<char>)
    requires
        is_stamp_of(now, r),
    ensures
        now matches Ok(secs) ==> {
            &&& secs <= 8_210_266_876_799 ==> r == utc_text(secs as i64, "%Y%m%d_%H%M%S"@)
            &&& secs > 8_210_266_876_799 ==> r.len() == 0
            &&& is_timestamp(r) <==> secs <= 253_402_300_799
        },
        now is Err ==> r.len() == 0,
{
}

/// A timestamp is 15 characters. At the ninth place it has an underscore, at every
/// other place any digit, whatever stands at the other places.
pub proof fn timestamps_are_any_digits(s: Seq<char>, i: int, c: char)
    requires
        is_timestamp(s),
        0 <= i < 15,
    ensures
        s.len() == 15,
        is_timestamp("00000000_000000"@),
        i != 8 ==> (is_timestamp(s.update(i, c)) <==> "0123456789"@.contains(c)),
        i == 8 ==> (is_timestamp(s.update(i, c)) <==> c == '_'),
{
    reveal_strlit("00000000_000000");
    reveal_strlit("0123456789");
    let t = s.update(i, c);
    assert(t[i] == c);
    assert(forall|k: int| 0 <= k < 15 && k != i ==> #[trigger] t[k] == s[k]);
    let ds = "0123456789"@;
    if is_digit(c) {
        assert(ds[c as int - 48] == c);
    }
    if ds.contains(c) {
        let k = choose|k: int| 0 <= k < ds.len() && ds[k] == c;
        assert(is_digit(c));
    }
    if i != 8 {
        assert(is_timestamp(t) ==> is_digit(t[i]));
        if is_digit(c) {
            assert(t[8] == s[8]);
            assert forall|k: int| 0 <= k < 15 && k != 8 implies is_digit(#[trigger] t[k]) by {
                if k != i {
                    assert(is_digit(s[k]));
                }
            }
        }
    } else if c == '_' {
        assert forall|k: int| 0 <= k < 15 && k != 8 implies is_digit(#[trigger] t[k]) by {
            assert(is_digit(s[k]));
        }
    }
}

/// What is said to be wrong with a text that is no timestamp: its length in bytes,
/// else the first place that has no digit, else what stands for the underscore.
pub proof fn timestamp_faults_are_the_first(bytes: Seq<u8>, e: TimestampError)
    requires
        timestamp_verdict(bytes, Err(e)),
    ensures
        bytes.len() != 15 <==> e is WrongLength,
        e matches TimestampError::WrongLength(n) ==> n == bytes.len(),
        e matches TimestampError::NotADigit(p) ==> {
            &&& p < 15
            &&& p != 8
            &&& !(48 <= bytes[p as int] <= 57)
            &&& forall|i: int| 0 <= i < p && i != 8 ==> 48 <= #[trigger] bytes[i] <= 57
        },
        e matches TimestampError::WrongSeparator(b) ==> {
            &&& b == bytes[8]
            &&& b != 95
            &&& forall|i: int| 0 <= i < 15 && i != 8 ==> 48 <= #[trigger] bytes[i] <= 57
        },
{
    assert forall|i: int| #[trigger] digit_at(bytes, i) implies 48 <= bytes[i] <= 57 by {}
    match e {
        TimestampError::NotADigit(p) => {
            assert forall|i: int| 0 <= i < p && i != 8 implies 48 <= #[trigger] bytes[i] <= 57 by {
                assert(digit_at(bytes, i));
            }
        },
        TimestampError::WrongSeparator(_) => {
            assert forall|i: int| 0 <= i < 15 && i != 8 implies 48 <= #[trigger] bytes[i] <= 57 by {
                assert(digit_at(bytes, i));
            }
        },
        _ => {},
    }
}

/// Returns the current UTC time formatted as `YYYYMMDD_HHMMSS`; empty for a clock
/// that the calendar does not hold.
pub fn timestamp_now() -> (r: String)
    ensures
        exists|now: Reading| is_reading(now) && #[trigger] is_stamp_of(now, r@),
{
    let now = current_unix_ts();
    stamp_at(&now)
}

/// Why a text is no `YYYYMMDD_HHMMSS` timestamp.
#[derive(Debug, PartialEq, Eq, Structural, Clone, Copy)]
pub enum TimestampError {
    /// It is this many bytes long.
    WrongLength(usize),
    /// The byte at this position is no ASCII digit.
    NotADigit(usize),
    /// This byte stands where the underscore belongs.
    WrongSeparator(u8),
}

impl TimestampError {
    /// The message that explains what is wrong with `ts`.
    pub open spec fn text(self, ts: Seq<char>) -> Seq<char> {
        "invalid timestamp "@ + debug_text(ts) + match self {
            TimestampError::WrongLength(n) => ": expected 15 characters (YYYYMMDD_HHMMSS), got "@ + decimal(
                n as nat,
            ),
            TimestampError::NotADigit(p) => ": character at position "@ + decimal(p as nat)
                + " is not an ASCII digit"@,
            TimestampError::WrongSeparator(b) => (": character at position 8 must be '_', got '"@).push(
                b as char,
            ) + "'"@,
        }
    }

    /// Returns the message that explains what is wrong with `ts`.
    pub fn message(&self, ts: &str) -> (r: String)
        ensures
            r@ == self.text(ts@),
    {
        let mut out = "invalid timestamp ".to_owned();
        out.append(quoted(ts).as_str());
        let tail = match self {
            TimestampError::WrongLength(n) => {
                joined(": expected 15 characters (YYYYMMDD_HHMMSS), got ", decimal_text(*n as u64).as_str())
            },
            TimestampError::NotADigit(p) => {
                let start = joined(": character at position ", decimal_text(*p as u64).as_str());
                joined(start.as_str(), " is not an ASCII digit")
            },
            TimestampError::WrongSeparator(b) => {
                let mut start = ": character at position 8 must be '_', got '".to_owned();
                start.push(*b as char);
                joined(start.as_str(), "'")
            },
        };
        out.append(tail.as_str());
        out
    }
}

/// Whether the byte at position `i` is one that a timestamp can have there.
pub open spec fn digit_at(bytes: Seq<u8>, i: int) -> bool {
    48 <= bytes[i] <= 57
}

/// The verdict on the bytes of a timestamp: the length is judged first, the
/// digits from left to right next, the separator last.
pub open spec fn timestamp_verdict(bytes: Seq<u8>, r: Result<(), TimestampError>) -> bool {
    let digits = forall|i: int| 0 <= i < 15 && i != 8 ==> #[trigger] digit_at(bytes, i);
    match r {
        Ok(()) => bytes.len() == 15 && digits && bytes[8] == 95,
        Err(TimestampError::WrongLength(n)) => n == bytes.len() && n != 15,
        Err(TimestampError::NotADigit(p)) => {
            &&& bytes.len() == 15
            &&& p < 15
            &&& p != 8
            &&& !digit_at(bytes, p as int)
            &&& forall|i: int| 0 <= i < p && i != 8 ==> #[trigger] digit_at(bytes, i)
        },
        Err(TimestampError::WrongSeparator(b)) => bytes.len() == 15 && digits && b == bytes[8] && b != 95,
    }
}

/// What is wrong with a text that is no timestamp.
pub open spec fn timestamp_fault(ts: Seq<char>) -> TimestampError {
    choose|e: TimestampError| timestamp_verdict(encode_utf8(ts), Err(e))
}

/// There is only one thing wrong with a text that is no timestamp.
pub proof fn timestamp_fault_is_unique(ts: Seq<char>, e: TimestampError)
    requires
        timestamp_verdict(encode_utf8(ts), Err(e)),
    ensures
        e == timestamp_fault(ts),
{
    let bytes = encode_utf8(ts);
    let f = timestamp_fault(ts);
    assert(timestamp_verdict(bytes, Err(f)));
    match (e, f) {
        (TimestampError::NotADigit(p), TimestampError::NotADigit(q)) => {
            if p < q {
                assert(digit_at(bytes, p as int));
            } else if q < p {
                assert(digit_at(bytes, q as int));
            }
        },
        (TimestampError::NotADigit(p), TimestampError::WrongSeparator(_)) => {
            assert(digit_at(bytes, p as int));
        },
        (TimestampError::WrongSeparator(_), TimestampError::NotADigit(q)) => {
            assert(digit_at(bytes, q as int));
        },
        _ => {},
    }
}

/// Validates that `ts` matches the `YYYYMMDD_HHMMSS` pattern exactly.
pub fn validate_timestamp(ts: &str) -> (r: Result<(), TimestampError>)
    ensures
        timestamp_verdict(encode_utf8(ts@), r),
        r is Ok <==> is_timestamp(ts@),
{
    let bytes = ts.as_bytes();
    proof {
        timestamp_bytes(ts@);
    }
    if bytes.len() != 15 {
        return Err(TimestampError::WrongLength(bytes.len()));
    }
    let mut i: usize = 0;
    while i < 15
        invariant
            i <= 15,
            bytes@ == encode_utf8(ts@),
            bytes@.len() == 15,
            forall|k: int| 0 <= k < i && k != 8 ==> #[trigger] digit_at(bytes@, k),
            is_timestamp(ts@) <==> timestamp_verdict(bytes@, Ok(())),
        decreases 15 - i,
    {
        if i != 8 && !(bytes[i] >= 48 && bytes[i] <= 57) {
            assert(!digit_at(bytes@, i as int));
            return Err(TimestampError::NotADigit(i));
        }
        i += 1;
    }
    if bytes[8] != 95 {
        return Err(TimestampError::WrongSeparator(bytes[8]));
    }
    Ok(())
}

/// Text is a timestamp exactly where its bytes are judged to be one.
proof fn timestamp_bytes(s: Seq<char>)
    ensures
        is_timestamp(s) <==> timestamp_verdict(encode_utf8(s), Ok(())),
{
    let bytes = encode_utf8(s);
    if is_timestamp(s) {
        assert forall|i: int| 0 <= i < s.len() implies 0 <= #[trigger] s[i] as nat && (s[i] as nat) < 128 by {
            if i != 8 {
                assert(is_digit(s[i]));
            }
        }
        vstd::utf8::is_ascii_chars_encode_utf8(s);
        assert forall|i: int| 0 <= i < 15 && i != 8 implies #[trigger] digit_at(bytes, i) by {
            assert(is_digit(s[i]));
        }
    }
    if timestamp_verdict(bytes, Ok(())) {
        let t = Seq::new(15, |i: int| bytes[i] as char);
        assert forall|i: int| 0 <= i < t.len() implies 0 <= #[trigger] t[i] as nat && (t[i] as nat) < 128 by {
            if i != 8 {
                assert(digit_at(bytes, i));
            }
        }
        vstd::utf8::is_ascii_chars_encode_utf8(t);
        assert(encode_utf8(t) =~= bytes);
        vstd::utf8::encode_utf8_decode_utf8(s);
        vstd::utf8::encode_utf8_decode_utf8(t);
        assert(s == t);
        assert forall|i: int| 0 <= i < 15 && i != 8 implies is_digit(#[trigger] s[i]) by {
            assert(digit_at(bytes, i));
        }
    }
}

/// Returns the name for a full-backup snapshot: `full_<ts>`.
///
/// Returns `Err` if `ts` does not match the `YYYYMMDD_HHMMSS` pattern.
pub fn full_snapshot_name(ts: &str) -> (r: Result<String, TimestampError>)
    ensures
        match r {
            Ok(name) => is_timestamp(ts@) && name@ == FULL_PREFIX@ + ts@,
            Err(e) => !is_timestamp(ts@) && timestamp_verdict(encode_utf8(ts@), Err(e)) && e == timestamp_fault(ts@),
        },
{
    match validate_timestamp(ts) {
        Ok(()) => Ok(joined(FULL_PREFIX, ts)),
        Err(e) => {
            proof {
                timestamp_fault_is_unique(ts@, e);
            }
            Err(e)
        },
    }
}

/// Returns the name for an incremental snapshot: `incr_<ts>`.
///
/// Returns `Err` if `ts` does not match the `YYYYMMDD_HHMMSS` pattern.
pub fn incr_snapshot_name(ts: &str) -> (r: Result<String, TimestampError>)
    ensures
        match r {
            Ok(name) => is_timestamp(ts@) && name@ == INCR_PREFIX@ + ts@,
            Err(e) => !is_timestamp(ts@) && timestamp_verdict(encode_utf8(ts@), Err(e)) && e == timestamp_fault(ts@),
        },
{
    match validate_timestamp(ts) {
        Ok(()) => Ok(joined(INCR_PREFIX, ts)),
        Err(e) => {
            proof {
                timestamp_fault_is_unique(ts@, e);
            }
            Err(e)
        },
    }
}

/// The snapshots directory below `backup_path`.
pub open spec fn snapshots_below(backup_path: Seq<char>) -> Seq<char> {
    join(backup_path, "snapshots"@)
}

/// Returns the path to the snapshots directory on Disk B: `<backup_path>/snapshots`.
pub fn snapshots_dir(backup_path: &str) -> (r: String)
    ensures
        r@ == snapshots_below(backup_path@),
{
    joined_path(backup_path, "snapshots")
}

/// Returns the path to the `current` symlink on Disk B: `<backup_path>/current`.
pub fn current_symlink(backup_path: &str) -> (r: String)
    ensures
        r@ == join(backup_path@, "current"@),
{
    joined_path(backup_path, "current")
}

/// The message about a text that is no timestamp quotes it and tells the length, the
/// place or the byte that is wrong.
pub proof fn timestamp_messages_tell_what_is_wrong(e: TimestampError, ts: Seq<char>)
    ensures
        ("invalid timestamp "@ + debug_text(ts)).is_prefix_of(e.text(ts)),
        match e {
            TimestampError::WrongLength(n) => decimal(n as nat).is_suffix_of(e.text(ts)),
            TimestampError::NotADigit(p) => (" position "@ + decimal(p as nat)
                + " is not an ASCII digit"@).is_suffix_of(e.text(ts)),
            TimestampError::WrongSeparator(b) => seq!['\'', b as char, '\''].is_suffix_of(e.text(ts)),
        },
{
    let t = e.text(ts);
    let head = "invalid timestamp "@ + debug_text(ts);
    assert(head =~= t.subrange(0, head.len() as int));
    match e {
        TimestampError::WrongLength(n) => {
            let tail = decimal(n as nat);
            assert(t.subrange(t.len() - tail.len(), t.len() as int) =~= tail);
        },
        TimestampError::NotADigit(p) => {
            reveal_strlit(": character at position ");
            reveal_strlit(": character at");
            reveal_strlit(" position ");
            let tail = " position "@ + decimal(p as nat) + " is not an ASCII digit"@;
            assert(": character at position "@ =~= ": character at"@ + " position "@);
            assert(t =~= head + ": character at"@ + tail);
            assert(t.subrange(t.len() - tail.len(), t.len() as int) =~= tail);
        },
        TimestampError::WrongSeparator(b) => {
            reveal_strlit(": character at position 8 must be '_', got '");
            reveal_strlit("'");
            let tail = seq!['\'', b as char, '\''];
            assert(t.subrange(t.len() - 3, t.len() as int) =~= tail);
        },
    }
}

} // verus!
