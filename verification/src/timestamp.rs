//! Timestamps, kept as RFC 3339 date-time text.
//!
//! The store serializes `last_edit` and `clock_in_time` as RFC 3339 strings,
//! so a timestamp is exactly such a string, validated on every way in. The
//! grammar below covers what the store writes and reads back: a four-digit
//! year, a calendar-valid date, a time of day, an optional fraction, and a
//! numeric offset or `Z`.

use vstd::prelude::*;

verus! {

/// True for a decimal digit character.
pub open spec fn is_digit(c: char) -> bool {
    ('0' as u32) <= (c as u32) && (c as u32) <= ('9' as u32)
}

/// Numeric value of a decimal digit character.
pub open spec fn digit_val(c: char) -> int {
    (c as u32) - ('0' as u32)
}

/// Value of the two-digit group starting at position `i`.
pub open spec fn two_digit_val(s: Seq<char>, i: int) -> int {
    10 * digit_val(s[i]) + digit_val(s[i + 1])
}

/// Value of the four-digit year group.
pub open spec fn year_val(s: Seq<char>) -> int {
    1000 * digit_val(s[0]) + 100 * digit_val(s[1]) + 10 * digit_val(s[2]) + digit_val(s[3])
}

/// The Gregorian leap-year rule.
pub open spec fn is_leap_year(y: int) -> bool {
    y % 4 == 0 && (y % 100 != 0 || y % 400 == 0)
}

/// Days in the given month of the given year.
pub open spec fn days_in_month(y: int, m: int) -> int {
    if m == 2 {
        if is_leap_year(y) {
            29
        } else {
            28
        }
    } else if m == 4 || m == 6 || m == 9 || m == 11 {
        30
    } else {
        31
    }
}

/// A numeric offset (`+hh:mm` / `-hh:mm`) or `Z`, and nothing after it.
pub open spec fn valid_offset(r: Seq<char>) -> bool {
    (r.len() == 1 && r[0] == 'Z') || (r.len() == 6 && (r[0] == '+' || r[0] == '-') && is_digit(
        r[1],
    ) && is_digit(r[2]) && r[3] == ':' && is_digit(r[4]) && is_digit(r[5]) && two_digit_val(r, 1)
        <= 23 && two_digit_val(r, 4) <= 59)
}

/// After the first fractional digit: more digits, then a valid offset.
pub open spec fn valid_frac_rest(r: Seq<char>) -> bool
    decreases r.len(),
{
    if r.len() > 0 && is_digit(r[0]) {
        valid_frac_rest(r.skip(1))
    } else {
        valid_offset(r)
    }
}

/// What may follow the seconds: an offset, or a fraction with at least one
/// digit and then an offset.
pub open spec fn valid_tail(r: Seq<char>) -> bool {
    valid_offset(r) || (r.len() >= 2 && r[0] == '.' && is_digit(r[1]) && valid_frac_rest(
        r.skip(2),
    ))
}

/// The RFC 3339 date-time shape the store works with:
/// `yyyy-mm-ddThh:mm:ss`, an optional `.fraction`, and an offset.
pub open spec fn is_rfc3339_text(s: Seq<char>) -> bool {
    s.len() >= 20 && is_digit(s[0]) && is_digit(s[1]) && is_digit(s[2]) && is_digit(s[3]) && s[4]
        == '-' && is_digit(s[5]) && is_digit(s[6]) && s[7] == '-' && is_digit(s[8]) && is_digit(
        s[9],
    ) && s[10] == 'T' && is_digit(s[11]) && is_digit(s[12]) && s[13] == ':' && is_digit(s[14])
        && is_digit(s[15]) && s[16] == ':' && is_digit(s[17]) && is_digit(s[18]) && 1
        <= two_digit_val(s, 5) && two_digit_val(s, 5) <= 12 && 1 <= two_digit_val(s, 8)
        && two_digit_val(s, 8) <= days_in_month(year_val(s), two_digit_val(s, 5)) && two_digit_val(
        s,
        11,
    ) <= 23 && two_digit_val(s, 14) <= 59 && two_digit_val(s, 17) <= 60 && valid_tail(s.skip(19))
}

/// A point in time, held as the RFC 3339 text the store reads and writes.
#[derive(Debug, PartialEq, Eq, Hash)]
pub struct Timestamp {
    text: String,
}

impl View for Timestamp {
    type V = Seq<char>;

    closed spec fn view(&self) -> Seq<char> {
        self.text@
    }
}

impl Timestamp {
    /// Validity of the text held: always established by the constructors.
    pub open spec fn wf(&self) -> bool {
        is_rfc3339_text(self@)
    }

    /// Accepts `s` as a timestamp exactly when it fits the grammar.
    pub fn parse(s: &str) -> (r: Option<Timestamp>)
        ensures
            r matches Some(t) ==> t@ == s@ && is_rfc3339_text(s@),
            r is None <==> !is_rfc3339_text(s@),
    {
        if is_rfc3339_str(s) {
            Some(Timestamp { text: s.to_owned() })
        } else {
            None
        }
    }

    /// The RFC 3339 text of the timestamp.
    pub fn as_string(&self) -> (r: &String)
        ensures
            r@ == self@,
    {
        &self.text
    }

    /// A copy that denotes the same instant's text.
    pub fn duplicate(&self) -> (r: Timestamp)
        ensures
            r@ == self@,
    {
        Timestamp { text: self.text.clone() }
    }
}

/// The current wall-clock instant, when the system clock yields text that
/// fits the grammar; nothing is assumed of the outside call.
pub fn current_time() -> (r: Option<Timestamp>)
    ensures
        r matches Some(t) ==> t.wf(),
{
    let s = now_text();
    Timestamp::parse(s.as_str())
}

/// Relies on `chrono::Utc::now` and `DateTime::to_rfc3339`: the instant the
/// system clock reads, printed as an RFC 3339 date-time string.
#[verifier::external_body]
fn now_text() -> (s: String) {
    chrono::Utc::now().to_rfc3339()
}

/// Decimal digit test on a single character.
fn is_digit_exec(c: char) -> (r: bool)
    ensures
        r == is_digit(c),
{
    let v = c as u32;
    ('0' as u32) <= v && v <= ('9' as u32)
}

/// Numeric value of a decimal digit character.
fn digit_val_exec(c: char) -> (r: u32)
    requires
        is_digit(c),
    ensures
        r as int == digit_val(c),
{
    (c as u32) - ('0' as u32)
}

/// Days in the given month, matching the specification rule.
fn days_in_month_exec(y: u32, m: u32) -> (r: u32)
    ensures
        r as int == days_in_month(y as int, m as int),
{
    if m == 2 {
        if y % 4 == 0 && (y % 100 != 0 || y % 400 == 0) {
            29
        } else {
            28
        }
    } else if m == 4 || m == 6 || m == 9 || m == 11 {
        30
    } else {
        31
    }
}

/// Checks an offset beginning at position `i`, with nothing after it.
fn check_offset(s: &str, i: usize, n: usize) -> (r: bool)
    requires
        n == s@.len(),
        i <= n,
    ensures
        r == valid_offset(s@.skip(i as int)),
{
    let rem = n - i;
    if rem == 1 {
        let c = s.get_char(i);
        assert(s@.skip(i as int)[0] == s@[i as int]);
        c == 'Z'
    } else if rem == 6 {
        let c0 = s.get_char(i);
        let c1 = s.get_char(i + 1);
        let c2 = s.get_char(i + 2);
        let c3 = s.get_char(i + 3);
        let c4 = s.get_char(i + 4);
        let c5 = s.get_char(i + 5);
        assert(forall|j: int|
            0 <= j < 6 ==> #[trigger] s@.skip(i as int)[j] == s@[i as int + j]);
        if !((c0 == '+' || c0 == '-') && is_digit_exec(c1) && is_digit_exec(c2) && c3 == ':'
            && is_digit_exec(c4) && is_digit_exec(c5)) {
            return false;
        }
        let hh = 10 * digit_val_exec(c1) + digit_val_exec(c2);
        let mm = 10 * digit_val_exec(c4) + digit_val_exec(c5);
        hh <= 23 && mm <= 59
    } else {
        false
    }
}

/// Checks the full grammar, character by character.
fn is_rfc3339_str(s: &str) -> (r: bool)
    ensures
        r == is_rfc3339_text(s@),
{
    let n = s.unicode_len();
    if n < 20 {
        return false;
    }
    let c0 = s.get_char(0);
    let c1 = s.get_char(1);
    let c2 = s.get_char(2);
    let c3 = s.get_char(3);
    if !(is_digit_exec(c0) && is_digit_exec(c1) && is_digit_exec(c2) && is_digit_exec(c3)) {
        return false;
    }
    if s.get_char(4) != '-' {
        return false;
    }
    let c5 = s.get_char(5);
    let c6 = s.get_char(6);
    if !(is_digit_exec(c5) && is_digit_exec(c6)) {
        return false;
    }
    if s.get_char(7) != '-' {
        return false;
    }
    let c8 = s.get_char(8);
    let c9 = s.get_char(9);
    if !(is_digit_exec(c8) && is_digit_exec(c9)) {
        return false;
    }
    if s.get_char(10) != 'T' {
        return false;
    }
    let c11 = s.get_char(11);
    let c12 = s.get_char(12);
    if !(is_digit_exec(c11) && is_digit_exec(c12)) {
        return false;
    }
    if s.get_char(13) != ':' {
        return false;
    }
    let c14 = s.get_char(14);
    let c15 = s.get_char(15);
    if !(is_digit_exec(c14) && is_digit_exec(c15)) {
        return false;
    }
    if s.get_char(16) != ':' {
        return false;
    }
    let c17 = s.get_char(17);
    let c18 = s.get_char(18);
    if !(is_digit_exec(c17) && is_digit_exec(c18)) {
        return false;
    }
    let year = 1000 * digit_val_exec(c0) + 100 * digit_val_exec(c1) + 10 * digit_val_exec(c2)
        + digit_val_exec(c3);
    let month = 10 * digit_val_exec(c5) + digit_val_exec(c6);
    let day = 10 * digit_val_exec(c8) + digit_val_exec(c9);
    let hour = 10 * digit_val_exec(c11) + digit_val_exec(c12);
    let minute = 10 * digit_val_exec(c14) + digit_val_exec(c15);
    let second = 10 * digit_val_exec(c17) + digit_val_exec(c18);
    if !(1 <= month && month <= 12) {
        return false;
    }
    if !(1 <= day && day <= days_in_month_exec(year, month)) {
        return false;
    }
    if !(hour <= 23 && minute <= 59 && second <= 60) {
        return false;
    }
    let tail_ok = check_tail(s, n);
    tail_ok
}

/// Checks everything after the seconds: offset, or fraction then offset.
fn check_tail(s: &str, n: usize) -> (r: bool)
    requires
        n == s@.len(),
        20 <= n,
    ensures
        r == valid_tail(s@.skip(19)),
{
    let dot = s.get_char(19);
    assert(s@.skip(19)[0] == s@[19]);
    if dot == '.' {
        assert(!valid_offset(s@.skip(19)));
        if n < 22 {
            assert(s@.skip(19).len() < 3);
            assert(!(s@.skip(19).len() >= 2 && is_digit(s@.skip(19)[1]) && valid_frac_rest(
                s@.skip(19).skip(2),
            ))) by {
                if s@.skip(19).len() == 2 {
                    assert(s@.skip(19).skip(2).len() == 0);
                    assert(!valid_offset(s@.skip(19).skip(2)));
                }
            }
            return false;
        }
        let d0 = s.get_char(20);
        assert(s@.skip(19)[1] == s@[20]);
        if !is_digit_exec(d0) {
            return false;
        }
        assert(s@.skip(19).skip(2) =~= s@.skip(21));
        let mut i: usize = 21;
        while i < n
            invariant
                n == s@.len(),
                21 <= i <= n,
                valid_frac_rest(s@.skip(21)) == valid_frac_rest(s@.skip(i as int)),
            ensures
                21 <= i <= n,
                valid_frac_rest(s@.skip(21)) == valid_frac_rest(s@.skip(i as int)),
                i == n || !is_digit(s@[i as int]),
            decreases n - i,
        {
            let c = s.get_char(i);
            if !is_digit_exec(c) {
                break;
            }
            proof {
                assert(s@.skip(i as int)[0] == s@[i as int]);
                assert(s@.skip(i as int).skip(1) =~= s@.skip(i as int + 1));
            }
            i = i + 1;
        }
        proof {
            if i < n {
                assert(s@.skip(i as int)[0] == s@[i as int]);
                assert(valid_frac_rest(s@.skip(i as int)) == valid_offset(s@.skip(i as int)));
            } else {
                assert(s@.skip(i as int).len() == 0);
                assert(valid_frac_rest(s@.skip(i as int)) == valid_offset(s@.skip(i as int)));
            }
        }
        check_offset(s, i, n)
    } else {
        assert(!(s@.skip(19).len() >= 2 && s@.skip(19)[0] == '.'));
        check_offset(s, 19, n)
    }
}

} // verus!
