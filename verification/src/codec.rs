//! The textual form of one configured feed in the persisted settings
//! list: the URL, a comma, and the polling cadence in decimal. Reading
//! and writing the settings store happens outside the core; these
//! functions only turn entry strings into `FeedUrl` values and back.

use vstd::prelude::*;
use vstd::arithmetic::div_mod::lemma_fundamental_div_mod;
use vstd::string::StrSliceExecFns;
use vstd::string::StringExecFns;

use crate::config::FeedUrl;
use crate::config::FeedUrlData;

verus! {

/// The position of the first comma at or after position `k`; the length
/// when there is none.
pub open spec fn comma_from(s: Seq<char>, k: int) -> int
    decreases s.len() - k,
{
    if k < 0 || k >= s.len() {
        s.len() as int
    } else if s[k] == ',' {
        k
    } else {
        comma_from(s, k + 1)
    }
}

/// Whether `c` is a decimal digit.
pub open spec fn is_digit(c: char) -> bool {
    c == '0' || c == '1' || c == '2' || c == '3' || c == '4' || c == '5' || c == '6' || c == '7'
        || c == '8' || c == '9'
}

/// The value of one decimal digit.
pub open spec fn digit_val(c: char) -> int {
    if c == '0' {
        0
    } else if c == '1' {
        1
    } else if c == '2' {
        2
    } else if c == '3' {
        3
    } else if c == '4' {
        4
    } else if c == '5' {
        5
    } else if c == '6' {
        6
    } else if c == '7' {
        7
    } else if c == '8' {
        8
    } else {
        9
    }
}

/// The decimal digit of one value below ten.
pub open spec fn digit_char(d: int) -> char {
    if d == 0 {
        '0'
    } else if d == 1 {
        '1'
    } else if d == 2 {
        '2'
    } else if d == 3 {
        '3'
    } else if d == 4 {
        '4'
    } else if d == 5 {
        '5'
    } else if d == 6 {
        '6'
    } else if d == 7 {
        '7'
    } else if d == 8 {
        '8'
    } else {
        '9'
    }
}

/// Whether every character of `s` is a decimal digit.
pub open spec fn all_digits(s: Seq<char>) -> bool {
    forall|i: int| 0 <= i < s.len() ==> is_digit(#[trigger] s[i])
}

/// The numeric value of a digit string, most significant digit first.
pub open spec fn digits_val(s: Seq<char>) -> int
    decreases s.len(),
{
    if s.len() == 0 {
        0
    } else {
        10 * digits_val(s.drop_last()) + digit_val(s.last())
    }
}

/// A digit string never has a negative value.
pub proof fn lemma_digits_val_nonneg(s: Seq<char>)
    requires
        all_digits(s),
    ensures
        digits_val(s) >= 0,
    decreases s.len(),
{
    if s.len() > 0 {
        let prefix = s.drop_last();
        assert(all_digits(prefix)) by {
            assert(forall|i: int| 0 <= i < prefix.len() ==> prefix[i] == #[trigger] s[i]);
        }
        lemma_digits_val_nonneg(prefix);
    }
}

/// The polling cadence a digit string denotes: its value when the string
/// is a non-empty run of digits with a representable value of at least
/// one; the default cadence of thirty otherwise — also when the value
/// overflows, as the source's lenient reader had it.
pub open spec fn interval_of_digits(digits: Seq<char>) -> u32 {
    if digits.len() > 0 && all_digits(digits) && 1 <= digits_val(digits) <= u32::MAX {
        digits_val(digits) as u32
    } else {
        30
    }
}

/// The URL part of one entry: everything before the first comma.
pub open spec fn entry_url(s: Seq<char>) -> Seq<char> {
    s.subrange(0, comma_from(s, 0))
}

/// The cadence part of one entry: what the digits after the first comma
/// denote; the default when there is no comma at all.
pub open spec fn entry_interval(s: Seq<char>) -> u32 {
    let c = comma_from(s, 0);
    if c >= s.len() {
        30
    } else {
        interval_of_digits(s.subrange(c + 1, s.len() as int))
    }
}

/// What one entry string denotes.
pub open spec fn parsed_entry(s: Seq<char>) -> FeedUrlData {
    FeedUrlData { url: entry_url(s), polling_interval: entry_interval(s) }
}

/// `comma_from` stays within `[k, len]`, and where it found a position,
/// that position holds a comma.
pub proof fn lemma_comma_from_range(s: Seq<char>, k: int)
    requires
        0 <= k <= s.len(),
    ensures
        k <= comma_from(s, k) <= s.len(),
        comma_from(s, k) < s.len() ==> s[comma_from(s, k)] == ',',
    decreases s.len() - k,
{
    if k < s.len() && s[k] != ',' {
        lemma_comma_from_range(s, k + 1);
    }
}

/// `comma_from` finds the first comma.
pub proof fn lemma_comma_from_found(s: Seq<char>, k: int, c: int)
    requires
        0 <= k <= c < s.len(),
        forall|j: int| k <= j < c ==> s[j] != ',',
        s[c] == ',',
    ensures
        comma_from(s, k) == c,
    decreases c - k,
{
    if k < c {
        lemma_comma_from_found(s, k + 1, c);
    }
}

/// The position of the first comma of `entry`, or its length.
fn find_comma(entry: &str) -> (r: usize)
    ensures
        r as int == comma_from(entry@, 0),
        r <= entry@.len(),
{
    let ghost ev = entry@;
    let n = entry.unicode_len();
    let mut c: usize = 0;
    while c < n
        invariant
            c <= n,
            n == ev.len(),
            ev == entry@,
            comma_from(ev, 0) == comma_from(ev, c as int),
        decreases n - c,
    {
        if entry.get_char(c) == ',' {
            return c;
        }
        c += 1;
    }
    n
}

/// The decimal digit `ch` stands for, when it is one.
fn digit_of(ch: char) -> (r: Option<u32>)
    ensures
        match r {
            Some(d) => is_digit(ch) && d == digit_val(ch),
            None => !is_digit(ch),
        },
{
    match ch {
        '0' => Some(0),
        '1' => Some(1),
        '2' => Some(2),
        '3' => Some(3),
        '4' => Some(4),
        '5' => Some(5),
        '6' => Some(6),
        '7' => Some(7),
        '8' => Some(8),
        '9' => Some(9),
        _ => None,
    }
}

/// Read the cadence denoted by the characters of `entry` from position
/// `start` on; see `interval_of_digits`.
fn parse_interval(entry: &str, start: usize) -> (r: u32)
    requires
        start <= entry@.len(),
    ensures
        r == interval_of_digits(entry@.subrange(start as int, entry@.len() as int)),
{
    let ghost ev = entry@;
    let ghost digits = ev.subrange(start as int, ev.len() as int);
    let n = entry.unicode_len();
    let mut i: usize = start;
    let mut value: u64 = 0;
    let mut is_number = true;
    let mut too_big = false;
    while i < n
        invariant
            start <= i <= n,
            n == ev.len(),
            ev == entry@,
            digits == ev.subrange(start as int, ev.len() as int),
            is_number == all_digits(digits.take(i - start)),
            is_number && !too_big ==> value == digits_val(digits.take(i - start)) && value
                <= u32::MAX,
            is_number && too_big ==> digits_val(digits.take(i - start)) > u32::MAX,
        decreases n - i,
    {
        let ghost taken = digits.take(i - start);
        let ghost extended = digits.take(i + 1 - start);
        proof {
            assert(extended.drop_last() =~= taken);
            assert(extended.last() == ev[i as int]);
        }
        let ch = entry.get_char(i);
        match digit_of(ch) {
            Some(d) => {
                if is_number {
                    proof {
                        assert(all_digits(extended)) by {
                            assert(forall|j: int| 0 <= j < taken.len() ==> extended[j]
                                == #[trigger] taken[j]);
                        }
                    }
                    if too_big {
                        proof {
                            lemma_digits_val_nonneg(extended);
                            assert(digits_val(extended) == 10 * digits_val(taken) + digit_val(
                                ev[i as int],
                            ));
                        }
                    } else {
                        let next = value * 10 + d as u64;
                        proof {
                            assert(digits_val(extended) == next);
                        }
                        if next > u32::MAX as u64 {
                            too_big = true;
                        } else {
                            value = next;
                        }
                    }
                } else {
                    proof {
                        assert(!all_digits(extended)) by {
                            if all_digits(extended) {
                                assert(forall|j: int| 0 <= j < taken.len() ==> taken[j]
                                    == #[trigger] extended[j]);
                            }
                        }
                    }
                }
            },
            None => {
                proof {
                    assert(!is_digit(extended[extended.len() - 1]));
                }
                is_number = false;
            },
        }
        i += 1;
    }
    proof {
        assert(digits.take(n - start) =~= digits);
    }
    if is_number && !too_big && value >= 1 && n - start > 0 {
        value as u32
    } else {
        30
    }
}

/// Read one persisted entry: the URL before the first comma, the polling
/// cadence after it — with the default cadence of thirty when the comma,
/// the digits, or a representable value of at least one is missing.
pub fn parse_feed_entry(entry: &str) -> (r: FeedUrl)
    ensures
        r@ == parsed_entry(entry@),
{
    let c = find_comma(entry);
    proof {
        lemma_comma_from_range(entry@, 0);
    }
    let url: String = entry.substring_char(0, c).to_owned();
    let n = entry.unicode_len();
    let interval: u32 = if c == n {
        30
    } else {
        parse_interval(entry, c + 1)
    };
    let r = FeedUrl { url, polling_interval: interval };
    proof {
        assert(r@ =~= parsed_entry(entry@));
    }
    r
}

/// The decimal digits of `n`, most significant first.
pub open spec fn decimal_of(n: int) -> Seq<char>
    decreases n,
{
    if n < 0 {
        Seq::empty()
    } else if n < 10 {
        seq![digit_char(n)]
    } else {
        decimal_of(n / 10).push(digit_char(n % 10))
    }
}

/// The decimal form of a value is a non-empty digit run denoting it.
pub proof fn lemma_decimal_of_props(n: int)
    requires
        0 <= n,
    ensures
        decimal_of(n).len() >= 1,
        all_digits(decimal_of(n)),
        digits_val(decimal_of(n)) == n,
    decreases n,
{
    if n < 10 {
        let s = decimal_of(n);
        assert(s.drop_last() =~= Seq::<char>::empty());
        assert(digits_val(Seq::<char>::empty()) == 0);
        assert(s.last() == digit_char(n));
        assert(digit_val(digit_char(n)) == n);
        assert(digits_val(s) == 10 * digits_val(s.drop_last()) + digit_val(s.last()));
    } else {
        lemma_fundamental_div_mod(n, 10);
        lemma_decimal_of_props(n / 10);
        let prefix = decimal_of(n / 10);
        let s = prefix.push(digit_char(n % 10));
        assert(s.drop_last() =~= prefix);
        assert(all_digits(s)) by {
            assert(forall|i: int| 0 <= i < prefix.len() ==> s[i] == #[trigger] prefix[i]);
            assert(s[s.len() - 1] == digit_char(n % 10));
        }
        assert(digits_val(s) == 10 * digits_val(prefix) + digit_val(digit_char(n % 10)));
    }
}

/// The one-character string of one decimal digit.
fn digit_str(d: u32) -> (r: &'static str)
    requires
        d < 10,
    ensures
        r@ == seq![digit_char(d as int)],
{
    proof {
        reveal_strlit("0");
        reveal_strlit("1");
        reveal_strlit("2");
        reveal_strlit("3");
        reveal_strlit("4");
        reveal_strlit("5");
        reveal_strlit("6");
        reveal_strlit("7");
        reveal_strlit("8");
        reveal_strlit("9");
    }
    let r = match d {
        0 => "0",
        1 => "1",
        2 => "2",
        3 => "3",
        4 => "4",
        5 => "5",
        6 => "6",
        7 => "7",
        8 => "8",
        _ => "9",
    };
    proof {
        assert(r@ =~= seq![digit_char(d as int)]);
    }
    r
}

/// Append the decimal digits of `n` to `out`.
fn push_decimal(out: &mut String, n: u32)
    ensures
        final(out)@ == old(out)@ + decimal_of(n as int),
    decreases n,
{
    if n >= 10 {
        push_decimal(out, n / 10);
        out.append(digit_str(n % 10));
        proof {
            assert(out@ =~= old(out)@ + decimal_of(n as int));
        }
    } else {
        out.append(digit_str(n));
        proof {
            assert(out@ =~= old(out)@ + decimal_of(n as int));
        }
    }
}

/// The textual form one configured feed is persisted under.
pub open spec fn encoded_entry(f: FeedUrlData) -> Seq<char> {
    f.url + seq![','] + decimal_of(f.polling_interval as int)
}

/// Write one configured feed in its persisted textual form.
pub fn encode_feed_entry(f: &FeedUrl) -> (r: String)
    ensures
        r@ == encoded_entry(f@),
{
    let mut out = f.url.clone();
    out.append(",");
    proof {
        reveal_strlit(",");
        assert(out@ =~= f@.url + seq![',']);
    }
    push_decimal(&mut out, f.polling_interval);
    proof {
        assert(out@ =~= encoded_entry(f@));
    }
    out
}

/// Round trip of the persisted form: reading back an encoded entry gives
/// the entry, provided its URL holds no comma — a comma would end the URL
/// part early — and its cadence is at least one, since zero is the
/// "unspecified" reading.
pub proof fn lemma_entry_round_trip(f: FeedUrlData)
    requires
        f.polling_interval >= 1,
        forall|i: int| 0 <= i < f.url.len() ==> f.url[i] != ',',
    ensures
        parsed_entry(encoded_entry(f)) == f,
{
    let s = encoded_entry(f);
    let len = f.url.len() as int;
    lemma_decimal_of_props(f.polling_interval as int);
    assert(s[len] == ',');
    assert forall|j: int| 0 <= j < len implies s[j] != ',' by {
        assert(s[j] == f.url[j]);
    }
    lemma_comma_from_found(s, 0, len);
    assert(entry_url(s) =~= f.url);
    let digits = s.subrange(len + 1, s.len() as int);
    assert(digits =~= decimal_of(f.polling_interval as int));
    assert(entry_interval(s) == f.polling_interval);
    assert(parsed_entry(s) =~= f);
}

} // verus!
