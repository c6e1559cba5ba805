use vstd::prelude::*;
use vstd::string::StringExecFns;

use crate::text::{ascii_ci_eq, chars_of, eq_ignore_ascii_case, trim, trimmed};
use crate::typewriter::{MAX_DELAY_MS, MIN_DELAY_MS};

verus! {

/// Delay per character, in milliseconds, when none is given.
pub const DEFAULT_SPEED: u64 = 25;

/// What the command line asks for.
#[derive(Clone, Debug)]
pub enum Action {
    Help,
    List,
    /// Present the stored text of this name.
    Show(String),
}

pub open spec fn help_word() -> Seq<char> {
    "help"@
}

pub open spec fn list_word() -> Seq<char> {
    "list"@
}

pub open spec fn empty_action_message() -> Seq<char> {
    "Action must not be empty"@
}

/// `r` is what reading `raw` as an action gives: the trimmed argument is
/// refused when empty, else it is `help` or `list` up to ASCII case, else the
/// name of a text to show.
pub open spec fn action_read(raw: Seq<char>, r: Result<Action, String>) -> bool {
    let t = trimmed(raw);
    match r {
        Ok(Action::Help) => t.len() > 0 && ascii_ci_eq(t, help_word()),
        Ok(Action::List) => t.len() > 0 && !ascii_ci_eq(t, help_word()) && ascii_ci_eq(
            t,
            list_word(),
        ),
        Ok(Action::Show(name)) => t.len() > 0 && !ascii_ci_eq(t, help_word()) && !ascii_ci_eq(
            t,
            list_word(),
        ) && name@ == t,
        Err(e) => t.len() == 0 && e@ == empty_action_message(),
    }
}

/// Reads an action: `help` and `list` up to ASCII case, else the name of a
/// text to show. The argument is trimmed first, and an empty one is refused.
pub fn parse_action(raw: &str) -> (r: Result<Action, String>)
    ensures
        action_read(raw@, r),
{
    let t = trim(raw);
    let tc = chars_of(t);
    if tc.len() == 0 {
        return Err("Action must not be empty".to_owned());
    }
    let help = chars_of("help");
    let list = chars_of("list");
    if eq_ignore_ascii_case(&tc, &help) {
        Ok(Action::Help)
    } else if eq_ignore_ascii_case(&tc, &list) {
        Ok(Action::List)
    } else {
        Ok(Action::Show(t.to_owned()))
    }
}

impl std::str::FromStr for Action {
    type Err = String;

    /// Reads an action as `parse_action` does.
    fn from_str(raw: &str) -> (r: Result<Action, String>)
        ensures
            action_read(raw@, r),
    {
        parse_action(raw)
    }
}

pub open spec fn is_digit(c: char) -> bool {
    '0' <= c <= '9'
}

pub open spec fn digit_value(c: char) -> nat {
    (c as u32 - '0' as u32) as nat
}

/// The number that the decimal digits `s` write.
pub open spec fn digits_value(s: Seq<char>) -> nat
    decreases s.len(),
{
    if s.len() == 0 {
        0
    } else {
        digits_value(s.drop_last()) * 10 + digit_value(s.last())
    }
}

/// `s` without one leading `+`.
pub open spec fn unsigned_digits(s: Seq<char>) -> Seq<char> {
    if s.len() > 0 && s[0] == '+' {
        s.drop_first()
    } else {
        s
    }
}

/// Whether `s` reads as a `u64` the way `str::parse::<u64>` reads it: an
/// optional `+`, then one or more decimal digits, of a value that fits.
pub open spec fn reads_as_u64(s: Seq<char>) -> bool {
    let d = unsigned_digits(s);
    &&& d.len() > 0
    &&& forall|i: int| 0 <= i < d.len() ==> is_digit(#[trigger] d[i])
    &&& digits_value(d) <= u64::MAX
}

/// Reads `raw` as a `u64` the way `str::parse::<u64>` does.
pub fn parse_u64(raw: &str) -> (r: Option<u64>)
    ensures
        match r {
            Some(v) => reads_as_u64(raw@) && v == digits_value(unsigned_digits(raw@)),
            None => !reads_as_u64(raw@),
        },
{
    let s = chars_of(raw);
    let start: usize = if s.len() > 0 && s[0] == '+' {
        1
    } else {
        0
    };
    let ghost d = unsigned_digits(raw@);
    assert(d =~= s@.subrange(start as int, s@.len() as int));
    if start >= s.len() {
        assert(d.len() == 0);
        return None;
    }
    let mut acc: u64 = 0;
    let mut over = false;
    let mut i: usize = start;
    while i < s.len()
        invariant
            s@ == raw@,
            d == unsigned_digits(raw@),
            d == s@.subrange(start as int, s@.len() as int),
            start <= i <= s@.len(),
            forall|k: int| start <= k < i ==> is_digit(#[trigger] s@[k]),
            !over ==> acc == digits_value(s@.subrange(start as int, i as int)),
            over ==> digits_value(s@.subrange(start as int, i as int)) > u64::MAX,
        decreases s@.len() - i,
    {
        let c = s[i];
        if !('0' <= c && c <= '9') {
            assert(!is_digit(d[i - start]));
            return None;
        }
        let dv = (c as u32 - '0' as u32) as u64;
        let ghost prev = s@.subrange(start as int, i as int);
        let ghost next = s@.subrange(start as int, i + 1);
        assert(next.drop_last() =~= prev);
        let ghost pv = digits_value(prev);
        assert(digits_value(next) == pv * 10 + dv);
        if !over {
            if acc > (u64::MAX - dv) / 10 {
                assert(acc * 10 + dv > u64::MAX) by (nonlinear_arith)
                    requires
                        acc > (u64::MAX - dv) / 10,
                        dv <= 9,
                ;
                over = true;
            } else {
                assert(acc * 10 + dv <= u64::MAX) by (nonlinear_arith)
                    requires
                        acc <= (u64::MAX - dv) / 10,
                        dv <= 9,
                ;
                acc = acc * 10 + dv;
            }
        } else {
            assert(pv * 10 + dv > u64::MAX) by (nonlinear_arith)
                requires
                    pv > u64::MAX,
            ;
        }
        i = i + 1;
    }
    assert(s@.subrange(start as int, i as int) =~= d);
    if over {
        None
    } else {
        assert forall|k: int| 0 <= k < d.len() implies is_digit(#[trigger] d[k]) by {
            assert(d[k] == s@[k + start]);
        }
        Some(acc)
    }
}

pub open spec fn bad_number_message(raw: Seq<char>) -> Seq<char> {
    "`"@ + raw + "` is not a valid positive integer"@
}

pub open spec fn out_of_range_message() -> Seq<char> {
    "speed must be between 1 and 1000 milliseconds"@
}

/// Reads the delay per character, in milliseconds: a `u64` from 1 to 1000.
pub fn parse_speed(raw: &str) -> (r: Result<u64, String>)
    ensures
        match r {
            Ok(v) => reads_as_u64(raw@) && v == digits_value(unsigned_digits(raw@)) && MIN_DELAY_MS
                <= v <= MAX_DELAY_MS,
            Err(e) => if reads_as_u64(raw@) {
                &&& !(MIN_DELAY_MS <= digits_value(unsigned_digits(raw@)) <= MAX_DELAY_MS)
                &&& e@ == out_of_range_message()
            } else {
                e@ == bad_number_message(raw@)
            },
        },
{
    match parse_u64(raw) {
        None => {
            let mut m = "`".to_owned();
            m.append(raw);
            m.append("` is not a valid positive integer");
            Err(m)
        },
        Some(v) => {
            if MIN_DELAY_MS <= v && v <= MAX_DELAY_MS {
                Ok(v)
            } else {
                Err("speed must be between 1 and 1000 milliseconds".to_owned())
            }
        },
    }
}

} // verus!
