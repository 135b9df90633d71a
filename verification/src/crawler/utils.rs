use vstd::prelude::*;
use vstd::string::StrSliceExecFns;

verus! {

/// The crawl interval that is used where none is configured, in seconds.
pub const DEFAULT_INTERVAL: u64 = 60;

/// How many passes only buffer between two passes that also write out.
pub const BUFFERING_PASSES: u8 = 4;

pub open spec fn is_digit(c: char) -> bool {
    '0' <= c && c <= '9'
}

/// The number that a run of decimal digits stands for.
pub open spec fn digits_value(digits: Seq<char>) -> nat
    decreases digits.len(),
{
    if digits.len() == 0 {
        0
    } else {
        digits_value(digits.drop_last()) * 10 + ((digits.last() as u32 - '0' as u32) as nat)
    }
}

pub open spec fn all_digits(text: Seq<char>) -> bool {
    forall|i: int| 0 <= i < text.len() ==> is_digit(#[trigger] text[i])
}

/// A text without the `+` that it may begin with.
pub open spec fn unsigned(text: Seq<char>) -> Seq<char> {
    if text.len() > 0 && text[0] == '+' {
        text.skip(1)
    } else {
        text
    }
}

/// The number that a text stands for: decimal digits, at least one,
/// behind at most one `+`, and no more than a `u64` holds.
pub open spec fn parsed_u64(text: Seq<char>) -> Option<u64> {
    let digits = unsigned(text);
    if digits.len() > 0 && all_digits(digits) && digits_value(digits) <= u64::MAX {
        Some(digits_value(digits) as u64)
    } else {
        None
    }
}

/// The configured crawl interval in seconds: the number that the setting
/// stands for, or the default where there is no setting or none that is a
/// number.
pub open spec fn interval_from(setting: Option<Seq<char>>) -> u64 {
    match setting {
        Some(text) => match parsed_u64(text) {
            Some(secs) => secs,
            None => DEFAULT_INTERVAL,
        },
        None => DEFAULT_INTERVAL,
    }
}

/// A longer run of digits stands for no smaller a number.
proof fn lemma_digits_value_grows(digits: Seq<char>, n: int)
    requires
        0 <= n <= digits.len(),
    ensures
        digits_value(digits.take(n)) <= digits_value(digits),
    decreases digits.len() - n,
{
    if n == digits.len() {
        assert(digits.take(n) =~= digits);
    } else {
        lemma_digits_value_grows(digits.drop_last(), n);
        assert(digits.drop_last().take(n) =~= digits.take(n));
    }
}

pub fn parse_interval(setting: Option<&str>) -> (secs: u64)
    ensures
        secs == interval_from(
            match setting {
                Some(text) => Some(text@),
                None => None,
            },
        ),
{
    let text = match setting {
        Some(text) => text,
        None => {
            return DEFAULT_INTERVAL;
        },
    };
    let len = text.unicode_len();
    let start: usize = if len > 0 && text.get_char(0) == '+' {
        1
    } else {
        0
    };
    let ghost digits = unsigned(text@);
    if start == len {
        return DEFAULT_INTERVAL;
    }
    let mut value: u64 = 0;
    let mut index: usize = start;
    assert(digits.take(0) =~= Seq::<char>::empty());
    while index < len
        invariant
            start <= index <= len,
            len == text@.len(),
            setting == Some(text),
            digits == unsigned(text@),
            digits.len() == len - start,
            forall|i: int| 0 <= i < digits.len() ==> digits[i] == text@[i + start],
            forall|i: int| 0 <= i < index - start ==> is_digit(#[trigger] digits[i]),
            value == digits_value(digits.take(index - start)),
        decreases len - index,
    {
        let c = text.get_char(index);
        if !(c >= '0' && c <= '9') {
            proof {
                let at = index - start;
                assert(digits[at] == c);
                assert(!is_digit(digits[at]));
                assert(!all_digits(digits));
            }
            return DEFAULT_INTERVAL;
        }
        let digit = (c as u32 - '0' as u32) as u64;
        proof {
            assert(digits.take(index - start + 1).drop_last() =~= digits.take(index - start));
            assert(digits.take(index - start + 1).last() == c);
        }
        if value > (u64::MAX - digit) / 10 {
            proof {
                lemma_digits_value_grows(digits, index - start + 1);
                assert(digits_value(digits.take(index - start + 1)) == value * 10 + digit);
            }
            return DEFAULT_INTERVAL;
        }
        value = value * 10 + digit;
        index += 1;
    }
    assert(digits.take(index - start) =~= digits);
    assert(all_digits(digits));
    value
}

/// How long the driver sleeps after a pass, in seconds: until the next
/// inverter is due, or for the default interval where none has a time or
/// the time has passed already.
pub open spec fn sleep_for(next_due: Option<i64>, now: i64, default_interval: u64) -> u64 {
    match next_due {
        Some(due) => if due >= now {
            (due - now) as u64
        } else {
            default_interval
        },
        None => default_interval,
    }
}

pub fn sleep_secs(next_due: Option<i64>, now: i64, default_interval: u64) -> (secs: u64)
    ensures
        secs == sleep_for(next_due, now, default_interval),
{
    match next_due {
        Some(due) => {
            if due >= now {
                (due as i128 - now as i128) as u64
            } else {
                default_interval
            }
        },
        None => default_interval,
    }
}

/// Counts the passes down to the next one that also writes out.
#[derive(Debug, Clone, Copy, PartialEq, Eq, Structural)]
pub struct SyncCycle {
    pub next_sync: u8,
}

/// The countdown after so many passes.
pub open spec fn countdown_after(passes: nat) -> u8
    decreases passes,
{
    if passes == 0 {
        BUFFERING_PASSES
    } else if countdown_after((passes - 1) as nat) == 0 {
        BUFFERING_PASSES
    } else {
        (countdown_after((passes - 1) as nat) - 1) as u8
    }
}

impl SyncCycle {
    pub fn new() -> (cycle: Self)
        ensures
            cycle.next_sync == countdown_after(0),
    {
        SyncCycle { next_sync: BUFFERING_PASSES }
    }

    /// Whether the pass that comes now also writes out.
    pub fn is_sync(&self) -> (sync: bool)
        ensures
            sync == (self.next_sync == 0),
    {
        self.next_sync == 0
    }

    /// Moves on by one pass.
    pub fn advance(&mut self)
        ensures
            final(self).next_sync == if old(self).next_sync == 0 {
                BUFFERING_PASSES
            } else {
                (old(self).next_sync - 1) as u8
            },
            forall|passes: nat|
                old(self).next_sync == #[trigger] countdown_after(passes) ==> final(self).next_sync == countdown_after(passes + 1),
    {
        if self.next_sync == 0 {
            self.next_sync = BUFFERING_PASSES;
        } else {
            self.next_sync -= 1;
        }
    }
}

/// Of every five passes in a row exactly the last one writes out: the
/// countdown is at zero after four passes, nine, fourteen and so on.
pub proof fn lemma_every_fifth_pass_syncs(passes: nat)
    ensures
        countdown_after(passes) == 4 - passes % 5,
        countdown_after(passes) == 0 <==> passes % 5 == 4,
    decreases passes,
{
    if passes > 0 {
        lemma_every_fifth_pass_syncs((passes - 1) as nat);
    }
}

} // verus!
