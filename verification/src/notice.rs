//! The words of the notifications that the host shows.

use vstd::prelude::*;
use vstd::string::StringExecFns;
use crate::model::{Effect, SECONDS_PER_MINUTE};

verus! {

/// The character for one decimal digit.
pub open spec fn digit_char(d: nat) -> char {
    if d == 0 {
        '0'
    } else if d == 1 {
        '1'
    } else if d == 2 {
        '2'
    } else if d == 3 {
        '3'
    } else if d == 4 {
        '4'
    } else if d == 5 {
        '5'
    } else if d == 6 {
        '6'
    } else if d == 7 {
        '7'
    } else if d == 8 {
        '8'
    } else {
        '9'
    }
}

/// A number in decimal, without sign or leading zeros.
pub open spec fn decimal(n: nat) -> Seq<char>
    decreases n,
{
    if n < 10 {
        seq![digit_char(n)]
    } else {
        decimal(n / 10).push(digit_char(n % 10))
    }
}

/// The whole minutes in a threshold given in seconds.
pub open spec fn threshold_minutes(threshold: u64) -> nat {
    (threshold / SECONDS_PER_MINUTE) as nat
}

/// The body of the notice for a threshold.
pub open spec fn threshold_body(threshold: u64) -> Seq<char> {
    "残り "@ + decimal(threshold_minutes(threshold)) + " 分"@
}

/// The body of the notice at the end of the countdown.
pub open spec fn finished_body() -> Seq<char> {
    "時間になりました"@
}

/// The title of every notice.
pub open spec fn title_text() -> Seq<char> {
    "カウントダウンタイマー"@
}

fn digit_text(d: u64) -> (text: &'static str)
    requires
        d < 10,
    ensures
        text@ == seq![digit_char(d as nat)],
{
    proof {
        reveal_strlit("0");
        reveal_strlit("1");
        reveal_strlit("2");
        reveal_strlit("3");
        reveal_strlit("4");
        reveal_strlit("5");
        reveal_strlit("6");
        reveal_strlit("7");
        reveal_strlit("8");
        reveal_strlit("9");
    }
    let text = if d == 0 {
        "0"
    } else if d == 1 {
        "1"
    } else if d == 2 {
        "2"
    } else if d == 3 {
        "3"
    } else if d == 4 {
        "4"
    } else if d == 5 {
        "5"
    } else if d == 6 {
        "6"
    } else if d == 7 {
        "7"
    } else if d == 8 {
        "8"
    } else {
        "9"
    };
    assert(text@ =~= seq![digit_char(d as nat)]);
    text
}

/// Writes a number in decimal.
pub fn decimal_text(n: u64) -> (text: String)
    ensures
        text@ == decimal(n as nat),
    decreases n,
{
    if n < 10 {
        String::from_str(digit_text(n))
    } else {
        let mut text = decimal_text(n / 10);
        text.append(digit_text(n % 10));
        assert(text@ =~= decimal(n as nat));
        text
    }
}

/// The title under which the host shows a notice.
pub fn notice_title() -> (title: String)
    ensures
        title@ == title_text(),
{
    String::from_str("カウントダウンタイマー")
}

/// The body of the notification that an effect asks for: for a threshold the
/// whole minutes that it stands for, between the fixed words; for the end of
/// the countdown the fixed sentence; for any other effect none.
pub fn notice_body(effect: Effect) -> (body: Option<String>)
    ensures
        match effect {
            Effect::ThresholdNotice(t) => body.is_some() && body.unwrap()@ == threshold_body(t),
            Effect::FinishedNotice => body.is_some() && body.unwrap()@ == finished_body(),
            _ => body.is_none(),
        },
{
    match effect {
        Effect::ThresholdNotice(t) => {
            let mut text = String::from_str("残り ");
            let minutes = decimal_text(t / SECONDS_PER_MINUTE);
            text.append(minutes.as_str());
            text.append(" 分");
            Some(text)
        },
        Effect::FinishedNotice => Some(String::from_str("時間になりました")),
        _ => None,
    }
}

} // verus!
