//! Actions that the daemon asks of the player's plugin, written as text.
use crate::command::Volume;
use crate::text::{decimal_of, decimal_text};
use vstd::prelude::*;

verus! {

#[derive(Clone, Copy, Debug, PartialEq, Eq, Structural)]
pub enum RepeatMode {
    Off,
    All,
    One,
}

pub open spec fn repeat_word(m: RepeatMode) -> Seq<char> {
    match m {
        RepeatMode::Off => "none"@,
        RepeatMode::All => "all"@,
        RepeatMode::One => "one"@,
    }
}

impl RepeatMode {
    pub fn to_string(&self) -> (r: String)
        ensures
            r@ == repeat_word(*self),
    {
        match self {
            RepeatMode::Off => String::from_str("none"),
            RepeatMode::All => String::from_str("all"),
            RepeatMode::One => String::from_str("one"),
        }
    }
}

/// An action for the plugin; positions and seeks are in milliseconds.
#[derive(Clone, Copy, Debug, PartialEq, Eq, Structural)]
pub enum Action {
    Shuffle(bool),
    Repeat(RepeatMode),
    Seek { milis: i32 },
    Position(u64),
    Volume(Volume),
}

/// A signed number in decimal.
pub open spec fn signed_decimal_of(n: int) -> Seq<char> {
    if n < 0 {
        "-"@ + decimal_of((-n) as nat)
    } else {
        decimal_of(n as nat)
    }
}

/// The text of an action, as the plugin reads it.
pub open spec fn action_text(a: Action) -> Seq<char> {
    match a {
        Action::Shuffle(on) => "shuffle "@ + if on { "true"@ } else { "false"@ },
        Action::Repeat(m) => "repeat "@ + repeat_word(m),
        Action::Seek { milis } => "seek "@ + signed_decimal_of(milis as int),
        Action::Position(ms) => "position "@ + decimal_of(ms as nat),
        Action::Volume(v) => "volume "@ + decimal_of((v.millionths / 10000) as nat),
    }
}

impl Action {
    pub fn to_string(&self) -> (r: String)
        ensures
            r@ == action_text(*self),
    {
        match self {
            Action::Shuffle(on) => {
                let mut r = String::from_str("shuffle ");
                r.append(if *on { "true" } else { "false" });
                r
            },
            Action::Repeat(m) => {
                let mut r = String::from_str("repeat ");
                r.append(m.to_string().as_str());
                r
            },
            Action::Seek { milis } => {
                let mut r = String::from_str("seek ");
                if *milis < 0 {
                    r.append("-");
                    r.append(decimal_text((-(*milis as i64)) as u64).as_str());
                } else {
                    r.append(decimal_text(*milis as u64).as_str());
                }
                proof {
                    reveal_strlit("seek ");
                    reveal_strlit("-");
                }
                assert(r@ =~= action_text(*self));
                r
            },
            Action::Position(ms) => {
                let mut r = String::from_str("position ");
                r.append(decimal_text(*ms).as_str());
                r
            },
            Action::Volume(v) => {
                let mut r = String::from_str("volume ");
                r.append(decimal_text(v.percent() as u64).as_str());
                r
            },
        }
    }
}

} // verus!
