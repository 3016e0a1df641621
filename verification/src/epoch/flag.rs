//! Status code that an observation record attaches to its timestamp.

use crate::text::{chars_of, string_of, trim, trim_end, trim_range, trim_start};
use vstd::prelude::*;

verus! {

/// What the receiver reports of the moment a record was taken.
#[derive(Clone, Copy, Debug, PartialEq, Eq, Structural, Hash)]
pub enum EpochFlag {
    /// Nothing to report.
    Okay,
    /// Power failed between this record and the one before.
    PowerFailure,
    /// The antenna is being moved.
    AntennaBeingMoved,
    /// A new site is occupied.
    NewSiteOccupation,
    /// Header information follows.
    HeaderInformationFollows,
    /// An external event.
    ExternalEvent,
    /// Cycle slip records follow.
    CycleSlip,
}

/// A token that no flag is written as.
#[derive(Debug, PartialEq, Eq)]
pub enum Error {
    /// Holds the token.
    UnknownFlag(String),
}

impl View for Error {
    type V = Seq<char>;

    /// The token that was refused.
    open spec fn view(&self) -> Seq<char> {
        match self {
            Error::UnknownFlag(token) => token@,
        }
    }
}

/// The flag that a single character writes, if any.
pub open spec fn flag_of_char(c: char) -> Option<EpochFlag> {
    if c == '0' {
        Some(EpochFlag::Okay)
    } else if c == '1' {
        Some(EpochFlag::PowerFailure)
    } else if c == '2' {
        Some(EpochFlag::AntennaBeingMoved)
    } else if c == '3' {
        Some(EpochFlag::NewSiteOccupation)
    } else if c == '4' {
        Some(EpochFlag::HeaderInformationFollows)
    } else if c == '5' {
        Some(EpochFlag::ExternalEvent)
    } else if c == '6' {
        Some(EpochFlag::CycleSlip)
    } else {
        None
    }
}

/// The flag that a token writes: after trimming, exactly one of the
/// characters `0` to `6`.
pub open spec fn flag_of_token(token: Seq<char>) -> Option<EpochFlag> {
    let t = trim(token);
    if t.len() == 1 {
        flag_of_char(t[0])
    } else {
        None
    }
}

impl EpochFlag {
    /// The character that writes this flag.
    pub open spec fn spec_symbol(self) -> char {
        match self {
            EpochFlag::Okay => '0',
            EpochFlag::PowerFailure => '1',
            EpochFlag::AntennaBeingMoved => '2',
            EpochFlag::NewSiteOccupation => '3',
            EpochFlag::HeaderInformationFollows => '4',
            EpochFlag::ExternalEvent => '5',
            EpochFlag::CycleSlip => '6',
        }
    }

    /// The character that writes this flag.
    #[verifier::when_used_as_spec(spec_symbol)]
    pub fn symbol(self) -> (c: char)
        ensures
            c == self.spec_symbol(),
    {
        match self {
            EpochFlag::Okay => '0',
            EpochFlag::PowerFailure => '1',
            EpochFlag::AntennaBeingMoved => '2',
            EpochFlag::NewSiteOccupation => '3',
            EpochFlag::HeaderInformationFollows => '4',
            EpochFlag::ExternalEvent => '5',
            EpochFlag::CycleSlip => '6',
        }
    }

    /// The one-character token that writes this flag.
    pub fn to_string(&self) -> (r: String)
        ensures
            r@ == seq![self.spec_symbol()],
    {
        let mut out = String::new();
        out.push(self.symbol());
        out
    }

    /// Reads the flag that one character writes.
    pub fn from_char(c: char) -> (r: Option<EpochFlag>)
        ensures
            r == flag_of_char(c),
    {
        if c == '0' {
            Some(EpochFlag::Okay)
        } else if c == '1' {
            Some(EpochFlag::PowerFailure)
        } else if c == '2' {
            Some(EpochFlag::AntennaBeingMoved)
        } else if c == '3' {
            Some(EpochFlag::NewSiteOccupation)
        } else if c == '4' {
            Some(EpochFlag::HeaderInformationFollows)
        } else if c == '5' {
            Some(EpochFlag::ExternalEvent)
        } else if c == '6' {
            Some(EpochFlag::CycleSlip)
        } else {
            None
        }
    }

    /// Reads the flag in `text[start..end]`; a refusal holds that range.
    pub fn from_range(text: &Vec<char>, start: usize, end: usize) -> (r: Result<EpochFlag, Error>)
        requires
            start <= end <= text.len(),
        ensures
            match flag_of_token(text@.subrange(start as int, end as int)) {
                Some(flag) => r == Ok::<EpochFlag, Error>(flag),
                None => r matches Err(e) && e@ == text@.subrange(start as int, end as int),
            },
    {
        let (a, b) = trim_range(text, start, end);
        if b - a == 1 {
            assert(text@.subrange(a as int, b as int)[0] == text@[a as int]);
            match EpochFlag::from_char(text[a]) {
                Some(flag) => Ok(flag),
                None => Err(Error::UnknownFlag(string_of(text, start, end))),
            }
        } else {
            Err(Error::UnknownFlag(string_of(text, start, end)))
        }
    }

    /// Reads a flag from its token: surrounding blanks aside, one of `0` to
    /// `6`. Any other token is refused and handed back in the error.
    pub fn from_str(s: &str) -> (r: Result<EpochFlag, Error>)
        ensures
            match flag_of_token(s@) {
                Some(flag) => r == Ok::<EpochFlag, Error>(flag),
                None => r matches Err(e) && e@ == s@,
            },
    {
        let text = chars_of(s);
        assert(text@.subrange(0, text@.len() as int) == text@);
        EpochFlag::from_range(&text, 0, text.len())
    }
}

impl Default for EpochFlag {
    /// A record without a flag has nothing to report.
    fn default() -> (r: EpochFlag)
        ensures
            r == EpochFlag::Okay,
    {
        EpochFlag::Okay
    }
}

/// Writing a flag and reading it back gives the same flag, and a token that
/// reads as a flag is, blanks aside, what that flag is written as.
pub proof fn law_flag_codec_inverse(flag: EpochFlag, token: Seq<char>)
    ensures
        flag_of_token(seq![flag.spec_symbol()]) == Some(flag),
        flag_of_token(token) == Some(flag) ==> trim(token) == seq![flag.spec_symbol()],
{
    let t = seq![flag.spec_symbol()];
    assert(trim_start(t) == t);
    assert(trim_end(t) == t);
    if flag_of_token(token) == Some(flag) {
        assert(trim(token) =~= seq![flag.spec_symbol()]);
    }
}

} // verus!
