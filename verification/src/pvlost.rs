use vstd::prelude::*;
use vstd::std_specs::convert::TryFromSpecImpl;
use vstd::string::*;

verus! {

/// Loss attribution of a request: whether it succeeded, or to which side its
/// failure is attributed.
#[derive(Copy, Clone, Debug, PartialEq, Eq, Hash, Structural)]
pub enum PVLost {
    /// 0: the request succeeded, nothing was lost.
    Successful,
    /// 1: the request was lost because of an error of a remote dependency.
    RemoteError,
    /// 2: the request was lost because of a local error.
    LocalError,
}

/// The error of a conversion from a number or a text that names no loss
/// attribution.
#[derive(Copy, Clone, Debug, PartialEq, Eq, Structural)]
pub struct InvalidPVLost;

impl PVLost {
    /// The numeric code of the attribution.
    pub open spec fn spec_code(self) -> u8 {
        match self {
            PVLost::Successful => 0u8,
            PVLost::RemoteError => 1u8,
            PVLost::LocalError => 2u8,
        }
    }

    /// The attribution with the given numeric code, if there is one.
    pub open spec fn spec_from_code(num: int) -> Option<PVLost> {
        if num == 0 {
            Some(PVLost::Successful)
        } else if num == 1 {
            Some(PVLost::RemoteError)
        } else if num == 2 {
            Some(PVLost::LocalError)
        } else {
            None
        }
    }

    /// The attribution that a text names: the single digit of its code.
    pub open spec fn spec_from_text(value: Seq<char>) -> Option<PVLost> {
        if value == seq!['0'] {
            Some(PVLost::Successful)
        } else if value == seq!['1'] {
            Some(PVLost::RemoteError)
        } else if value == seq!['2'] {
            Some(PVLost::LocalError)
        } else {
            None
        }
    }

    /// The description of the attribution, as a sequence of characters.
    pub open spec fn spec_description(self) -> Seq<char> {
        match self {
            PVLost::Successful => "Successful"@,
            PVLost::RemoteError => "Remote Error"@,
            PVLost::LocalError => "Local Error"@,
        }
    }

    /// The text shown for the attribution: its code, a colon and a blank, and
    /// its description.
    pub open spec fn spec_text(self) -> Seq<char> {
        seq![crate::text::digit_char(self.spec_code() as nat)] + ": "@ + self.spec_description()
    }

    /// The numeric code of the attribution.
    pub fn code(&self) -> (num: u8)
        ensures
            num == self.spec_code(),
    {
        match self {
            PVLost::Successful => 0u8,
            PVLost::RemoteError => 1u8,
            PVLost::LocalError => 2u8,
        }
    }

    /// Returns `true` exactly for `Successful`, the attribution with code 0.
    pub fn is_success(&self) -> (b: bool)
        ensures
            b == (self.spec_code() == 0),
            b == (*self == PVLost::Successful),
    {
        let num: u8 = self.code();
        num == 0
    }

    /// The description for a given attribution.
    pub fn description(&self) -> (s: &'static str)
        ensures
            s@ == self.spec_description(),
    {
        match self {
            PVLost::Successful => "Successful",
            PVLost::RemoteError => "Remote Error",
            PVLost::LocalError => "Local Error",
        }
    }

    /// Whether the attribution has the given numeric code.
    pub fn eq_code(&self, num: u8) -> (b: bool)
        ensures
            b == (self.spec_code() == num),
            b == (PVLost::spec_from_code(num as int) == Some(*self)),
    {
        self.code() == num
    }

    /// The text shown for the attribution, such as `2: Local Error`.
    pub fn to_string(&self) -> (s: String)
        ensures
            s@ == self.spec_text(),
    {
        let digit = crate::text::decimal_string(self.code() as u64);
        let s = digit.concat(": ").concat(self.description());
        assert(s@ =~= self.spec_text());
        s
    }
}

impl TryFrom<u8> for PVLost {
    type Error = InvalidPVLost;

    /// The attribution with code `num`; an error for every number but 0, 1
    /// and 2.
    fn try_from(num: u8) -> (r: Result<PVLost, InvalidPVLost>) {
        if num == 0 {
            Ok(PVLost::Successful)
        } else if num == 1 {
            Ok(PVLost::RemoteError)
        } else if num == 2 {
            Ok(PVLost::LocalError)
        } else {
            Err(InvalidPVLost)
        }
    }
}

impl TryFromSpecImpl<u8> for PVLost {
    open spec fn obeys_try_from_spec() -> bool {
        true
    }

    open spec fn try_from_spec(num: u8) -> Result<PVLost, InvalidPVLost> {
        match PVLost::spec_from_code(num as int) {
            Some(lost) => Ok(lost),
            None => Err(InvalidPVLost),
        }
    }
}

impl<'a> TryFrom<&'a str> for PVLost {
    type Error = InvalidPVLost;

    /// The attribution that `value` names by the digit of its code; an error
    /// for every text but `0`, `1` and `2`.
    fn try_from(value: &'a str) -> (r: Result<PVLost, InvalidPVLost>) {
        if value.unicode_len() != 1 {
            return Err(InvalidPVLost);
        }
        let c = value.get_char(0);
        assert(value@ =~= seq![c]);
        if c == '0' {
            Ok(PVLost::Successful)
        } else if c == '1' {
            Ok(PVLost::RemoteError)
        } else if c == '2' {
            Ok(PVLost::LocalError)
        } else {
            Err(InvalidPVLost)
        }
    }
}

impl<'a> TryFromSpecImpl<&'a str> for PVLost {
    open spec fn obeys_try_from_spec() -> bool {
        true
    }

    open spec fn try_from_spec(value: &'a str) -> Result<PVLost, InvalidPVLost> {
        match PVLost::spec_from_text(value@) {
            Some(lost) => Ok(lost),
            None => Err(InvalidPVLost),
        }
    }
}

} // verus!
