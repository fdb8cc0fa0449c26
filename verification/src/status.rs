//! HTTP status codes: the three-digit numbers, how a file name spells one,
//! and the text that stands for one.

use crate::codec::{status_line, status_text};
use vstd::prelude::*;

verus! {

/// `c` is one of the ten decimal digits.
pub open spec fn is_digit(c: char) -> bool {
    '0' as u32 <= c as u32 <= '9' as u32
}

/// The value of the decimal digit `c`.
pub open spec fn digit_value(c: char) -> int {
    c as u32 - '0' as u32
}

/// The status code that `name` spells: exactly three decimal digits, the
/// first of them not zero.
pub open spec fn status_code_of(name: Seq<char>) -> Option<u16> {
    if name.len() == 3 && is_digit(name[0]) && digit_value(name[0]) != 0 && is_digit(name[1])
        && is_digit(name[2]) {
        Some((100 * digit_value(name[0]) + 10 * digit_value(name[1]) + digit_value(name[2])) as u16)
    } else {
        None
    }
}

/// A status code: a number from 100 to 999.
#[derive(Clone, Copy, Debug)]
pub struct StatusCode {
    code: u16,
}

impl View for StatusCode {
    type V = u16;

    closed spec fn view(&self) -> u16 {
        self.code
    }
}

impl StatusCode {
    #[verifier::type_invariant]
    spec fn in_range(self) -> bool {
        100 <= self.code <= 999
    }

    /// The status code with the number `code`, if it is one.
    pub fn from_u16(code: u16) -> (status: Option<StatusCode>)
        ensures
            status is Some <==> 100 <= code <= 999,
            status matches Some(s) ==> s@ == code,
    {
        if 100 <= code && code <= 999 {
            Some(StatusCode { code })
        } else {
            None
        }
    }

    /// The number of the status code.
    pub fn as_u16(&self) -> (code: u16)
        ensures
            code == self@,
            100 <= code <= 999,
    {
        proof {
            use_type_invariant(self);
        }
        self.code
    }

    /// 200, the status of a full response.
    pub fn ok() -> (status: StatusCode)
        ensures
            status@ == 200,
    {
        StatusCode { code: 200 }
    }

    /// 304, the status of a successful revalidation.
    pub fn not_modified() -> (status: StatusCode)
        ensures
            status@ == 304,
    {
        StatusCode { code: 304 }
    }

    /// 404, the status of a path that leads to no resource.
    pub fn not_found() -> (status: StatusCode)
        ensures
            status@ == 404,
    {
        StatusCode { code: 404 }
    }

    /// 408, the status of a request that ran out of time.
    pub fn request_timeout() -> (status: StatusCode)
        ensures
            status@ == 408,
    {
        StatusCode { code: 408 }
    }

    /// 500, the status of a failure that has no status of its own.
    pub fn internal_server_error() -> (status: StatusCode)
        ensures
            status@ == 500,
    {
        StatusCode { code: 500 }
    }

    /// 503, the status of a request that was turned away under load.
    pub fn service_unavailable() -> (status: StatusCode)
        ensures
            status@ == 503,
    {
        StatusCode { code: 503 }
    }

    /// Reads a status code from the three digits that spell it.
    pub fn from_chars(name: &[char]) -> (status: Option<StatusCode>)
        ensures
            status is Some <==> status_code_of(name@) is Some,
            status matches Some(s) ==> Some(s@) == status_code_of(name@),
    {
        if name.len() != 3 {
            return None;
        }
        let hundreds: char = name[0];
        let tens: char = name[1];
        let units: char = name[2];
        let a: u32 = hundreds as u32;
        let b: u32 = tens as u32;
        let c: u32 = units as u32;
        if 49 <= a && a <= 57 && 48 <= b && b <= 57 && 48 <= c && c <= 57 {
            let code: u32 = 100 * (a - 48) + 10 * (b - 48) + (c - 48);
            Some(StatusCode { code: code as u16 })
        } else {
            None
        }
    }

    /// The text that stands for the status where no page does: the number,
    /// a space and the reason phrase.
    pub fn to_text(&self) -> (text: String)
        ensures
            text@ == status_text(self@),
    {
        proof {
            use_type_invariant(self);
        }
        status_line(self.code)
    }
}

} // verus!
