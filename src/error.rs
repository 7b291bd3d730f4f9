//! Errors of assembly, each naming the line it arose on.
use vstd::prelude::*;

verus! {

#[verifier::external_type_specification]
#[verifier::external_body]
pub struct ExIoError(std::io::Error);

/// Why assembly stopped. Every variant but `IoError` carries the 1-based
/// number of the offending line.
#[derive(Debug)]
pub enum RimError {
    LineTooShort(usize),
    LineTooLong(usize),
    InvalidInstruction(usize, String),
    InvalidRegister(usize, String),
    InvalidDevice(usize, String),
    InvalidInteger(usize, String),
    /// The value read, and the largest value the field takes.
    IntegerTooLarge(usize, u64, u8),
    IoError(std::io::Error),
}

pub type RimResult<T> = Result<T, RimError>;

/// An error with its text as characters.
pub enum ErrorView {
    LineTooShort(usize),
    LineTooLong(usize),
    InvalidInstruction(usize, Seq<char>),
    InvalidRegister(usize, Seq<char>),
    InvalidDevice(usize, Seq<char>),
    InvalidInteger(usize, Seq<char>),
    IntegerTooLarge(usize, u64, u8),
    IoError,
}

impl View for RimError {
    type V = ErrorView;

    open spec fn view(&self) -> ErrorView {
        match self {
            RimError::LineTooShort(l) => ErrorView::LineTooShort(*l),
            RimError::LineTooLong(l) => ErrorView::LineTooLong(*l),
            RimError::InvalidInstruction(l, t) => ErrorView::InvalidInstruction(*l, t@),
            RimError::InvalidRegister(l, t) => ErrorView::InvalidRegister(*l, t@),
            RimError::InvalidDevice(l, t) => ErrorView::InvalidDevice(*l, t@),
            RimError::InvalidInteger(l, t) => ErrorView::InvalidInteger(*l, t@),
            RimError::IntegerTooLarge(l, v, m) => ErrorView::IntegerTooLarge(*l, *v, *m),
            RimError::IoError(_) => ErrorView::IoError,
        }
    }
}

impl From<std::io::Error> for RimError {
    fn from(e: std::io::Error) -> (r: Self) {
        RimError::IoError(e)
    }
}

impl vstd::std_specs::convert::FromSpecImpl<std::io::Error> for RimError {
    open spec fn obeys_from_spec() -> bool {
        true
    }

    open spec fn from_spec(v: std::io::Error) -> RimError {
        RimError::IoError(v)
    }
}

pub open spec fn digit_char(d: int) -> char {
    if d == 0 {
        '0'
    } else if d == 1 {
        '1'
    } else if d == 2 {
        '2'
    } else if d == 3 {
        '3'
    } else if d == 4 {
        '4'
    } else if d == 5 {
        '5'
    } else if d == 6 {
        '6'
    } else if d == 7 {
        '7'
    } else if d == 8 {
        '8'
    } else {
        '9'
    }
}

/// `n` in decimal, without leading zeros.
pub open spec fn decimal(n: nat) -> Seq<char>
    decreases n,
{
    if n < 10 {
        seq![digit_char(n as int)]
    } else {
        decimal(n / 10).push(digit_char((n % 10) as int))
    }
}

/// The diagnostic text of an error (that of an I/O error is its cause's).
pub open spec fn message_spec(e: ErrorView) -> Seq<char> {
    match e {
        ErrorView::LineTooShort(l) => "Line "@ + decimal(l as nat) + " too short"@,
        ErrorView::LineTooLong(l) => "Line "@ + decimal(l as nat) + " too long"@,
        ErrorView::InvalidInstruction(l, t) => "Invalid instruction `"@ + t + "` on line "@ + decimal(
            l as nat,
        ),
        ErrorView::InvalidRegister(l, t) => "Invalid register `"@ + t + "` on line "@ + decimal(
            l as nat,
        ),
        ErrorView::InvalidDevice(l, t) => "Invalid device `"@ + t + "` on line "@ + decimal(l as nat),
        ErrorView::InvalidInteger(l, t) => "Invalid integer `"@ + t + "` on line "@ + decimal(
            l as nat,
        ),
        ErrorView::IntegerTooLarge(l, v, m) => "Integer `"@ + decimal(v as nat) + "` on line "@
            + decimal(l as nat) + " too large (max is "@ + decimal(m as nat) + ")"@,
        ErrorView::IoError => Seq::empty(),
    }
}

fn digit_str(d: u64) -> (r: &'static str)
    requires
        d < 10,
    ensures
        r@ == seq![digit_char(d as int)],
{
    proof {
        reveal_strlit("0");
        reveal_strlit("1");
        reveal_strlit("2");
        reveal_strlit("3");
        reveal_strlit("4");
        reveal_strlit("5");
        reveal_strlit("6");
        reveal_strlit("7");
        reveal_strlit("8");
        reveal_strlit("9");
    }
    let r = match d {
        0 => "0",
        1 => "1",
        2 => "2",
        3 => "3",
        4 => "4",
        5 => "5",
        6 => "6",
        7 => "7",
        8 => "8",
        _ => "9",
    };
    assert(r@ =~= seq![digit_char(d as int)]);
    r
}

/// `n` written in decimal.
pub fn decimal_string(n: u64) -> (r: String)
    ensures
        r@ == decimal(n as nat),
    decreases n,
{
    if n < 10 {
        String::from_str(digit_str(n))
    } else {
        let mut s = decimal_string(n / 10);
        s.append(digit_str(n % 10));
        s
    }
}

impl RimError {
    /// The diagnostic text of the error; for an I/O error, the cause's own
    /// text, unchanged.
    pub fn message(&self) -> (r: String)
        ensures
            !(self is IoError) ==> r@ == message_spec(self@),
            self matches RimError::IoError(e) ==> vstd::string::to_string_from_display_ensures::<
                std::io::Error,
            >(&e, r),
    {
        match self {
            RimError::LineTooShort(l) => {
                let mut s = String::from_str("Line ");
                s.append(decimal_string(*l as u64).as_str());
                s.append(" too short");
                s
            },
            RimError::LineTooLong(l) => {
                let mut s = String::from_str("Line ");
                s.append(decimal_string(*l as u64).as_str());
                s.append(" too long");
                s
            },
            RimError::InvalidInstruction(l, t) => quoted("Invalid instruction `", t, *l),
            RimError::InvalidRegister(l, t) => quoted("Invalid register `", t, *l),
            RimError::InvalidDevice(l, t) => quoted("Invalid device `", t, *l),
            RimError::InvalidInteger(l, t) => quoted("Invalid integer `", t, *l),
            RimError::IntegerTooLarge(l, v, m) => {
                let mut s = String::from_str("Integer `");
                s.append(decimal_string(*v).as_str());
                s.append("` on line ");
                s.append(decimal_string(*l as u64).as_str());
                s.append(" too large (max is ");
                s.append(decimal_string(*m as u64).as_str());
                s.append(")");
                s
            },
            RimError::IoError(e) => e.to_string(),
        }
    }
}

/// `lead`, the token, then the line it stands on.
fn quoted(lead: &str, t: &String, l: usize) -> (r: String)
    ensures
        r@ == lead@ + t@ + "` on line "@ + decimal(l as nat),
{
    let mut s = String::from_str(lead);
    s.append(t.as_str());
    s.append("` on line ");
    s.append(decimal_string(l as u64).as_str());
    s
}

} // verus!
