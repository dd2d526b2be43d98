//! What can go wrong while producing a quote.
use vstd::prelude::*;

verus! {

/// Relies on std::io::Error only as a value carried through: an I/O failure
/// reported by the transport, never looked into.
#[verifier::external_type_specification]
#[verifier::external_body]
pub struct ExIoError(std::io::Error);

/// Relies on std::num::ParseIntError only as a type to convert from: its value
/// is never looked into.
#[verifier::external_type_specification]
#[verifier::external_body]
pub struct ExParseIntError(std::num::ParseIntError);

/// An error when producing a quote.
#[derive(Debug)]
pub enum QuoteGenerationError {
    /// The generation read back is not the one expected, `(expected, actual)`:
    /// someone else used the session meanwhile, so the output cannot be trusted.
    Generation(u64, u32),
    /// The transport failed.
    IO(std::io::Error),
    /// The generation resource did not hold an unsigned decimal number.
    ParseInt,
    /// The session's provider is not one of those accepted.
    BadProvider(String),
    /// The interface's base location is missing: the platform does not offer it.
    CannotFindTsmDir,
    /// The output was empty, which is never a valid quote.
    EmptyQuote,
}

/// The decimal digit for a value below ten.
pub open spec fn digit_char(n: nat) -> char {
    ((n + 48) as u8) as char
}

/// The decimal digits of `n`, most significant first, with no sign and no
/// leading zero.
pub open spec fn decimal_text(n: nat) -> Seq<char>
    decreases n,
{
    if n < 10 {
        seq![digit_char(n)]
    } else {
        decimal_text(n / 10).push(digit_char(n % 10))
    }
}

/// The number in decimal, without sign or padding.
fn decimal_string(n: u64) -> (r: String)
    ensures
        r@ == decimal_text(n as nat),
    decreases n,
{
    let digits = "0123456789";
    proof {
        reveal_strlit("0123456789");
        assert(forall|k: nat| k < 10 ==> #[trigger] digits@[k as int] == digit_char(k));
    }
    let d = (n % 10) as usize;
    let last = digits.substring_char(d, d + 1);
    if n < 10 {
        String::from_str(last)
    } else {
        let mut r = decimal_string(n / 10);
        r.append(last);
        r
    }
}

impl QuoteGenerationError {
    /// A sentence that describes the error to a person.
    pub fn message(&self) -> (r: String)
        ensures
            self matches QuoteGenerationError::Generation(e, a) ==> r@
                == "Wrong generation number - possible conflict. Expected: "@ + decimal_text(
                e as nat,
            ) + " Actual: "@ + decimal_text(a as nat),
            self matches QuoteGenerationError::IO(e) ==> vstd::string::to_string_from_display_ensures::<
                std::io::Error,
            >(e, r),
            self is ParseInt ==> r@ == "Could not parse integer when reading generation value"@,
            self matches QuoteGenerationError::BadProvider(p) ==> r@
                == "Quote has provider which is not allowed: "@ + p@,
            self is CannotFindTsmDir ==> r@
                == "Cannot find configfs-tsm directory - maybe your hardware does not support it"@,
            self is EmptyQuote ==> r@
                == "Empty quote. This could be an authorization issue with the quote generation socket."@,
    {
        match self {
            QuoteGenerationError::Generation(expected, actual) => {
                let mut m = String::from_str(
                    "Wrong generation number - possible conflict. Expected: ",
                );
                m.append(decimal_string(*expected).as_str());
                m.append(" Actual: ");
                m.append(decimal_string(*actual as u64).as_str());
                m
            },
            QuoteGenerationError::IO(error) => error.to_string(),
            QuoteGenerationError::ParseInt => {
                String::from_str("Could not parse integer when reading generation value")
            },
            QuoteGenerationError::BadProvider(provider) => {
                let mut m = String::from_str("Quote has provider which is not allowed: ");
                m.append(provider.as_str());
                m
            },
            QuoteGenerationError::CannotFindTsmDir => {
                String::from_str(
                    "Cannot find configfs-tsm directory - maybe your hardware does not support it",
                )
            },
            QuoteGenerationError::EmptyQuote => {
                String::from_str(
                    "Empty quote. This could be an authorization issue with the quote generation socket.",
                )
            },
        }
    }

    /// The transport's own error, where it is one.
    pub fn source(&self) -> (r: Option<&std::io::Error>)
        ensures
            self matches QuoteGenerationError::IO(e) ==> r == Some(e),
            !(self is IO) ==> r is None,
    {
        match self {
            QuoteGenerationError::IO(e) => Some(e),
            _ => None,
        }
    }
}

impl From<std::io::Error> for QuoteGenerationError {
    fn from(error: std::io::Error) -> (r: QuoteGenerationError)
        ensures
            r == QuoteGenerationError::IO(error),
    {
        QuoteGenerationError::IO(error)
    }
}

impl From<std::num::ParseIntError> for QuoteGenerationError {
    fn from(_error: std::num::ParseIntError) -> (r: QuoteGenerationError)
        ensures
            r == QuoteGenerationError::ParseInt,
    {
        QuoteGenerationError::ParseInt
    }
}

impl vstd::std_specs::convert::FromSpecImpl<std::num::ParseIntError> for QuoteGenerationError {
    open spec fn obeys_from_spec() -> bool {
        true
    }

    open spec fn from_spec(error: std::num::ParseIntError) -> QuoteGenerationError {
        QuoteGenerationError::ParseInt
    }
}

impl vstd::std_specs::convert::FromSpecImpl<std::io::Error> for QuoteGenerationError {
    open spec fn obeys_from_spec() -> bool {
        true
    }

    open spec fn from_spec(error: std::io::Error) -> QuoteGenerationError {
        QuoteGenerationError::IO(error)
    }
}

} // verus!
