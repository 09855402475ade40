use vstd::prelude::*;
use vstd::string::StringExecFns;

verus! {

/// Fatal outcomes of collection generation.
///
/// Configuration errors are reported before any sampling begins;
/// `Exhausted` reports that the duplicate-draw tolerance was exceeded
/// while filling a generation domain.
#[derive(Debug)]
pub enum PixError {
    /// A declared layer's directory was not found under the image root.
    LayerNotFound(String),
    /// A trait file name does not carry the `#<weight>` suffix.
    MissingWeight(String),
    /// The `#<weight>` suffix of a trait file name is not a `u32` number.
    BadWeight(String),
    /// The amounts of the declared sets do not add up to the total amount.
    SetAmountMismatch,
    /// A layer that had to be sampled has an all-zero weight table.
    ZeroWeightSum,
    /// More duplicate draws than the tolerance allows while generating a
    /// domain of the recorded amount.
    Exhausted(usize),
}

impl PixError {
    /// A human-readable report of the error.
    pub fn message(&self) -> (r: String)
        ensures
            r@ == match *self {
                PixError::LayerNotFound(name) => "configured layer not found: "@ + name@,
                PixError::MissingWeight(name) => name@ + " is missing `#weight`"@,
                PixError::BadWeight(part) => part@ + " is not a parsable number"@,
                PixError::SetAmountMismatch => "amount in sets must equal the total amount"@,
                PixError::ZeroWeightSum => "all weights in a sampled layer are zero"@,
                PixError::Exhausted(_) => "you need more features or traits to generate the requested amount"@,
            },
    {
        proof {
            reveal_strlit("configured layer not found: ");
            reveal_strlit(" is missing `#weight`");
            reveal_strlit(" is not a parsable number");
            reveal_strlit("amount in sets must equal the total amount");
            reveal_strlit("all weights in a sampled layer are zero");
            reveal_strlit("you need more features or traits to generate the requested amount");
        }
        match self {
            PixError::LayerNotFound(name) => {
                let mut r = String::from_str("configured layer not found: ");
                r.append(name.as_str());
                r
            },
            PixError::MissingWeight(name) => {
                let mut r = name.clone();
                r.append(" is missing `#weight`");
                r
            },
            PixError::BadWeight(part) => {
                let mut r = part.clone();
                r.append(" is not a parsable number");
                r
            },
            PixError::SetAmountMismatch => String::from_str(
                "amount in sets must equal the total amount",
            ),
            PixError::ZeroWeightSum => String::from_str(
                "all weights in a sampled layer are zero",
            ),
            PixError::Exhausted(_) => String::from_str(
                "you need more features or traits to generate the requested amount",
            ),
        }
    }
}

} // verus!
