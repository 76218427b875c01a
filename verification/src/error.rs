use vstd::prelude::*;

verus! {

/// The failures the pipeline's logic can produce.  Errors of the index
/// engine and of the browser session are carried by their message text.
#[derive(Debug, Clone, PartialEq, Eq)]
pub enum ProgramError {
    /// The session ended on an unexpected location: the actual URL, then the
    /// expected one.
    WrongUrl(String, String),
    /// A structural assumption about the site or the cache did not hold.
    Unexpected(String),
    /// The index engine reported an error.
    Engine(String),
}

impl ProgramError {
    /// Whether `e` is the structural-assumption error with message `m`.
    pub open spec fn spec_unexpected(e: ProgramError, m: Seq<char>) -> bool {
        e matches ProgramError::Unexpected(s) && s@ == m
    }

    /// Whether `e` reports an unexpected location `got` where `expected` was
    /// demanded.
    pub open spec fn spec_wrong_url(e: ProgramError, got: Seq<char>, expected: Seq<char>) -> bool {
        e matches ProgramError::WrongUrl(g, x) && g@ == got && x@ == expected
    }

    /// Whether `e` carries an index engine error with message `m`.
    pub open spec fn spec_engine(e: ProgramError, m: Seq<char>) -> bool {
        e matches ProgramError::Engine(s) && s@ == m
    }

    /// The text that `message` renders for this error.
    pub open spec fn spec_message(&self) -> Seq<char> {
        match self {
            ProgramError::WrongUrl(got, expected) => "URL not as expected, got `"@ + got@
                + "` but expected `"@ + expected@ + "`"@,
            ProgramError::Unexpected(m) => m@,
            ProgramError::Engine(m) => "index engine error: "@ + m@,
        }
    }

    /// A human-readable description of the error.
    pub fn message(&self) -> (r: String)
        ensures
            r@ == self.spec_message(),
    {
        match self {
            ProgramError::WrongUrl(got, expected) => {
                let mut m = "URL not as expected, got `".to_owned();
                m.append(got.as_str());
                m.append("` but expected `");
                m.append(expected.as_str());
                m.append("`");
                m
            },
            ProgramError::Unexpected(m) => m.clone(),
            ProgramError::Engine(m) => {
                let mut r = "index engine error: ".to_owned();
                r.append(m.as_str());
                r
            },
        }
    }
}

} // verus!
