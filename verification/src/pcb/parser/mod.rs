use vstd::prelude::*;

pub mod excellon;
pub mod gerber;
pub mod text;

verus! {

#[verifier::external_type_specification]
#[verifier::external_body]
pub struct ExIoError(std::io::Error);

/// Why a layer file could not be read.
#[derive(Debug)]
pub enum ParseError {
    Io(std::io::Error),
    Gerber(String),
}

impl ParseError {
    /// The user-facing description of the error: for an I/O error,
    /// `IO error: ` followed by the error's own display text.
    pub fn to_string(&self) -> (text: String)
        ensures
            match self {
                ParseError::Io(e) => exists|detail: String|
                    #![trigger vstd::string::to_string_from_display_ensures::<std::io::Error>(
                        e,
                        detail,
                    )]
                    vstd::string::to_string_from_display_ensures::<std::io::Error>(e, detail)
                        && text@ == "IO error: "@ + detail@,
                ParseError::Gerber(msg) => text@ == "Gerber parse error: "@ + msg@,
            },
    {
        match self {
            ParseError::Io(e) => {
                let detail = e.to_string();
                let mut text = <String as StringExecFns>::from_str("IO error: ");
                text.append(detail.as_str());
                assert(vstd::string::to_string_from_display_ensures::<std::io::Error>(e, detail));
                text
            },
            ParseError::Gerber(msg) => {
                let mut text = <String as StringExecFns>::from_str("Gerber parse error: ");
                text.append(msg.as_str());
                text
            },
        }
    }
}

impl From<std::io::Error> for ParseError {
    fn from(value: std::io::Error) -> (err: Self) {
        ParseError::Io(value)
    }
}

impl vstd::std_specs::convert::FromSpecImpl<std::io::Error> for ParseError {
    open spec fn obeys_from_spec() -> bool {
        true
    }

    open spec fn from_spec(v: std::io::Error) -> Self {
        ParseError::Io(v)
    }
}

} // verus!
