//! Language editions and their textual form.

use crate::text::{debug_string, same_text};
use vstd::prelude::*;
use vstd::string::StringExecFns;

verus! {

/// The language edition that a crate is compiled under.
#[derive(Debug, Clone, Copy, PartialEq, Eq, Hash, Structural)]
pub enum Edition {
    Edition2018,
    Edition2015,
}

/// The text that was given for an edition and names none.
#[derive(Debug)]
pub struct ParseEditionError {
    invalid_input: String,
}

/// The edition that a text names, if it names one: only the two decimal
/// literals do.
pub open spec fn parsed_edition(text: Seq<char>) -> Option<Edition> {
    if text == "2015"@ {
        Some(Edition::Edition2015)
    } else if text == "2018"@ {
        Some(Edition::Edition2018)
    } else {
        None
    }
}

impl Edition {
    /// The text that names this edition.
    pub open spec fn text(self) -> Seq<char> {
        match self {
            Edition::Edition2015 => "2015"@,
            Edition::Edition2018 => "2018"@,
        }
    }

    /// Reads an edition from its decimal literal. Any other text comes back
    /// inside the error.
    pub fn from_str(s: &str) -> (edition: Result<Edition, ParseEditionError>)
        ensures
            match edition {
                Ok(e) => parsed_edition(s@) == Some(e),
                Err(error) => parsed_edition(s@).is_none() && error@ == s@,
            },
    {
        proof {
            lemma_edition_parse_exact(s@);
        }
        if same_text(s, "2015") {
            Ok(Edition::Edition2015)
        } else if same_text(s, "2018") {
            Ok(Edition::Edition2018)
        } else {
            Err(ParseEditionError { invalid_input: s.to_owned() })
        }
    }

    /// Writes the edition as its decimal literal.
    pub fn to_string(&self) -> (text: String)
        ensures
            text@ == self.text(),
    {
        match self {
            Edition::Edition2015 => String::from_str("2015"),
            Edition::Edition2018 => String::from_str("2018"),
        }
    }
}

impl std::str::FromStr for Edition {
    type Err = ParseEditionError;

    /// Reads an edition from its decimal literal, as `Edition::from_str`
    /// does. Any other text comes back inside the error.
    fn from_str(s: &str) -> (edition: Result<Edition, ParseEditionError>)
        ensures
            match edition {
                Ok(e) => parsed_edition(s@) == Some(e),
                Err(error) => parsed_edition(s@).is_none() && error@ == s@,
            },
    {
        Edition::from_str(s)
    }
}

impl View for ParseEditionError {
    type V = Seq<char>;

    /// The text that was rejected.
    closed spec fn view(&self) -> Seq<char> {
        self.invalid_input@
    }
}

impl ParseEditionError {
    /// The text that was rejected.
    pub fn invalid_input(&self) -> (text: &str)
        ensures
            text@ == self@,
    {
        self.invalid_input.as_str()
    }

    /// The message for this error: a fixed prefix, then the rejected text as
    /// a quoted string.
    pub fn to_string(&self) -> (message: String)
        ensures
            message@ == "invalid edition: "@ + crate::text::debug_quoted(self@),
    {
        let quoted = debug_string(self.invalid_input.as_str());
        invalid_edition_message(quoted.as_str())
    }
}

/// The message for a text that names no edition, from the text as a quoted
/// string.
pub fn invalid_edition_message(quoted: &str) -> (message: String)
    ensures
        message@ == "invalid edition: "@ + quoted@,
{
    String::from_str("invalid edition: ").concat(quoted)
}

/// Reading back what was written gives the edition that was written.
pub proof fn lemma_edition_round_trip(edition: Edition)
    ensures
        parsed_edition(edition.text()) == Some(edition),
{
    reveal_strlit("2015");
    reveal_strlit("2018");
    assert("2018"@[3] != "2015"@[3]);
}

/// Only the two literals are read as an edition, each as its own.
pub proof fn lemma_edition_parse_exact(text: Seq<char>)
    ensures
        parsed_edition(text) == Some(Edition::Edition2015) <==> text == "2015"@,
        parsed_edition(text) == Some(Edition::Edition2018) <==> text == "2018"@,
        parsed_edition(text).is_none() <==> text != "2015"@ && text != "2018"@,
{
    reveal_strlit("2015");
    reveal_strlit("2018");
    assert("2018"@[3] != "2015"@[3]);
}

} // verus!
