//! Crate names: identifiers that never hold a hyphen.

use crate::text::{has_char, replace_char};
use vstd::prelude::*;

verus! {

/// The text with every hyphen replaced by an underscore.
pub open spec fn dashes_normalized(text: Seq<char>) -> Seq<char> {
    Seq::new(
        text.len(),
        |i: int|
            if text[i] == '-' {
                '_'
            } else {
                text[i]
            },
    )
}

/// The name under which a crate is shown or imported. It holds no hyphen.
#[derive(Debug, PartialEq, Eq)]
pub struct CrateName {
    text: String,
}

impl View for CrateName {
    type V = Seq<char>;

    closed spec fn view(&self) -> Seq<char> {
        self.text@
    }
}

impl Clone for CrateName {
    fn clone(&self) -> (copy: CrateName)
        ensures
            copy@ == self@,
    {
        proof {
            use_type_invariant(self);
        }
        CrateName { text: self.text.clone() }
    }
}

impl CrateName {
    #[verifier::type_invariant]
    spec fn dash_free(self) -> bool {
        !self.text@.contains('-')
    }

    /// Takes the text as a crate name if it holds no hyphen, and hands it
    /// back as the error if it holds one.
    pub fn new(name: &str) -> (checked: Result<CrateName, &str>)
        ensures
            checked.is_err() <==> name@.contains('-'),
            checked matches Ok(n) ==> n@ == name@,
            checked matches Err(rejected) ==> rejected@ == name@,
    {
        if has_char(name, '-') {
            Err(name)
        } else {
            Ok(CrateName { text: name.to_owned() })
        }
    }

    /// Makes a crate name of any text by writing an underscore for each
    /// hyphen.
    pub fn normalize_dashes(name: &str) -> (normal: CrateName)
        ensures
            normal@ == dashes_normalized(name@),
    {
        proof {
            reveal_strlit("_");
        }
        let text = replace_char(name, '-', "_");
        assert(text@ =~= dashes_normalized(name@));
        CrateName { text }
    }

    /// The name's text, which holds no hyphen.
    pub fn as_str(&self) -> (text: &str)
        ensures
            text@ == self@,
            !text@.contains('-'),
    {
        proof {
            use_type_invariant(self);
        }
        self.text.as_str()
    }

    /// The name's text, as `Display` would print it.
    pub fn to_string(&self) -> (text: String)
        ensures
            text@ == self@,
            !text@.contains('-'),
    {
        proof {
            use_type_invariant(self);
        }
        self.text.clone()
    }

    /// Gives up the name for its text.
    pub fn into_string(self) -> (text: String)
        ensures
            text@ == self@,
            !text@.contains('-'),
    {
        proof {
            use_type_invariant(&self);
        }
        self.text
    }
}

/// A text that holds no hyphen is its own normal form.
pub proof fn lemma_normalize_keeps_dash_free(text: Seq<char>)
    requires
        !text.contains('-'),
    ensures
        dashes_normalized(text) == text,
{
    assert(dashes_normalized(text) =~= text);
}

/// A normalized text holds no hyphen.
pub proof fn lemma_normalized_is_dash_free(text: Seq<char>)
    ensures
        !dashes_normalized(text).contains('-'),
{
}

/// Normalizing is idempotent: a second pass changes nothing.
pub proof fn lemma_normalize_idempotent(text: Seq<char>)
    ensures
        dashes_normalized(dashes_normalized(text)) == dashes_normalized(text),
{
    assert(dashes_normalized(dashes_normalized(text)) =~= dashes_normalized(text));
}

} // verus!
