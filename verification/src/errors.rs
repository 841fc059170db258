//! Error-chain reduction. A failure arrives as a chain of wrapped errors,
//! each level carrying its rendered text and an optional deeper cause. The
//! chain is walked to its root, and the root's text is reduced to one short
//! lowercase message.

use vstd::prelude::*;

use crate::text::normalize_message;
use crate::text::normalized_of;

verus! {

/// One level of a chain of wrapped errors: its rendered text, and the error
/// it wraps, if any. Causes are built bottom-up, so a chain is finite and
/// ends at a level with no source.
#[derive(Debug)]
pub struct ErrorChain {
    /// The text this level renders as.
    pub display: String,
    /// The deeper cause this level wraps, if any.
    pub source: Option<Box<ErrorChain>>,
}

impl ErrorChain {
    /// The rendered texts of the chain, outermost first.
    pub open spec fn displays(self) -> Seq<Seq<char>>
        decreases self,
    {
        match self.source {
            None => seq![self.display@],
            Some(inner) => seq![self.display@].add(inner.displays()),
        }
    }

    /// The rendered text of the deepest cause.
    pub open spec fn root_display(self) -> Seq<char>
        decreases self,
    {
        match self.source {
            None => self.display@,
            Some(inner) => inner.root_display(),
        }
    }

    /// The root is the last rendered text of the chain.
    pub proof fn lemma_root_is_last(self)
        ensures
            self.displays().len() > 0,
            self.root_display() == self.displays().last(),
        decreases self,
    {
        match self.source {
            None => {},
            Some(inner) => {
                inner.lemma_root_is_last();
            },
        }
    }

    /// Walk the chain of causes to the deepest one and hand back its text.
    pub fn root_text(&self) -> (r: &String)
        ensures
            r@ == self.root_display(),
        decreases *self,
    {
        match &self.source {
            None => &self.display,
            Some(inner) => inner.root_text(),
        }
    }
}

/// The one failure kind: a generic failure carrying a single short message.
#[derive(Debug)]
pub struct FetchError {
    /// The normalized root-cause text.
    pub message: String,
}

/// Collapse a chain of wrapped errors to a generic failure: the message is
/// the deepest cause's text, cut before its first colon or opening
/// parenthesis, trimmed, and lowercased.
pub fn normalize_error(chain: &ErrorChain) -> (e: FetchError)
    ensures
        e.message@ == normalized_of(chain.root_display()),
{
    let root = chain.root_text();
    FetchError { message: normalize_message(root.as_str()) }
}

/// Normalization is a function of the chain's rendered texts alone: chains
/// that render identically normalize to identical messages.
pub proof fn lemma_normalize_deterministic(a: ErrorChain, b: ErrorChain)
    requires
        a.displays() == b.displays(),
    ensures
        normalized_of(a.root_display()) == normalized_of(b.root_display()),
{
    a.lemma_root_is_last();
    b.lemma_root_is_last();
}

} // verus!
