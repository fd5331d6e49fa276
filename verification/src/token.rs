//! The tokens of the token stream, and the pause each punctuation mark calls for.
use vstd::prelude::*;

verus! {

/// How long a reader pauses after a word.
#[derive(Debug, Clone, Copy, PartialEq, Eq, Structural)]
pub enum DelayKind {
    /// No pause beyond the usual one.
    NoDelay,
    Short,
    Medium,
    Long,
}

/// The punctuation that stands before or after a word.
#[derive(Debug, Clone, Copy, PartialEq, Eq, Structural)]
pub enum Affix {
    /// No punctuation.
    NoAffix,
    Comma,
    Period,
    Question,
    Exclamation,
    Colon,
    Semicolon,
    Ellipsis,
}

/// The pause that a punctuation mark calls for: none for no mark, a short one for a comma,
/// colon or semicolon, a medium one at the end of a sentence, and a long one for an ellipsis.
pub open spec fn delay_of(affix: Affix) -> DelayKind {
    match affix {
        Affix::NoAffix => DelayKind::NoDelay,
        Affix::Comma | Affix::Colon | Affix::Semicolon => DelayKind::Short,
        Affix::Period | Affix::Question | Affix::Exclamation => DelayKind::Medium,
        Affix::Ellipsis => DelayKind::Long,
    }
}

impl From<Affix> for DelayKind {
    fn from(affix: Affix) -> (r: DelayKind)
        ensures
            r == delay_of(affix),
    {
        match affix {
            Affix::NoAffix => DelayKind::NoDelay,
            Affix::Comma | Affix::Colon | Affix::Semicolon => DelayKind::Short,
            Affix::Period | Affix::Question | Affix::Exclamation => DelayKind::Medium,
            Affix::Ellipsis => DelayKind::Long,
        }
    }
}

impl vstd::std_specs::convert::FromSpecImpl<Affix> for DelayKind {
    open spec fn obeys_from_spec() -> bool {
        true
    }

    open spec fn from_spec(affix: Affix) -> DelayKind {
        delay_of(affix)
    }
}

/// A word with the punctuation around it.
#[derive(Debug, Clone, PartialEq, Eq)]
pub struct WordToken<'a> {
    pub prefix: Affix,
    pub text: &'a str,
    pub suffix: Affix,
}

/// One element of the token stream.
#[derive(Debug, Clone, PartialEq, Eq)]
pub enum TokenKind<'a> {
    Word(WordToken<'a>),
    ParagraphBreak,
    LineBreak,
    SectionBreak,
}

} // verus!
