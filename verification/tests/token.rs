use rsvp_format::token::{Affix, DelayKind, TokenKind, WordToken};

#[test]
fn delay_for_each_affix() {
    assert_eq!(DelayKind::from(Affix::NoAffix), DelayKind::NoDelay);
    assert_eq!(DelayKind::from(Affix::Comma), DelayKind::Short);
    assert_eq!(DelayKind::from(Affix::Colon), DelayKind::Short);
    assert_eq!(DelayKind::from(Affix::Semicolon), DelayKind::Short);
    assert_eq!(DelayKind::from(Affix::Period), DelayKind::Medium);
    assert_eq!(DelayKind::from(Affix::Question), DelayKind::Medium);
    assert_eq!(DelayKind::from(Affix::Exclamation), DelayKind::Medium);
    let d: DelayKind = Affix::Ellipsis.into();
    assert_eq!(d, DelayKind::Long);
}

#[test]
fn word_tokens_compare_by_fields() {
    let w = TokenKind::Word(WordToken { prefix: Affix::NoAffix, text: "Mars", suffix: Affix::Period });
    assert_eq!(w.clone(), w);
    assert_ne!(w, TokenKind::ParagraphBreak);
    assert_ne!(TokenKind::LineBreak, TokenKind::SectionBreak);
}
