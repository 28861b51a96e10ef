use zoon_styles::sheet::{empty_rule, write_step, WriteStep};

#[test]
fn empty_rule_text() {
    assert_eq!(empty_rule(".button"), ".button{}");
    assert_eq!(empty_rule(":hover"), ":hover{}");
}

#[test]
fn refused_first_write_is_absorbed() {
    assert_eq!(write_step(0, false), WriteStep::Absorbed);
    assert_eq!(write_step(3, false), WriteStep::Failed);
    assert_eq!(write_step(0, true), WriteStep::ReadBack);
    assert_eq!(write_step(7, true), WriteStep::ReadBack);
}
