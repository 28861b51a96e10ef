use zoon_styles::sheet::StyleGroupHandle;
use zoon_styles::style::{ch, px, StaticCSSProps, Style, StyleGroup};

type Group = StyleGroup<u8, bool, u16>;

#[test]
fn units_append_suffix() {
    assert_eq!(px("10"), "10px");
    assert_eq!(ch("3"), "3ch");
    assert_eq!(px(""), "px");
}

#[test]
fn insert_replaces_same_name_in_place() {
    let mut props = StaticCSSProps::new();
    props.insert("color", "red");
    props.insert("padding", "10px");
    props.insert_important("color", "blue");
    assert_eq!(props.len(), 2);
    assert_eq!(props.entry(0), ("color", "blue", true));
    assert_eq!(props.entry(1), ("padding", "10px", false));
}

#[test]
fn remove_returns_value() {
    let mut props = StaticCSSProps::new();
    props.insert_important("margin", "0");
    let removed = props.remove("margin").unwrap();
    assert_eq!(removed.value, "0");
    assert!(removed.important);
    assert!(props.remove("margin").is_none());
    assert_eq!(props.len(), 0);
}

#[test]
fn group_builders_fill_each_part() {
    let g: Group = StyleGroup::new(".button")
        .style("background", "purple")
        .style_important("padding", "10px")
        .style_signal("width".to_string(), 1)
        .style_signal("width".to_string(), 2)
        .class("primary")
        .class("primary")
        .class_signal("active".to_string(), true)
        .on_resize(5)
        .on_resize(6);
    assert_eq!(g.selector, ".button");
    assert_eq!(g.static_css_props.entry(0), ("background", "purple", false));
    assert_eq!(g.static_css_props.entry(1), ("padding", "10px", true));
    assert_eq!(g.dynamic_css_props, vec![("width".to_string(), 2)]);
    assert_eq!(g.static_css_classes, vec!["primary".to_string()]);
    assert_eq!(g.dynamic_css_classes, vec![("active".to_string(), true)]);
    assert_eq!(g.resize_handlers, vec![5, 6]);
}

#[test]
fn scoped_handle_keeps_rule_id() {
    let handle = StyleGroupHandle::new(9, vec![1u8, 2]);
    assert_eq!(handle.rule_id(), 9);
}

struct Rounded;

impl Style<u8, bool, u16> for Rounded {
    fn merge_with_group(self, group: StyleGroup<u8, bool, u16>) -> StyleGroup<u8, bool, u16> {
        group.style("border-radius", "4px")
    }
}

#[test]
fn style_merges_into_group() {
    let g = Rounded.merge_with_group(StyleGroup::new(".card"));
    assert_eq!(g.static_css_props.entry(0), ("border-radius", "4px", false));
}
