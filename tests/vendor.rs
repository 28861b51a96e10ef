use zoon_styles::vendor::{search_step, SearchStep};
use zoon_styles::style::{StyleError, StyleGroup};
use zoon_styles::vendor::{candidate_at, prefix_at, SimDeclaration};

fn engine(pairs: &[(&str, &str)]) -> SimDeclaration {
    SimDeclaration::new(pairs.iter().map(|(n, v)| (n.to_string(), v.to_string())).collect())
}

#[test]
fn candidates_follow_prefix_order() {
    assert_eq!(prefix_at(0), "");
    assert_eq!(prefix_at(4), "-ms-");
    assert_eq!(candidate_at("box", "flex", 0), ("box".to_string(), "flex".to_string()));
    assert_eq!(candidate_at("box", "flex", 1), ("box".to_string(), "-webkit-flex".to_string()));
    assert_eq!(candidate_at("box", "flex", 7), ("-webkit-box".to_string(), "-moz-flex".to_string()));
    assert_eq!(candidate_at("box", "flex", 24), ("-ms-box".to_string(), "-ms-flex".to_string()));
}

#[test]
fn permanent_group_sets_static_property() {
    let group: StyleGroup<(), (), ()> = StyleGroup::new(".button").style("background", "purple");
    let mut decl = engine(&[("background", "purple")]);
    let (name, value, important) = group.static_css_props.entry(0);
    assert_eq!(decl.apply(name, value, important), Ok(0));
    assert_eq!(decl.property_value("background"), "purple");
    assert_eq!(decl.len(), 1);
}

#[test]
fn search_finds_first_working_prefix() {
    let mut decl = engine(&[("-moz-user-select", "none"), ("-webkit-user-select", "none")]);
    assert_eq!(decl.apply("user-select", "none", false), Ok(5));
    assert_eq!(decl.property_value("-webkit-user-select"), "none");
    assert_eq!(decl.property_value("-moz-user-select"), "");
    assert_eq!(decl.len(), 1);
}

#[test]
fn search_finds_prefixed_value() {
    let mut decl = engine(&[("display", "-webkit-box")]);
    assert_eq!(decl.apply("display", "box", false), Ok(1));
    assert_eq!(decl.property_value("display"), "-webkit-box");
}

#[test]
fn exhausted_search_is_invalid_property() {
    let mut decl = engine(&[]);
    match decl.apply("colour", "red", false) {
        Err(StyleError::InvalidProperty(n, v)) => {
            assert_eq!(n, "colour");
            assert_eq!(v, "red");
        }
        _ => panic!("expected an invalid property"),
    }
    assert_eq!(decl.len(), 0);
}

#[test]
fn applying_twice_equals_once() {
    let mut once = engine(&[("-webkit-user-select", "none")]);
    let mut twice = engine(&[("-webkit-user-select", "none")]);
    once.apply("user-select", "none", true).unwrap();
    twice.apply("user-select", "none", true).unwrap();
    twice.apply("user-select", "none", true).unwrap();
    assert_eq!(once.len(), twice.len());
    assert_eq!(once.property_value("-webkit-user-select"), twice.property_value("-webkit-user-select"));
}

#[test]
fn dynamic_display_follows_stream() {
    let mut decl = engine(&[("display", "block")]);
    let stream = [true, false, true];
    let mut seen: Vec<String> = Vec::new();
    for on in stream {
        let value = if on { Some("block") } else { None };
        match value {
            Some(v) => {
                decl.apply("display", v, false).unwrap();
            }
            None => decl.remove_property("display"),
        }
        seen.push(decl.property_value("display"));
    }
    assert_eq!(seen, vec!["block".to_string(), String::new(), "block".to_string()]);
}

#[test]
fn search_step_decisions() {
    assert_eq!(search_step(3, &"flex".to_string()), SearchStep::Found(3));
    assert_eq!(search_step(3, &String::new()), SearchStep::Next(4));
    assert_eq!(search_step(24, &String::new()), SearchStep::Exhausted);
}

#[test]
fn existing_value_stops_search_without_write() {
    let mut decl = engine(&[("color", "red")]);
    decl.apply("color", "red", false).unwrap();
    assert_eq!(decl.apply("color", "blue", false), Ok(0));
    assert_eq!(decl.property_value("color"), "red");
}
