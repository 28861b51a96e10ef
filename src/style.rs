use vstd::prelude::*;
use vstd::string::StringExecFns;

verus! {

/// Why a rule group could not be applied to a stylesheet.
#[derive(Debug, PartialEq, Eq)]
pub enum StyleError {
    /// The stylesheet refused a rule with this selector.
    InvalidSelector(String),
    /// No combination of vendor prefixes made this `name: value` pair stick.
    InvalidProperty(String, String),
    /// Every `u32` rule id has been handed out.
    RuleIdsExhausted,
    /// The stylesheet does not hold the rule at the expected index.
    MissingRule,
    /// The stylesheet refused to delete or edit a rule.
    Rejected,
}

/// A static property's value and whether it is written `!important`.
pub struct CssPropValue {
    pub value: String,
    pub important: bool,
}

/// A property entry as the contracts see it: name, value, priority.
pub type PropEntry = (Seq<char>, Seq<char>, bool);

/// Position of `name` among the entries' names, if present.
pub open spec fn position_of(entries: Seq<PropEntry>, name: Seq<char>) -> Option<int> {
    if exists|i: int| 0 <= i < entries.len() && (#[trigger] entries[i]).0 == name {
        Some(choose|i: int| 0 <= i < entries.len() && (#[trigger] entries[i]).0 == name)
    } else {
        None
    }
}

/// Entries after writing `name: value` with the given priority: an entry of
/// the same name is replaced in place, otherwise the entry is appended.
pub open spec fn entries_with(entries: Seq<PropEntry>, name: Seq<char>, value: Seq<char>, important: bool) -> Seq<PropEntry> {
    match position_of(entries, name) {
        Some(i) => entries.update(i, (name, value, important)),
        None => entries.push((name, value, important)),
    }
}

/// Entries after dropping the one named `name`, if any.
pub open spec fn entries_without(entries: Seq<PropEntry>, name: Seq<char>) -> Seq<PropEntry> {
    match position_of(entries, name) {
        Some(i) => entries.remove(i),
        None => entries,
    }
}

pub open spec fn unique_names(entries: Seq<PropEntry>) -> bool {
    forall|i: int, j: int| 0 <= i < j < entries.len() ==> (#[trigger] entries[i]).0 != (#[trigger] entries[j]).0
}

/// Static css properties of a rule group, one entry per property name, kept in
/// the order in which the names were first written. They are applied in that
/// order, not sorted by name: where a shorthand and one of its longhands are
/// both set, the one written first is applied first and the later one wins.
/// Names are unique, as in a map, and a rewrite keeps the entry's place.
pub struct StaticCSSProps {
    entries: Vec<(String, CssPropValue)>,
}

impl StaticCSSProps {
    pub closed spec fn view(&self) -> Seq<PropEntry> {
        self.entries@.map_values(|e: (String, CssPropValue)| (e.0@, e.1.value@, e.1.important))
    }

    pub open spec fn wf(&self) -> bool {
        unique_names(self.view())
    }

    pub fn new() -> (r: StaticCSSProps)
        ensures
            r.wf(),
            r.view() == Seq::<PropEntry>::empty(),
    {
        StaticCSSProps { entries: Vec::new() }
    }

    pub fn len(&self) -> (r: usize)
        ensures
            r == self.view().len(),
    {
        self.entries.len()
    }

    /// The entry at `i`: name, value and priority.
    pub fn entry(&self, i: usize) -> (r: (&str, &str, bool))
        requires
            i < self.view().len(),
        ensures
            (r.0@, r.1@, r.2) == self.view()[i as int],
    {
        let e = &self.entries[i];
        (e.0.as_str(), e.1.value.as_str(), e.1.important)
    }

    fn find(&self, name: &str) -> (r: Option<usize>)
        requires
            self.wf(),
        ensures
            r is None ==> position_of(self.view(), name@) is None,
            r matches Some(i) ==> position_of(self.view(), name@) == Some(i as int),
    {
        let key = String::from_str(name);
        let mut i: usize = 0;
        while i < self.entries.len()
            invariant
                i <= self.entries@.len(),
                key@ == name@,
                self.wf(),
                forall|j: int| 0 <= j < i ==> (#[trigger] self.view()[j]).0 != name@,
            decreases self.entries@.len() - i,
        {
            if self.entries[i].0 == key {
                assert(self.view()[i as int].0 == name@);
                let ghost c = choose|c: int| 0 <= c < self.view().len() && (#[trigger] self.view()[c]).0 == name@;
                assert(c == i) by {
                    if c < i {
                        assert(self.view()[c].0 != self.view()[i as int].0);
                    } else if c > i {
                        assert(self.view()[i as int].0 != self.view()[c].0);
                    }
                }
                return Some(i);
            }
            i = i + 1;
        }
        None
    }

    pub(crate) fn write(&mut self, name: &str, value: &str, important: bool)
        requires
            old(self).wf(),
        ensures
            final(self).wf(),
            final(self).view() == entries_with(old(self).view(), name@, value@, important),
    {
        let v = CssPropValue { value: String::from_str(value), important };
        match self.find(name) {
            Some(i) => {
                self.entries.set(i, (String::from_str(name), v));
                assert(self.view() =~= entries_with(old(self).view(), name@, value@, important));
            },
            None => {
                self.entries.push((String::from_str(name), v));
                assert(self.view() =~= entries_with(old(self).view(), name@, value@, important));
            },
        }
    }

    /// The value of the entry named `name`, if there is one.
    pub(crate) fn value_of(&self, name: &str) -> (r: Option<String>)
        requires
            self.wf(),
        ensures
            r is None <==> position_of(self.view(), name@) is None,
            r matches Some(v) ==> v@ == self.view()[position_of(self.view(), name@)->Some_0].1,
    {
        match self.find(name) {
            Some(i) => Some(self.entries[i].1.value.clone()),
            None => None,
        }
    }

    /// Sets `name: value` at normal priority, replacing an earlier entry of
    /// that name.
    pub fn insert(&mut self, name: &str, value: &str)
        requires
            old(self).wf(),
        ensures
            final(self).wf(),
            final(self).view() == entries_with(old(self).view(), name@, value@, false),
    {
        self.write(name, value, false)
    }

    /// Sets `name: value !important`, replacing an earlier entry of that name.
    pub fn insert_important(&mut self, name: &str, value: &str)
        requires
            old(self).wf(),
        ensures
            final(self).wf(),
            final(self).view() == entries_with(old(self).view(), name@, value@, true),
    {
        self.write(name, value, true)
    }

    /// Removes the entry named `name` and returns its value, if there was one.
    pub fn remove(&mut self, name: &str) -> (r: Option<CssPropValue>)
        requires
            old(self).wf(),
        ensures
            final(self).wf(),
            final(self).view() == entries_without(old(self).view(), name@),
            r is None <==> position_of(old(self).view(), name@) is None,
            r matches Some(v) ==> (name@, v.value@, v.important) == old(self).view()[position_of(old(self).view(), name@)->Some_0],
    {
        match self.find(name) {
            Some(i) => {
                let (_, v) = self.entries.remove(i);
                assert(self.view() =~= entries_without(old(self).view(), name@));
                Some(v)
            },
            None => None,
        }
    }
}

/// `value` followed by the unit `px`.
pub fn px(value: &str) -> (r: String)
    ensures
        r@ == value@ + "px"@,
{
    String::from_str(value).concat("px")
}

/// `value` followed by the unit `ch`.
pub fn ch(value: &str) -> (r: String)
    ensures
        r@ == value@ + "ch"@,
{
    String::from_str(value).concat("ch")
}

} // verus!

verus! {

/// Position of the entry keyed `key`, if present.
pub open spec fn key_position<T>(s: Seq<(String, T)>, key: Seq<char>) -> Option<int> {
    if exists|i: int| 0 <= i < s.len() && (#[trigger] s[i]).0@ == key {
        Some(choose|i: int| 0 <= i < s.len() && (#[trigger] s[i]).0@ == key)
    } else {
        None
    }
}

pub open spec fn unique_keys<T>(s: Seq<(String, T)>) -> bool {
    forall|i: int, j: int| 0 <= i < j < s.len() ==> (#[trigger] s[i]).0@ != (#[trigger] s[j]).0@
}

/// Entries after adding `e`: an entry with the same key is replaced in place,
/// otherwise `e` is appended.
pub open spec fn keyed_with<T>(s: Seq<(String, T)>, e: (String, T)) -> Seq<(String, T)> {
    match key_position(s, e.0@) {
        Some(i) => s.update(i, e),
        None => s.push(e),
    }
}

/// Class names after adding `class`: unchanged if it is already there.
pub open spec fn classes_with(s: Seq<Seq<char>>, class: Seq<char>) -> Seq<Seq<char>> {
    if s.contains(class) { s } else { s.push(class) }
}

fn key_index<T>(v: &Vec<(String, T)>, key: &String) -> (r: Option<usize>)
    requires
        unique_keys(v@),
    ensures
        r is None ==> key_position(v@, key@) is None,
        r matches Some(i) ==> key_position(v@, key@) == Some(i as int),
{
    let mut i: usize = 0;
    while i < v.len()
        invariant
            i <= v@.len(),
            unique_keys(v@),
            forall|j: int| 0 <= j < i ==> (#[trigger] v@[j]).0@ != key@,
        decreases v@.len() - i,
    {
        if v[i].0 == *key {
            let ghost c = choose|c: int| 0 <= c < v@.len() && (#[trigger] v@[c]).0@ == key@;
            assert(v@[i as int].0@ == key@);
            assert(c == i) by {
                if c > i {
                    assert(v@[i as int].0@ != v@[c].0@);
                }
            }
            return Some(i);
        }
        i = i + 1;
    }
    None
}

fn insert_keyed<T>(v: &mut Vec<(String, T)>, e: (String, T))
    requires
        unique_keys(old(v)@),
    ensures
        unique_keys(final(v)@),
        final(v)@ == keyed_with(old(v)@, e),
{
    match key_index(v, &e.0) {
        Some(i) => {
            v.set(i, e);
        },
        None => {
            v.push(e);
        },
    }
}

/// Css styles applied under one selector: static and signal-driven
/// properties, static and signal-driven classes, and resize handlers. `S`,
/// `B` and `H` are the types of a property value stream, of a class toggle
/// stream and of a resize handler; the group only carries them.
pub struct StyleGroup<S, B, H> {
    /// The css selector under which the styles apply.
    pub selector: String,
    pub static_css_props: StaticCSSProps,
    pub dynamic_css_props: Vec<(String, S)>,
    pub static_css_classes: Vec<String>,
    pub dynamic_css_classes: Vec<(String, B)>,
    pub resize_handlers: Vec<H>,
}

/// The names held in a list of class names.
pub open spec fn class_names(v: Seq<String>) -> Seq<Seq<char>> {
    v.map_values(|c: String| c@)
}

impl<S, B, H> StyleGroup<S, B, H> {
    pub open spec fn wf(&self) -> bool {
        &&& self.static_css_props.wf()
        &&& unique_keys(self.dynamic_css_props@)
        &&& unique_keys(self.dynamic_css_classes@)
        &&& class_names(self.static_css_classes@).no_duplicates()
    }

    /// An empty group for `selector`.
    pub fn new(selector: &str) -> (r: Self)
        ensures
            r.wf(),
            r.selector@ == selector@,
            r.static_css_props.view() == Seq::<PropEntry>::empty(),
            r.dynamic_css_props@ == Seq::<(String, S)>::empty(),
            r.static_css_classes@ == Seq::<String>::empty(),
            r.dynamic_css_classes@ == Seq::<(String, B)>::empty(),
            r.resize_handlers@ == Seq::<H>::empty(),
    {
        StyleGroup {
            selector: String::from_str(selector),
            static_css_props: StaticCSSProps::new(),
            dynamic_css_props: Vec::new(),
            static_css_classes: Vec::new(),
            dynamic_css_classes: Vec::new(),
            resize_handlers: Vec::new(),
        }
    }

    /// Adds the static property `name: value`.
    pub fn style(self, name: &str, value: &str) -> (r: Self)
        requires
            self.wf(),
        ensures
            r.wf(),
            r.static_css_props.view() == entries_with(self.static_css_props.view(), name@, value@, false),
            r.selector == self.selector,
            r.dynamic_css_props == self.dynamic_css_props,
            r.static_css_classes == self.static_css_classes,
            r.dynamic_css_classes == self.dynamic_css_classes,
            r.resize_handlers == self.resize_handlers,
    {
        let mut g = self;
        g.static_css_props.insert(name, value);
        g
    }

    /// Adds the static property `name: value !important`.
    pub fn style_important(self, name: &str, value: &str) -> (r: Self)
        requires
            self.wf(),
        ensures
            r.wf(),
            r.static_css_props.view() == entries_with(self.static_css_props.view(), name@, value@, true),
            r.selector == self.selector,
            r.dynamic_css_props == self.dynamic_css_props,
            r.static_css_classes == self.static_css_classes,
            r.dynamic_css_classes == self.dynamic_css_classes,
            r.resize_handlers == self.resize_handlers,
    {
        let mut g = self;
        g.static_css_props.insert_important(name, value);
        g
    }

    /// Binds property `name` to the value stream `value`, replacing an
    /// earlier binding of that name.
    pub fn style_signal(self, name: String, value: S) -> (r: Self)
        requires
            self.wf(),
        ensures
            r.wf(),
            r.dynamic_css_props@ == keyed_with(self.dynamic_css_props@, (name, value)),
            r.selector == self.selector,
            r.static_css_props == self.static_css_props,
            r.static_css_classes == self.static_css_classes,
            r.dynamic_css_classes == self.dynamic_css_classes,
            r.resize_handlers == self.resize_handlers,
    {
        let mut g = self;
        insert_keyed(&mut g.dynamic_css_props, (name, value));
        g
    }

    /// Adds the static class `class`; a class already present stays once.
    pub fn class(self, class: &str) -> (r: Self)
        requires
            self.wf(),
        ensures
            r.wf(),
            class_names(r.static_css_classes@) == classes_with(class_names(self.static_css_classes@), class@),
            r.selector == self.selector,
            r.static_css_props == self.static_css_props,
            r.dynamic_css_props == self.dynamic_css_props,
            r.dynamic_css_classes == self.dynamic_css_classes,
            r.resize_handlers == self.resize_handlers,
    {
        let mut g = self;
        let c = String::from_str(class);
        let mut i: usize = 0;
        let mut found = false;
        while i < g.static_css_classes.len()
            invariant
                i <= g.static_css_classes@.len(),
                c@ == class@,
                found <==> exists|j: int| 0 <= j < i && (#[trigger] g.static_css_classes@[j])@ == class@,
            decreases g.static_css_classes@.len() - i,
        {
            if g.static_css_classes[i] == c {
                found = true;
            }
            i = i + 1;
        }
        proof {
            let names = class_names(g.static_css_classes@);
            if found {
                let j = choose|j: int| 0 <= j < i && (#[trigger] g.static_css_classes@[j])@ == class@;
                assert(names[j] == class@);
            } else {
                assert forall|j: int| 0 <= j < names.len() implies names[j] != class@ by {
                    assert(g.static_css_classes@[j]@ == names[j]);
                }
            }
        }
        if !found {
            g.static_css_classes.push(c);
            assert(class_names(g.static_css_classes@) =~= class_names(self.static_css_classes@).push(class@));
        }
        g
    }

    /// Binds class `class` to the toggle stream `enabled`, replacing an
    /// earlier binding of that class.
    pub fn class_signal(self, class: String, enabled: B) -> (r: Self)
        requires
            self.wf(),
        ensures
            r.wf(),
            r.dynamic_css_classes@ == keyed_with(self.dynamic_css_classes@, (class, enabled)),
            r.selector == self.selector,
            r.static_css_props == self.static_css_props,
            r.dynamic_css_props == self.dynamic_css_props,
            r.static_css_classes == self.static_css_classes,
            r.resize_handlers == self.resize_handlers,
    {
        let mut g = self;
        insert_keyed(&mut g.dynamic_css_classes, (class, enabled));
        g
    }

    /// Adds a handler called with the element's new width and height.
    pub fn on_resize(self, handler: H) -> (r: Self)
        requires
            self.wf(),
        ensures
            r.wf(),
            r.resize_handlers@ == self.resize_handlers@.push(handler),
            r.selector == self.selector,
            r.static_css_props == self.static_css_props,
            r.dynamic_css_props == self.dynamic_css_props,
            r.static_css_classes == self.static_css_classes,
            r.dynamic_css_classes == self.dynamic_css_classes,
    {
        let mut g = self;
        g.resize_handlers.push(handler);
        g
    }
}

} // verus!

verus! {

/// A typed style (alignment, borders, fonts, ...) that adds its properties to
/// a rule group.
pub trait Style<S, B, H>: Sized {
    fn merge_with_group(self, group: StyleGroup<S, B, H>) -> StyleGroup<S, B, H>;
}

} // verus!
