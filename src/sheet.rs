use vstd::prelude::*;
use vstd::string::StringExecFns;
use web_sys::wasm_bindgen::JsCast;
use web_sys::wasm_bindgen::JsValue;
use web_sys::{CssRuleList, CssStyleDeclaration, CssStyleRule, CssStyleSheet};
use crate::rule_ids::{lemma_add_then_remove, lemma_live_count_bounded, MonotonicIds};
use crate::style::{StyleError, StyleGroup};
use crate::vendor::{candidate_at, search_step, SearchStep, COMBINATION_COUNT};

verus! {

#[verifier::external_type_specification]
#[verifier::external_body]
pub struct ExJsValue(JsValue);

#[verifier::external_type_specification]
#[verifier::external_body]
pub struct ExCssStyleSheet(CssStyleSheet);

#[verifier::external_type_specification]
#[verifier::external_body]
pub struct ExCssRuleList(CssRuleList);

#[verifier::external_type_specification]
#[verifier::external_body]
pub struct ExCssStyleRule(CssStyleRule);

#[verifier::external_type_specification]
#[verifier::external_body]
pub struct ExCssStyleDeclaration(CssStyleDeclaration);

/// Relies on `CssStyleSheet::insert_rule_with_index` (`insertRule`): inserts
/// the rule text at `index`, or fails where the browser refuses it.
#[verifier::external_body]
fn insert_rule(sheet: &CssStyleSheet, rule: &str, index: u32) -> (r: Result<u32, JsValue>) {
    sheet.insert_rule_with_index(rule, index)
}

/// Relies on `CssStyleSheet::css_rules` (`cssRules`): the sheet's live rule list.
#[verifier::external_body]
fn rule_list(sheet: &CssStyleSheet) -> (r: Result<CssRuleList, JsValue>) {
    sheet.css_rules()
}

/// Relies on `CssRuleList::item`: the rule at `index`, if any, taken as a
/// style rule.
#[verifier::external_body]
fn style_rule_at(list: &CssRuleList, index: u32) -> (r: Option<CssStyleRule>) {
    list.item(index).map(|rule| rule.unchecked_into::<CssStyleRule>())
}

/// Relies on `CssStyleRule::style`: the rule's declaration block.
#[verifier::external_body]
fn rule_style(rule: &CssStyleRule) -> (r: CssStyleDeclaration) {
    rule.style()
}

/// Relies on `CssStyleSheet::delete_rule` (`deleteRule`): deletes the rule at
/// `index`, or fails where there is none.
#[verifier::external_body]
fn delete_rule(sheet: &CssStyleSheet, index: u32) -> (r: Result<(), JsValue>) {
    sheet.delete_rule(index)
}

/// Relies on `CssStyleDeclaration::set_property_with_priority` (`setProperty`).
#[verifier::external_body]
fn set_property(decl: &CssStyleDeclaration, name: &str, value: &str, priority: &str) -> (r: Result<(), JsValue>) {
    decl.set_property_with_priority(name, value, priority)
}

/// Relies on `CssStyleDeclaration::get_property_value` (`getPropertyValue`):
/// the property's value, empty where it is not set.
#[verifier::external_body]
fn property_value(decl: &CssStyleDeclaration, name: &str) -> (r: Result<String, JsValue>) {
    decl.get_property_value(name)
}

/// Relies on `CssStyleDeclaration::remove_property` (`removeProperty`).
#[verifier::external_body]
fn remove_property(decl: &CssStyleDeclaration, name: &str) -> (r: Result<String, JsValue>) {
    decl.remove_property(name)
}

/// The rule text that inserts an empty rule for `selector`.
pub fn empty_rule(selector: &str) -> (r: String)
    ensures
        r@ == selector@ + "{}"@,
{
    String::from_str(selector).concat("{}")
}

/// What the search does after the `k`-th write was made or refused.
#[derive(Debug, PartialEq, Eq)]
pub enum WriteStep {
    /// The write was taken: read the property back.
    ReadBack,
    /// The block refused the very first write (a declaration that takes no
    /// properties): stop without error and write nothing more.
    Absorbed,
    /// The block refused a later write.
    Failed,
}

/// The search's decision on whether the `k`-th write was taken.
pub fn write_step(k: usize, written: bool) -> (r: WriteStep)
    ensures
        written ==> r == WriteStep::ReadBack,
        !written && k == 0 ==> r == WriteStep::Absorbed,
        !written && k > 0 ==> r == WriteStep::Failed,
{
    if written {
        WriteStep::ReadBack
    } else if k == 0 {
        WriteStep::Absorbed
    } else {
        WriteStep::Failed
    }
}

/// Applies `name: value` to a browser declaration block, `!important` where
/// asked: writes the pair, then, while the property reads back empty, each
/// combination of vendor prefixes in order. Returns the index of the
/// combination that read back (0 for the pair itself), or `None` where the
/// block refused the first write outright. Exhausting the combinations makes
/// the property invalid.
pub fn set_css_property(decl: &CssStyleDeclaration, name: &str, value: &str, important: bool) -> (r: Result<Option<usize>, StyleError>)
    ensures
        r matches Ok(Some(k)) ==> k < COMBINATION_COUNT,
        r matches Err(e) ==> e is Rejected || (e matches StyleError::InvalidProperty(n, v) && n@ == name@ && v@ == value@),
{
    let priority = if important { "important" } else { "" };
    let mut k: usize = 0;
    loop
        invariant
            k < COMBINATION_COUNT,
        decreases COMBINATION_COUNT - k,
    {
        let (cn, cv) = candidate_at(name, value, k);
        let written = match set_property(decl, cn.as_str(), cv.as_str(), priority) {
            Ok(()) => true,
            Err(_) => false,
        };
        match write_step(k, written) {
            WriteStep::ReadBack => {},
            WriteStep::Absorbed => {
                return Ok(None);
            },
            WriteStep::Failed => {
                return Err(StyleError::Rejected);
            },
        }
        let back = match property_value(decl, cn.as_str()) {
            Ok(back) => back,
            Err(_) => {
                return Err(StyleError::Rejected);
            },
        };
        match search_step(k, &back) {
            SearchStep::Found(found) => {
                return Ok(Some(found));
            },
            SearchStep::Next(next) => {
                k = next;
            },
            SearchStep::Exhausted => {
                return Err(StyleError::InvalidProperty(String::from_str(name), String::from_str(value)));
            },
        }
    }
}

/// Applies one value of a signal-driven property: sets `name: value` where a
/// value is present, removes the property where it is absent.
pub fn apply_dynamic_value(decl: &CssStyleDeclaration, name: &str, value: Option<&str>) -> (r: Result<Option<usize>, StyleError>)
    ensures
        value is None ==> (r matches Ok(o) ==> o is None) && (r matches Err(e) ==> e is Rejected),
        r matches Ok(Some(k)) ==> value is Some && k < COMBINATION_COUNT,
        r matches Err(e) ==> e is Rejected || (e matches StyleError::InvalidProperty(n, v) && n@ == name@ && (value matches Some(x) && v@ == x@)),
{
    match value {
        Some(v) => set_css_property(decl, name, v, false),
        None => match remove_property(decl, name) {
            Ok(_) => Ok(None),
            Err(_) => Err(StyleError::Rejected),
        },
    }
}

} // verus!

verus! {

/// What applying a rule group leaves to the caller: the rule's id, its
/// declaration block, and the signal-driven properties and classes that still
/// have to be bound to it.
pub struct AppliedGroup<S, B, H> {
    pub rule_id: u32,
    pub declaration: CssStyleDeclaration,
    pub dynamic_css_props: Vec<(String, S)>,
    pub dynamic_css_classes: Vec<(String, B)>,
    pub resize_handlers: Vec<H>,
}

/// Owner of a scoped rule: its id and the handles of the tasks that keep its
/// signal-driven properties bound. Releasing it drops the tasks first, then
/// deletes the rule.
pub struct StyleGroupHandle<T> {
    rule_id: u32,
    task_handles: Vec<T>,
}

impl<T> StyleGroupHandle<T> {
    pub closed spec fn id(&self) -> u32 {
        self.rule_id
    }

    pub fn new(rule_id: u32, task_handles: Vec<T>) -> (r: Self)
        ensures
            r.id() == rule_id,
    {
        StyleGroupHandle { rule_id, task_handles }
    }

    pub fn rule_id(&self) -> (r: u32)
        ensures
            r == self.id(),
    {
        self.rule_id
    }
}

/// The stylesheet that rule groups are applied to, with the registry that
/// maps each rule id to the rule's current index in it.
pub struct GlobalStyles {
    sheet: CssStyleSheet,
    rule_ids: MonotonicIds,
}

impl GlobalStyles {
    pub closed spec fn ids(&self) -> MonotonicIds {
        self.rule_ids
    }

    pub open spec fn wf(&self) -> bool {
        self.ids().wf()
    }

    /// Styles kept in `sheet`, which holds no rules yet.
    pub fn from_sheet(sheet: CssStyleSheet) -> (r: GlobalStyles)
        ensures
            r.wf(),
            r.ids().live() == Seq::<u32>::empty(),
            r.ids().next() == 0,
    {
        GlobalStyles { sheet, rule_ids: MonotonicIds::new() }
    }

    /// Number of rules this owner has in the sheet.
    pub fn rule_count(&self) -> (r: usize)
        ensures
            r == self.ids().live().len(),
    {
        self.rule_ids.len()
    }

    /// Current index of rule `id`, if it is live.
    pub fn rule_index(&self, id: u32) -> (r: Option<usize>)
        requires
            self.wf(),
        ensures
            r is None <==> !self.ids().live().contains(id),
            r matches Some(i) ==> i < self.ids().live().len() && self.ids().live()[i as int] == id,
    {
        self.rule_ids.index_of(id)
    }

    /// Deletes rule `id` from the sheet and returns the index it had; each
    /// later rule moves down by one.
    pub fn remove_rule(&mut self, id: u32) -> (r: Result<usize, StyleError>)
        requires
            old(self).wf(),
        ensures
            final(self).wf(),
            final(self).ids().next() == old(self).ids().next(),
            !old(self).ids().live().contains(id) ==> (r matches Err(e) && e is MissingRule),
            !old(self).ids().live().contains(id) ==> final(self).ids().live() == old(self).ids().live(),
            old(self).ids().live().contains(id) ==> {
                let i = choose|i: int| 0 <= i < old(self).ids().live().len() && old(self).ids().live()[i] == id;
                &&& final(self).ids().live() == old(self).ids().live().remove(i)
                &&& r matches Ok(k) ==> k == i
                &&& r matches Err(e) ==> e is Rejected
            },
    {
        let ghost live = self.rule_ids.live();
        match self.rule_ids.remove_id(id) {
            None => Err(StyleError::MissingRule),
            Some(i) => {
                proof {
                    let c = choose|c: int| 0 <= c < live.len() && live[c] == id;
                    if c < i {
                        assert(live[c] < live[i as int]);
                    } else if c > i {
                        assert(live[i as int] < live[c]);
                    }
                }
                proof {
                    lemma_live_count_bounded(live, self.rule_ids.next());
                }
                match delete_rule(&self.sheet, i as u32) {
                    Ok(()) => Ok(i),
                    Err(_) => Err(StyleError::Rejected),
                }
            },
        }
    }

    /// Releases a scoped rule: drops its tasks, then deletes its rule.
    pub fn release<T>(&mut self, handle: StyleGroupHandle<T>) -> (r: Result<usize, StyleError>)
        requires
            old(self).wf(),
        ensures
            final(self).wf(),
            final(self).ids().next() == old(self).ids().next(),
            !old(self).ids().live().contains(handle.id()) ==> (r matches Err(e) && e is MissingRule),
            !old(self).ids().live().contains(handle.id()) ==> final(self).ids().live() == old(self).ids().live(),
            old(self).ids().live().contains(handle.id()) ==> {
                let i = choose|i: int| 0 <= i < old(self).ids().live().len() && old(self).ids().live()[i] == handle.id();
                &&& final(self).ids().live() == old(self).ids().live().remove(i)
                &&& r matches Ok(k) ==> k == i
                &&& r matches Err(e) ==> e is Rejected
            },
    {
        let StyleGroupHandle { rule_id, task_handles } = handle;
        drop_all(task_handles);
        self.remove_rule(rule_id)
    }

    /// Inserts an empty rule for the group's selector at the tail of the
    /// sheet and applies its static properties. The signal-driven parts come
    /// back to the caller to be bound to the returned declaration block.
    /// Static classes only apply to elements and are not part of a sheet
    /// rule. On failure the rule is taken out again.
    pub fn style_group_inner<S, B, H>(&mut self, group: StyleGroup<S, B, H>) -> (r: Result<AppliedGroup<S, B, H>, StyleError>)
        requires
            old(self).wf(),
        ensures
            final(self).wf(),
            r is Ok ==> final(self).ids().next() == old(self).ids().next() + 1,
            r matches Ok(a) ==> {
                &&& a.rule_id == old(self).ids().next()
                &&& final(self).ids().live() == old(self).ids().live().push(a.rule_id)
                &&& a.dynamic_css_props == group.dynamic_css_props
                &&& a.dynamic_css_classes == group.dynamic_css_classes
                &&& a.resize_handlers == group.resize_handlers
            },
            r matches Err(e) ==> (e is RuleIdsExhausted <==> old(self).ids().next() == u32::MAX),
            r matches Err(e) ==> (e matches StyleError::InvalidSelector(s) ==> s@ == group.selector@),
            r is Err ==> final(self).ids().live() == old(self).ids().live(),
    {
        let (id, index) = match self.rule_ids.add_new_id() {
            Some(p) => p,
            None => {
                return Err(StyleError::RuleIdsExhausted);
            },
        };
        let ghost before = old(self).rule_ids.live();
        let rule_text = empty_rule(group.selector.as_str());
        proof {
            lemma_live_count_bounded(before, old(self).ids().next());
        }
        let inserted = match insert_rule(&self.sheet, rule_text.as_str(), index as u32) {
            Ok(_) => true,
            Err(_) => false,
        };
        if !inserted {
            self.forget_last(id, Ghost(before));
            return Err(StyleError::InvalidSelector(group.selector));
        }
        let found = match rule_list(&self.sheet) {
            Ok(list) => style_rule_at(&list, index as u32),
            Err(_) => None,
        };
        let rule = match found {
            Some(rule) => rule,
            None => {
                self.undo_last(id, Ghost(before));
                return Err(StyleError::MissingRule);
            },
        };
        let declaration = rule_style(&rule);
        let n = group.static_css_props.len();
        let mut i: usize = 0;
        while i < n
            invariant
                n == group.static_css_props.view().len(),
                i <= n,
                self.wf(),
                self.rule_ids.live() == before.push(id),
                self.rule_ids.next() == id + 1,
                before == old(self).ids().live(),
                id == old(self).ids().next(),
                id < u32::MAX,
            decreases n - i,
        {
            let (name, value, important) = group.static_css_props.entry(i);
            match set_css_property(&declaration, name, value, important) {
                Ok(_) => {},
                Err(e) => {
                    self.undo_last(id, Ghost(before));
                    return Err(e);
                },
            }
            i = i + 1;
        }
        Ok(AppliedGroup {
            rule_id: id,
            declaration,
            dynamic_css_props: group.dynamic_css_props,
            dynamic_css_classes: group.dynamic_css_classes,
            resize_handlers: group.resize_handlers,
        })
    }

    /// Takes the newest id back out of the registry.
    fn forget_last(&mut self, id: u32, Ghost(before): Ghost<Seq<u32>>)
        requires
            old(self).wf(),
            old(self).ids().live() == before.push(id),
            old(self).ids().next() == id + 1,
        ensures
            final(self).wf(),
            final(self).ids().live() == before,
    {
        let ghost live = self.rule_ids.live();
        let r = self.rule_ids.remove_id(id);
        proof {
            assert(live[live.len() - 1] == id);
            let i = r->Some_0;
            if i < live.len() - 1 {
                assert(live[i as int] < live[live.len() - 1]);
            }
            assert(live.remove(i as int) =~= before);
        }
    }

    /// Deletes the newest rule from the sheet and takes its id back out.
    fn undo_last(&mut self, id: u32, Ghost(before): Ghost<Seq<u32>>)
        requires
            old(self).wf(),
            old(self).ids().live() == before.push(id),
            old(self).ids().next() == id + 1,
        ensures
            final(self).wf(),
            final(self).ids().live() == before,
    {
        proof {
            lemma_live_count_bounded(self.rule_ids.live(), self.rule_ids.next());
        }
        let index = self.rule_ids.len() - 1;
        let _ = delete_rule(&self.sheet, index as u32);
        self.forget_last(id, Ghost(before));
    }
}

/// Drops every task handle, which cancels the tasks.
fn drop_all<T>(handles: Vec<T>) {
    let mut handles = handles;
    while handles.len() > 0
        decreases handles@.len(),
    {
        let _ = handles.pop();
    }
}

} // verus!

verus! {

/// Applying a scoped group and then releasing its handle leaves the owner
/// with the rules it had before, so the rule count is unchanged.
pub proof fn lemma_scoped_then_released(before: GlobalStyles, applied: GlobalStyles, after: GlobalStyles, id: u32)
    requires
        before.wf(),
        applied.wf(),
        id == before.ids().next(),
        applied.ids().live() == before.ids().live().push(id),
        after.ids().live() == applied.ids().live().remove(
            choose|i: int| 0 <= i < applied.ids().live().len() && applied.ids().live()[i] == id,
        ),
    ensures
        after.ids().live() == before.ids().live(),
        after.ids().live().len() == before.ids().live().len(),
{
    let live = applied.ids().live();
    let last = live.len() - 1;
    assert(live[last] == id);
    let c = choose|i: int| 0 <= i < live.len() && live[i] == id;
    if c < last {
        assert(live[c] < live[last]);
    }
    lemma_add_then_remove(before.ids().live(), before.ids().next(), id, c);
}

} // verus!
