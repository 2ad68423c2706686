//! Simple selectors (`tag`, `.class`, `#id`), matching, specificity, and
//! the computed style of an element.
use vstd::prelude::*;
use crate::css::parser::{PropertyValue, Stylesheet};
use crate::html::ElementData;
use crate::text::{chars_of, slice_chars, split_whitespace, str_eq, vec_to_string, words_of};

verus! {

#[derive(Clone, Debug)]
pub enum SelectorType {
    Tag(String),
    Class(String),
    Id(String),
}

/// `#id`, `.class`, or a tag name.
pub fn parse_selector(selector: &str) -> (r: SelectorType)
    ensures
        selector@.len() > 0 && selector@[0] == '#' ==> (r matches SelectorType::Id(s) && s@ == selector@.drop_first()),
        selector@.len() > 0 && selector@[0] == '.' ==> (r matches SelectorType::Class(s) && s@ == selector@.drop_first()),
        !(selector@.len() > 0 && (selector@[0] == '#' || selector@[0] == '.')) ==> (r matches SelectorType::Tag(s) && s@ == selector@),
{
    let cs = chars_of(selector);
    if cs.len() > 0 && cs[0] == '#' {
        let rest = slice_chars(&cs, 1, cs.len());
        assert(rest@ =~= selector@.drop_first());
        SelectorType::Id(vec_to_string(&rest))
    } else if cs.len() > 0 && cs[0] == '.' {
        let rest = slice_chars(&cs, 1, cs.len());
        assert(rest@ =~= selector@.drop_first());
        SelectorType::Class(vec_to_string(&rest))
    } else {
        SelectorType::Tag(String::from_str(selector))
    }
}

/// Index of the first attribute named `key`.
pub open spec fn attr_index(attrs: Seq<(String, String)>, key: Seq<char>, from: int) -> Option<int>
    decreases attrs.len() - from,
{
    if from < 0 || from >= attrs.len() {
        None
    } else if attrs[from].0@ == key {
        Some(from)
    } else {
        attr_index(attrs, key, from + 1)
    }
}

/// Value of the first attribute named `key`.
fn find_attr<'a>(e: &'a ElementData, key: &str) -> (r: Option<&'a String>)
    ensures
        match attr_index(e.attributes@, key@, 0) {
            Some(i) => r matches Some(v) && v@ == e.attributes@[i].1@,
            None => r is None,
        },
{
    let mut i: usize = 0;
    while i < e.attributes.len()
        invariant
            i <= e.attributes@.len(),
            attr_index(e.attributes@, key@, 0) == attr_index(e.attributes@, key@, i as int),
        decreases e.attributes@.len() - i,
    {
        if str_eq(e.attributes[i].0.as_str(), key) {
            return Some(&e.attributes[i].1);
        }
        i = i + 1;
    }
    None
}

/// Whether the element matches the selector: same tag; `class` lists the
/// class among its words; `id` equals the id.
pub open spec fn matches_spec(e: ElementData, s: SelectorType) -> bool {
    match s {
        SelectorType::Tag(t) => e.tag_name@ == t@,
        SelectorType::Class(c) => match attr_index(e.attributes@, "class"@, 0) {
            Some(i) => words_of(e.attributes@[i].1@).contains(c@),
            None => false,
        },
        SelectorType::Id(d) => match attr_index(e.attributes@, "id"@, 0) {
            Some(i) => e.attributes@[i].1@ == d@,
            None => false,
        },
    }
}

pub fn matches_selector(element: &ElementData, selector: &SelectorType) -> (r: bool)
    ensures
        r == matches_spec(*element, *selector),
{
    match selector {
        SelectorType::Tag(tag) => str_eq(element.tag_name.as_str(), tag.as_str()),
        SelectorType::Class(class) => match find_attr(element, "class") {
            Some(classes) => {
                let words = split_whitespace(classes.as_str());
                let ghost want = matches_spec(*element, *selector);
                assert(want == words_of(classes@).contains(class@));
                let mut i: usize = 0;
                while i < words.len()
                    invariant
                        want == matches_spec(*element, *selector),
                        want == words_of(classes@).contains(class@),
                        i <= words@.len(),
                        words@.len() == words_of(classes@).len(),
                        forall|k: int| 0 <= k < words@.len() ==> (#[trigger] words@[k])@ == words_of(classes@)[k],
                        forall|k: int| 0 <= k < i ==> words_of(classes@)[k] != class@,
                    decreases words@.len() - i,
                {
                    if str_eq(words[i].as_str(), class.as_str()) {
                        assert(words_of(classes@)[i as int] == class@);
                        assert(words_of(classes@).contains(class@));
                        return true;
                    }
                    i = i + 1;
                }
                false
            },
            None => false,
        },
        SelectorType::Id(id) => match find_attr(element, "id") {
            Some(v) => str_eq(v.as_str(), id.as_str()),
            None => false,
        },
    }
}

/// Counts of id, class and tag selectors, compared in that order.
#[derive(Clone, Copy, Debug, PartialEq, Eq, PartialOrd, Ord, Structural)]
pub struct Specificity {
    pub id: u32,
    pub class: u32,
    pub tag: u32,
}

/// `a` is at least as specific as `b`.
pub open spec fn spec_at_least(a: Specificity, b: Specificity) -> bool {
    a.id > b.id || (a.id == b.id && (a.class > b.class || (a.class == b.class && a.tag >= b.tag)))
}

fn at_least(a: Specificity, b: Specificity) -> (r: bool)
    ensures
        r == spec_at_least(a, b),
{
    a.id > b.id || (a.id == b.id && (a.class > b.class || (a.class == b.class && a.tag >= b.tag)))
}

impl Specificity {
    pub open spec fn new_spec(selector: SelectorType) -> Specificity {
        match selector {
            SelectorType::Id(_) => Specificity { id: 1, class: 0, tag: 0 },
            SelectorType::Class(_) => Specificity { id: 0, class: 1, tag: 0 },
            SelectorType::Tag(_) => Specificity { id: 0, class: 0, tag: 1 },
        }
    }

    pub fn new(selector: &SelectorType) -> (r: Self)
        ensures
            r == Specificity::new_spec(*selector),
            selector is Id ==> r == (Specificity { id: 1, class: 0, tag: 0 }),
            selector is Class ==> r == (Specificity { id: 0, class: 1, tag: 0 }),
            selector is Tag ==> r == (Specificity { id: 0, class: 0, tag: 1 }),
    {
        match selector {
            SelectorType::Id(_) => Specificity { id: 1, class: 0, tag: 0 },
            SelectorType::Class(_) => Specificity { id: 0, class: 1, tag: 0 },
            SelectorType::Tag(_) => Specificity { id: 0, class: 0, tag: 1 },
        }
    }
}

/// A rule of a style sheet (by position) that matched, with the
/// specificity of its first matching selector.
#[derive(Clone, Copy, Debug, PartialEq, Eq, Structural)]
pub struct MatchedRule {
    pub specificity: Specificity,
    pub rule: usize,
}

/// Inserts `m` after every entry at least as specific, keeping the order
/// most specific first and stable among equals.
fn insert_sorted(v: &mut Vec<MatchedRule>, m: MatchedRule)
    requires
        forall|i: int, j: int| 0 <= i < j < old(v)@.len() ==> spec_at_least(#[trigger] old(v)@[i].specificity, #[trigger] old(v)@[j].specificity),
    ensures
        final(v)@.len() == old(v)@.len() + 1,
        forall|i: int, j: int| 0 <= i < j < final(v)@.len() ==> spec_at_least(#[trigger] final(v)@[i].specificity, #[trigger] final(v)@[j].specificity),
        exists|k: int| 0 <= k <= old(v)@.len() && final(v)@ == old(v)@.insert(k, m),
{
    let mut k: usize = 0;
    while k < v.len() && at_least(v[k].specificity, m.specificity)
        invariant
            k <= v@.len(),
            v@ == old(v)@,
            forall|i: int| 0 <= i < k ==> spec_at_least(#[trigger] v@[i].specificity, m.specificity),
        decreases v@.len() - k,
    {
        k = k + 1;
    }
    v.insert(k, m);
    proof {
        assert forall|i: int, j: int| 0 <= i < j < v@.len() implies spec_at_least(#[trigger] v@[i].specificity, #[trigger] v@[j].specificity) by {
            if j < k {
            } else if j == k {
            } else if i == k {
                if k < old(v)@.len() {
                    assert(!spec_at_least(old(v)@[k as int].specificity, m.specificity));
                    assert(spec_at_least(old(v)@[k as int].specificity, old(v)@[j - 1].specificity) || j - 1 == k);
                }
            } else if i < k {
                assert(spec_at_least(old(v)@[i].specificity, old(v)@[j - 1].specificity));
            } else {
                assert(spec_at_least(old(v)@[i - 1].specificity, old(v)@[j - 1].specificity));
            }
        }
        assert(v@ == old(v)@.insert(k as int, m));
    }
}

/// The rules with a selector that matches, most specific first (rules of
/// equal specificity keep their order).
pub fn matching_rules(element: &ElementData, stylesheet: &Stylesheet) -> (r: Vec<MatchedRule>)
    ensures
        forall|i: int, j: int| 0 <= i < j < r@.len() ==> spec_at_least(#[trigger] r@[i].specificity, #[trigger] r@[j].specificity),
        forall|i: int| 0 <= i < r@.len() ==> (#[trigger] r@[i]).rule < stylesheet.rules@.len(),
{
    let mut matched: Vec<MatchedRule> = Vec::new();
    let mut ri: usize = 0;
    while ri < stylesheet.rules.len()
        invariant
            ri <= stylesheet.rules@.len(),
            forall|i: int, j: int| 0 <= i < j < matched@.len() ==> spec_at_least(#[trigger] matched@[i].specificity, #[trigger] matched@[j].specificity),
            forall|i: int| 0 <= i < matched@.len() ==> (#[trigger] matched@[i]).rule < ri,
        decreases stylesheet.rules@.len() - ri,
    {
        let rule = &stylesheet.rules[ri];
        let mut si: usize = 0;
        while si < rule.selectors.len()
            invariant
                si <= rule.selectors@.len(),
                ri < stylesheet.rules@.len(),
                forall|i: int, j: int| 0 <= i < j < matched@.len() ==> spec_at_least(#[trigger] matched@[i].specificity, #[trigger] matched@[j].specificity),
                forall|i: int| 0 <= i < matched@.len() ==> (#[trigger] matched@[i]).rule <= ri,
            decreases rule.selectors@.len() - si,
        {
            let selector = parse_selector(rule.selectors[si].as_str());
            if matches_selector(element, &selector) {
                let ghost before = matched@;
                insert_sorted(&mut matched, MatchedRule { specificity: Specificity::new(&selector), rule: ri });
                proof {
                    let k = choose|k: int| 0 <= k <= before.len() && matched@ == before.insert(k, MatchedRule { specificity: Specificity::new_spec(selector), rule: ri });
                    assert forall|i: int| 0 <= i < matched@.len() implies (#[trigger] matched@[i]).rule <= ri by {
                        if i < k {
                            assert(matched@[i] == before[i]);
                        } else if i > k {
                            assert(matched@[i] == before[i - 1]);
                        }
                    }
                }
                break;
            }
            si = si + 1;
        }
        ri = ri + 1;
    }
    matched
}

/// Value of the first entry with key `k` at or after `from`.
pub open spec fn lookup_from(es: Seq<(Seq<char>, PropertyValue)>, k: Seq<char>, from: int) -> Option<PropertyValue>
    decreases es.len() - from,
{
    if from < 0 || from >= es.len() {
        None
    } else if es[from].0 == k {
        Some(es[from].1)
    } else {
        lookup_from(es, k, from + 1)
    }
}

/// The properties an element ends up with, by name.
#[derive(Clone, Debug)]
pub struct ComputedStyle {
    pub properties: Vec<(String, PropertyValue)>,
}

impl ComputedStyle {
    pub open spec fn entries(&self) -> Seq<(Seq<char>, PropertyValue)> {
        self.properties@.map_values(|p: (String, PropertyValue)| (p.0@, p.1))
    }

    /// The value of property `k`.
    pub open spec fn value_of(&self, k: Seq<char>) -> Option<PropertyValue> {
        lookup_from(self.entries(), k, 0)
    }

    /// No property set.
    pub fn new() -> (r: Self)
        ensures
            forall|k: Seq<char>| #[trigger] r.value_of(k) is None,
    {
        ComputedStyle { properties: Vec::new() }
    }

    pub fn get(&self, name: &str) -> (r: Option<&PropertyValue>)
        ensures
            match self.value_of(name@) {
                Some(v) => r == Some(&v),
                None => r is None,
            },
    {
        let mut i: usize = 0;
        while i < self.properties.len()
            invariant
                i <= self.properties@.len(),
                lookup_from(self.entries(), name@, 0) == lookup_from(self.entries(), name@, i as int),
            decreases self.properties@.len() - i,
        {
            if str_eq(self.properties[i].0.as_str(), name) {
                return Some(&self.properties[i].1);
            }
            i = i + 1;
        }
        None
    }

    /// Sets property `name`, replacing any earlier value.
    pub fn set(&mut self, name: String, value: PropertyValue)
        ensures
            forall|k: Seq<char>| #[trigger] final(self).value_of(k) == if k == name@ {
                Some(value)
            } else {
                old(self).value_of(k)
            },
    {
        let ghost es = self.entries();
        let mut i: usize = 0;
        while i < self.properties.len()
            invariant
                i <= self.properties@.len(),
                es == self.entries(),
                *self == *old(self),
                forall|j: int| 0 <= j < i ==> es[j].0 != name@,
            decreases self.properties@.len() - i,
        {
            if str_eq(self.properties[i].0.as_str(), name.as_str()) {
                let ghost key = name@;
                self.properties.set(i, (name, value));
                proof {
                    assert(self.entries() =~= es.update(i as int, (key, value)));
                    assert forall|k: Seq<char>| #[trigger] self.value_of(k) == if k == key { Some(value) } else { old(self).value_of(k) } by {
                        lemma_lookup_update(es, i as int, key, value, k, 0);
                    }
                }
                return;
            }
            i = i + 1;
        }
        let ghost key = name@;
        self.properties.push((name, value));
        proof {
            assert(self.entries() =~= es.push((key, value)));
            assert forall|k: Seq<char>| #[trigger] self.value_of(k) == if k == key { Some(value) } else { old(self).value_of(k) } by {
                lemma_lookup_push(es, key, value, k, 0);
            }
        }
    }
}

proof fn lemma_lookup_update(es: Seq<(Seq<char>, PropertyValue)>, i: int, key: Seq<char>, value: PropertyValue, k: Seq<char>, from: int)
    requires
        0 <= i < es.len(),
        es[i].0 == key,
        forall|j: int| 0 <= j < i ==> es[j].0 != key,
        0 <= from,
    ensures
        from <= i ==> lookup_from(es.update(i, (key, value)), k, from) == if k == key { Some(value) } else { lookup_from(es, k, from) },
        from > i ==> lookup_from(es.update(i, (key, value)), k, from) == lookup_from(es, k, from),
    decreases es.len() - from,
{
    if from < es.len() {
        lemma_lookup_update(es, i, key, value, k, from + 1);
    }
}

proof fn lemma_lookup_push(es: Seq<(Seq<char>, PropertyValue)>, key: Seq<char>, value: PropertyValue, k: Seq<char>, from: int)
    requires
        forall|j: int| 0 <= j < es.len() ==> es[j].0 != key,
        0 <= from <= es.len(),
    ensures
        lookup_from(es.push((key, value)), k, from) == if k == key { Some(value) } else { lookup_from(es, k, from) },
    decreases es.len() - from,
{
    let p = es.push((key, value));
    if from < es.len() {
        lemma_lookup_push(es, key, value, k, from + 1);
        assert(p[from] == es[from]);
    } else {
        assert(p[from] == (key, value));
        assert(lookup_from(p, k, from + 1) is None);
        assert(lookup_from(es, k, from) is None);
    }
}

} // verus!
