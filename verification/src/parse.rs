//! Filter rules and parse configuration: what to allow, what to skip, and
//! the recursion budget.

use vstd::prelude::*;
use vstd::string::StringExecFns;

use crate::chars::{eq_ignore_ascii_case, lower_seq, lowered_eq};
use crate::dom::DomElement;

verus! {

/// Mathematical image of a parse rule.
pub enum RuleView {
    /// Match by exact lowercase tag-name equality.
    ElementRule(Seq<char>),
    /// Match by case-insensitive class membership.
    ClassRule(Seq<char>),
}

/// A rule for matching elements.
#[derive(Clone, Debug)]
pub enum ParseRule {
    /// Match an element by its tag name.
    Element(String),
    /// Match an element by one of its classes.
    Class(String),
}

impl View for ParseRule {
    type V = RuleView;

    open spec fn view(&self) -> RuleView {
        match self {
            ParseRule::Element(e) => RuleView::ElementRule(e@),
            ParseRule::Class(c) => RuleView::ClassRule(c@),
        }
    }
}

/// Whether one rule matches an element with the given tag and classes.
pub open spec fn rule_matches(r: RuleView, tag: Seq<char>, classes: Seq<Seq<char>>) -> bool {
    match r {
        RuleView::ElementRule(e) => lower_seq(tag) == e,
        RuleView::ClassRule(c) => exists|i: int|
            0 <= i < classes.len() && lower_seq(#[trigger] classes[i]) == lower_seq(c),
    }
}

/// Whether any rule of a list matches.
pub open spec fn any_rule_matches(rules: Seq<RuleView>, tag: Seq<char>, classes: Seq<Seq<char>>) -> bool {
    exists|i: int| 0 <= i < rules.len() && rule_matches(#[trigger] rules[i], tag, classes)
}

impl ParseRule {
    /// A rule matching elements with the given tag name.
    pub fn from_element(elem: &str) -> (r: ParseRule)
        ensures
            r@ == RuleView::ElementRule(elem@),
    {
        ParseRule::Element(String::from_str(elem))
    }

    /// A rule matching elements carrying the given class.
    pub fn from_class(class: &str) -> (r: ParseRule)
        ensures
            r@ == RuleView::ClassRule(class@),
    {
        ParseRule::Class(String::from_str(class))
    }

    /// Whether this rule matches the element.
    pub fn matches(&self, elem: &DomElement) -> (r: bool)
        ensures
            r == rule_matches(
                self@,
                elem.tag@,
                crate::dom::view_classes(elem.classes@),
            ),
    {
        match self {
            ParseRule::Element(e) => lowered_eq(elem.tag.as_str(), e.as_str()),
            ParseRule::Class(c) => {
                let n = elem.classes.len();
                let mut i: usize = 0;
                while i < n
                    invariant
                        i <= n,
                        n == elem.classes.len(),
                        self@ == RuleView::ClassRule(c@),
                        forall|j: int|
                            0 <= j < i ==> lower_seq(
                                #[trigger] crate::dom::view_classes(elem.classes@)[j],
                            ) != lower_seq(c@),
                    decreases n - i,
                {
                    if eq_ignore_ascii_case(elem.classes[i].as_str(), c.as_str()) {
                        proof {
                            let cl = crate::dom::view_classes(elem.classes@);
                            let ii: int = i as int;
                            assert(cl[ii] == elem.classes@[ii]@);
                            assert(0 <= ii < cl.len() && lower_seq(cl[ii]) == lower_seq(c@));
                            assert(exists|k: int|
                                0 <= k < cl.len() && lower_seq(#[trigger] cl[k]) == lower_seq(
                                    c@,
                                ));
                            assert(rule_matches(self@, elem.tag@, cl));
                        }
                        return true;
                    }
                    proof {
                        assert(crate::dom::view_classes(elem.classes@)[i as int]
                            == elem.classes@[i as int]@);
                    }
                    i += 1;
                }
                false
            },
        }
    }
}

/// Mathematical image of the parse configuration.
pub struct FlagsView {
    pub allow: Seq<RuleView>,
    pub skip: Seq<RuleView>,
    pub parsing: bool,
    pub remaining_depth: usize,
}

/// Flags to adjust parsing behavior.
#[derive(Clone, Debug)]
pub struct ParseFlags {
    /// Elements whose subtrees turn inline capture on.
    pub allow: Vec<ParseRule>,
    /// Elements that are skipped together with their descendants.
    pub skip: Vec<ParseRule>,
    /// Whether inline content is captured from the start.
    pub parsing: bool,
    /// Remaining recursion budget for the parse.
    pub remaining_depth: usize,
}

impl View for ParseFlags {
    type V = FlagsView;

    open spec fn view(&self) -> FlagsView {
        FlagsView {
            allow: self.allow@.map_values(|r: ParseRule| r@),
            skip: self.skip@.map_values(|r: ParseRule| r@),
            parsing: self.parsing,
            remaining_depth: self.remaining_depth,
        }
    }
}

impl Default for ParseFlags {
    fn default() -> (r: ParseFlags)
        ensures
            r@.allow =~= Seq::<RuleView>::empty(),
            r@.skip =~= Seq::<RuleView>::empty(),
            r@.parsing == true,
            r@.remaining_depth == 10,
    {
        ParseFlags { allow: Vec::new(), skip: Vec::new(), parsing: true, remaining_depth: 10 }
    }
}

/// Whether any rule of a list matches the element, executable form.
pub(crate) fn any_matches(rules: &Vec<ParseRule>, elem: &DomElement) -> (r: bool)
    ensures
        r == any_rule_matches(
            rules@.map_values(|x: ParseRule| x@),
            elem.tag@,
            crate::dom::view_classes(elem.classes@),
        ),
{
    let ghost rv = rules@.map_values(|x: ParseRule| x@);
    let n = rules.len();
    let mut i: usize = 0;
    while i < n
        invariant
            i <= n,
            n == rules.len(),
            rv == rules@.map_values(|x: ParseRule| x@),
            forall|j: int|
                0 <= j < i ==> !rule_matches(
                    #[trigger] rv[j],
                    elem.tag@,
                    crate::dom::view_classes(elem.classes@),
                ),
        decreases n - i,
    {
        if rules[i].matches(elem) {
            proof {
                assert(rv[i as int] == rules@[i as int]@);
            }
            return true;
        }
        proof {
            assert(rv[i as int] == rules@[i as int]@);
        }
        i += 1;
    }
    false
}

impl ParseFlags {
    /// Whether an allow-rule enables inline capture at this element.
    pub fn should_parse(&self, elem: &DomElement) -> (r: bool)
        ensures
            r == any_rule_matches(
                self@.allow,
                elem.tag@,
                crate::dom::view_classes(elem.classes@),
            ),
    {
        any_matches(&self.allow, elem)
    }

    /// Whether a skip-rule drops this element and its whole subtree.
    pub fn should_skip(&self, elem: &DomElement) -> (r: bool)
        ensures
            r == any_rule_matches(
                self@.skip,
                elem.tag@,
                crate::dom::view_classes(elem.classes@),
            ),
    {
        any_matches(&self.skip, elem)
    }
}

} // verus!
