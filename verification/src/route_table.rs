//! Forwarding-rule identity and the route table: the set of installed routes,
//! keyed by (ingress authority, egress authority, ingress transport identity,
//! egress transport identity), with idempotent insert and remove.

use vstd::prelude::*;
use crate::ComparableTransport;
use crate::endpoint::{Endpoint, EndpointView};
use crate::uri::str_eq;

verus! {

/// Ghost image of a [`ForwardingRule`].
pub ghost struct RuleView {
    pub in_authority: Seq<char>,
    pub out_authority: Seq<char>,
    pub in_transport: u64,
    pub out_transport: u64,
}

/// Identity of one route: the two authorities and the two transport identity
/// keys. Two routes with equal rules are the same route.
#[derive(Debug)]
pub struct ForwardingRule {
    pub in_authority: String,
    pub out_authority: String,
    pub in_transport: ComparableTransport,
    pub out_transport: ComparableTransport,
}

impl View for ForwardingRule {
    type V = RuleView;

    open spec fn view(&self) -> RuleView {
        RuleView {
            in_authority: self.in_authority@,
            out_authority: self.out_authority@,
            in_transport: self.in_transport.id,
            out_transport: self.out_transport.id,
        }
    }
}

impl Clone for ForwardingRule {
    /// A clone is the same rule.
    fn clone(&self) -> (r: ForwardingRule)
        ensures
            r@ == self@,
    {
        let r = ForwardingRule {
            in_authority: self.in_authority.clone(),
            out_authority: self.out_authority.clone(),
            in_transport: self.in_transport,
            out_transport: self.out_transport,
        };
        proof {
            assert(r@ =~= self@);
        }
        r
    }
}

/// The rule identifying the route from `ingress` to `egress`.
pub open spec fn rule_of(ingress: EndpointView, egress: EndpointView) -> RuleView {
    RuleView {
        in_authority: ingress.authority,
        out_authority: egress.authority,
        in_transport: ingress.transport,
        out_transport: egress.transport,
    }
}

/// Builds the identity tuple of the route from `ingress` to `egress`.
pub fn build_forwarding_rule(ingress: &Endpoint, egress: &Endpoint) -> (r: ForwardingRule)
    ensures
        r@ == rule_of(ingress@, egress@),
{
    let r = ForwardingRule {
        in_authority: ingress.authority.clone(),
        out_authority: egress.authority.clone(),
        in_transport: ingress.transport,
        out_transport: egress.transport,
    };
    proof {
        assert(r@ =~= rule_of(ingress@, egress@));
    }
    r
}

impl ForwardingRule {
    /// Structural equality of two rules.
    pub fn matches(&self, other: &ForwardingRule) -> (r: bool)
        ensures
            r == (self@ == other@),
    {
        let r = str_eq(self.in_authority.as_str(), other.in_authority.as_str()) && str_eq(
            self.out_authority.as_str(),
            other.out_authority.as_str(),
        ) && self.in_transport.id == other.in_transport.id && self.out_transport.id
            == other.out_transport.id;
        proof {
            if r {
                assert(self@ =~= other@);
            }
        }
        r
    }
}

/// The ghost images of a sequence of rules.
pub open spec fn rule_views(s: Seq<ForwardingRule>) -> Seq<RuleView> {
    s.map_values(|r: ForwardingRule| r@)
}

/// Whether a sequence of rule images holds no rule twice.
pub open spec fn rules_distinct(s: Seq<RuleView>) -> bool {
    forall|i: int, j: int| 0 <= i < j < s.len() ==> s[i] != s[j]
}

/// `s` with the rule `r` taken out, where `s` holds `r` at most once.
pub open spec fn rules_remove(s: Seq<RuleView>, r: RuleView) -> Seq<RuleView> {
    if s.contains(r) {
        s.remove(choose|i: int| 0 <= i < s.len() && s[i] == r)
    } else {
        s
    }
}

/// The set of installed routes. No rule is held twice.
pub struct ForwardingRules {
    rules: Vec<ForwardingRule>,
}

impl ForwardingRules {
    /// The installed rules, as ghost images, in insertion order.
    pub closed spec fn view_rules(&self) -> Seq<RuleView> {
        rule_views(self.rules@)
    }

    /// Well-formed: no rule is installed twice.
    pub open spec fn wf(&self) -> bool {
        rules_distinct(self.view_rules())
    }

    /// An empty route table.
    pub fn new() -> (r: ForwardingRules)
        ensures
            r.wf(),
            r.view_rules() == Seq::<RuleView>::empty(),
    {
        let r = ForwardingRules { rules: Vec::new() };
        proof {
            assert(r.view_rules() =~= Seq::<RuleView>::empty());
        }
        r
    }

    /// How many rules are installed.
    pub fn len(&self) -> (n: usize)
        ensures
            n == self.view_rules().len(),
    {
        self.rules.len()
    }

    /// The index of `rule` in the table, when installed.
    fn position_of(&self, rule: &ForwardingRule) -> (r: Option<usize>)
        ensures
            match r {
                Some(i) => i < self.view_rules().len() && self.view_rules()[i as int] == rule@,
                None => !self.view_rules().contains(rule@),
            },
    {
        let n = self.rules.len();
        for i in 0..n
            invariant
                n == self.rules.len(),
                forall|k: int| 0 <= k < i ==> self.view_rules()[k] != rule@,
        {
            if self.rules[i].matches(rule) {
                return Some(i);
            }
        }
        proof {
            if self.view_rules().contains(rule@) {
                let j = choose|j: int|
                    0 <= j < self.view_rules().len() && self.view_rules()[j] == rule@;
            }
        }
        None
    }
}

/// Installs a forwarding rule. Returns true iff the rule was newly added; a
/// rule already installed is left as it is.
pub fn insert_forwarding_rule(registered: &mut ForwardingRules, rule: ForwardingRule) -> (r: bool)
    requires
        old(registered).wf(),
    ensures
        final(registered).wf(),
        r == !old(registered).view_rules().contains(rule@),
        r ==> final(registered).view_rules() == old(registered).view_rules().push(rule@),
        !r ==> final(registered).view_rules() == old(registered).view_rules(),
{
    match registered.position_of(&rule) {
        Some(_) => false,
        None => {
            let ghost old_views = registered.view_rules();
            registered.rules.push(rule);
            proof {
                assert(registered.view_rules() =~= old_views.push(rule@));
            }
            true
        },
    }
}

/// Removes a forwarding rule. Returns true iff the rule was installed and is
/// now gone; removing an absent rule changes nothing.
pub fn remove_forwarding_rule(registered: &mut ForwardingRules, rule: &ForwardingRule) -> (r: bool)
    requires
        old(registered).wf(),
    ensures
        final(registered).wf(),
        r == old(registered).view_rules().contains(rule@),
        final(registered).view_rules() == rules_remove(old(registered).view_rules(), rule@),
        !final(registered).view_rules().contains(rule@),
{
    let ghost old_views = registered.view_rules();
    match registered.position_of(rule) {
        Some(i) => {
            registered.rules.remove(i);
            proof {
                assert(old_views.contains(rule@));
                assert(registered.view_rules() =~= old_views.remove(i as int));
                let j = choose|j: int| 0 <= j < old_views.len() && old_views[j] == rule@;
                assert(old_views[j] == rule@ && old_views[i as int] == rule@);
                assert(j == i);
                assert(registered.view_rules() == rules_remove(old_views, rule@));
                assert forall|a: int, b: int|
                    0 <= a < b < registered.view_rules().len() implies registered.view_rules()[a]
                    != registered.view_rules()[b] by {
                    let s = old_views.remove(i as int);
                    let a0 = if a < i { a } else { a + 1 };
                    let b0 = if b < i { b } else { b + 1 };
                    assert(s[a] == old_views[a0] && s[b] == old_views[b0]);
                }
                if registered.view_rules().contains(rule@) {
                    let k = choose|k: int|
                        0 <= k < registered.view_rules().len() && registered.view_rules()[k]
                            == rule@;
                    let k0 = if k < i { k } else { k + 1 };
                    assert(old_views[k0] == rule@ && k0 != i);
                }
            }
            true
        },
        None => {
            false
        },
    }
}

} // verus!
