use vstd::prelude::*;
use crate::model::Rule;
use crate::platform::{PlatformKey, os_key_spec};

verus! {

/// A rule applies on `p` when it has no `os` condition or names `p`'s key.
pub open spec fn rule_applies(r: Rule, p: PlatformKey) -> bool {
    match r.os {
        None => true,
        Some(os) => os.name@ == os_key_spec(p),
    }
}

/// The verdict of a rule list: the action of the last rule that applies,
/// `false` where none applies.
pub open spec fn rules_verdict(rules: Seq<Rule>, p: PlatformKey) -> bool
    decreases rules.len(),
{
    if rules.len() == 0 {
        false
    } else if rule_applies(rules.last(), p) {
        rules.last().action@ == "allow"@
    } else {
        rules_verdict(rules.drop_last(), p)
    }
}

/// Whether an entry with these rules is eligible on `p`: always where it has
/// no rule list.
pub open spec fn library_allowed(rules: Option<Seq<Rule>>, p: PlatformKey) -> bool {
    match rules {
        None => true,
        Some(rs) => rules_verdict(rs, p),
    }
}

pub open spec fn rules_view(rules: Option<Vec<Rule>>) -> Option<Seq<Rule>> {
    match rules {
        None => None,
        Some(v) => Some(v@),
    }
}

fn rule_applies_exec(r: &Rule, p: PlatformKey) -> (b: bool)
    ensures
        b == rule_applies(*r, p),
{
    match &r.os {
        None => true,
        Some(os) => {
            let key = crate::platform::get_os_key(p);
            os.name == key
        },
    }
}

/// Evaluates a rule list in order, each applying rule overriding the verdict
/// of those before it.
pub fn is_library_allowed(rules: &Option<Vec<Rule>>, p: PlatformKey) -> (b: bool)
    ensures
        b == library_allowed(rules_view(*rules), p),
{
    match rules {
        None => true,
        Some(list) => {
            let allow = String::from_str("allow");
            let mut allowed = false;
            let mut i: usize = 0;
            while i < list.len()
                invariant
                    0 <= i <= list@.len(),
                    allow@ == "allow"@,
                    allowed == rules_verdict(list@.subrange(0, i as int), p),
                decreases list@.len() - i,
            {
                proof {
                    let s = list@.subrange(0, i as int + 1);
                    assert(s.drop_last() =~= list@.subrange(0, i as int));
                    assert(s.last() == list@[i as int]);
                }
                if rule_applies_exec(&list[i], p) {
                    allowed = list[i].action == allow;
                }
                i = i + 1;
            }
            assert(list@.subrange(0, list@.len() as int) =~= list@);
            allowed
        },
    }
}

/// The verdict of a non-empty rule list is the action of its last applying
/// rule, or a denial where no rule applies; an absent rule list allows.
pub proof fn lemma_last_applying_rule_decides(rules: Seq<Rule>, p: PlatformKey)
    ensures
        library_allowed(None, p),
        (forall|j: int| 0 <= j < rules.len() ==> !rule_applies(#[trigger] rules[j], p))
            ==> !library_allowed(Some(rules), p),
        forall|i: int|
            0 <= i < rules.len() && rule_applies(rules[i], p) && (forall|j: int|
                i < j < rules.len() ==> !rule_applies(#[trigger] rules[j], p)) ==> (library_allowed(
                Some(rules),
                p,
            ) == (#[trigger] rules[i].action@ == "allow"@)),
    decreases rules.len(),
{
    if rules.len() > 0 {
        let d = rules.drop_last();
        lemma_last_applying_rule_decides(d, p);
        assert forall|j: int| 0 <= j < d.len() implies d[j] == rules[j] by {}
        if !rule_applies(rules.last(), p) {
            assert forall|i: int|
                0 <= i < rules.len() && rule_applies(rules[i], p) && (forall|j: int|
                    i < j < rules.len() ==> !rule_applies(#[trigger] rules[j], p)) implies (
            library_allowed(Some(rules), p) == (rules[i].action@ == "allow"@)) by {
                assert(i < rules.len() - 1);
                assert(d[i] == rules[i]);
                assert forall|j: int| i < j < d.len() implies !rule_applies(#[trigger] d[j], p) by {
                    assert(d[j] == rules[j]);
                }
            }
            if forall|j: int| 0 <= j < rules.len() ==> !rule_applies(#[trigger] rules[j], p) {
                assert forall|j: int| 0 <= j < d.len() implies !rule_applies(#[trigger] d[j], p) by {
                    assert(d[j] == rules[j]);
                }
            }
        }
    }
}

} // verus!
