//! The rules page of the single-user edition: rules listed in groups by category, and the rule
//! form.

use crate::text::{parse_i64_text, parsed_i64};
use vstd::prelude::*;

verus! {

/// The rules of one category, in their order.
#[derive(Debug)]
pub struct CategoryGroup<T> {
    pub category_name: String,
    pub rules: Vec<T>,
}

/// The rules of `groups`, one after the other, each with the name of its group.
pub open spec fn grouped_rules<T>(groups: Seq<CategoryGroup<T>>) -> Seq<(Seq<char>, T)>
    decreases groups.len(),
{
    if groups.len() == 0 {
        Seq::empty()
    } else {
        grouped_rules(groups.drop_last()) + groups.last().rules@.map_values(
            |x: T| (groups.last().category_name@, x),
        )
    }
}

/// Every group holds a rule, and neighbouring groups have different names.
pub open spec fn well_grouped<T>(groups: Seq<CategoryGroup<T>>) -> bool {
    &&& forall|k: int| 0 <= k < groups.len() ==> (#[trigger] groups[k]).rules@.len() > 0
    &&& forall|k: int| 0 < k < groups.len() ==> (#[trigger] groups[k]).category_name@ != groups[k - 1].category_name@
}

/// The name a rule is grouped under: its category's, or `"No Category"`.
pub fn group_name(category_name: Option<String>) -> (r: String)
    ensures
        r@ == match category_name {
            Some(n) => n@,
            None => "No Category"@,
        },
{
    match category_name {
        Some(n) => n,
        None => crate::text::owned("No Category"),
    }
}

proof fn lemma_grouped_push_rule<T>(groups: Seq<CategoryGroup<T>>, g: CategoryGroup<T>, rule: T, rules: Seq<T>)
    requires
        groups.len() > 0,
        g.category_name == groups.last().category_name,
        g.rules@ == groups.last().rules@.push(rule),
    ensures
        grouped_rules(groups.drop_last().push(g)) == grouped_rules(groups).push((g.category_name@, rule)),
{
    let before = groups.drop_last();
    assert(groups.drop_last().push(g).drop_last() =~= before);
    assert(g.rules@.map_values(|x: T| (g.category_name@, x)) =~= groups.last().rules@.map_values(
        |x: T| (groups.last().category_name@, x),
    ).push((g.category_name@, rule)));
}

proof fn lemma_grouped_push_group<T>(groups: Seq<CategoryGroup<T>>, g: CategoryGroup<T>, rule: T)
    requires
        g.rules@ == seq![rule],
    ensures
        grouped_rules(groups.push(g)) == grouped_rules(groups).push((g.category_name@, rule)),
{
    assert(groups.push(g).drop_last() =~= groups);
    assert(g.rules@.map_values(|x: T| (g.category_name@, x)) =~= seq![(g.category_name@, rule)]);
}

/// The rules (each with the name of its category) in groups of neighbours with the same
/// name: every rule is kept, in order, and a new group starts exactly where the name changes.
pub fn group_by_category<T>(rules: Vec<(String, T)>) -> (r: Vec<CategoryGroup<T>>)
    ensures
        grouped_rules(r@) == rules@.map_values(|p: (String, T)| (p.0@, p.1)),
        well_grouped(r@),
{
    let ghost orig = rules@;
    let ghost tagged = orig.map_values(|p: (String, T)| (p.0@, p.1));
    let n = rules.len();
    let mut rest = rules;
    let mut groups: Vec<CategoryGroup<T>> = Vec::new();
    let mut i: usize = 0;
    while i < n
        invariant
            i <= n == orig.len(),
            tagged == orig.map_values(|p: (String, T)| (p.0@, p.1)),
            rest@ == orig.subrange(i as int, n as int),
            grouped_rules(groups@) == tagged.subrange(0, i as int),
            well_grouped(groups@),
        decreases n - i,
    {
        let (name, rule) = rest.remove(0);
        assert(orig[i as int] == (name, rule));
        assert(rest@ =~= orig.subrange(i + 1, n as int));
        assert(tagged.subrange(0, i + 1) =~= tagged.subrange(0, i as int).push((name@, rule)));
        let ghost before = groups@;
        let same = if groups.len() > 0 {
            let last = groups.len() - 1;
            crate::text::text_eq(groups[last].category_name.as_str(), name.as_str())
        } else {
            false
        };
        if same {
            let mut g = groups.pop().unwrap();
            assert(groups@ == before.drop_last());
            let ghost old_rules = g.rules@;
            g.rules.push(rule);
            proof {
                lemma_grouped_push_rule(before, g, rule, old_rules);
            }
            groups.push(g);
            assert(groups@ =~= before.drop_last().push(g));
            assert forall|k: int| 0 < k < groups@.len() implies (#[trigger] groups@[k]).category_name@ != groups@[k - 1].category_name@ by {
                if k < groups@.len() - 1 {
                    assert(groups@[k] == before[k]);
                    assert(groups@[k - 1] == before[k - 1]);
                } else {
                    assert(groups@[k].category_name == before[k].category_name);
                    assert(groups@[k - 1] == before[k - 1]);
                }
            }
            assert forall|k: int| 0 <= k < groups@.len() implies (#[trigger] groups@[k]).rules@.len() > 0 by {
                if k < groups@.len() - 1 {
                    assert(groups@[k] == before[k]);
                }
            }
        } else {
            let mut rs: Vec<T> = Vec::new();
            rs.push(rule);
            let g = CategoryGroup { category_name: name, rules: rs };
            proof {
                lemma_grouped_push_group(before, g, rule);
            }
            groups.push(g);
            assert forall|k: int| 0 < k < groups@.len() implies (#[trigger] groups@[k]).category_name@ != groups@[k - 1].category_name@ by {
                if k < groups@.len() - 1 {
                    assert(groups@[k] == before[k]);
                    assert(groups@[k - 1] == before[k - 1]);
                } else {
                    assert(groups@[k - 1] == before[k - 1]);
                }
            }
            assert forall|k: int| 0 <= k < groups@.len() implies (#[trigger] groups@[k]).rules@.len() > 0 by {
                if k < groups@.len() - 1 {
                    assert(groups@[k] == before[k]);
                }
            }
        }
        i = i + 1;
    }
    assert(tagged.subrange(0, n as int) =~= tagged);
    groups
}

/// An optional id of the rule form: a missing or empty value, or one that is not a number,
/// selects nothing.
pub open spec fn optional_id_of(value: Option<Seq<char>>) -> Option<i64> {
    match value {
        Some(v) => if v.len() == 0 {
            None
        } else {
            parsed_i64(v)
        },
        None => None,
    }
}

/// An optional id of the rule form (see `optional_id_of`).
pub fn optional_id(value: Option<&str>) -> (r: Option<i64>)
    ensures
        r == optional_id_of(value.deep_view()),
{
    match value {
        Some(v) => if v.is_empty() {
            None
        } else {
            parse_i64_text(v)
        },
        None => None,
    }
}

/// The priority of the rule form, 999 where it is not a number.
pub fn priority_or_default(value: &str) -> (r: i64)
    ensures
        r == match parsed_i64(value@) {
            Some(p) => p,
            None => 999,
        },
{
    match parse_i64_text(value) {
        Some(p) => p,
        None => 999,
    }
}

} // verus!
