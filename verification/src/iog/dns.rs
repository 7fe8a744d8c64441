//! Resolving legacy game domains: fixed overrides before upstream DNS.

use vstd::prelude::*;

use crate::text::chars_of;

verus! {

/// An IP address.
#[derive(Debug, Clone, Copy)]
pub enum IpAddress {
    V4([u8; 4]),
    V6([u16; 8]),
}

/// Names ending in `domain_suffix` resolve to `override_ip`.
#[derive(Debug, Clone)]
pub struct LegacyDomainRule {
    pub domain_suffix: String,
    pub override_ip: IpAddress,
}

/// `s` ends with `suffix`.
pub open spec fn ends_with(s: Seq<char>, suffix: Seq<char>) -> bool {
    suffix.len() <= s.len() && s.skip(s.len() - suffix.len()) == suffix
}

/// Index of the first rule whose suffix ends `name`, if any.
pub open spec fn first_rule(rules: Seq<LegacyDomainRule>, name: Seq<char>) -> Option<int>
    decreases rules.len(),
{
    if rules.len() == 0 {
        None
    } else {
        match first_rule(rules.drop_last(), name) {
            Some(k) => Some(k),
            None => if ends_with(name, rules.last().domain_suffix@) {
                Some(rules.len() - 1)
            } else {
                None
            },
        }
    }
}

/// The fixed IPv4 answer for `name`: that of the first rule whose suffix
/// ends the name, when it is an IPv4 address.  Otherwise the name goes to
/// upstream DNS.
pub open spec fn override_of(rules: Seq<LegacyDomainRule>, name: Seq<char>) -> Option<[u8; 4]> {
    match first_rule(rules, name) {
        Some(k) => match rules[k].override_ip {
            IpAddress::V4(a) => Some(a),
            IpAddress::V6(_) => None,
        },
        None => None,
    }
}

proof fn lemma_first_rule(rules: Seq<LegacyDomainRule>, name: Seq<char>)
    ensures
        match first_rule(rules, name) {
            Some(k) => 0 <= k < rules.len() && ends_with(name, rules[k].domain_suffix@) && forall|j: int|
                0 <= j < k ==> !ends_with(name, (#[trigger] rules[j]).domain_suffix@),
            None => forall|j: int| 0 <= j < rules.len() ==> !ends_with(name, (#[trigger] rules[j]).domain_suffix@),
        },
    decreases rules.len(),
{
    if rules.len() > 0 {
        lemma_first_rule(rules.drop_last(), name);
        assert forall|j: int| 0 <= j < rules.len() - 1 implies rules.drop_last()[j] == rules[j] by {}
    }
}

/// A name ends with a suffix exactly when it is some text (possibly empty)
/// followed by that suffix; in particular every name ends with itself.
pub proof fn lemma_ends_with_iff_concat(s: Seq<char>, suffix: Seq<char>)
    ensures
        ends_with(s, suffix) <==> exists|p: Seq<char>| s == #[trigger] (p + suffix),
        ends_with(s, s),
{
    if ends_with(s, suffix) {
        let p = s.take(s.len() - suffix.len());
        assert(s =~= p + suffix);
    }
    if exists|p: Seq<char>| s == #[trigger] (p + suffix) {
        let p = choose|p: Seq<char>| s == #[trigger] (p + suffix);
        assert(s.skip(s.len() - suffix.len()) =~= suffix);
    }
    assert(s.skip(0) =~= s);
}

/// A rule answers every name made of any text followed by its suffix,
/// including the suffix alone, unless an earlier rule already does: when the
/// first rule's address is IPv4, every such name gets that address.
pub proof fn lemma_first_rule_answers(rules: Seq<LegacyDomainRule>, prefix: Seq<char>)
    requires
        rules.len() > 0,
    ensures
        rules[0].override_ip matches IpAddress::V4(a) ==> override_of(rules, prefix + rules[0].domain_suffix@)
            == Some(a),
        rules[0].override_ip matches IpAddress::V6(_) ==> override_of(rules, prefix + rules[0].domain_suffix@)
            is None,
{
    let name = prefix + rules[0].domain_suffix@;
    lemma_ends_with_iff_concat(name, rules[0].domain_suffix@);
    assert(ends_with(name, rules[0].domain_suffix@));
    lemma_first_rule(rules, name);
}

fn ends_with_chars(s: &Vec<char>, suffix: &Vec<char>) -> (r: bool)
    ensures
        r == ends_with(s@, suffix@),
{
    if suffix.len() > s.len() {
        return false;
    }
    let slen = s.len();
    let off = slen - suffix.len();
    let mut k: usize = 0;
    while k < suffix.len()
        invariant
            slen == s@.len(),
            off + suffix@.len() == s@.len(),
            k <= suffix@.len(),
            forall|t: int| 0 <= t < k ==> s@[off + t] == suffix@[t],
        decreases suffix@.len() - k,
    {
        if s[off + k] != suffix[k] {
            assert(s@.skip(off as int)[k as int] != suffix@[k as int]);
            return false;
        }
        k = k + 1;
    }
    assert(s@.skip(off as int) =~= suffix@);
    true
}

/// The fixed IPv4 answer for `name`, if a rule gives one.
pub fn dns_override(rules: &Vec<LegacyDomainRule>, name: &str) -> (r: Option<[u8; 4]>)
    ensures
        r == override_of(rules@, name@),
{
    proof {
        lemma_first_rule(rules@, name@);
    }
    let n = chars_of(name);
    let mut i: usize = 0;
    while i < rules.len()
        invariant
            n@ == name@,
            i <= rules@.len(),
            forall|j: int| 0 <= j < i ==> !ends_with(name@, (#[trigger] rules@[j]).domain_suffix@),
            match first_rule(rules@, name@) {
                Some(k) => 0 <= k < rules@.len() && ends_with(name@, rules@[k].domain_suffix@) && forall|j: int|
                    0 <= j < k ==> !ends_with(name@, (#[trigger] rules@[j]).domain_suffix@),
                None => forall|j: int|
                    0 <= j < rules@.len() ==> !ends_with(name@, (#[trigger] rules@[j]).domain_suffix@),
            },
        decreases rules@.len() - i,
    {
        let suffix = chars_of(rules[i].domain_suffix.as_str());
        if ends_with_chars(&n, &suffix) {
            assert(ends_with(name@, rules@[i as int].domain_suffix@));
            return match rules[i].override_ip {
                IpAddress::V4(a) => Some(a),
                IpAddress::V6(_) => None,
            };
        }
        i = i + 1;
    }
    None
}

} // verus!
