//! Rule selection: an index of the translation rules by source and target,
//! and the choice of the one rule that routes a normalized message.

use vstd::prelude::*;

use crate::config::TranslationRule;
use crate::error::GatewayError;
use crate::protocols::{CommonMessage, ProtocolType};
use crate::text::{parse_bool, parse_bool_spec, parse_u8, parse_u8_spec, str_eq, FieldMap};

verus! {

/// An address condition: absent or empty matches anything, else equality.
pub open spec fn address_ok(cond: Option<Seq<char>>, addr: Seq<char>) -> bool {
    match cond {
        Some(v) => v.len() == 0 || v == addr,
        None => true,
    }
}

/// A priority condition: absent or not a byte matches anything, else equality.
pub open spec fn priority_ok(cond: Option<Seq<char>>, p: u8) -> bool {
    match cond {
        Some(v) => match parse_u8_spec(v) {
            Some(n) => n == p,
            None => true,
        },
        None => true,
    }
}

/// A flag condition: absent or not a boolean matches anything, else equality.
pub open spec fn flag_ok(cond: Option<Seq<char>>, b: bool) -> bool {
    match cond {
        Some(v) => match parse_bool_spec(v) {
            Some(x) => x == b,
            None => true,
        },
        None => true,
    }
}

/// Whether a message meets a rule's filter. Unknown keys are ignored.
pub open spec fn filter_matches(f: FieldMap, m: CommonMessage) -> bool {
    &&& address_ok(f.lookup("source_address"@), m.metadata.source_address@)
    &&& address_ok(f.lookup("destination_address"@), m.metadata.destination_address@)
    &&& priority_ok(f.lookup("priority"@), m.priority)
    &&& flag_ok(f.lookup("is_command"@), m.metadata.is_command)
    &&& flag_ok(f.lookup("requires_response"@), m.metadata.requires_response)
}

/// Whether rule `i` may route `m`: same source, the message's target where
/// `exact`, and a matching filter.
pub open spec fn candidate(rules: Seq<TranslationRule>, i: int, m: CommonMessage, exact: bool) -> bool {
    &&& 0 <= i < rules.len()
    &&& rules[i].source == m.source_protocol
    &&& exact ==> m.target_protocol == Some(rules[i].target)
    &&& filter_matches(rules[i].filter, m)
}

/// Whether rule `i` comes no later than rule `j`: lower priority first,
/// earlier insertion among equals.
pub open spec fn precedes(rules: Seq<TranslationRule>, i: int, j: int) -> bool {
    rules[i].priority < rules[j].priority || (rules[i].priority == rules[j].priority && i <= j)
}

/// Whether rule `i` is the first candidate in order of precedence.
pub open spec fn best(rules: Seq<TranslationRule>, i: int, m: CommonMessage, exact: bool) -> bool {
    &&& candidate(rules, i, m, exact)
    &&& forall|j: int| #[trigger] candidate(rules, j, m, exact) ==> precedes(rules, i, j)
}

/// Whether some rule routes `m` to its stated target.
pub open spec fn has_exact(rules: Seq<TranslationRule>, m: CommonMessage) -> bool {
    m.target_protocol is Some && exists|i: int| #[trigger] candidate(rules, i, m, true)
}

/// Whether some rule from `m`'s source matches it, whatever its target.
pub open spec fn has_any(rules: Seq<TranslationRule>, m: CommonMessage) -> bool {
    exists|i: int| #[trigger] candidate(rules, i, m, false)
}

/// Whether a message asks to be translated to its own protocol.
pub open spec fn self_translation(m: CommonMessage) -> bool {
    m.target_protocol == Some(m.source_protocol)
}

/// Whether rule `i` is the one that routes `m`: the best rule to its target
/// where there is one, else the best rule from its source.
pub open spec fn routes(rules: Seq<TranslationRule>, i: int, m: CommonMessage) -> bool {
    if has_exact(rules, m) {
        best(rules, i, m, true)
    } else {
        best(rules, i, m, false)
    }
}

/// At most one rule routes a message.
pub proof fn lemma_route_unique(rules: Seq<TranslationRule>, m: CommonMessage, i: int, j: int)
    requires
        routes(rules, i, m),
        routes(rules, j, m),
    ensures
        i == j,
{
    let exact = has_exact(rules, m);
    assert(candidate(rules, j, m, exact) && candidate(rules, i, m, exact));
    assert(precedes(rules, i, j) && precedes(rules, j, i));
}

/// Among the rules that share a message's source and target, the rule that
/// routes it has the numerically smallest priority of those whose filter
/// matches.
pub proof fn law_lowest_priority_wins(rules: Seq<TranslationRule>, m: CommonMessage, i: int, j: int)
    requires
        m.target_protocol is Some,
        routes(rules, i, m),
        candidate(rules, j, m, true),
    ensures
        rules[i].source == rules[j].source,
        m.target_protocol == Some(rules[i].target),
        rules[i].priority <= rules[j].priority,
{
    assert(has_exact(rules, m));
}

/// Whether a rule falls under the key (`source`, `target`); a target of
/// `None` takes every target.
pub open spec fn key_match(rule: TranslationRule, source: ProtocolType, target: Option<ProtocolType>) -> bool {
    rule.source == source && (target matches Some(t) ==> rule.target == t)
}

/// Whether rule `i` comes strictly before rule `j`.
pub open spec fn strictly_precedes(rules: Seq<TranslationRule>, i: int, j: int) -> bool {
    rules[i].priority < rules[j].priority || (rules[i].priority == rules[j].priority && i < j)
}

/// Whether `l` lists exactly the rules under a key, in order of precedence.
pub open spec fn route_list(rules: Seq<TranslationRule>, source: ProtocolType, target: Option<ProtocolType>, l: Seq<usize>) -> bool {
    &&& forall|k: int| 0 <= k < l.len() ==> (#[trigger] l[k]) < rules.len() && key_match(rules[l[k] as int], source, target)
    &&& forall|j: int| 0 <= j < rules.len() && key_match(#[trigger] rules[j], source, target) ==> exists|k: int| 0 <= k < l.len() && l[k] == j
    &&& forall|a: int, b: int| 0 <= a < b < l.len() ==> strictly_precedes(rules, #[trigger] l[a] as int, #[trigger] l[b] as int)
}

/// The rules under one key of the index.
#[derive(Debug)]
struct RouteList {
    source: ProtocolType,
    target: Option<ProtocolType>,
    indices: Vec<usize>,
}

/// The slot of a key in the index.
spec fn slot(source: ProtocolType, target: Option<ProtocolType>) -> int {
    (match source {
        ProtocolType::MilStd1553 => 0int,
        ProtocolType::EthernetIp => 3,
    }) + match target {
        Some(ProtocolType::MilStd1553) => 0int,
        Some(ProtocolType::EthernetIp) => 1,
        None => 2,
    }
}

fn slot_of(source: ProtocolType, target: Option<ProtocolType>) -> (r: usize)
    ensures
        r == slot(source, target),
        r < 6,
{
    (match source {
        ProtocolType::MilStd1553 => 0,
        ProtocolType::EthernetIp => 3,
    }) + match target {
        Some(ProtocolType::MilStd1553) => 0,
        Some(ProtocolType::EthernetIp) => 1,
        None => 2,
    }
}

/// The rules under a key, in order of precedence: by priority, then by
/// position.
fn build_list(rules: &Vec<TranslationRule>, source: ProtocolType, target: Option<ProtocolType>) -> (l: Vec<usize>)
    ensures
        route_list(rules@, source, target, l@),
{
    let n = rules.len();
    let mut l: Vec<usize> = Vec::new();
    let mut p: u16 = 0;
    while p < 256
        invariant
            n == rules@.len(),
            p <= 256,
            forall|k: int| 0 <= k < l@.len() ==> (#[trigger] l@[k]) < n && key_match(rules@[l@[k] as int], source, target) && rules@[l@[k] as int].priority < p,
            forall|j: int| 0 <= j < n && key_match(#[trigger] rules@[j], source, target) && rules@[j].priority < p ==> exists|k: int| 0 <= k < l@.len() && l@[k] == j,
            forall|a: int, b: int| 0 <= a < b < l@.len() ==> strictly_precedes(rules@, #[trigger] l@[a] as int, #[trigger] l@[b] as int),
        decreases 256 - p,
    {
        let ghost before = l@;
        let mut j: usize = 0;
        while j < n
            invariant
                n == rules@.len(),
                p < 256,
                j <= n,
                before.len() <= l@.len(),
                forall|k: int| 0 <= k < before.len() ==> l@[k] == before[k],
                forall|k: int| 0 <= k < before.len() ==> (#[trigger] before[k]) < n && key_match(rules@[before[k] as int], source, target) && rules@[before[k] as int].priority < p,
                forall|k: int| before.len() <= k < l@.len() ==> (#[trigger] l@[k]) < j && key_match(rules@[l@[k] as int], source, target) && rules@[l@[k] as int].priority == p,
                forall|k: int| 0 <= k < l@.len() ==> (#[trigger] l@[k]) < n && key_match(rules@[l@[k] as int], source, target) && rules@[l@[k] as int].priority <= p,
                forall|i: int| 0 <= i < n && key_match(#[trigger] rules@[i], source, target) && (rules@[i].priority < p || (rules@[i].priority == p && i < j)) ==> exists|k: int| 0 <= k < l@.len() && l@[k] == i,
                forall|a: int, b: int| 0 <= a < b < l@.len() ==> strictly_precedes(rules@, #[trigger] l@[a] as int, #[trigger] l@[b] as int),
            decreases n - j,
        {
            let rule = &rules[j];
            let under = rule.source == source && match target {
                Some(t) => rule.target == t,
                None => true,
            };
            if under && rule.priority as u16 == p {
                let ghost prev = l@;
                l.push(j);
                proof {
                    assert forall|a: int, b: int| 0 <= a < b < l@.len() implies strictly_precedes(rules@, #[trigger] l@[a] as int, #[trigger] l@[b] as int) by {
                        if b == l@.len() - 1 {
                            assert(l@[b] == j);
                            assert(l@[a] == prev[a]);
                            if a < before.len() {
                                assert(prev[a] == before[a]);
                            }
                        } else {
                            assert(l@[a] == prev[a] && l@[b] == prev[b]);
                        }
                    }
                    assert forall|i: int| 0 <= i < n && key_match(#[trigger] rules@[i], source, target) && (rules@[i].priority < p || (rules@[i].priority == p && i < j + 1)) implies exists|k: int| 0 <= k < l@.len() && l@[k] == i by {
                        if i == j {
                            assert(l@[l@.len() - 1] == j);
                        } else {
                            let k = choose|k: int| 0 <= k < prev.len() && prev[k] == i;
                            assert(l@[k] == prev[k]);
                        }
                    }
                }
            }
            j = j + 1;
        }
        proof {
            assert forall|k: int| 0 <= k < l@.len() implies (#[trigger] l@[k]) < n && key_match(rules@[l@[k] as int], source, target) && rules@[l@[k] as int].priority < p + 1 by {}
        }
        p = p + 1;
    }
    proof {
        assert forall|j: int| 0 <= j < n && key_match(#[trigger] rules@[j], source, target) implies exists|k: int| 0 <= k < l@.len() && l@[k] == j by {
            assert(rules@[j].priority < 256);
        }
    }
    l
}

/// Selects translation rules for normalized messages.
#[derive(Debug)]
pub struct Router {
    rules: Vec<TranslationRule>,
    rule_map: Vec<RouteList>,
}

impl Router {
    /// The rules in order of insertion.
    pub closed spec fn rules_spec(&self) -> Seq<TranslationRule> {
        self.rules@
    }

    /// The router's invariant: its index lists, for each key, the rules under
    /// that key in order of precedence.
    pub closed spec fn wf(&self) -> bool {
        &&& self.rule_map@.len() == 6
        &&& forall|source: ProtocolType, target: Option<ProtocolType>| {
            let e = #[trigger] self.rule_map@[slot(source, target)];
            e.source == source && e.target == target && route_list(self.rules@, source, target, e.indices@)
        }
    }

    fn build_index(rules: &Vec<TranslationRule>) -> (r: Vec<RouteList>)
        ensures
            r@.len() == 6,
            forall|source: ProtocolType, target: Option<ProtocolType>| {
                let e = #[trigger] r@[slot(source, target)];
                e.source == source && e.target == target && route_list(rules@, source, target, e.indices@)
            },
    {
        let mut r: Vec<RouteList> = Vec::new();
        let keys: [(ProtocolType, Option<ProtocolType>); 6] = [
            (ProtocolType::MilStd1553, Some(ProtocolType::MilStd1553)),
            (ProtocolType::MilStd1553, Some(ProtocolType::EthernetIp)),
            (ProtocolType::MilStd1553, None),
            (ProtocolType::EthernetIp, Some(ProtocolType::MilStd1553)),
            (ProtocolType::EthernetIp, Some(ProtocolType::EthernetIp)),
            (ProtocolType::EthernetIp, None),
        ];
        let mut k: usize = 0;
        while k < 6
            invariant
                k <= 6,
                r@.len() == k,
                forall|i: int| 0 <= i < 6 ==> slot((#[trigger] keys@[i]).0, keys@[i].1) == i,
                forall|i: int| 0 <= i < k ==> (#[trigger] r@[i]).source == keys@[i].0 && r@[i].target == keys@[i].1
                    && route_list(rules@, keys@[i].0, keys@[i].1, r@[i].indices@),
            decreases 6 - k,
        {
            let (source, target) = keys[k];
            r.push(RouteList { source, target, indices: build_list(rules, source, target) });
            k = k + 1;
        }
        proof {
            assert forall|source: ProtocolType, target: Option<ProtocolType>| {
                let e = #[trigger] r@[slot(source, target)];
                e.source == source && e.target == target && route_list(rules@, source, target, e.indices@)
            } by {
                let i = slot(source, target);
                assert(slot(keys@[i].0, keys@[i].1) == i);
                assert(keys@[i].0 == source && keys@[i].1 == target);
            }
        }
        r
    }

    /// A router over copies of `rules`, kept in order, with its index built.
    pub fn new(rules: &[TranslationRule]) -> (r: Router)
        ensures
            r.wf(),
            r.rules_spec().len() == rules@.len(),
            forall|i: int|
                0 <= i < rules@.len() ==> crate::config::same_rule(#[trigger] r.rules_spec()[i], rules@[i]),
    {
        let mut v: Vec<TranslationRule> = Vec::new();
        let mut i: usize = 0;
        while i < rules.len()
            invariant
                i <= rules@.len(),
                v@.len() == i,
                forall|j: int| 0 <= j < i ==> crate::config::same_rule(#[trigger] v@[j], rules@[j]),
            decreases rules@.len() - i,
        {
            v.push(rules[i].clone());
            i = i + 1;
        }
        let rule_map = Router::build_index(&v);
        Router { rules: v, rule_map }
    }

    /// Rebuilds the index after the rules changed.
    fn rebuild_rule_map(&mut self)
        ensures
            final(self).wf(),
            final(self).rules@ == old(self).rules@,
    {
        self.rule_map = Router::build_index(&self.rules);
    }

    /// Whether `message` meets `rule`'s filter.
    fn matches_filter(&self, message: &CommonMessage, rule: &TranslationRule) -> (r: bool)
        ensures
            r == filter_matches(rule.filter, *message),
    {
        if rule.filter.is_empty() {
            return true;
        }
        if let Some(v) = rule.filter.get("source_address") {
            if v.unicode_len() > 0 && !str_eq(message.metadata.source_address.as_str(), v.as_str()) {
                return false;
            }
        }
        if let Some(v) = rule.filter.get("destination_address") {
            if v.unicode_len() > 0 && !str_eq(message.metadata.destination_address.as_str(), v.as_str()) {
                return false;
            }
        }
        if let Some(v) = rule.filter.get("priority") {
            if let Some(p) = parse_u8(v.as_str()) {
                if message.priority != p {
                    return false;
                }
            }
        }
        if let Some(v) = rule.filter.get("is_command") {
            if let Some(b) = parse_bool(v.as_str()) {
                if message.metadata.is_command != b {
                    return false;
                }
            }
        }
        if let Some(v) = rule.filter.get("requires_response") {
            if let Some(b) = parse_bool(v.as_str()) {
                if message.metadata.requires_response != b {
                    return false;
                }
            }
        }
        true
    }

    /// The first rule of the index list under a key whose filter matches.
    fn first_match(&self, message: &CommonMessage, exact: bool) -> (r: Option<usize>)
        requires
            self.wf(),
            exact ==> message.target_protocol is Some,
        ensures
            r matches Some(i) ==> best(self.rules@, i as int, *message, exact),
            r is None ==> forall|j: int| !(#[trigger] candidate(self.rules@, j, *message, exact)),
    {
        let target = if exact { message.target_protocol } else { None };
        let s = slot_of(message.source_protocol, target);
        let list = &self.rule_map[s].indices;
        proof {
            let e = self.rule_map@[slot(message.source_protocol, target)];
            assert(route_list(self.rules@, message.source_protocol, target, e.indices@));
            assert forall|j: int| 0 <= j < self.rules@.len() implies (key_match(#[trigger] self.rules@[j], message.source_protocol, target) <==> (self.rules@[j].source == message.source_protocol && (exact ==> message.target_protocol == Some(self.rules@[j].target)))) by {}
        }
        let mut k: usize = 0;
        while k < list.len()
            invariant
                self.wf(),
                list@ == self.rule_map@[s as int].indices@,
                route_list(self.rules@, message.source_protocol, target, list@),
                target == (if exact { message.target_protocol } else { None }),
                exact ==> message.target_protocol is Some,
                k <= list@.len(),
                forall|m: int| 0 <= m < k ==> !filter_matches(self.rules@[#[trigger] list@[m] as int].filter, *message),
            decreases list@.len() - k,
        {
            let i = list[k];
            if self.matches_filter(message, &self.rules[i]) {
                proof {
                    assert(key_match(self.rules@[i as int], message.source_protocol, target));
                    assert(candidate(self.rules@, i as int, *message, exact));
                    assert forall|j: int| #[trigger] candidate(self.rules@, j, *message, exact) implies precedes(self.rules@, i as int, j) by {
                        assert(key_match(self.rules@[j], message.source_protocol, target));
                        let m = choose|m: int| 0 <= m < list@.len() && list@[m] == j;
                        if m < k {
                            assert(!filter_matches(self.rules@[list@[m] as int].filter, *message));
                        } else if m > k {
                            assert(strictly_precedes(self.rules@, list@[k as int] as int, list@[m] as int));
                        }
                    }
                }
                return Some(i);
            }
            k = k + 1;
        }
        proof {
            assert forall|j: int| !(#[trigger] candidate(self.rules@, j, *message, exact)) by {
                if candidate(self.rules@, j, *message, exact) {
                    assert(key_match(self.rules@[j], message.source_protocol, target));
                    let m = choose|m: int| 0 <= m < list@.len() && list@[m] == j;
                    assert(!filter_matches(self.rules@[list@[m] as int].filter, *message));
                }
            }
        }
        None
    }

    /// The index of the rule that routes `message`.
    pub fn find_rule_index(&self, message: &CommonMessage) -> (r: Result<usize, GatewayError>)
        requires
            self.wf(),
        ensures
            self_translation(*message) ==> r == Err::<usize, GatewayError>(GatewayError::InvalidRoute),
            !self_translation(*message) ==> (r is Ok <==> has_any(self.rules_spec(), *message)),
            !self_translation(*message) && !has_any(self.rules_spec(), *message) ==> r
                == Err::<usize, GatewayError>(GatewayError::NoRoute),
            r matches Ok(i) ==> routes(self.rules_spec(), i as int, *message),
    {
        if let Some(target) = message.target_protocol {
            if target == message.source_protocol {
                return Err(GatewayError::InvalidRoute);
            }
            if let Some(i) = self.first_match(message, true) {
                assert(candidate(self.rules@, i as int, *message, false));
                assert(candidate(self.rules@, i as int, *message, true));
                return Ok(i);
            }
        }
        match self.first_match(message, false) {
            Some(i) => {
                proof {
                    if has_exact(self.rules@, *message) {
                        let j = choose|j: int| #[trigger] candidate(self.rules@, j, *message, true);
                        assert(candidate(self.rules@, j, *message, true));
                    }
                }
                Ok(i)
            },
            None => {
                proof {
                    if has_any(self.rules@, *message) {
                        let j = choose|j: int| #[trigger] candidate(self.rules@, j, *message, false);
                        assert(candidate(self.rules@, j, *message, false));
                    }
                }
                Err(GatewayError::NoRoute)
            },
        }
    }

    /// The rule that routes `message`: where the message names a target, the
    /// first rule to that target in order of priority (earlier rules first
    /// among equals) whose filter matches; where none does, or no target is
    /// named, the first such rule from the message's source to any target.
    /// A message addressed to its own protocol is refused.
    pub fn find_rule(&self, message: &CommonMessage) -> (r: Result<&TranslationRule, GatewayError>)
        requires
            self.wf(),
        ensures
            self_translation(*message) ==> (r matches Err(e) && e == GatewayError::InvalidRoute),
            !self_translation(*message) ==> (r is Ok <==> has_any(self.rules_spec(), *message)),
            !self_translation(*message) && !has_any(self.rules_spec(), *message) ==> (r matches Err(e)
                && e == GatewayError::NoRoute),
            r matches Ok(rule) ==> exists|i: int|
                routes(self.rules_spec(), i, *message) && *rule == #[trigger] self.rules_spec()[i],
    {
        match self.find_rule_index(message) {
            Ok(i) => {
                let rule = &self.rules[i];
                assert(routes(self.rules@, i as int, *message) && *rule == self.rules@[i as int]);
                Ok(rule)
            },
            Err(e) => Err(e),
        }
    }

    /// Appends a rule and rebuilds the index.
    pub fn add_rule(&mut self, rule: TranslationRule)
        ensures
            final(self).wf(),
            final(self).rules_spec() == old(self).rules_spec().push(rule),
    {
        self.rules.push(rule);
        self.rebuild_rule_map();
    }

    /// Removes the first rule named `name` and rebuilds the index; fails
    /// with `NoRoute` where there is none.
    pub fn remove_rule(&mut self, name: &str) -> (r: Result<(), GatewayError>)
        requires
            old(self).wf(),
        ensures
            final(self).wf(),
            r is Ok <==> exists|i: int|
                0 <= i < old(self).rules_spec().len() && (#[trigger] old(self).rules_spec()[i]).name@ == name@,
            r matches Err(e) ==> e == GatewayError::NoRoute && final(self).rules_spec() == old(self).rules_spec(),
            r is Ok ==> exists|i: int|
                0 <= i < old(self).rules_spec().len() && old(self).rules_spec()[i].name@ == name@ && (forall|j: int|
                    0 <= j < i ==> (#[trigger] old(self).rules_spec()[j]).name@ != name@)
                    && final(self).rules_spec() == old(self).rules_spec().remove(i),
    {
        let mut i: usize = 0;
        while i < self.rules.len()
            invariant
                self.rules@ == old(self).rules@,
                *self == *old(self),
                self.wf(),
                i <= self.rules@.len(),
                forall|j: int| 0 <= j < i ==> (#[trigger] self.rules@[j]).name@ != name@,
            decreases self.rules@.len() - i,
        {
            if str_eq(self.rules[i].name.as_str(), name) {
                let ghost before = self.rules@;
                self.rules.remove(i);
                assert(self.rules@ == before.remove(i as int));
                self.rebuild_rule_map();
                return Ok(());
            }
            i = i + 1;
        }
        Err(GatewayError::NoRoute)
    }

    /// The rules in order of insertion.
    pub fn get_rules(&self) -> (r: &[TranslationRule])
        ensures
            r@ == self.rules_spec(),
    {
        self.rules.as_slice()
    }
}

} // verus!
