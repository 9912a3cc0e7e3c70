//! Reward cards: the claims a batch of messages makes, grouped by
//! campaign, the requests that claim them, and what the reward service
//! answers.

use vstd::prelude::*;
use crate::events::verify::index_or_null;
use crate::fields::strings_view;
use crate::json::{
    lemma_view_members, lemma_view_seq, members_remove, remove_member, view_members, view_seq, Json, JsonV,
};
use crate::messaging::assembly::str_member;
use crate::messaging::engine::pairs_view;
use crate::messaging::assembly::{data_value, data_value_of};
use crate::messaging::generate::{opt_str_view, GenerateContentChild};
use crate::text::{
    chars_of, contains_seq, copy_str, lemma_str_lt_asymmetric, lemma_str_lt_irreflexive, lemma_str_lt_total,
    lemma_str_lt_transitive, split_on, split_seq, str_contains, str_eq, str_less, str_lt, string_of,
};

verus! {

/// A reward claim: the customer's request, the campaign and the value.
pub type ClaimV = (Seq<char>, Seq<char>, Seq<char>);

pub open spec fn claims_view(v: Seq<(String, String, String)>) -> Seq<ClaimV> {
    v.map_values(|c: (String, String, String)| (c.0@, c.1@, c.2@))
}

/// The claim a reward card value makes: its `::`-separated request,
/// campaign and value, each empty where the value has fewer parts.
pub open spec fn claim_of(v: Seq<char>) -> ClaimV {
    let p = split_seq(v, "::"@);
    (p[0], if p.len() > 1 { p[1] } else { seq![] }, if p.len() > 2 { p[2] } else { seq![] })
}

/// The claims of the first `n` data objects for placeholder `r`; none
/// once a data object has a null value for it.
pub open spec fn claims_in_data(
    acc: Option<Seq<ClaimV>>,
    r: Seq<char>,
    data: Seq<Vec<(String, Option<String>)>>,
    n: int,
) -> Option<Seq<ClaimV>>
    decreases n,
{
    if n <= 0 {
        acc
    } else {
        match claims_in_data(acc, r, data, n - 1) {
            None => None,
            Some(cs) => match data_value(data[n - 1]@, r, 0) {
                None => Some(cs),
                Some(None) => None,
                Some(Some(v)) => Some(cs.push(claim_of(v))),
            },
        }
    }
}

/// The claims of the first `n` messages for placeholder `r`.
pub open spec fn claims_in_messages(acc: Option<Seq<ClaimV>>, r: Seq<char>, ms: Seq<GenerateContentChild>, n: int) -> Option<Seq<ClaimV>>
    decreases n,
{
    if n <= 0 {
        acc
    } else {
        claims_in_data(claims_in_messages(acc, r, ms, n - 1), r, ms[n - 1].data@, ms[n - 1].data@.len() as int)
    }
}

/// The claims for the first `n` placeholders, of which only the reward
/// card ones claim.
pub open spec fn claims_for(acc: Option<Seq<ClaimV>>, required: Seq<Seq<char>>, ms: Seq<GenerateContentChild>, n: int) -> Option<Seq<ClaimV>>
    decreases n,
{
    if n <= 0 {
        acc
    } else {
        let a = claims_for(acc, required, ms, n - 1);
        if contains_seq(required[n - 1], "rybbon_reward_card"@) {
            claims_in_messages(a, required[n - 1], ms, ms.len() as int)
        } else {
            a
        }
    }
}

/// The claims for the required data of the first `n` templates.
pub open spec fn claims_for_templates(required: Seq<Vec<String>>, ms: Seq<GenerateContentChild>, n: int) -> Option<Seq<ClaimV>>
    decreases n,
{
    if n <= 0 {
        Some(seq![])
    } else {
        claims_for(claims_for_templates(required, ms, n - 1), strings_view(required[n - 1]@), ms, required[n - 1]@.len() as int)
    }
}

fn claim_of_text(v: &str) -> (r: (String, String, String))
    ensures
        (r.0@, r.1@, r.2@) == claim_of(v@),
{
    let cs = chars_of(v);
    let parts = split_on(&cs, &[':', ':']);
    proof {
        reveal_strlit("::");
    }
    assert([':', ':']@ =~= "::"@);
    let ghost pv = parts@.map_values(|p: Vec<char>| p@);
    assert(pv[0] == parts@[0]@);
    let request = string_of(&parts[0]);
    let campaign = if parts.len() > 1 {
        assert(pv[1] == parts@[1]@);
        string_of(&parts[1])
    } else {
        String::new()
    };
    let value = if parts.len() > 2 {
        assert(pv[2] == parts@[2]@);
        string_of(&parts[2])
    } else {
        String::new()
    };
    (request, campaign, value)
}

/// The reward claims of a batch of messages: for each reward card
/// placeholder of each template's required data (`required`, template by
/// template), the value of each data object of each message that has it,
/// in that order; the error of a null value.
pub fn reward_claims(required: &Vec<Vec<String>>, messages: &Vec<GenerateContentChild>) -> (r: Result<Vec<(String, String, String)>, String>)
    ensures
        match r {
            Ok(cs) => claims_for_templates(required@, messages@, required@.len() as int) == Some(claims_view(cs@)),
            Err(e) => claims_for_templates(required@, messages@, required@.len() as int) is None
                && e@ == "AttributeError: 'NoneType' object has no attribute 'split'"@,
        },
{
    let mut acc: Vec<(String, String, String)> = Vec::new();
    let mut ok = true;
    assert(claims_view(acc@) =~= Seq::<ClaimV>::empty());
    let mut t: usize = 0;
    while t < required.len()
        invariant
            t <= required@.len(),
            claims_for_templates(required@, messages@, t as int) == (if ok { Some(claims_view(acc@)) } else { None::<Seq<ClaimV>> }),
        decreases required@.len() - t,
    {
        let rs = &required[t];
        let ghost start = if ok { Some(claims_view(acc@)) } else { None::<Seq<ClaimV>> };
        let mut k: usize = 0;
        while k < rs.len()
            invariant
                k <= rs@.len(),
                claims_for(start, strings_view(rs@), messages@, k as int) == (if ok { Some(claims_view(acc@)) } else { None::<Seq<ClaimV>> }),
            decreases rs@.len() - k,
        {
            let r = rs[k].as_str();
            assert(strings_view(rs@)[k as int] == r@);
            if str_contains(r, "rybbon_reward_card") {
                let ghost s1 = if ok { Some(claims_view(acc@)) } else { None::<Seq<ClaimV>> };
                let mut m: usize = 0;
                while m < messages.len()
                    invariant
                        m <= messages@.len(),
                        claims_in_messages(s1, r@, messages@, m as int) == (if ok { Some(claims_view(acc@)) } else { None::<Seq<ClaimV>> }),
                    decreases messages@.len() - m,
                {
                    let data = &messages[m].data;
                    let ghost s2 = if ok { Some(claims_view(acc@)) } else { None::<Seq<ClaimV>> };
                    let mut j: usize = 0;
                    while j < data.len()
                        invariant
                            j <= data@.len(),
                            data == messages@[m as int].data,
                            claims_in_data(s2, r@, data@, j as int) == (if ok { Some(claims_view(acc@)) } else { None::<Seq<ClaimV>> }),
                        decreases data@.len() - j,
                    {
                        if ok {
                            match data_value_of(&data[j], r) {
                                Some(Some(v)) => {
                                    let c = claim_of_text(v.as_str());
                                    let ghost before = acc@;
                                    acc.push(c);
                                    assert(claims_view(acc@) =~= claims_view(before).push(claim_of(v@)));
                                },
                                Some(None) => {
                                    ok = false;
                                },
                                None => {},
                            }
                        }
                        j = j + 1;
                    }
                    m = m + 1;
                }
            }
            k = k + 1;
        }
        t = t + 1;
    }
    if ok {
        Ok(acc)
    } else {
        Err(copy_str("AttributeError: 'NoneType' object has no attribute 'split'"))
    }
}

/// The claims (of the first `n`) of campaign `k`, in order.
pub open spec fn with_key(cs: Seq<ClaimV>, k: Seq<char>, n: int) -> Seq<ClaimV>
    decreases n,
{
    if n <= 0 {
        seq![]
    } else if cs[n - 1].1 == k {
        with_key(cs, k, n - 1).push(cs[n - 1])
    } else {
        with_key(cs, k, n - 1)
    }
}

/// The campaign of a group: that of its first claim.
pub open spec fn group_key(gs: Seq<Seq<ClaimV>>, i: int) -> Seq<char> {
    gs[i][0].1
}

pub open spec fn groups_view(gs: Seq<Vec<(String, String, String)>>) -> Seq<Seq<ClaimV>> {
    gs.map_values(|g: Vec<(String, String, String)>| claims_view(g@))
}

/// Some group is that of campaign `k`.
pub open spec fn has_group(gs: Seq<Seq<ClaimV>>, k: Seq<char>) -> bool {
    exists|i: int| 0 <= i < gs.len() && #[trigger] group_key(gs, i) == k
}

/// `gs` are the claims `cs` grouped by campaign: a group for each campaign
/// of the claims, the groups in the order of their campaigns, each group the
/// claims of its campaign in their order.
pub open spec fn grouped_by_campaign(cs: Seq<ClaimV>, gs: Seq<Seq<ClaimV>>) -> bool {
    &&& forall|i: int| #![trigger gs[i]] 0 <= i < gs.len() ==> gs[i].len() > 0 && gs[i] == with_key(cs, group_key(gs, i), cs.len() as int)
    &&& forall|i: int, j: int| 0 <= i < j < gs.len() ==> str_lt(#[trigger] group_key(gs, i), #[trigger] group_key(gs, j))
    &&& forall|c: int| 0 <= c < cs.len() ==> #[trigger] has_group(gs, cs[c].1)
}

/// Campaign `k` comes after the campaign `last` (or there is none yet).
pub open spec fn after(k: Seq<char>, last: Option<Seq<char>>) -> bool {
    match last {
        None => true,
        Some(l) => str_lt(l, k),
    }
}

/// The number of the first `n` claims whose campaign is `last` or comes
/// before it.
pub open spec fn count_upto(cs: Seq<ClaimV>, last: Option<Seq<char>>, n: int) -> int
    decreases n,
{
    if n <= 0 {
        0
    } else {
        count_upto(cs, last, n - 1) + (if last is Some && !after(cs[n - 1].1, last) { 1int } else { 0int })
    }
}

proof fn lemma_count_bounds(cs: Seq<ClaimV>, last: Option<Seq<char>>, n: int)
    requires
        0 <= n,
    ensures
        0 <= count_upto(cs, last, n) <= n,
    decreases n,
{
    if n > 0 {
        lemma_count_bounds(cs, last, n - 1);
    }
}

proof fn lemma_count_grows(cs: Seq<ClaimV>, last: Option<Seq<char>>, k: Seq<char>, b: int, n: int)
    requires
        0 <= n,
        0 <= b < cs.len(),
        cs[b].1 == k,
        after(k, last),
    ensures
        count_upto(cs, Some(k), n) >= count_upto(cs, last, n) + (if b < n { 1int } else { 0int }),
    decreases n,
{
    if n > 0 {
        lemma_count_grows(cs, last, k, b, n - 1);
        let x = cs[n - 1].1;
        if last is Some && !after(x, last) {
            let l = last->0;
            lemma_str_lt_total(x, l);
            if str_lt(k, x) {
                if x == l {
                    lemma_str_lt_asymmetric(l, k);
                } else {
                    lemma_str_lt_transitive(k, x, l);
                    lemma_str_lt_asymmetric(l, k);
                }
            }
            lemma_str_lt_total(k, x);
            if x != k {
                if str_lt(x, l) {
                    lemma_str_lt_transitive(x, l, k);
                }
            }
        }
        if n - 1 == b {
            lemma_str_lt_irreflexive(k);
        }
    }
}

proof fn lemma_with_key_nonempty(cs: Seq<ClaimV>, k: Seq<char>, b: int, n: int)
    requires
        0 <= b < n <= cs.len(),
        cs[b].1 == k,
    ensures
        with_key(cs, k, n).len() > 0,
        with_key(cs, k, n)[0].1 == k,
    decreases n,
{
    lemma_with_key_keys(cs, k, n);
    if b < n - 1 {
        lemma_with_key_nonempty(cs, k, b, n - 1);
    }
    assert(with_key(cs, k, n).len() > 0);
}

proof fn lemma_with_key_keys(cs: Seq<ClaimV>, k: Seq<char>, n: int)
    requires
        0 <= n <= cs.len(),
    ensures
        forall|q: int| 0 <= q < with_key(cs, k, n).len() ==> (#[trigger] with_key(cs, k, n)[q]).1 == k,
    decreases n,
{
    if n > 0 {
        lemma_with_key_keys(cs, k, n - 1);
        let a = with_key(cs, k, n - 1);
        assert forall|q: int| 0 <= q < with_key(cs, k, n).len() implies (#[trigger] with_key(cs, k, n)[q]).1 == k by {
            if q < a.len() {
                assert(with_key(cs, k, n)[q] == a[q]);
            }
        }
    }
}

fn copy_claim(c: &(String, String, String)) -> (r: (String, String, String))
    ensures
        (r.0@, r.1@, r.2@) == (c.0@, c.1@, c.2@),
{
    (copy_str(c.0.as_str()), copy_str(c.1.as_str()), copy_str(c.2.as_str()))
}

fn claims_with(claims: &Vec<(String, String, String)>, key: &str) -> (r: Vec<(String, String, String)>)
    ensures
        claims_view(r@) == with_key(claims_view(claims@), key@, claims@.len() as int),
{
    let ghost cv = claims_view(claims@);
    let mut out: Vec<(String, String, String)> = Vec::new();
    assert(claims_view(out@) =~= Seq::<ClaimV>::empty());
    let mut i: usize = 0;
    while i < claims.len()
        invariant
            i <= claims@.len(),
            cv == claims_view(claims@),
            claims_view(out@) == with_key(cv, key@, i as int),
        decreases claims@.len() - i,
    {
        assert(cv[i as int] == (claims@[i as int].0@, claims@[i as int].1@, claims@[i as int].2@));
        if str_eq(claims[i].1.as_str(), key) {
            let ghost before = out@;
            out.push(copy_claim(&claims[i]));
            assert(claims_view(out@) =~= claims_view(before).push(cv[i as int]));
        }
        i = i + 1;
    }
    out
}

/// The index of the claim with the least campaign after `last`, the first
/// of them; none where no campaign comes after `last`.
fn least_after(claims: &Vec<(String, String, String)>, last: &Option<String>) -> (r: Option<usize>)
    ensures
        ({
            let cv = claims_view(claims@);
            let lv = opt_str_view(*last);
            match r {
                None => forall|j: int| 0 <= j < cv.len() ==> !after(#[trigger] cv[j].1, lv),
                Some(b) => b < cv.len() && after(cv[b as int].1, lv) && forall|j: int|
                    0 <= j < cv.len() && after(#[trigger] cv[j].1, lv) ==> cv[j].1 == cv[b as int].1 || str_lt(cv[b as int].1, cv[j].1),
            }
        }),
{
    let ghost cv = claims_view(claims@);
    let ghost lv = opt_str_view(*last);
    let mut best: Option<usize> = None;
    let mut i: usize = 0;
    while i < claims.len()
        invariant
            i <= claims@.len(),
            cv == claims_view(claims@),
            lv == opt_str_view(*last),
            match best {
                None => forall|j: int| 0 <= j < i ==> !after(#[trigger] cv[j].1, lv),
                Some(b) => b < i && after(cv[b as int].1, lv) && forall|j: int|
                    0 <= j < i && after(#[trigger] cv[j].1, lv) ==> cv[j].1 == cv[b as int].1 || str_lt(cv[b as int].1, cv[j].1),
            },
        decreases claims@.len() - i,
    {
        assert(cv[i as int] == (claims@[i as int].0@, claims@[i as int].1@, claims@[i as int].2@));
        let k = claims[i].1.as_str();
        let is_after = match last {
            None => true,
            Some(l) => str_less(l.as_str(), k),
        };
        if is_after {
            match best {
                None => {
                    best = Some(i);
                },
                Some(b) => {
                    assert(cv[b as int] == (claims@[b as int].0@, claims@[b as int].1@, claims@[b as int].2@));
                    if str_less(k, claims[b].1.as_str()) {
                        proof {
                            assert forall|j: int| 0 <= j < i + 1 && after(#[trigger] cv[j].1, lv) implies cv[j].1 == k@ || str_lt(k@, cv[j].1) by {
                                if j < i {
                                    if cv[j].1 != cv[b as int].1 {
                                        lemma_str_lt_transitive(k@, cv[b as int].1, cv[j].1);
                                    }
                                }
                            }
                        }
                        best = Some(i);
                    } else {
                        proof {
                            lemma_str_lt_total(k@, cv[b as int].1);
                        }
                    }
                },
            }
        }
        i = i + 1;
    }
    best
}

/// Groups reward claims by campaign, the groups in the order of their
/// campaigns (the claims sorted by campaign, then each run of one campaign
/// taken as a group).
pub fn group_claims(claims: &Vec<(String, String, String)>) -> (groups: Vec<Vec<(String, String, String)>>)
    ensures
        grouped_by_campaign(claims_view(claims@), groups_view(groups@)),
{
    let ghost cv = claims_view(claims@);
    let ghost n = claims@.len() as int;
    let mut groups: Vec<Vec<(String, String, String)>> = Vec::new();
    let mut last: Option<String> = None;
    let mut searching = true;
    proof {
        lemma_count_bounds(cv, None, n);
    }
    while searching
        invariant
            cv == claims_view(claims@),
            n == claims@.len(),
            forall|i: int| #![trigger groups_view(groups@)[i]] 0 <= i < groups_view(groups@).len() ==> groups_view(groups@)[i].len() > 0 && groups_view(groups@)[i] == with_key(cv, group_key(groups_view(groups@), i), n),
            forall|i: int, j: int| 0 <= i < j < groups_view(groups@).len() ==> str_lt(#[trigger] group_key(groups_view(groups@), i), #[trigger] group_key(groups_view(groups@), j)),
            opt_str_view(last) is None <==> groups@.len() == 0,
            groups@.len() > 0 ==> opt_str_view(last) == Some(group_key(groups_view(groups@), groups@.len() - 1)),
            forall|c: int| 0 <= c < n && opt_str_view(last) is Some && !after(#[trigger] cv[c].1, opt_str_view(last)) ==> has_group(groups_view(groups@), cv[c].1),
            !searching ==> forall|c: int| 0 <= c < n ==> !after(#[trigger] cv[c].1, opt_str_view(last)),
            0 <= count_upto(cv, opt_str_view(last), n) <= n,
        decreases n - count_upto(cv, opt_str_view(last), n) + (if searching { 1int } else { 0int }),
    {
        let ghost gs0 = groups_view(groups@);
        let ghost lv0 = opt_str_view(last);
        match least_after(claims, &last) {
            None => {
                searching = false;
            },
            Some(b) => {
                assert(cv[b as int] == (claims@[b as int].0@, claims@[b as int].1@, claims@[b as int].2@));
                let key = copy_str(claims[b].1.as_str());
                let group = claims_with(claims, key.as_str());
                proof {
                    lemma_with_key_nonempty(cv, key@, b as int, n);
                    lemma_count_grows(cv, lv0, key@, b as int, n);
                    lemma_count_bounds(cv, Some(key@), n);
                }
                let ghost gv = claims_view(group@);
                groups.push(group);
                let ghost gs = groups_view(groups@);
                assert(gs =~= gs0.push(gv));
                assert(group_key(gs, gs.len() - 1) == key@);
                assert forall|i: int| #![trigger gs[i]] 0 <= i < gs.len() implies gs[i].len() > 0 && gs[i] == with_key(cv, group_key(gs, i), n) by {
                    if i < gs0.len() {
                        assert(gs[i] == gs0[i]);
                        assert(group_key(gs, i) == group_key(gs0, i));
                    } else {
                        assert(gs[i] == gv);
                    }
                }
                assert forall|i: int, j: int| 0 <= i < j < gs.len() implies str_lt(#[trigger] group_key(gs, i), #[trigger] group_key(gs, j)) by {
                    if j == gs.len() - 1 {
                        assert(group_key(gs, i) == group_key(gs0, i));
                        if i < gs0.len() - 1 {
                            lemma_str_lt_transitive(group_key(gs0, i), group_key(gs0, gs0.len() - 1), key@);
                        }
                    } else {
                        assert(group_key(gs, i) == group_key(gs0, i));
                        assert(group_key(gs, j) == group_key(gs0, j));
                    }
                }
                assert forall|c: int| 0 <= c < n && !after(#[trigger] cv[c].1, Some(key@)) implies has_group(gs, cv[c].1) by {
                    let x = cv[c].1;
                    if lv0 is Some && !after(x, lv0) {
                        assert(has_group(gs0, x));
                        let i = choose|i: int| 0 <= i < gs0.len() && #[trigger] group_key(gs0, i) == x;
                        assert(group_key(gs, i) == group_key(gs0, i));
                    } else {
                        if lv0 is Some {
                            lemma_str_lt_total(x, lv0->0);
                        }
                        assert(after(x, lv0));
                        lemma_str_lt_total(x, key@);
                        if x != key@ {
                            assert(str_lt(key@, x));
                            lemma_str_lt_asymmetric(key@, x);
                        }
                        assert(group_key(gs, gs.len() - 1) == x);
                    }
                }
                last = Some(key);
                assert(opt_str_view(last) == Some(key@));
                assert(0 <= count_upto(cv, Some(key@), n) <= n);
            },
        }
    }
    proof {
        let gs = groups_view(groups@);
        let lv = opt_str_view(last);
        assert forall|i: int| #![trigger gs[i]] 0 <= i < gs.len() implies gs[i].len() > 0 && gs[i] == with_key(cv, group_key(gs, i), n) by {
            assert(group_key(gs, i) == group_key(gs, i));
        }
        assert forall|c: int| 0 <= c < cv.len() implies #[trigger] has_group(gs, cv[c].1) by {
            assert(!after(cv[c].1, lv));
            lemma_str_lt_total(cv[c].1, lv->0);
        }
        assert(cv.len() == n);
    }
    groups
}

/// Some campaign of the reward service has key `k`.
pub open spec fn campaign_listed(campaigns: Seq<JsonV>, k: Seq<char>) -> bool {
    exists|i: int| 0 <= i < campaigns.len() && #[trigger] str_member(campaigns[i], "campaignKey"@) == Some(k)
}

/// A claim as the reward service reads it; `active` where its campaign is
/// open, never marked as exceeding the campaign's rewards.
pub open spec fn claim_json(c: ClaimV, active: bool) -> JsonV {
    JsonV::Obj(seq![
        ("requestId"@, JsonV::Str(c.0)),
        ("campaignKey"@, JsonV::Str(c.1)),
        ("value"@, JsonV::Str(c.2)),
        ("active"@, JsonV::Bool(active)),
        ("exceeded"@, JsonV::Bool(false)),
    ])
}

/// The claims of a group as the reward service reads them: all active
/// where the group's campaign is open.
pub open spec fn group_json(g: Seq<ClaimV>, campaigns: Seq<JsonV>) -> Seq<JsonV> {
    g.map_values(|c: ClaimV| claim_json(c, g.len() > 0 && campaign_listed(campaigns, g[0].1)))
}

pub open spec fn nested_view(v: Seq<Vec<Json>>) -> Seq<Seq<JsonV>> {
    v.map_values(|g: Vec<Json>| view_seq(g@))
}

fn campaign_is_listed(campaigns: &Vec<Json>, k: &str) -> (r: bool)
    ensures
        r == campaign_listed(view_seq(campaigns@), k@),
{
    proof {
        lemma_view_seq(campaigns@);
    }
    let ghost cv = view_seq(campaigns@);
    let mut i: usize = 0;
    while i < campaigns.len()
        invariant
            i <= campaigns@.len(),
            cv == view_seq(campaigns@),
            cv.len() == campaigns@.len(),
            forall|j: int| 0 <= j < campaigns@.len() ==> #[trigger] cv[j] == campaigns@[j]@,
            forall|j: int| 0 <= j < i ==> str_member(#[trigger] cv[j], "campaignKey"@) != Some(k@),
        decreases campaigns@.len() - i,
    {
        assert(cv[i as int] == campaigns@[i as int]@);
        let hit = match campaigns[i].get("campaignKey") {
            Some(Json::Str(s)) => crate::text::str_eq(s.as_str(), k),
            _ => false,
        };
        if hit {
            return true;
        }
        i = i + 1;
    }
    false
}

fn claim_to_json(c: &(String, String, String), active: bool) -> (r: Json)
    ensures
        r@ == claim_json((c.0@, c.1@, c.2@), active),
{
    let mut m: Vec<(String, Json)> = Vec::new();
    m.push((copy_str("requestId"), Json::Str(copy_str(c.0.as_str()))));
    m.push((copy_str("campaignKey"), Json::Str(copy_str(c.1.as_str()))));
    m.push((copy_str("value"), Json::Str(copy_str(c.2.as_str()))));
    m.push((copy_str("active"), Json::Bool(active)));
    m.push((copy_str("exceeded"), Json::Bool(false)));
    proof {
        lemma_view_members(m@);
    }
    assert(view_members(m@) =~= claim_json((c.0@, c.1@, c.2@), active)->Obj_0);
    Json::Object(m)
}

/// The claim groups as the reward service reads them, each group active
/// where some campaign of the service has its key.
pub fn claim_groups_json(groups: &Vec<Vec<(String, String, String)>>, campaigns: &Vec<Json>) -> (r: Vec<Vec<Json>>)
    ensures
        nested_view(r@) == groups_view(groups@).map_values(|g: Seq<ClaimV>| group_json(g, view_seq(campaigns@))),
{
    let ghost cv = view_seq(campaigns@);
    let ghost want = groups_view(groups@).map_values(|g: Seq<ClaimV>| group_json(g, cv));
    let mut out: Vec<Vec<Json>> = Vec::new();
    let mut i: usize = 0;
    while i < groups.len()
        invariant
            i <= groups@.len(),
            cv == view_seq(campaigns@),
            want == groups_view(groups@).map_values(|g: Seq<ClaimV>| group_json(g, cv)),
            nested_view(out@) =~= want.take(i as int),
        decreases groups@.len() - i,
    {
        let g = &groups[i];
        let ghost gv = claims_view(g@);
        assert(groups_view(groups@)[i as int] == gv);
        let active = if g.len() > 0 {
            assert(gv[0] == (g@[0].0@, g@[0].1@, g@[0].2@));
            campaign_is_listed(campaigns, g[0].1.as_str())
        } else {
            false
        };
        let mut jg: Vec<Json> = Vec::new();
        let mut j: usize = 0;
        while j < g.len()
            invariant
                j <= g@.len(),
                gv == claims_view(g@),
                active == (gv.len() > 0 && campaign_listed(cv, gv[0].1)),
                jg@.len() == j,
                forall|q: int| 0 <= q < j ==> (#[trigger] jg@[q])@ == claim_json(gv[q], active),
            decreases g@.len() - j,
        {
            assert(gv[j as int] == (g@[j as int].0@, g@[j as int].1@, g@[j as int].2@));
            jg.push(claim_to_json(&g[j], active));
            j = j + 1;
        }
        proof {
            lemma_view_seq(jg@);
        }
        assert(view_seq(jg@) =~= group_json(gv, cv));
        let ghost before = out@;
        out.push(jg);
        assert(nested_view(out@) =~= nested_view(before).push(view_seq(out@[i as int]@)));
        assert(want.take(i + 1) =~= want.take(i as int).push(want[i as int]));
        i = i + 1;
    }
    assert(want.take(groups@.len() as int) =~= want);
    out
}

/// A claim the reward service is asked for: active and not exceeding.
pub open spec fn claim_valid(c: JsonV) -> bool {
    index_or_null(c, "active"@) == JsonV::Bool(true) && index_or_null(c, "exceeded"@) == JsonV::Bool(false)
}

/// A claim as sent: without its bookkeeping members.
pub open spec fn claim_cleaned(c: JsonV) -> JsonV {
    match c {
        JsonV::Obj(m) => JsonV::Obj(members_remove(members_remove(members_remove(m, "active"@), "exceeded"@), "campaignKey"@)),
        other => other,
    }
}

/// The valid claims of the first `n` of a group, cleaned.
pub open spec fn valid_claims(g: Seq<JsonV>, n: int) -> Seq<JsonV>
    decreases n,
{
    if n <= 0 {
        seq![]
    } else if claim_valid(g[n - 1]) {
        valid_claims(g, n - 1).push(claim_cleaned(g[n - 1]))
    } else {
        valid_claims(g, n - 1)
    }
}

/// The most claims of one request.
pub open spec fn claims_per_request() -> int {
    100
}

/// The chunks of at most a hundred claims, from `s` on.
pub open spec fn chunks_from(vs: Seq<JsonV>, s: int) -> Seq<Seq<JsonV>>
    decreases vs.len() - s,
{
    if s < 0 || s >= vs.len() {
        seq![]
    } else {
        let e = if s + claims_per_request() < vs.len() { s + claims_per_request() } else { vs.len() as int };
        seq![vs.subrange(s, e)] + chunks_from(vs, e)
    }
}

/// The body of a claim request.
pub open spec fn claim_request(key: JsonV, chunk: Seq<JsonV>) -> JsonV {
    JsonV::Obj(seq![("campaignKey"@, key), ("rewardClaims"@, JsonV::Arr(chunk))])
}

/// The requests that claim a group's rewards: its valid claims, a hundred
/// at a time, under the campaign of its first claim; none for an empty
/// group or one without valid claims.
pub open spec fn group_requests(g: Seq<JsonV>) -> Seq<JsonV> {
    if g.len() == 0 {
        seq![]
    } else {
        chunks_from(valid_claims(g, g.len() as int), 0).map_values(
            |ch: Seq<JsonV>| claim_request(index_or_null(g[0], "campaignKey"@), ch),
        )
    }
}

/// The requests for the first `n` groups, in order.
pub open spec fn requests_upto(gs: Seq<Seq<JsonV>>, n: int) -> Seq<JsonV>
    decreases n,
{
    if n <= 0 {
        seq![]
    } else {
        requests_upto(gs, n - 1) + group_requests(gs[n - 1])
    }
}

fn cleaned_claim(c: &Json) -> (r: Json)
    ensures
        r@ == claim_cleaned(c@),
{
    match c {
        Json::Object(m) => {
            let mut mm = crate::json::clone_members(m);
            remove_member(&mut mm, "active");
            remove_member(&mut mm, "exceeded");
            remove_member(&mut mm, "campaignKey");
            Json::Object(mm)
        },
        _ => c.deep_clone(),
    }
}

fn valid_claims_of(g: &Vec<Json>) -> (r: Vec<Json>)
    ensures
        view_seq(r@) == valid_claims(view_seq(g@), g@.len() as int),
{
    proof {
        lemma_view_seq(g@);
    }
    let ghost gv = view_seq(g@);
    let mut out: Vec<Json> = Vec::new();
    proof {
        lemma_view_seq(out@);
    }
    let mut i: usize = 0;
    while i < g.len()
        invariant
            i <= g@.len(),
            gv == view_seq(g@),
            gv.len() == g@.len(),
            forall|j: int| 0 <= j < g@.len() ==> #[trigger] gv[j] == g@[j]@,
            view_seq(out@) == valid_claims(gv, i as int),
        decreases g@.len() - i,
    {
        assert(gv[i as int] == g@[i as int]@);
        let active = match g[i].get("active") {
            Some(Json::Bool(b)) => *b,
            _ => false,
        };
        let not_exceeded = match g[i].get("exceeded") {
            Some(Json::Bool(b)) => !*b,
            _ => false,
        };
        if active && not_exceeded {
            let ghost before = out@;
            out.push(cleaned_claim(&g[i]));
            proof {
                lemma_view_seq(before);
                lemma_view_seq(out@);
                assert(view_seq(out@) =~= view_seq(before).push(out@.last()@));
            }
        }
        i = i + 1;
    }
    out
}

fn chunk_request(key: &Json, vs: &Vec<Json>, s: usize, e: usize) -> (r: Json)
    requires
        s <= e <= vs@.len(),
    ensures
        r@ == claim_request(key@, view_seq(vs@).subrange(s as int, e as int)),
{
    proof {
        lemma_view_seq(vs@);
    }
    let mut chunk: Vec<Json> = Vec::new();
    let mut k: usize = s;
    while k < e
        invariant
            s <= k <= e <= vs@.len(),
            chunk@.len() == k - s,
            forall|q: int| 0 <= q < k - s ==> (#[trigger] chunk@[q])@ == vs@[s + q]@,
        decreases e - k,
    {
        chunk.push(vs[k].deep_clone());
        k = k + 1;
    }
    proof {
        lemma_view_seq(chunk@);
        lemma_view_seq(vs@);
    }
    assert(view_seq(chunk@) =~= view_seq(vs@).subrange(s as int, e as int));
    let mut m: Vec<(String, Json)> = Vec::new();
    m.push((copy_str("campaignKey"), key.deep_clone()));
    m.push((copy_str("rewardClaims"), Json::Array(chunk)));
    proof {
        lemma_view_members(m@);
    }
    assert(view_members(m@) =~= claim_request(key@, view_seq(vs@).subrange(s as int, e as int))->Obj_0);
    Json::Object(m)
}

/// The bodies of the requests that claim the rewards of the claim groups,
/// group by group.
pub fn claim_requests(groups: &Vec<Vec<Json>>) -> (r: Vec<Json>)
    ensures
        view_seq(r@) == requests_upto(nested_view(groups@), groups@.len() as int),
{
    let ghost gs = nested_view(groups@);
    let mut out: Vec<Json> = Vec::new();
    proof {
        lemma_view_seq(out@);
    }
    let mut i: usize = 0;
    while i < groups.len()
        invariant
            i <= groups@.len(),
            gs == nested_view(groups@),
            view_seq(out@) == requests_upto(gs, i as int),
        decreases groups@.len() - i,
    {
        let g = &groups[i];
        assert(gs[i as int] == view_seq(g@));
        if g.len() > 0 {
            proof {
                lemma_view_seq(g@);
            }
            let key = match g[0].get("campaignKey") {
                Some(k) => k.deep_clone(),
                None => Json::Null,
            };
            assert(key@ == index_or_null(view_seq(g@)[0], "campaignKey"@));
            let valid = valid_claims_of(g);
            proof {
                lemma_view_seq(valid@);
            }
            let ghost vv = view_seq(valid@);
            let ghost base = view_seq(out@);
            let mut s: usize = 0;
            while s < valid.len()
                invariant
                    s <= valid@.len(),
                    vv == view_seq(valid@),
                    vv.len() == valid@.len(),
                    view_seq(out@) + chunks_from(vv, s as int).map_values(|ch: Seq<JsonV>| claim_request(key@, ch))
                        == base + chunks_from(vv, 0).map_values(|ch: Seq<JsonV>| claim_request(key@, ch)),
                decreases valid@.len() - s,
            {
                let e: usize = if valid.len() - s > 100 { s + 100 } else { valid.len() };
                let req = chunk_request(&key, &valid, s, e);
                let ghost before = out@;
                out.push(req);
                proof {
                    lemma_view_seq(before);
                    lemma_view_seq(out@);
                    assert(view_seq(out@) =~= view_seq(before).push(req@));
                    let f = |ch: Seq<JsonV>| claim_request(key@, ch);
                    assert(chunks_from(vv, s as int) == seq![vv.subrange(s as int, e as int)] + chunks_from(vv, e as int));
                    assert(chunks_from(vv, s as int).map_values(f) =~= seq![f(vv.subrange(s as int, e as int))] + chunks_from(vv, e as int).map_values(f));
                    assert(view_seq(before) + chunks_from(vv, s as int).map_values(f) =~= view_seq(out@) + chunks_from(vv, e as int).map_values(f));
                }
                s = e;
            }
            proof {
                assert(chunks_from(vv, s as int) =~= Seq::<Seq<JsonV>>::empty());
                assert(chunks_from(vv, s as int).map_values(|ch: Seq<JsonV>| claim_request(key@, ch)) =~= Seq::<JsonV>::empty());
                assert(view_seq(out@) =~= base + group_requests(gs[i as int]));
            }
        } else {
            assert(group_requests(gs[i as int]) =~= Seq::<JsonV>::empty());
            assert(view_seq(out@) + Seq::<JsonV>::empty() =~= view_seq(out@));
        }
        i = i + 1;
    }
    out
}

/// The `application/x-www-form-urlencoded` serialization of name-value
/// pairs, joined with `&`.
pub uninterp spec fn form_urlencoded_text(pairs: Seq<(Seq<char>, Seq<char>)>) -> Seq<char>;

/// `url::form_urlencoded::Serializer` over a new `String`, the pairs added
/// with `extend_pairs`, then `finish`: the body it gives back is taken to
/// be `form_urlencoded_text` of the pairs, a function of them alone.
#[verifier::external_body]
fn form_urlencoded(pairs: &Vec<(String, String)>) -> (r: String)
    ensures
        r@ == form_urlencoded_text(pairs_view(pairs@)),
{
    url::form_urlencoded::Serializer::new(String::new()).extend_pairs(pairs.iter()).finish()
}

/// The form body of the reward service's token request: the client
/// credentials grant of client `client_id`.
pub fn token_request_body(client_id: &str) -> (r: String)
    ensures
        r@ == form_urlencoded_text(seq![("grant_type"@, "client_credentials"@), ("client_id"@, client_id@)]),
{
    let mut pairs: Vec<(String, String)> = Vec::new();
    pairs.push((copy_str("grant_type"), copy_str("client_credentials")));
    pairs.push((copy_str("client_id"), copy_str(client_id)));
    assert(pairs_view(pairs@) =~= seq![("grant_type"@, "client_credentials"@), ("client_id"@, client_id@)]);
    form_urlencoded(&pairs)
}

/// A reply of the reward service read as JSON, or the parser's error.
pub open spec fn parsed_view(parsed: Result<Json, String>) -> Result<JsonV, Seq<char>> {
    match parsed {
        Ok(j) => Ok(j@),
        Err(e) => Err(e@),
    }
}

/// The access token of the token reply.
pub open spec fn token_of(parsed: Result<JsonV, Seq<char>>) -> Result<Seq<char>, Seq<char>> {
    match parsed {
        Err(e) => Err("rybbon auth response not JSON: "@ + e),
        Ok(p) => match str_member(p, "access_token"@) {
            Some(t) => Ok(t),
            None => Err("rybbon auth response missing 'access_token'"@),
        },
    }
}

/// Reads the access token of the token reply.
pub fn access_token(parsed: Result<Json, String>) -> (r: Result<String, String>)
    ensures
        match r {
            Ok(t) => token_of(parsed_view(parsed)) == Ok::<Seq<char>, Seq<char>>(t@),
            Err(e) => token_of(parsed_view(parsed)) == Err::<Seq<char>, Seq<char>>(e@),
        },
{
    match parsed {
        Err(e) => Err(crate::text::concat2("rybbon auth response not JSON: ", e.as_str())),
        Ok(p) => match p.get("access_token") {
            Some(Json::Str(t)) => Ok(copy_str(t.as_str())),
            _ => Err(copy_str("rybbon auth response missing 'access_token'")),
        },
    }
}

/// The most campaigns of one page.
pub open spec fn campaigns_per_page() -> int {
    1000
}

/// A page of campaigns: none and no more pages after a reply that is not
/// a success; the campaigns of the reply, and whether a full page asks
/// for the next; the error of a reply without them.
pub open spec fn campaign_page_of(status: int, parsed: Result<JsonV, Seq<char>>) -> Result<(Seq<JsonV>, bool), Seq<char>> {
    if !(200 <= status < 300) {
        Ok((seq![], false))
    } else {
        match parsed {
            Err(e) => Err("rybbon campaigns response not JSON: "@ + e),
            Ok(p) => match index_or_null(index_or_null(p, "result"@), "campaign"@) {
                JsonV::Arr(page) => Ok((page, page.len() >= campaigns_per_page())),
                _ => Err("rybbon campaigns response missing 'result.campaign'"@),
            },
        }
    }
}

/// Reads a page of campaigns.
pub fn campaign_page(status: u16, parsed: Result<Json, String>) -> (r: Result<(Vec<Json>, bool), String>)
    ensures
        match r {
            Ok((page, more)) => campaign_page_of(status as int, parsed_view(parsed)) == Ok::<(Seq<JsonV>, bool), Seq<char>>((view_seq(page@), more)),
            Err(e) => campaign_page_of(status as int, parsed_view(parsed)) == Err::<(Seq<JsonV>, bool), Seq<char>>(e@),
        },
{
    if !(200 <= status && status < 300) {
        let v: Vec<Json> = Vec::new();
        proof {
            lemma_view_seq(v@);
        }
        assert(view_seq(v@) =~= Seq::<JsonV>::empty());
        return Ok((v, false));
    }
    match parsed {
        Err(e) => Err(crate::text::concat2("rybbon campaigns response not JSON: ", e.as_str())),
        Ok(p) => {
            let result = match p.get("result") {
                Some(x) => x,
                None => return Err(copy_str("rybbon campaigns response missing 'result.campaign'")),
            };
            match result.get("campaign") {
                Some(Json::Array(items)) => {
                    proof {
                        lemma_view_seq(items@);
                    }
                    let mut page: Vec<Json> = Vec::new();
                    let mut k: usize = 0;
                    while k < items.len()
                        invariant
                            k <= items@.len(),
                            page@.len() == k,
                            forall|q: int| 0 <= q < k ==> (#[trigger] page@[q])@ == items@[q]@,
                        decreases items@.len() - k,
                    {
                        page.push(items[k].deep_clone());
                        k = k + 1;
                    }
                    proof {
                        lemma_view_seq(page@);
                    }
                    assert(view_seq(page@) =~= view_seq(items@));
                    let more = page.len() >= 1000;
                    Ok((page, more))
                },
                _ => Err(copy_str("rybbon campaigns response missing 'result.campaign'")),
            }
        },
    }
}

/// The rewards a claim reply grants: its `result` when it both succeeded
/// and had rewards available, else none; the error of a reply that does
/// not say both.
pub open spec fn rewards_of(parsed: Result<JsonV, Seq<char>>) -> Result<Seq<JsonV>, Seq<char>> {
    match parsed {
        Err(e) => Err("rybbon claim response not JSON: "@ + e),
        Ok(p) => match p.get("success"@) {
            None => Err("rybbon claim response missing 'success'"@),
            Some(ok) => match p.get("rewardAvailable"@) {
                None => Err("rybbon claim response missing 'rewardAvailable'"@),
                Some(avail) => if ok != JsonV::Bool(true) || avail != JsonV::Bool(true) {
                    Ok(seq![])
                } else {
                    match p.get("result"@) {
                        Some(JsonV::Arr(rs)) => Ok(rs),
                        _ => Ok(seq![]),
                    }
                },
            },
        },
    }
}

/// Reads the rewards a claim reply grants.
pub fn claimed_rewards(parsed: Result<Json, String>) -> (r: Result<Vec<Json>, String>)
    ensures
        match r {
            Ok(rs) => rewards_of(parsed_view(parsed)) == Ok::<Seq<JsonV>, Seq<char>>(view_seq(rs@)),
            Err(e) => rewards_of(parsed_view(parsed)) == Err::<Seq<JsonV>, Seq<char>>(e@),
        },
{
    let p = match parsed {
        Err(e) => return Err(crate::text::concat2("rybbon claim response not JSON: ", e.as_str())),
        Ok(p) => p,
    };
    let ok = match p.get("success") {
        None => return Err(copy_str("rybbon claim response missing 'success'")),
        Some(x) => match x {
            Json::Bool(b) => *b,
            _ => false,
        },
    };
    let avail = match p.get("rewardAvailable") {
        None => return Err(copy_str("rybbon claim response missing 'rewardAvailable'")),
        Some(x) => match x {
            Json::Bool(b) => *b,
            _ => false,
        },
    };
    let mut out: Vec<Json> = Vec::new();
    proof {
        lemma_view_seq(out@);
    }
    if !ok || !avail {
        assert(view_seq(out@) =~= Seq::<JsonV>::empty());
        return Ok(out);
    }
    match p.get("result") {
        Some(Json::Array(items)) => {
            proof {
                lemma_view_seq(items@);
            }
            let mut k: usize = 0;
            while k < items.len()
                invariant
                    k <= items@.len(),
                    out@.len() == k,
                    forall|q: int| 0 <= q < k ==> (#[trigger] out@[q])@ == items@[q]@,
                decreases items@.len() - k,
            {
                out.push(items[k].deep_clone());
                k = k + 1;
            }
            proof {
                lemma_view_seq(out@);
            }
            assert(view_seq(out@) =~= view_seq(items@));
        },
        _ => {
            assert(view_seq(out@) =~= Seq::<JsonV>::empty());
        },
    }
    Ok(out)
}

/// The claim requests of a group split its valid claims without losing,
/// repeating or reordering one: the chunks, joined, are the claims (from
/// `s` on), and each holds at least one and at most a hundred claims.
pub proof fn law_claim_chunks_partition_the_claims(vs: Seq<JsonV>, s: int)
    requires
        0 <= s <= vs.len(),
    ensures
        chunks_from(vs, s).flatten() == vs.skip(s),
        forall|k: int| 0 <= k < chunks_from(vs, s).len() ==> 0 < (#[trigger] chunks_from(vs, s)[k]).len() <= claims_per_request(),
    decreases vs.len() - s,
{
    if s >= vs.len() {
        assert(vs.skip(s) =~= Seq::<JsonV>::empty());
    } else {
        let e = if s + claims_per_request() < vs.len() { s + claims_per_request() } else { vs.len() as int };
        law_claim_chunks_partition_the_claims(vs, e);
        let cs = chunks_from(vs, s);
        assert(cs == seq![vs.subrange(s, e)] + chunks_from(vs, e));
        assert(cs.first() == vs.subrange(s, e));
        assert(cs.drop_first() =~= chunks_from(vs, e));
        assert(cs.flatten() == cs.first().add(cs.drop_first().flatten()));
        assert(vs.subrange(s, e) + vs.skip(e) =~= vs.skip(s));
        assert forall|k: int| 0 <= k < cs.len() implies 0 < (#[trigger] cs[k]).len() <= claims_per_request() by {
            if k > 0 {
                assert(cs[k] == chunks_from(vs, e)[k - 1]);
            }
        }
    }
}

/// The number of claims (of the first `m`) in the groups of the first `j`
/// campaigns.
pub open spec fn grouped_count(cs: Seq<ClaimV>, keys: Seq<Seq<char>>, m: int, j: int) -> int
    decreases j,
{
    if j <= 0 {
        0
    } else {
        grouped_count(cs, keys, m, j - 1) + with_key(cs, keys[j - 1], m).len()
    }
}

/// How many of the first `j` campaigns are `k`.
pub open spec fn key_count(keys: Seq<Seq<char>>, k: Seq<char>, j: int) -> int
    decreases j,
{
    if j <= 0 {
        0
    } else {
        key_count(keys, k, j - 1) + (if keys[j - 1] == k { 1int } else { 0int })
    }
}

proof fn lemma_grouped_step(cs: Seq<ClaimV>, keys: Seq<Seq<char>>, m: int, j: int)
    requires
        0 < m <= cs.len(),
        0 <= j <= keys.len(),
    ensures
        grouped_count(cs, keys, m, j) == grouped_count(cs, keys, m - 1, j) + key_count(keys, cs[m - 1].1, j),
    decreases j,
{
    if j > 0 {
        lemma_grouped_step(cs, keys, m, j - 1);
    }
}

proof fn lemma_key_count_one(keys: Seq<Seq<char>>, k: Seq<char>, i: int, j: int)
    requires
        0 <= i < j <= keys.len(),
        keys[i] == k,
        forall|a: int, b: int| 0 <= a < b < keys.len() ==> keys[a] != keys[b],
    ensures
        key_count(keys, k, j) == 1,
    decreases j,
{
    if j - 1 > i {
        lemma_key_count_one(keys, k, i, j - 1);
    } else {
        lemma_key_count_zero(keys, k, i);
    }
}

proof fn lemma_key_count_zero(keys: Seq<Seq<char>>, k: Seq<char>, j: int)
    requires
        0 <= j < keys.len(),
        keys[j] == k,
        forall|a: int, b: int| 0 <= a < b < keys.len() ==> keys[a] != keys[b],
    ensures
        key_count(keys, k, j) == 0,
    decreases j,
{
    lemma_key_count_zero_below(keys, k, j, j);
}

proof fn lemma_key_count_zero_below(keys: Seq<Seq<char>>, k: Seq<char>, j: int, t: int)
    requires
        0 <= t <= j < keys.len(),
        keys[j] == k,
        forall|a: int, b: int| 0 <= a < b < keys.len() ==> keys[a] != keys[b],
    ensures
        key_count(keys, k, t) == 0,
    decreases t,
{
    if t > 0 {
        lemma_key_count_zero_below(keys, k, j, t - 1);
    }
}

proof fn lemma_grouped_total(cs: Seq<ClaimV>, keys: Seq<Seq<char>>, m: int)
    requires
        0 <= m <= cs.len(),
        forall|a: int, b: int| 0 <= a < b < keys.len() ==> keys[a] != keys[b],
        forall|c: int| 0 <= c < cs.len() ==> #[trigger] key_listed(keys, cs[c].1),
    ensures
        grouped_count(cs, keys, m, keys.len() as int) == m,
    decreases m,
{
    if m == 0 {
        lemma_grouped_empty(cs, keys, keys.len() as int);
    } else {
        lemma_grouped_total(cs, keys, m - 1);
        lemma_grouped_step(cs, keys, m, keys.len() as int);
        let c = m - 1;
        assert(key_listed(keys, cs[c].1));
        let i = choose|i: int| 0 <= i < keys.len() && keys[i] == cs[c].1;
        lemma_key_count_one(keys, cs[c].1, i, keys.len() as int);
    }
}

proof fn lemma_grouped_empty(cs: Seq<ClaimV>, keys: Seq<Seq<char>>, j: int)
    requires
        0 <= j,
    ensures
        grouped_count(cs, keys, 0, j) == 0,
    decreases j,
{
    if j > 0 {
        lemma_grouped_empty(cs, keys, j - 1);
    }
}

/// Campaign `k` is one of `keys`.
pub open spec fn key_listed(keys: Seq<Seq<char>>, k: Seq<char>) -> bool {
    exists|i: int| 0 <= i < keys.len() && keys[i] == k
}

/// The number of claims in the first `j` groups.
pub open spec fn groups_size(gs: Seq<Seq<ClaimV>>, j: int) -> int
    decreases j,
{
    if j <= 0 {
        0
    } else {
        groups_size(gs, j - 1) + gs[j - 1].len()
    }
}

/// Grouping claims by campaign neither loses nor repeats a claim: the
/// groups together hold as many claims as were grouped.
pub proof fn law_grouping_keeps_every_claim(cs: Seq<ClaimV>, gs: Seq<Seq<ClaimV>>)
    requires
        grouped_by_campaign(cs, gs),
    ensures
        groups_size(gs, gs.len() as int) == cs.len(),
{
    let keys = Seq::new(gs.len(), |i: int| group_key(gs, i));
    assert forall|a: int, b: int| 0 <= a < b < keys.len() implies keys[a] != keys[b] by {
        assert(str_lt(group_key(gs, a), group_key(gs, b)));
        lemma_str_lt_irreflexive(group_key(gs, a));
    }
    assert forall|c: int| 0 <= c < cs.len() implies #[trigger] key_listed(keys, cs[c].1) by {
        assert(has_group(gs, cs[c].1));
        let i = choose|i: int| 0 <= i < gs.len() && #[trigger] group_key(gs, i) == cs[c].1;
        assert(keys[i] == cs[c].1);
    }
    lemma_grouped_total(cs, keys, cs.len() as int);
    lemma_sizes_are_counts(cs, gs, keys, gs.len() as int);
}

proof fn lemma_sizes_are_counts(cs: Seq<ClaimV>, gs: Seq<Seq<ClaimV>>, keys: Seq<Seq<char>>, j: int)
    requires
        0 <= j <= gs.len(),
        keys.len() == gs.len(),
        forall|i: int| 0 <= i < keys.len() ==> keys[i] == group_key(gs, i),
        grouped_by_campaign(cs, gs),
    ensures
        groups_size(gs, j) == grouped_count(cs, keys, cs.len() as int, j),
    decreases j,
{
    if j > 0 {
        lemma_sizes_are_counts(cs, gs, keys, j - 1);
        assert(gs[j - 1] == with_key(cs, group_key(gs, j - 1), cs.len() as int));
    }
}

} // verus!
