//! Filling a template's content: every `{name}` placeholder replaced by its
//! value.

use vstd::prelude::*;
use crate::text::{chars_of, concat3, copy_str, first_occurrence_from, occurs_at, string_of, sub_chars};

verus! {

/// The value of the first pair named `key`.
pub open spec fn pair_lookup(pairs: Seq<(Seq<char>, Seq<char>)>, key: Seq<char>) -> Option<Seq<char>>
    decreases pairs.len(),
{
    if pairs.len() == 0 {
        None
    } else if pairs[0].0 == key {
        Some(pairs[0].1)
    } else {
        pair_lookup(pairs.drop_first(), key)
    }
}

pub open spec fn pairs_view(v: Seq<(String, String)>) -> Seq<(Seq<char>, Seq<char>)> {
    v.map_values(|e: (String, String)| (e.0@, e.1@))
}

/// Finds the value of `key` among `pairs`.
pub fn lookup_pair<'a>(pairs: &'a Vec<(String, String)>, key: &[char]) -> (r: Option<&'a String>)
    ensures
        match r {
            Some(v) => pair_lookup(pairs_view(pairs@), key@) == Some(v@),
            None => pair_lookup(pairs_view(pairs@), key@) is None,
        },
{
    let ghost pv = pairs_view(pairs@);
    let mut i: usize = 0;
    assert(pv.skip(0) =~= pv);
    while i < pairs.len()
        invariant
            i <= pairs@.len(),
            pv == pairs_view(pairs@),
            pair_lookup(pv, key@) == pair_lookup(pv.skip(i as int), key@),
        decreases pairs@.len() - i,
    {
        let k = chars_of(pairs[i].0.as_str());
        assert(pv.skip(i as int)[0] == (pairs@[i as int].0@, pairs@[i as int].1@));
        assert(pv.skip(i as int).drop_first() =~= pv.skip(i + 1));
        if crate::text::seq_eq(&k, key) {
            return Some(&pairs[i].1);
        }
        i = i + 1;
    }
    assert(pv.skip(i as int).len() == 0);
    None
}

/// The `item_rec.` prefix.
pub open spec fn item_rec_prefix() -> Seq<char> {
    "item_rec."@
}

/// The value of placeholder `name`: an `item_rec.<attribute>` placeholder
/// from the recommended item's values (when the message has one), any
/// other from the message's values; a missing one is a `KeyError`.
pub open spec fn resolve_placeholder(
    name: Seq<char>,
    values: Seq<(Seq<char>, Seq<char>)>,
    item_rec: Seq<(Seq<char>, Seq<char>)>,
    has_rec: bool,
) -> Result<Seq<char>, Seq<char>> {
    if name.len() >= 9 && name.take(9) == item_rec_prefix() {
        let attr = name.skip(9);
        if !has_rec {
            Err("KeyError: '"@ + name + "'"@)
        } else {
            match pair_lookup(item_rec, attr) {
                Some(v) => Ok(v),
                None => Err("KeyError: '"@ + attr + "'"@),
            }
        }
    } else {
        match pair_lookup(values, name) {
            Some(v) => Ok(v),
            None => Err("KeyError: '"@ + name + "'"@),
        }
    }
}

/// The content from position `i` on, filled: a `{` with a `}` after it
/// starts a placeholder up to the first such `}`; a `{` without one is
/// kept; any other character is kept.
pub open spec fn format_from(
    s: Seq<char>,
    i: int,
    values: Seq<(Seq<char>, Seq<char>)>,
    item_rec: Seq<(Seq<char>, Seq<char>)>,
    has_rec: bool,
) -> Result<Seq<char>, Seq<char>>
    decreases s.len() - i,
{
    if i < 0 || i >= s.len() {
        Ok(seq![])
    } else if s[i] == '{' {
        let j = first_occurrence_from(s, seq!['}'], i);
        if j >= s.len() || j <= i {
            match format_from(s, i + 1, values, item_rec, has_rec) {
                Ok(rest) => Ok(seq!['{'] + rest),
                Err(e) => Err(e),
            }
        } else {
            match resolve_placeholder(s.subrange(i + 1, j), values, item_rec, has_rec) {
                Err(e) => Err(e),
                Ok(v) => match format_from(s, j + 1, values, item_rec, has_rec) {
                    Ok(rest) => Ok(v + rest),
                    Err(e) => Err(e),
                },
            }
        }
    } else {
        match format_from(s, i + 1, values, item_rec, has_rec) {
            Ok(rest) => Ok(seq![s[i]] + rest),
            Err(e) => Err(e),
        }
    }
}

fn resolve(name: &[char], values: &Vec<(String, String)>, item_rec: &Vec<(String, String)>, has_rec: bool) -> (r: Result<
    String,
    String,
>)
    ensures
        match r {
            Ok(v) => resolve_placeholder(name@, pairs_view(values@), pairs_view(item_rec@), has_rec) == Ok::<Seq<char>, Seq<char>>(v@),
            Err(m) => resolve_placeholder(name@, pairs_view(values@), pairs_view(item_rec@), has_rec) == Err::<Seq<char>, Seq<char>>(m@),
        },
{
    let prefix = ['i', 't', 'e', 'm', '_', 'r', 'e', 'c', '.'];
    proof {
        reveal_strlit("item_rec.");
    }
    assert(prefix@ =~= item_rec_prefix());
    let is_rec = name.len() >= 9 && crate::text::matches_at(name, &prefix, 0);
    assert(is_rec == (name@.len() >= 9 && name@.take(9) == item_rec_prefix())) by {
        if name@.len() >= 9 {
            assert(name@.subrange(0, 9) =~= name@.take(9));
        }
    }
    let name_s = string_of(name);
    if is_rec {
        let attr = sub_chars(name, 9, name.len());
        assert(attr@ =~= name@.skip(9));
        if !has_rec {
            return Err(concat3("KeyError: '", name_s.as_str(), "'"));
        }
        match lookup_pair(item_rec, &attr) {
            Some(v) => Ok(copy_str(v.as_str())),
            None => Err(concat3("KeyError: '", string_of(&attr).as_str(), "'")),
        }
    } else {
        match lookup_pair(values, name) {
            Some(v) => Ok(copy_str(v.as_str())),
            None => Err(concat3("KeyError: '", name_s.as_str(), "'")),
        }
    }
}

/// Fills `content`: every `{name}` placeholder replaced by its value.
pub fn format_content(
    content: &str,
    values: &Vec<(String, String)>,
    item_rec: &Vec<(String, String)>,
    has_rec: bool,
) -> (r: Result<String, String>)
    ensures
        match r {
            Ok(s) => format_from(content@, 0, pairs_view(values@), pairs_view(item_rec@), has_rec) == Ok::<Seq<char>, Seq<char>>(s@),
            Err(m) => format_from(content@, 0, pairs_view(values@), pairs_view(item_rec@), has_rec) == Err::<Seq<char>, Seq<char>>(m@),
        },
{
    let s = chars_of(content);
    let ghost vv = pairs_view(values@);
    let ghost rv = pairs_view(item_rec@);
    let mut out: Vec<char> = Vec::new();
    let mut i: usize = 0;
    while i < s.len()
        invariant
            i <= s@.len(),
            s@ == content@,
            vv == pairs_view(values@),
            rv == pairs_view(item_rec@),
            format_from(s@, 0, vv, rv, has_rec) == match format_from(s@, i as int, vv, rv, has_rec) {
                Ok(rest) => Ok::<Seq<char>, Seq<char>>(out@ + rest),
                Err(e) => Err::<Seq<char>, Seq<char>>(e),
            },
        decreases s@.len() - i,
    {
        let ghost old_out = out@;
        let ghost old_i = i as int;
        if s[i] == '{' {
            let mut j: usize = i;
            while j < s.len() && s[j] != '}'
                invariant
                    i <= j <= s@.len(),
                    forall|k: int| i <= k < j ==> !occurs_at(s@, seq!['}'], k),
                decreases s@.len() - j,
            {
                assert(!occurs_at(s@, seq!['}'], j as int)) by {
                    if occurs_at(s@, seq!['}'], j as int) {
                        assert(s@.subrange(j as int, j + 1)[0] == s@[j as int]);
                    }
                }
                j = j + 1;
            }
            proof {
                if j < s@.len() {
                    assert(s@.subrange(j as int, j + 1) =~= seq!['}']);
                    crate::text::lemma_first_occurrence_is(s@, seq!['}'], i as int, j as int);
                } else {
                    assert(!occurs_at(s@, seq!['}'], j as int));
                    crate::text::lemma_first_occurrence_is(s@, seq!['}'], i as int, j as int);
                }
            }
            if j < s.len() {
                let name = sub_chars(&s, i + 1, j);
                match resolve(&name, values, item_rec, has_rec) {
                    Err(m) => return Err(m),
                    Ok(v) => {
                        let vc = chars_of(v.as_str());
                        let ghost before = out@;
                        crate::json::push_all(&mut out, &vc);
                        assert(out@ == before + v@);
                        proof {
                            match format_from(s@, j + 1, vv, rv, has_rec) {
                                Ok(rest) => {
                                    assert(old_out + (v@ + rest) =~= out@ + rest);
                                },
                                Err(e) => {},
                            }
                        }
                    },
                }
                i = j + 1;
            } else {
                out.push('{');
                proof {
                    match format_from(s@, old_i + 1, vv, rv, has_rec) {
                        Ok(rest) => {
                            assert(old_out + (seq!['{'] + rest) =~= out@ + rest);
                        },
                        Err(e) => {},
                    }
                }
                i = i + 1;
            }
        } else {
            out.push(s[i]);
            proof {
                match format_from(s@, old_i + 1, vv, rv, has_rec) {
                    Ok(rest) => {
                        assert(old_out + (seq![s@[old_i]] + rest) =~= out@ + rest);
                    },
                    Err(e) => {},
                }
            }
            i = i + 1;
        }
    }
    assert(out@ + Seq::<char>::empty() =~= out@);
    Ok(string_of(&out))
}

/// Content without a `{` has no placeholder: filling it gives it back
/// unchanged, whatever the values.
pub proof fn law_content_without_braces_is_unchanged(
    s: Seq<char>,
    i: int,
    values: Seq<(Seq<char>, Seq<char>)>,
    item_rec: Seq<(Seq<char>, Seq<char>)>,
    has_rec: bool,
)
    requires
        0 <= i <= s.len(),
        !s.contains('{'),
    ensures
        format_from(s, i, values, item_rec, has_rec) == Ok::<Seq<char>, Seq<char>>(s.skip(i)),
    decreases s.len() - i,
{
    if i < s.len() {
        assert(s[i] != '{') by {
            if s[i] == '{' {
                assert(s.contains('{'));
            }
        }
        law_content_without_braces_is_unchanged(s, i + 1, values, item_rec, has_rec);
        assert(seq![s[i]] + s.skip(i + 1) =~= s.skip(i));
    } else {
        assert(s.skip(i) =~= Seq::<char>::empty());
    }
}

} // verus!
