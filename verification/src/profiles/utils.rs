//! Small helpers of the profiles service: resource-limit assessment,
//! `int-int` range arguments and identifier lists.

use vstd::prelude::*;
use crate::fields::strings_view;
use crate::text::{
    chars_of, count_char, count_of, first_occurrence_from, has_char, is_ws, join,
    lemma_first_occurrence_bounds, lemma_first_occurrence_is, occurs_at, parse_i64, parse_int,
    seq_eq, split_on, split_seq, string_of, trim, trim_chars, trim_end, trim_start,
};

verus! {

/// The counts reported with a resource-limit assessment.
pub struct ResourceCounts {
    pub limit: i64,
    pub count_before: i64,
    pub count_after: i64,
    pub remainder: i64,
    pub exceeded_by: i64,
}

/// The limit in the first `*`-separated slot of `limits`, 0 when it does not
/// parse as an integer.
pub open spec fn first_slot_limit(limits: Seq<char>) -> int {
    match parse_int(split_seq(limits, seq!['*'])[0]) {
        Some(v) => v,
        None => 0,
    }
}

/// The arithmetic of an assessment stays within `i64`.
pub open spec fn assessment_fits(limit: int, current: int, requested: int) -> bool {
    &&& i64::MIN <= limit - current <= i64::MAX
    &&& i64::MIN <= requested - (limit - current) <= i64::MAX
    &&& i64::MIN <= requested + current <= i64::MAX
    &&& i64::MIN <= limit - current - requested <= i64::MAX
}

fn in_i64(x: i128) -> (r: bool)
    ensures
        r == (i64::MIN <= x <= i64::MAX),
{
    -9223372036854775808i128 <= x && x <= 9223372036854775807i128
}

/// Whether `assess_resource_limit` can be asked about these inputs: its
/// arithmetic stays within `i64`.
pub fn assessment_in_range(limits: &str, current_count: i64, requested: i64) -> (r: bool)
    ensures
        r == assessment_fits(first_slot_limit(limits@), current_count as int, requested as int),
{
    let chars = chars_of(limits);
    let pieces = split_on(&chars, &['*']);
    assert(seq!['*'] =~= ['*']@);
    let l: i64 = match parse_i64(&pieces[0]) {
        Some(v) => v,
        None => 0,
    };
    proof {
        assert(pieces@.map_values(|p: Vec<char>| p@)[0] == pieces@[0]@);
    }
    let l = l as i128;
    let c = current_count as i128;
    let q = requested as i128;
    in_i64(l - c) && in_i64(q - (l - c)) && in_i64(q + c) && in_i64(l - c - q)
}

/// `assess_resource_limit`: whether `requested` more resources fit under the
/// limit in the first slot of `limits`, with the counts before and after.
pub fn assess_resource_limit(limits: &str, current_count: i64, requested: i64) -> (r: (
    bool,
    ResourceCounts,
))
    requires
        assessment_fits(first_slot_limit(limits@), current_count as int, requested as int),
    ensures
        ({
            let limit = first_slot_limit(limits@);
            let within = requested + current_count <= limit;
            &&& r.0 == within
            &&& r.1.limit == limit
            &&& r.1.count_before == current_count
            &&& r.1.count_after == if within {
                current_count + requested
            } else {
                current_count as int
            }
            &&& r.1.remainder == if within {
                limit - current_count - requested
            } else {
                limit - current_count
            }
            &&& r.1.exceeded_by == requested - (limit - current_count)
        }),
{
    let chars = chars_of(limits);
    let pieces = split_on(&chars, &['*']);
    assert(seq!['*'] =~= ['*']@);
    let resource_limit: i64 = match parse_i64(&pieces[0]) {
        Some(v) => v,
        None => 0,
    };
    proof {
        assert(pieces@.map_values(|p: Vec<char>| p@)[0] == pieces@[0]@);
    }
    let remainder = resource_limit - current_count;
    let exceeded_by = requested - remainder;
    if requested + current_count > resource_limit {
        (
            false,
            ResourceCounts {
                limit: resource_limit,
                count_before: current_count,
                count_after: current_count,
                remainder,
                exceeded_by,
            },
        )
    } else {
        (
            true,
            ResourceCounts {
                limit: resource_limit,
                count_before: current_count,
                count_after: current_count + requested,
                remainder: remainder - requested,
                exceeded_by,
            },
        )
    }
}

/// The non-empty pieces of a split.
pub open spec fn nonempty_parts(s: Seq<Seq<char>>) -> Seq<Seq<char>> {
    s.filter(|p: Seq<char>| p.len() > 0)
}

/// The outcome of `validate_arg_format` on `arg`: exactly one `-`, and every
/// non-empty side an integer.
pub open spec fn arg_format(arg: Seq<char>) -> (bool, Seq<int>) {
    let pieces = split_seq(arg, seq!['-']);
    let nonempty = nonempty_parts(pieces);
    if count_char(arg, '-') != 1 {
        (false, seq![])
    } else if forall|i: int| 0 <= i < nonempty.len() ==> parse_int(#[trigger] nonempty[i]) is Some {
        (true, nonempty.map_values(|p: Seq<char>| parse_int(p)->0))
    } else {
        (false, seq![])
    }
}

proof fn lemma_count_contains(s: Seq<char>, c: char)
    ensures
        count_char(s, c) > 0 <==> s.contains(c),
    decreases s.len(),
{
    if s.len() > 0 {
        lemma_count_contains(s.drop_last(), c);
        if s.drop_last().contains(c) {
            let k = choose|k: int| 0 <= k < s.drop_last().len() && s.drop_last()[k] == c;
            assert(s[k] == c);
        }
        if s.contains(c) && s.last() != c {
            let k = choose|k: int| 0 <= k < s.len() && s[k] == c;
            assert(s.drop_last()[k] == c);
        }
    }
}

/// Filter step for a pushed element.
proof fn lemma_filter_push_nonempty(s: Seq<Seq<char>>, x: Seq<char>)
    ensures
        nonempty_parts(s.push(x)) == if x.len() > 0 {
            nonempty_parts(s).push(x)
        } else {
            nonempty_parts(s)
        },
{
    reveal(Seq::filter);
    assert(s.push(x).drop_last() =~= s);
}

/// `validate_arg_format`: parses an `"int-int"` range argument; either side
/// may be empty (it is then left out).
pub fn validate_arg_format(arg: &str) -> (r: (bool, Vec<i64>))
    ensures
        r.0 == arg_format(arg@).0,
        r.1@.map_values(|x: i64| x as int) == arg_format(arg@).1,
{
    let chars = chars_of(arg);
    proof {
        lemma_count_contains(arg@, '-');
    }
    if !has_char(&chars, '-') {
        return (false, Vec::new());
    }
    if count_of(&chars, '-') > 1 {
        return (false, Vec::new());
    }
    let pieces = split_on(&chars, &['-']);
    assert(seq!['-'] =~= ['-']@);
    let ghost views = pieces@.map_values(|p: Vec<char>| p@);
    let mut values: Vec<i64> = Vec::new();
    let mut i: usize = 0;
    assert(nonempty_parts(views.take(0)) =~= Seq::<Seq<char>>::empty()) by {
        reveal(Seq::filter);
    }
    while i < pieces.len()
        invariant
            i <= pieces@.len(),
            views == pieces@.map_values(|p: Vec<char>| p@),
            views == split_seq(arg@, seq!['-']),
            values@.len() == nonempty_parts(views.take(i as int)).len(),
            forall|k: int|
                0 <= k < values@.len() ==> parse_int(
                    #[trigger] nonempty_parts(views.take(i as int))[k],
                ) == Some(values@[k] as int),
        decreases pieces@.len() - i,
    {
        let ghost before = views.take(i as int);
        assert(views.take(i + 1) =~= before.push(views[i as int]));
        proof {
            lemma_filter_push_nonempty(before, views[i as int]);
        }
        let piece = &pieces[i];
        assert(piece@ == views[i as int]);
        if piece.len() == 0 {
            i = i + 1;
            continue;
        }
        match parse_i64(piece) {
            Some(v) => {
                values.push(v);
            },
            None => {
                proof {
                    let nonempty = nonempty_parts(views);
                    let k = nonempty_parts(before).len() as int;
                    let fi = nonempty_parts(views.take(i + 1));
                    assert(fi[k] == views[i as int]);
                    // the failing piece also occurs in the full filtered list
                    lemma_filter_prefix(views, i + 1);
                    assert(nonempty[k] == fi[k]);
                    assert(parse_int(nonempty[k]) is None);
                }
                return (false, Vec::new());
            },
        }
        i = i + 1;
    }
    proof {
        assert(views.take(views.len() as int) =~= views);
        let nonempty = nonempty_parts(views);
        assert(values@.map_values(|x: i64| x as int) =~= nonempty.map_values(
            |p: Seq<char>| parse_int(p)->0,
        ));
    }
    (true, values)
}

/// A filtered prefix is a prefix of the filtered sequence.
proof fn lemma_filter_prefix(s: Seq<Seq<char>>, n: int)
    requires
        0 <= n <= s.len(),
    ensures
        nonempty_parts(s.take(n)).len() <= nonempty_parts(s).len(),
        forall|k: int|
            0 <= k < nonempty_parts(s.take(n)).len() ==> #[trigger] nonempty_parts(s.take(n))[k]
                == nonempty_parts(s)[k],
    decreases s.len() - n,
{
    if n < s.len() {
        lemma_filter_prefix(s, n + 1);
        assert(s.take(n + 1) =~= s.take(n).push(s[n]));
        lemma_filter_push_nonempty(s.take(n), s[n]);
        assert forall|k: int| 0 <= k < nonempty_parts(s.take(n)).len() implies #[trigger] nonempty_parts(
            s.take(n),
        )[k] == nonempty_parts(s)[k] by {
            assert(nonempty_parts(s.take(n))[k] == nonempty_parts(s.take(n + 1))[k]);
        }
    } else {
        assert(s.take(n) =~= s);
    }
}

/// One step of `dedupe_identifiers`: keep the trimmed part unless it is
/// empty or already kept.
pub open spec fn dedupe_step(acc: Seq<Seq<char>>, part: Seq<char>) -> Seq<Seq<char>> {
    let t = trim(part);
    if t.len() == 0 || acc.contains(t) {
        acc
    } else {
        acc.push(t)
    }
}

pub open spec fn dedupe_upto(parts: Seq<Seq<char>>, n: int) -> Seq<Seq<char>>
    decreases n,
{
    if n <= 0 {
        seq![]
    } else {
        dedupe_step(dedupe_upto(parts, n - 1), parts[n - 1])
    }
}

/// The identifiers of a comma-separated list: trimmed, non-empty, each kept
/// at its first occurrence.
pub open spec fn deduped_identifiers(raw: Seq<char>) -> Seq<Seq<char>> {
    let parts = split_seq(raw, seq![',']);
    dedupe_upto(parts, parts.len() as int)
}

fn contains_chars_vec(acc: &Vec<Vec<char>>, t: &Vec<char>) -> (r: bool)
    ensures
        r == acc@.map_values(|p: Vec<char>| p@).contains(t@),
{
    let ghost vs = acc@.map_values(|p: Vec<char>| p@);
    let mut i: usize = 0;
    while i < acc.len()
        invariant
            i <= acc@.len(),
            vs == acc@.map_values(|p: Vec<char>| p@),
            forall|k: int| 0 <= k < i ==> vs[k] != t@,
        decreases acc@.len() - i,
    {
        if seq_eq(&acc[i], t) {
            assert(vs[i as int] == t@);
            return true;
        }
        i = i + 1;
    }
    false
}

/// `dedupe_identifiers`: splits on `,`, trims, drops empty entries and keeps
/// the first occurrence of each identifier.
pub fn dedupe_identifiers(raw: &str) -> (r: Vec<String>)
    ensures
        strings_view(r@) == deduped_identifiers(raw@),
{
    let chars = chars_of(raw);
    let parts = split_on(&chars, &[',']);
    assert(seq![','] =~= [',']@);
    let ghost views = parts@.map_values(|p: Vec<char>| p@);
    let mut kept: Vec<Vec<char>> = Vec::new();
    let mut i: usize = 0;
    while i < parts.len()
        invariant
            i <= parts@.len(),
            views == parts@.map_values(|p: Vec<char>| p@),
            views == split_seq(raw@, seq![',']),
            kept@.map_values(|p: Vec<char>| p@) == dedupe_upto(views, i as int),
        decreases parts@.len() - i,
    {
        let t = trim_chars(&parts[i]);
        assert(parts@[i as int]@ == views[i as int]);
        if t.len() > 0 && !contains_chars_vec(&kept, &t) {
            let ghost before = kept@;
            kept.push(t);
            assert(kept@.map_values(|p: Vec<char>| p@) =~= before.map_values(|p: Vec<char>| p@).push(
                t@,
            ));
        }
        i = i + 1;
    }
    let mut out: Vec<String> = Vec::new();
    let mut j: usize = 0;
    while j < kept.len()
        invariant
            j <= kept@.len(),
            out@.len() == j,
            forall|k: int| 0 <= k < j ==> (#[trigger] out@[k])@ == kept@[k]@,
        decreases kept@.len() - j,
    {
        out.push(string_of(&kept[j]));
        j = j + 1;
    }
    assert(strings_view(out@) =~= kept@.map_values(|p: Vec<char>| p@));
    out
}

/// Law: the identifiers kept are distinct, non-empty and trimmed, and every
/// non-empty trimmed entry of the list is kept.
pub proof fn lemma_dedupe_identifiers(raw: Seq<char>)
    ensures
        deduped_identifiers(raw).no_duplicates(),
        forall|k: int|
            0 <= k < deduped_identifiers(raw).len() ==> #[trigger] deduped_identifiers(raw)[k].len()
                > 0 && trim(deduped_identifiers(raw)[k]) == deduped_identifiers(raw)[k],
        forall|k: int|
            0 <= k < split_seq(raw, seq![',']).len() && trim(
                #[trigger] split_seq(raw, seq![','])[k],
            ).len() > 0 ==> deduped_identifiers(raw).contains(trim(split_seq(raw, seq![','])[k])),
{
    let parts = split_seq(raw, seq![',']);
    lemma_dedupe_upto(parts, parts.len() as int);
}

proof fn lemma_trim_start_shape(s: Seq<char>)
    ensures
        trim_start(s).len() == 0 || !is_ws(trim_start(s)[0]),
    decreases s.len(),
{
    if s.len() > 0 && is_ws(s[0]) {
        lemma_trim_start_shape(s.drop_first());
    }
}

proof fn lemma_trim_end_shape(s: Seq<char>)
    ensures
        trim_end(s).len() <= s.len(),
        trim_end(s) == s.take(trim_end(s).len() as int),
        trim_end(s).len() == 0 || !is_ws(trim_end(s).last()),
    decreases s.len(),
{
    if s.len() > 0 && is_ws(s.last()) {
        lemma_trim_end_shape(s.drop_last());
        assert(s.drop_last().take(trim_end(s).len() as int) =~= s.take(trim_end(s).len() as int));
    } else {
        assert(s.take(s.len() as int) =~= s);
    }
}

proof fn lemma_trim_idempotent(s: Seq<char>)
    ensures
        trim(trim(s)) == trim(s),
{
    let t = trim_start(s);
    let u = trim_end(t);
    lemma_trim_start_shape(s);
    lemma_trim_end_shape(t);
    if u.len() > 0 {
        assert(u[0] == t[0]);
    }
    assert(trim_start(u) == u);
    assert(trim_end(u) == u);
}

proof fn lemma_dedupe_upto(parts: Seq<Seq<char>>, n: int)
    requires
        0 <= n <= parts.len(),
    ensures
        dedupe_upto(parts, n).no_duplicates(),
        forall|k: int|
            0 <= k < dedupe_upto(parts, n).len() ==> #[trigger] dedupe_upto(parts, n)[k].len() > 0
                && trim(dedupe_upto(parts, n)[k]) == dedupe_upto(parts, n)[k],
        forall|k: int|
            0 <= k < n && trim(#[trigger] parts[k]).len() > 0 ==> dedupe_upto(parts, n).contains(
                trim(parts[k]),
            ),
    decreases n,
{
    if n > 0 {
        lemma_dedupe_upto(parts, n - 1);
        let acc = dedupe_upto(parts, n - 1);
        let t = trim(parts[n - 1]);
        lemma_trim_idempotent(parts[n - 1]);
        if !(t.len() == 0 || acc.contains(t)) {
            let res = acc.push(t);
            assert forall|k: int| 0 <= k < n && trim(#[trigger] parts[k]).len() > 0 implies res.contains(
                trim(parts[k]),
            ) by {
                if k < n - 1 {
                    let j = choose|j: int| 0 <= j < acc.len() && acc[j] == trim(parts[k]);
                    assert(res[j] == acc[j]);
                } else {
                    assert(res[acc.len() as int] == t);
                }
            }
        }
    }
}

/// Law: joining the identifiers of a list with `,` and reading the result
/// as a list again gives the same identifiers, in the same order.
pub proof fn law_rejoined_identifiers_read_back(raw: Seq<char>)
    ensures
        deduped_identifiers(join(deduped_identifiers(raw), seq![','])) == deduped_identifiers(raw),
{
    let r = deduped_identifiers(raw);
    let parts = split_seq(raw, seq![',']);
    lemma_dedupe_upto(parts, parts.len() as int);
    lemma_split_parts_comma_free(raw);
    lemma_dedupe_upto_comma_free(parts, parts.len() as int);
    if r.len() == 0 {
        let e: Seq<char> = seq![];
        assert(join(r, seq![',']) =~= e);
        assert(first_occurrence_from(e, seq![','], 1) == 0);
        assert(split_seq(e, seq![',']) =~= seq![e]);
        assert(trim(e) =~= e);
        let ps = seq![e];
        assert(ps[0] == e);
        assert(dedupe_upto(ps, 0) =~= Seq::<Seq<char>>::empty());
        assert(dedupe_upto(ps, 1) == dedupe_step(dedupe_upto(ps, 0), e));
        assert(dedupe_upto(ps, 1) =~= r);
    } else {
        lemma_split_joined(r);
        lemma_dedupe_clean(r, r.len() as int);
        assert(r.take(r.len() as int) =~= r);
    }
}

/// `join` of at least two parts, read from the front.
proof fn lemma_join_front(parts: Seq<Seq<char>>, sep: Seq<char>)
    requires
        parts.len() >= 2,
    ensures
        join(parts, sep) == parts[0] + sep + join(parts.drop_first(), sep),
    decreases parts.len(),
{
    if parts.len() == 2 {
        let dl = parts.drop_last();
        let df = parts.drop_first();
        assert(join(dl, sep) == dl[0]);
        assert(join(df, sep) == df[0]);
        assert(join(parts, sep) == join(dl, sep) + sep + parts.last());
        assert(dl[0] == parts[0] && df[0] == parts.last());
    } else {
        let dl = parts.drop_last();
        let df = parts.drop_first();
        lemma_join_front(dl, sep);
        assert(join(parts, sep) == join(dl, sep) + sep + parts.last());
        assert(join(df, sep) == join(df.drop_last(), sep) + sep + df.last());
        assert(df.drop_last() =~= dl.drop_first());
        assert(df.last() == parts.last());
        assert(dl[0] == parts[0]);
        let x = join(dl.drop_first(), sep);
        assert(join(df.drop_last(), sep) == x);
        assert(join(parts, sep) == parts[0] + sep + x + sep + parts.last());
        assert(join(df, sep) == x + sep + parts.last());
        assert(parts[0] + sep + x + sep + parts.last() =~= parts[0] + sep + (x + sep + parts.last()));
    }
}

/// Splitting on `,` the `,`-joined list of comma-free parts gives the parts.
proof fn lemma_split_joined(r: Seq<Seq<char>>)
    requires
        r.len() > 0,
        forall|k: int| 0 <= k < r.len() ==> !(#[trigger] r[k]).contains(','),
    ensures
        split_seq(join(r, seq![',']), seq![',']) == r,
    decreases r.len(),
{
    let sep = seq![','];
    let a = r[0];
    let s = join(r, sep);
    lemma_first_occurrence_bounds(s, sep, 0);
    if r.len() == 1 {
        let i = first_occurrence_from(s, sep, 0);
        if i < s.len() {
            assert(s.subrange(i, i + 1)[0] == s[i]);
            assert(a[i] == ',');
        }
        assert(split_seq(s, sep) =~= r);
    } else {
        lemma_join_front(r, sep);
        let rest = r.drop_first();
        lemma_split_joined(rest);
        let j = join(rest, sep);
        assert forall|x: int| 0 <= x < a.len() implies !occurs_at(s, sep, x) by {
            if occurs_at(s, sep, x) {
                assert(s.subrange(x, x + 1)[0] == s[x]);
                assert(a[x] == ',');
            }
        }
        assert(s.subrange(a.len() as int, a.len() as int + 1) =~= sep);
        lemma_first_occurrence_is(s, sep, 0, a.len() as int);
        assert(s.take(a.len() as int) =~= a);
        assert(s.skip(a.len() as int + 1) =~= j);
        assert(split_seq(s, sep) =~= r);
    }
}

/// A list that is already distinct, trimmed and free of empty entries is
/// kept as it is.
proof fn lemma_dedupe_clean(r: Seq<Seq<char>>, n: int)
    requires
        0 <= n <= r.len(),
        r.no_duplicates(),
        forall|k: int| 0 <= k < r.len() ==> (#[trigger] r[k]).len() > 0 && trim(r[k]) == r[k],
    ensures
        dedupe_upto(r, n) == r.take(n),
    decreases n,
{
    if n > 0 {
        lemma_dedupe_clean(r, n - 1);
        let acc = r.take(n - 1);
        if acc.contains(r[n - 1]) {
            let j = choose|j: int| 0 <= j < acc.len() && acc[j] == r[n - 1];
            assert(r[j] == r[n - 1]);
        }
        assert(acc.push(r[n - 1]) =~= r.take(n));
    }
}

/// The parts of a split on `,` hold no `,`.
proof fn lemma_split_parts_comma_free(s: Seq<char>)
    ensures
        forall|k: int|
            0 <= k < split_seq(s, seq![',']).len() ==> !(#[trigger] split_seq(s, seq![','])[k]).contains(
                ',',
            ),
    decreases s.len(),
{
    let sep = seq![','];
    let i = first_occurrence_from(s, sep, 0);
    lemma_first_occurrence_bounds(s, sep, 0);
    assert forall|x: int| 0 <= x < i && x < s.len() implies s[x] != ',' by {
        if s[x] == ',' {
            assert(s.subrange(x, x + 1) =~= sep);
            assert(occurs_at(s, sep, x));
        }
    }
    if i >= s.len() {
        assert(split_seq(s, sep) =~= seq![s]);
    } else {
        lemma_split_parts_comma_free(s.skip(i + 1));
        let head = s.take(i);
        assert forall|y: int| 0 <= y < head.len() implies head[y] != ',' by {
            assert(head[y] == s[y]);
        }
        assert(split_seq(s, sep) =~= seq![head] + split_seq(s.skip(i + 1), sep));
    }
}

/// What `trim` keeps of `s` was in `s`.
proof fn lemma_trim_within(s: Seq<char>, c: char)
    ensures
        trim(s).contains(c) ==> s.contains(c),
{
    lemma_trim_start_within(s, c);
    lemma_trim_end_within(trim_start(s), c);
}

proof fn lemma_trim_start_within(s: Seq<char>, c: char)
    ensures
        trim_start(s).contains(c) ==> s.contains(c),
    decreases s.len(),
{
    if s.len() > 0 && is_ws(s[0]) {
        lemma_trim_start_within(s.drop_first(), c);
        if s.drop_first().contains(c) {
            let j = choose|j: int| 0 <= j < s.drop_first().len() && s.drop_first()[j] == c;
            assert(s[j + 1] == c);
        }
    }
}

proof fn lemma_trim_end_within(s: Seq<char>, c: char)
    ensures
        trim_end(s).contains(c) ==> s.contains(c),
    decreases s.len(),
{
    if s.len() > 0 && is_ws(s.last()) {
        lemma_trim_end_within(s.drop_last(), c);
        if s.drop_last().contains(c) {
            let j = choose|j: int| 0 <= j < s.drop_last().len() && s.drop_last()[j] == c;
            assert(s[j] == c);
        }
    }
}

/// The identifiers kept from comma-free parts are comma-free.
proof fn lemma_dedupe_upto_comma_free(parts: Seq<Seq<char>>, n: int)
    requires
        0 <= n <= parts.len(),
        forall|k: int| 0 <= k < parts.len() ==> !(#[trigger] parts[k]).contains(','),
    ensures
        forall|k: int|
            0 <= k < dedupe_upto(parts, n).len() ==> !(#[trigger] dedupe_upto(parts, n)[k]).contains(
                ',',
            ),
    decreases n,
{
    if n > 0 {
        lemma_dedupe_upto_comma_free(parts, n - 1);
        lemma_trim_within(parts[n - 1], ',');
        let acc = dedupe_upto(parts, n - 1);
        let t = trim(parts[n - 1]);
        if !(t.len() == 0 || acc.contains(t)) {
            assert forall|k: int| 0 <= k < acc.push(t).len() implies !(#[trigger] acc.push(t)[k]).contains(',') by {
                if k < acc.len() {
                    assert(acc.push(t)[k] == acc[k]);
                }
            }
        }
    }
}

} // verus!
