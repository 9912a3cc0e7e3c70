//! Billing units: the approximate size of the data a request stores, and
//! the capture message that bills it.

use vstd::prelude::*;
use crate::json::{lemma_view_members, lemma_view_seq, view_members, view_seq, Json, JsonNumber, JsonV, NumV};
use crate::text::{chars_of, copy_str, str_eq};

verus! {

/// Which service measures the data: the per-object and per-list overheads
/// and the rounding of the billed quantity differ.
#[derive(Clone, Copy)]
pub enum SizeStyle {
    /// Objects weigh 232, lists 56 plus 8 per element; quantities round
    /// half to even.
    Items,
    /// Objects weigh 64, lists 56; quantities round half away from zero.
    Profiles,
    /// Objects weigh 64, lists 56 plus 8 per element; quantities round
    /// half to even.
    Events,
}

/// The UTF-8 length of a character.
pub open spec fn utf8_width(c: char) -> int {
    if (c as u32) < 0x80 {
        1
    } else if (c as u32) < 0x800 {
        2
    } else if (c as u32) < 0x10000 {
        3
    } else {
        4
    }
}

/// The UTF-8 length of the first `n` characters.
pub open spec fn utf8_len(s: Seq<char>, n: int) -> int
    decreases n,
{
    if n <= 0 {
        0
    } else {
        utf8_len(s, n - 1) + utf8_width(s[n - 1])
    }
}

/// The approximate in-memory size of a value, in bytes.
pub open spec fn data_size(v: JsonV, style: SizeStyle) -> int
    decreases v, 2nat,
{
    match v {
        JsonV::Null => 16,
        JsonV::Bool(_) => 28,
        JsonV::Num(NumV::Float { .. }) => 24,
        JsonV::Num(_) => 28,
        JsonV::Str(s) => 49 + utf8_len(s, s.len() as int),
        JsonV::Arr(a) => 56 + (if style is Profiles { 0 } else { 8 * a.len() }) + items_size(a, style, a.len() as int),
        JsonV::Obj(m) => (if style is Items { 232int } else { 64 }) + members_size(m, style, m.len() as int),
    }
}

/// The sizes of the first `n` elements.
pub open spec fn items_size(a: Seq<JsonV>, style: SizeStyle, n: int) -> int
    decreases a, 1nat, n,
{
    if n <= 0 || n > a.len() {
        0
    } else {
        items_size(a, style, n - 1) + data_size(a[n - 1], style)
    }
}

/// The sizes of the first `n` members: 49 plus the key's length plus the
/// value's size each.
pub open spec fn members_size(m: Seq<(Seq<char>, JsonV)>, style: SizeStyle, n: int) -> int
    decreases m, 1nat, n,
{
    if n <= 0 || n > m.len() {
        0
    } else {
        members_size(m, style, n - 1) + 49 + utf8_len(m[n - 1].0, m[n - 1].0.len() as int) + data_size(m[n - 1].1, style)
    }
}

pub proof fn lemma_size_nonneg(v: JsonV, style: SizeStyle)
    ensures
        data_size(v, style) >= 16,
    decreases v, 3nat,
{
    match v {
        JsonV::Str(s) => lemma_utf8_len_nonneg(s, s.len() as int),
        JsonV::Arr(a) => lemma_items_size_nonneg(a, style, a.len() as int),
        JsonV::Obj(m) => lemma_members_size_nonneg(m, style, m.len() as int),
        _ => {},
    }
}

proof fn lemma_utf8_len_nonneg(s: Seq<char>, n: int)
    ensures
        utf8_len(s, n) >= 0,
    decreases n,
{
    if n > 0 {
        lemma_utf8_len_nonneg(s, n - 1);
    }
}

proof fn lemma_items_size_nonneg(a: Seq<JsonV>, style: SizeStyle, n: int)
    ensures
        items_size(a, style, n) >= 0,
    decreases a, 2nat, n,
{
    if n > 0 && n <= a.len() {
        lemma_items_size_nonneg(a, style, n - 1);
        lemma_size_nonneg(a[n - 1], style);
    }
}

proof fn lemma_members_size_nonneg(m: Seq<(Seq<char>, JsonV)>, style: SizeStyle, n: int)
    ensures
        members_size(m, style, n) >= 0,
    decreases m, 2nat, n,
{
    if n > 0 && n <= m.len() {
        lemma_members_size_nonneg(m, style, n - 1);
        lemma_size_nonneg(m[n - 1].1, style);
        lemma_utf8_len_nonneg(m[n - 1].0, m[n - 1].0.len() as int);
    }
}

fn utf8_len_of(s: &str) -> (r: Option<i64>)
    ensures
        match r {
            Some(n) => n as int == utf8_len(s@, s@.len() as int),
            None => utf8_len(s@, s@.len() as int) > i64::MAX,
        },
{
    let cs = chars_of(s);
    let mut total: i64 = 0;
    let mut i: usize = 0;
    while i < cs.len()
        invariant
            i <= cs@.len(),
            cs@ == s@,
            total as int == utf8_len(s@, i as int),
            total >= 0,
        decreases cs@.len() - i,
    {
        let u = cs[i] as u32;
        let w: i64 = if u < 0x80 {
            1
        } else if u < 0x800 {
            2
        } else if u < 0x10000 {
            3
        } else {
            4
        };
        if total > i64::MAX - w {
            proof {
                lemma_utf8_len_grows(s@, i + 1, s@.len() as int);
            }
            return None;
        }
        total = total + w;
        i = i + 1;
    }
    Some(total)
}

proof fn lemma_utf8_len_grows(s: Seq<char>, k: int, n: int)
    requires
        0 <= k <= n,
    ensures
        utf8_len(s, k) <= utf8_len(s, n),
    decreases n - k,
{
    if k < n {
        lemma_utf8_len_grows(s, k, n - 1);
    }
}

proof fn lemma_items_size_grows(a: Seq<JsonV>, style: SizeStyle, k: int, n: int)
    requires
        0 <= k <= n <= a.len(),
    ensures
        items_size(a, style, k) <= items_size(a, style, n),
    decreases n - k,
{
    if k < n {
        lemma_items_size_grows(a, style, k, n - 1);
        lemma_size_nonneg(a[n - 1], style);
    }
}

proof fn lemma_members_size_grows(m: Seq<(Seq<char>, JsonV)>, style: SizeStyle, k: int, n: int)
    requires
        0 <= k <= n <= m.len(),
    ensures
        members_size(m, style, k) <= members_size(m, style, n),
    decreases n - k,
{
    if k < n {
        lemma_members_size_grows(m, style, k, n - 1);
        lemma_size_nonneg(m[n - 1].1, style);
        lemma_utf8_len_nonneg(m[n - 1].0, m[n - 1].0.len() as int);
    }
}

/// The approximate size of a value; `None` when it exceeds `i64::MAX`.
#[verifier::loop_isolation(false)]
pub fn data_size_of(v: &Json, style: SizeStyle) -> (r: Option<i64>)
    ensures
        match r {
            Some(n) => n as int == data_size(v@, style),
            None => data_size(v@, style) > i64::MAX,
        },
    decreases v,
{
    match v {
        Json::Null => Some(16),
        Json::Bool(_) => Some(28),
        Json::Number(JsonNumber::Float(_)) => Some(24),
        Json::Number(_) => Some(28),
        Json::Str(s) => match utf8_len_of(s.as_str()) {
            Some(n) => if n <= i64::MAX - 49 {
                Some(49 + n)
            } else {
                None
            },
            None => None,
        },
        Json::Array(a) => {
            proof {
                lemma_view_seq(a@);
            }
            let ghost av = view_seq(a@);
            let per: i64 = match style {
                SizeStyle::Profiles => 0,
                _ => 8,
            };
            let base: i128 = 56 + (per as i128) * (a.len() as i128);
            if base > i64::MAX as i128 {
                proof {
                    lemma_items_size_nonneg(av, style, av.len() as int);
                }
                return None;
            }
            let mut total: i64 = base as i64;
            let mut i: usize = 0;
            while i < a.len()
                invariant
                    i <= a@.len(),
                    av == view_seq(a@),
                    av.len() == a@.len(),
                    forall|k: int| 0 <= k < a@.len() ==> #[trigger] av[k] == a@[k]@,
                    total as int == base + items_size(av, style, i as int),
                    base == 56 + (if style is Profiles { 0 } else { 8 * av.len() }),
                decreases a@.len() - i,
            {
                assert(av[i as int] == a@[i as int]@);
                proof {
                    assert(decreases_to!(*v => *a));
                    assert(decreases_to!(*a => a@));
                    assert(decreases_to!(a@ => a@[i as int]));
                    lemma_size_nonneg(av[i as int], style);
                }
                match data_size_of(&a[i], style) {
                    Some(n) => {
                        if total > i64::MAX - n {
                            proof {
                                lemma_items_size_grows(av, style, i + 1, av.len() as int);
                            }
                            return None;
                        }
                        total = total + n;
                    },
                    None => {
                        proof {
                            lemma_items_size_nonneg(av, style, i as int);
                            lemma_items_size_grows(av, style, i + 1, av.len() as int);
                        }
                        return None;
                    },
                }
                i = i + 1;
            }
            Some(total)
        },
        Json::Object(m) => {
            proof {
                lemma_view_members(m@);
            }
            let ghost mv = view_members(m@);
            let base: i64 = match style {
                SizeStyle::Items => 232,
                _ => 64,
            };
            let mut total: i64 = base;
            let mut i: usize = 0;
            while i < m.len()
                invariant
                    i <= m@.len(),
                    mv == view_members(m@),
                    mv.len() == m@.len(),
                    forall|k: int| 0 <= k < m@.len() ==> #[trigger] mv[k] == (m@[k].0@, m@[k].1@),
                    total as int == base + members_size(mv, style, i as int),
                    base == (if style is Items { 232int } else { 64 }),
                decreases m@.len() - i,
            {
                assert(mv[i as int] == (m@[i as int].0@, m@[i as int].1@));
                let kl = utf8_len_of(m[i].0.as_str());
                proof {
                    assert(decreases_to!(*v => *m));
                    assert(decreases_to!(*m => m@));
                    assert(decreases_to!(m@ => m@[i as int]));
                    assert(decreases_to!(m@[i as int] => m@[i as int].1));
                    lemma_size_nonneg(mv[i as int].1, style);
                    lemma_utf8_len_nonneg(mv[i as int].0, mv[i as int].0.len() as int);
                }
                let vs = data_size_of(&m[i].1, style);
                match (kl, vs) {
                    (Some(k), Some(n)) => {
                        if k > i64::MAX - 49 || n > i64::MAX - 49 - k || total > i64::MAX - 49 - k - n {
                            proof {
                                lemma_members_size_nonneg(mv, style, i as int);
                                lemma_members_size_grows(mv, style, i + 1, mv.len() as int);
                            }
                            return None;
                        }
                        total = total + 49 + k + n;
                    },
                    _ => {
                        proof {
                            lemma_members_size_nonneg(mv, style, i as int);
                            lemma_size_nonneg(mv[i as int].1, style);
                            lemma_utf8_len_nonneg(mv[i as int].0, mv[i as int].0.len() as int);
                            lemma_members_size_grows(mv, style, i + 1, mv.len() as int);
                        }
                        return None;
                    },
                }
                i = i + 1;
            }
            Some(total)
        },
    }
}

/// The bytes in one unit of a data metric.
pub open spec fn metric_divisor(metric: Seq<char>) -> Option<int> {
    if metric == "KB"@ {
        Some(1_000)
    } else if metric == "MB"@ {
        Some(1_000_000)
    } else if metric == "GB"@ {
        Some(1_000_000_000)
    } else if metric == "TB"@ {
        Some(1_000_000_000_000)
    } else {
        None
    }
}

/// `b / d` rounded to an integer: a half to the even neighbour, or away
/// from zero.
pub open spec fn rounded_quotient(b: int, d: int, half_even: bool) -> int {
    let q = b / d;
    let r = b % d;
    if 2 * r > d {
        q + 1
    } else if 2 * r < d {
        q
    } else if half_even {
        if q % 2 == 0 {
            q
        } else {
            q + 1
        }
    } else {
        q + 1
    }
}

/// The data quantity a service bills for `bytes` in `metric`.
pub open spec fn billed_quantity(bytes: int, metric: Seq<char>, style: SizeStyle) -> Option<int> {
    match metric_divisor(metric) {
        Some(d) => Some(rounded_quotient(bytes, d, !(style is Profiles))),
        None => None,
    }
}

/// The units a request stored, until they are billed.
pub struct BillingUnits {
    pub account_id: Json,
    pub account_type: Json,
    pub account_currency: Json,
    pub process_name: String,
    pub style: SizeStyle,
    /// The approximate bytes tracked so far.
    pub data_bytes: i64,
    pub data_metric: String,
    /// Data units were tracked and not billed yet.
    pub capturing: bool,
}

/// The capture message of a data quantity (at least one unit is billed).
pub open spec fn capture_message(b: BillingUnits, metric: Seq<char>, quantity: int) -> JsonV {
    JsonV::Obj(seq![(
        "units"@,
        JsonV::Arr(seq![JsonV::Obj(seq![
            ("unit_type"@, JsonV::Str("data"@)),
            ("metric"@, JsonV::Str(metric)),
            ("process_name"@, JsonV::Str(b.process_name@)),
            ("quantity"@, JsonV::Num(NumV::Int(if quantity > 0 { quantity } else { 1 }))),
            ("account_id"@, b.account_id@),
            ("account_currency"@, b.account_currency@),
            ("account_type"@, b.account_type@),
        ])]),
    )])
}

impl BillingUnits {
    /// Billing for an account's request, measured as `style` does.
    pub fn new(account_id: Json, account_type: Json, account_currency: Json, process_name: &str, style: SizeStyle) -> (r: BillingUnits)
        ensures
            r.account_id == account_id,
            r.account_type == account_type,
            r.account_currency == account_currency,
            r.process_name@ == process_name@,
            r.style == style,
            r.data_bytes == 0,
            r.capturing == false,
    {
        BillingUnits {
            account_id,
            account_type,
            account_currency,
            process_name: copy_str(process_name),
            style,
            data_bytes: 0,
            data_metric: copy_str("MB"),
            capturing: false,
        }
    }

    /// Tracks the data of `unit`; false (nothing tracked) when the total
    /// would exceed `i64::MAX`.
    pub fn track_data_units(&mut self, unit: &Json) -> (ok: bool)
        requires
            old(self).data_bytes >= 0,
        ensures
            ok <==> old(self).data_bytes + data_size(unit@, old(self).style) <= i64::MAX,
            ok ==> final(self).data_bytes == old(self).data_bytes + data_size(unit@, old(self).style) && final(self).capturing,
            !ok ==> *final(self) == *old(self),
            final(self).account_id == old(self).account_id,
            final(self).account_type == old(self).account_type,
            final(self).account_currency == old(self).account_currency,
            final(self).process_name == old(self).process_name,
            final(self).style == old(self).style,
            final(self).data_bytes >= 0,
    {
        proof {
            lemma_size_nonneg(unit@, self.style);
        }
        match data_size_of(unit, self.style) {
            Some(n) => {
                if self.data_bytes > i64::MAX - n {
                    return false;
                }
                self.data_bytes = self.data_bytes + n;
                self.capturing = true;
                true
            },
            None => false,
        }
    }

    /// Ends the tracking in `metric`: the capture message to publish when
    /// data was tracked since the last one (`None` otherwise), or the error
    /// of an unknown metric. The items service then holds the billed
    /// quantity in place of the tracked bytes; the others keep the bytes.
    pub fn complete_data_units(&mut self, metric: &str) -> (r: Result<Option<Json>, String>)
        requires
            old(self).data_bytes >= 0,
        ensures
            match billed_quantity(old(self).data_bytes as int, metric@, old(self).style) {
                None => r matches Err(m) && m@ == "Unknown data metric specified: "@ + metric@,
                Some(q) => if old(self).capturing {
                    r matches Ok(Some(msg)) && msg@ == capture_message(*old(self), metric@, q) && !final(self).capturing
                } else {
                    r matches Ok(None) && !final(self).capturing
                },
            },
            final(self).data_bytes == match billed_quantity(old(self).data_bytes as int, metric@, old(self).style) {
                Some(q) => if old(self).style is Items {
                    q
                } else {
                    old(self).data_bytes as int
                },
                None => old(self).data_bytes as int,
            },
            final(self).data_metric@ == metric@,
            final(self).style == old(self).style,
            final(self).account_id == old(self).account_id,
            final(self).account_type == old(self).account_type,
            final(self).account_currency == old(self).account_currency,
            final(self).process_name == old(self).process_name,
    {
        self.data_metric = copy_str(metric);
        let divisor: i64 = if str_eq(metric, "KB") {
            1_000
        } else if str_eq(metric, "MB") {
            1_000_000
        } else if str_eq(metric, "GB") {
            1_000_000_000
        } else if str_eq(metric, "TB") {
            1_000_000_000_000
        } else {
            return Err(crate::text::concat2("Unknown data metric specified: ", metric));
        };
        let b = self.data_bytes;
        let q = b / divisor;
        let rem = b % divisor;
        let half_even = match self.style {
            SizeStyle::Profiles => false,
            _ => true,
        };
        let quantity: i64 = if 2 * (rem as i128) > divisor as i128 {
            q + 1
        } else if 2 * (rem as i128) < divisor as i128 {
            q
        } else if half_even {
            if q % 2 == 0 {
                q
            } else {
                q + 1
            }
        } else {
            q + 1
        };
        match self.style {
            SizeStyle::Items => {
                self.data_bytes = quantity;
            },
            _ => {},
        }
        if !self.capturing {
            return Ok(None);
        }
        self.capturing = false;
        let mut unit: Vec<(String, Json)> = Vec::new();
        unit.push((copy_str("unit_type"), Json::Str(copy_str("data"))));
        unit.push((copy_str("metric"), Json::Str(copy_str(metric))));
        unit.push((copy_str("process_name"), Json::Str(copy_str(self.process_name.as_str()))));
        unit.push((copy_str("quantity"), Json::Number(JsonNumber::Int(if quantity > 0 { quantity } else { 1 }))));
        unit.push((copy_str("account_id"), self.account_id.deep_clone()));
        unit.push((copy_str("account_currency"), self.account_currency.deep_clone()));
        unit.push((copy_str("account_type"), self.account_type.deep_clone()));
        proof {
            lemma_view_members(unit@);
        }
        let mut units: Vec<Json> = Vec::new();
        units.push(Json::Object(unit));
        proof {
            lemma_view_seq(units@);
        }
        let mut out: Vec<(String, Json)> = Vec::new();
        out.push((copy_str("units"), Json::Array(units)));
        proof {
            lemma_view_members(out@);
        }
        let ghost cm = capture_message(*old(self), metric@, quantity as int);
        assert(view_members(unit@) =~= cm->Obj_0[0].1->Arr_0[0]->Obj_0);
        assert(view_seq(units@) =~= cm->Obj_0[0].1->Arr_0);
        assert(view_members(out@) =~= cm->Obj_0);
        Ok(Some(Json::Object(out)))
    }
}

} // verus!
