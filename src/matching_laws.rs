use vstd::prelude::*;

use crate::stamp::{digit, stamp_before, stamp_text, two_digits, Stamp};
use crate::template::{
    best_match, candidate, content_view, is_white_space, json_stem, trim_end, trim_start, trimmed, json_string_list, normalized, pref_file_name, stem_key,
    template_file_name, TemplateFile,
};
use crate::text::text_less;

verus! {

proof fn lemma_template_name_key(k: Seq<char>)
    ensures
        json_stem(template_file_name(k)) == Some("template_"@ + k),
        stem_key("template_"@ + k) == k,
{
    reveal_strlit(".json");
    reveal_strlit("template_");
    let n = template_file_name(k);
    assert(n.subrange(n.len() - 5, n.len() as int) =~= ".json"@);
    assert(n.subrange(0, n.len() - 5) =~= "template_"@ + k);
    let st = "template_"@ + k;
    assert(st.subrange(0, 9) =~= "template_"@);
    assert(st.subrange(9, st.len() as int) =~= k);
}

/// Texts that share a prefix and a suffix order as their middles do, where
/// the middles have one length.
proof fn lemma_text_less_middle(p: Seq<char>, a: Seq<char>, b: Seq<char>, s: Seq<char>)
    requires
        a.len() == b.len(),
        text_less(a, b),
    ensures
        text_less(p + a + s, p + b + s),
    decreases p.len() + a.len(),
{
    if p.len() > 0 {
        assert((p + a + s).drop_first() =~= p.drop_first() + a + s);
        assert((p + b + s).drop_first() =~= p.drop_first() + b + s);
        lemma_text_less_middle(p.drop_first(), a, b, s);
    } else {
        assert(p + a + s =~= a + s);
        assert(p + b + s =~= b + s);
        if a[0] == b[0] {
            assert((a + s).drop_first() =~= a.drop_first() + s);
            assert((b + s).drop_first() =~= b.drop_first() + s);
            lemma_text_less_middle(p, a.drop_first(), b.drop_first(), s);
            assert(p + a.drop_first() + s =~= a.drop_first() + s);
            assert(p + b.drop_first() + s =~= b.drop_first() + s);
        }
    }
}

/// Equal heads, then the tails decide.
proof fn lemma_text_less_tail(p: Seq<char>, a: Seq<char>, b: Seq<char>)
    requires
        text_less(a, b),
    ensures
        text_less(p + a, p + b),
    decreases p.len(),
{
    if p.len() > 0 {
        assert((p + a).drop_first() =~= p.drop_first() + a);
        assert((p + b).drop_first() =~= p.drop_first() + b);
        lemma_text_less_tail(p.drop_first(), a, b);
    } else {
        assert(p + a =~= a);
        assert(p + b =~= b);
    }
}

proof fn lemma_digit_code(n: int)
    requires
        0 <= n < 10,
    ensures
        digit(n) as u32 == 48 + n,
{
}

proof fn lemma_two_digits_less(a: int, b: int)
    requires
        0 <= a < b < 100,
    ensures
        text_less(two_digits(a), two_digits(b)),
{
    assert(a == 10 * (a / 10) + a % 10);
    assert(b == 10 * (b / 10) + b % 10);
    let ta = two_digits(a);
    let tb = two_digits(b);
    assert(ta.drop_first() =~= seq![digit(a % 10)]);
    assert(tb.drop_first() =~= seq![digit(b % 10)]);
    assert(seq![digit(a % 10)].drop_first() =~= Seq::<char>::empty());
    assert(seq![digit(b % 10)].drop_first() =~= Seq::<char>::empty());
    lemma_digit_code(a / 10);
    lemma_digit_code(b / 10);
    lemma_digit_code(a % 10);
    lemma_digit_code(b % 10);
    reveal_with_fuel(text_less, 3);
}

/// Blocks of two digits compared from the left: equal blocks pass the
/// decision on, the first differing block decides.
proof fn lemma_blocks_less(xa: int, xb: int, ra: Seq<char>, rb: Seq<char>)
    requires
        0 <= xa < 100,
        0 <= xb < 100,
        xa < xb || (xa == xb && text_less(ra, rb)),
    ensures
        text_less(two_digits(xa) + ra, two_digits(xb) + rb),
{
    if xa < xb {
        lemma_two_digits_less(xa, xb);
        lemma_text_less_middle(Seq::<char>::empty(), two_digits(xa), two_digits(xb), Seq::<char>::empty());
        assert(Seq::<char>::empty() + two_digits(xa) + Seq::<char>::empty() =~= two_digits(xa));
        assert(Seq::<char>::empty() + two_digits(xb) + Seq::<char>::empty() =~= two_digits(xb));
        lemma_prefix_decides(two_digits(xa), two_digits(xb), ra, rb);
    } else {
        lemma_text_less_tail(two_digits(xa), ra, rb);
    }
}

proof fn lemma_prefix_decides(a: Seq<char>, b: Seq<char>, ra: Seq<char>, rb: Seq<char>)
    requires
        a.len() == b.len(),
        text_less(a, b),
    ensures
        text_less(a + ra, b + rb),
    decreases a.len(),
{
    assert((a + ra).drop_first() =~= a.drop_first() + ra);
    assert((b + rb).drop_first() =~= b.drop_first() + rb);
    if a[0] == b[0] {
        lemma_prefix_decides(a.drop_first(), b.drop_first(), ra, rb);
    }
}

/// A well-formed time that comes before another has the smaller text.
pub proof fn lemma_stamp_text_ordered(a: Stamp, b: Stamp)
    requires
        a.wf(),
        b.wf(),
        stamp_before(a, b),
    ensures
        text_less(stamp_text(a), stamp_text(b)),
{
    let us = seq!['_'];
    let ya = a.year as int;
    let yb = b.year as int;
    assert(ya == 100 * (ya / 100) + ya % 100);
    assert(yb == 100 * (yb / 100) + yb % 100);
    let sa = two_digits(a.second as int);
    let sb = two_digits(b.second as int);
    let mia = two_digits(a.minute as int) + sa;
    let mib = two_digits(b.minute as int) + sb;
    let ha = two_digits(a.hour as int) + mia;
    let hb = two_digits(b.hour as int) + mib;
    let ua = us + ha;
    let ub = us + hb;
    let da = two_digits(a.day as int) + ua;
    let db = two_digits(b.day as int) + ub;
    let ma = two_digits(a.month as int) + da;
    let mb = two_digits(b.month as int) + db;
    let yla = two_digits(ya % 100) + ma;
    let ylb = two_digits(yb % 100) + mb;
    let yha = two_digits(ya / 100) + yla;
    let yhb = two_digits(yb / 100) + ylb;
    assert(stamp_text(a) =~= yha);
    assert(stamp_text(b) =~= yhb);
    if a.year == b.year && a.month == b.month && a.day == b.day && a.hour == b.hour && a.minute
        == b.minute {
        lemma_two_digits_less(a.second as int, b.second as int);
        lemma_prefix_decides(sa, sb, Seq::<char>::empty(), Seq::<char>::empty());
        assert(sa + Seq::<char>::empty() =~= sa);
        assert(sb + Seq::<char>::empty() =~= sb);
    }
    if a.year == b.year && a.month == b.month && a.day == b.day && a.hour == b.hour {
        lemma_blocks_less(a.minute as int, b.minute as int, sa, sb);
    }
    if a.year == b.year && a.month == b.month && a.day == b.day {
        lemma_blocks_less(a.hour as int, b.hour as int, mia, mib);
        if a.hour != b.hour || text_less(ha, hb) {
            lemma_text_less_tail(us, ha, hb);
        }
    }
    if a.year == b.year && a.month == b.month {
        lemma_blocks_less(a.day as int, b.day as int, ua, ub);
    }
    if a.year == b.year {
        lemma_blocks_less(a.month as int, b.month as int, da, db);
    }
    if ya / 100 == yb / 100 {
        lemma_blocks_less(ya % 100, yb % 100, ma, mb);
    }
    lemma_blocks_less(ya / 100, yb / 100, yla, ylb);
}

/// With one saved template, a query finds its preference exactly when the
/// trimmed labels of the query equal the trimmed saved labels, in order.
pub proof fn lemma_match_is_exact(
    ts: Seq<TemplateFile>,
    key: Seq<char>,
    saved: Seq<Seq<char>>,
    query: Seq<Seq<char>>,
    prefs: Seq<Seq<char>>,
    r: Option<Seq<char>>,
)
    requires
        ts.len() == 1,
        ts[0].name@ == template_file_name(key),
        content_view(ts[0]) is Some,
        json_string_list(content_view(ts[0])->Some_0) == Some(saved),
        prefs.contains(pref_file_name(key)),
        best_match(ts, normalized(query), prefs, r),
    ensures
        r is Some <==> normalized(saved) == normalized(query),
        r is Some ==> r == Some(pref_file_name(key)),
{
    lemma_template_name_key(key);
    if normalized(saved) == normalized(query) {
        assert(candidate(ts, 0, normalized(query), prefs));
    }
}

/// Of two saves of one header shape, a query for that shape finds the
/// preference of the later one.
pub proof fn lemma_most_recent_wins(
    ts: Seq<TemplateFile>,
    earlier: Stamp,
    later: Stamp,
    later_index: int,
    saved: Seq<Seq<char>>,
    query: Seq<Seq<char>>,
    prefs: Seq<Seq<char>>,
    r: Option<Seq<char>>,
)
    requires
        earlier.wf(),
        later.wf(),
        stamp_before(earlier, later),
        forall|i: int|
            0 <= i < ts.len() ==> (#[trigger] ts[i].name@ == template_file_name(
                stamp_text(earlier),
            ) || ts[i].name@ == template_file_name(stamp_text(later))) && content_view(ts[i]) is Some
                && json_string_list(content_view(ts[i])->Some_0) == Some(saved),
        0 <= later_index < ts.len(),
        ts[later_index].name@ == template_file_name(stamp_text(later)),
        normalized(saved) == normalized(query),
        prefs.contains(pref_file_name(stamp_text(later))),
        best_match(ts, normalized(query), prefs, r),
    ensures
        r == Some(pref_file_name(stamp_text(later))),
{
    let k1 = stamp_text(earlier);
    let k2 = stamp_text(later);
    let shape = normalized(query);
    lemma_template_name_key(k1);
    lemma_template_name_key(k2);
    assert(candidate(ts, later_index, shape, prefs));
    lemma_stamp_text_ordered(earlier, later);
    lemma_text_less_middle("template_"@, k1, k2, ".json"@);
    let i = choose|i: int|
        0 <= i < ts.len() && #[trigger] candidate(ts, i, shape, prefs) && r->Some_0
            == pref_file_name(stem_key(json_stem(ts[i].name@)->Some_0)) && forall|j: int|
            0 <= j < ts.len() && #[trigger] candidate(ts, j, shape, prefs) ==> !text_less(
                ts[i].name@,
                ts[j].name@,
            );
    assert(!text_less(ts[i].name@, ts[later_index].name@));
    assert(ts[i].name@ == template_file_name(k2));
}

/// A template file that cannot be read, or whose text is not a list of
/// labels, changes no answer: the lookup over the directory with it answers
/// as the lookup without it.
pub proof fn lemma_unusable_template_ignored(
    ts: Seq<TemplateFile>,
    t: TemplateFile,
    shape: Seq<Seq<char>>,
    prefs: Seq<Seq<char>>,
    r: Option<Seq<char>>,
)
    requires
        content_view(t) is None || json_string_list(content_view(t)->Some_0) is None,
    ensures
        best_match(ts.push(t), shape, prefs, r) <==> best_match(ts, shape, prefs, r),
{
    let ts2 = ts.push(t);
    assert(!candidate(ts2, ts.len() as int, shape, prefs));
    assert forall|i: int| 0 <= i < ts.len() implies candidate(ts2, i, shape, prefs) == candidate(
        ts,
        i,
        shape,
        prefs,
    ) && ts2[i] == ts[i] by {
        assert(ts2[i] == ts[i]);
    }
    if best_match(ts2, shape, prefs, r) {
        if let Some(p) = r {
            let i = choose|i: int|
                0 <= i < ts2.len() && #[trigger] candidate(ts2, i, shape, prefs) && p
                    == pref_file_name(stem_key(json_stem(ts2[i].name@)->Some_0)) && forall|j: int|
                    0 <= j < ts2.len() && #[trigger] candidate(ts2, j, shape, prefs) ==> !text_less(
                        ts2[i].name@,
                        ts2[j].name@,
                    );
            assert(candidate(ts, i, shape, prefs));
        }
    }
    if best_match(ts, shape, prefs, r) {
        if let Some(p) = r {
            let i = choose|i: int|
                0 <= i < ts.len() && #[trigger] candidate(ts, i, shape, prefs) && p
                    == pref_file_name(stem_key(json_stem(ts[i].name@)->Some_0)) && forall|j: int|
                    0 <= j < ts.len() && #[trigger] candidate(ts, j, shape, prefs) ==> !text_less(
                        ts[i].name@,
                        ts[j].name@,
                    );
            assert(candidate(ts2, i, shape, prefs));
            assert forall|j: int|
                0 <= j < ts2.len() && #[trigger] candidate(ts2, j, shape, prefs) implies !text_less(
                ts2[i].name@,
                ts2[j].name@,
            ) by {
                assert(candidate(ts, j, shape, prefs));
            }
        }
    }
}

proof fn lemma_trim_start_drops(p: Seq<char>, x: Seq<char>)
    requires
        forall|i: int| 0 <= i < p.len() ==> is_white_space(#[trigger] p[i]),
        x.len() == 0 || !is_white_space(x[0]),
    ensures
        trim_start(p + x) == x,
    decreases p.len(),
{
    if p.len() > 0 {
        assert((p + x).drop_first() =~= p.drop_first() + x);
        assert((p + x)[0] == p[0]);
        lemma_trim_start_drops(p.drop_first(), x);
    } else {
        assert(p + x =~= x);
    }
}

proof fn lemma_trim_end_drops(x: Seq<char>, q: Seq<char>)
    requires
        forall|i: int| 0 <= i < q.len() ==> is_white_space(#[trigger] q[i]),
        x.len() == 0 || !is_white_space(x.last()),
    ensures
        trim_end(x + q) == x,
    decreases q.len(),
{
    if q.len() > 0 {
        assert((x + q).drop_last() =~= x + q.drop_last());
        assert((x + q).last() == q[q.len() - 1]);
        lemma_trim_end_drops(x, q.drop_last());
    } else {
        assert(x + q =~= x);
    }
}

/// A label padded on either side with white space compares as the label
/// itself, where the label neither begins nor ends with white space.
pub proof fn lemma_padded_label_trims(p: Seq<char>, x: Seq<char>, q: Seq<char>)
    requires
        forall|i: int| 0 <= i < p.len() ==> is_white_space(#[trigger] p[i]),
        forall|i: int| 0 <= i < q.len() ==> is_white_space(#[trigger] q[i]),
        x.len() == 0 || (!is_white_space(x[0]) && !is_white_space(x.last())),
    ensures
        trimmed(p + x + q) == x,
{
    if x.len() == 0 {
        assert(p + x + q =~= p + q);
        assert forall|i: int| 0 <= i < (p + q).len() implies is_white_space(#[trigger] (p + q)[i]) by {
            if i >= p.len() {
                assert((p + q)[i] == q[i - p.len()]);
            }
        }
        lemma_trim_start_drops(p + q, x);
        assert(p + q + x =~= p + q);
        lemma_trim_end_drops(x, x);
    } else {
        assert(p + x + q =~= p + (x + q));
        assert((x + q)[0] == x[0]);
        lemma_trim_start_drops(p, x + q);
        lemma_trim_end_drops(x, q);
    }
}

} // verus!
