//! Model download bookkeeping: download settings, the stable ordering of
//! the model list, and the outcome of a batch download.

use vstd::prelude::*;

verus! {

/// Whether a model entry is enabled when its file does not say.
pub fn default_enabled() -> (b: bool)
    ensures
        b,
{
    true
}

/// Default number of concurrent downloads.
pub fn default_max_concurrent() -> (n: usize)
    ensures
        n == 2,
{
    2
}

/// Default download timeout, in seconds.
pub fn default_timeout() -> (t: u64)
    ensures
        t == 300,
{
    300
}

/// Default number of retries.
pub fn default_retries() -> (n: u32)
    ensures
        n == 3,
{
    3
}

/// Whether existing files are checked before downloading, by default.
pub fn default_verify() -> (b: bool)
    ensures
        b,
{
    true
}

/// Download settings of the model list.
#[derive(Debug, Clone, Copy, PartialEq, Eq, Structural)]
pub struct DownloadSettings {
    pub max_concurrent: usize,
    pub timeout: u64,
    pub retries: u32,
    pub verify_exists: bool,
}

impl Default for DownloadSettings {
    fn default() -> (s: DownloadSettings)
        ensures
            s.max_concurrent == 2,
            s.timeout == 300,
            s.retries == 3,
            s.verify_exists,
    {
        DownloadSettings {
            max_concurrent: default_max_concurrent(),
            timeout: default_timeout(),
            retries: default_retries(),
            verify_exists: default_verify(),
        }
    }
}

/// Lexicographic order of character strings (by code point), which is the
/// order of their UTF-8 bytes.
pub open spec fn lex_lt(a: Seq<char>, b: Seq<char>) -> bool
    decreases a.len(),
{
    if a.len() == 0 {
        b.len() > 0
    } else if b.len() == 0 {
        false
    } else if a[0] != b[0] {
        (a[0] as int) < (b[0] as int)
    } else {
        lex_lt(a.drop_first(), b.drop_first())
    }
}

/// `lex_lt` is a strict total order.
pub proof fn lemma_lex_order(a: Seq<char>, b: Seq<char>, c: Seq<char>)
    ensures
        !lex_lt(a, a),
        a != b ==> lex_lt(a, b) || lex_lt(b, a),
        lex_lt(a, b) ==> !lex_lt(b, a),
        lex_lt(a, b) && lex_lt(b, c) ==> lex_lt(a, c),
    decreases a.len(),
{
    if a.len() > 0 && b.len() > 0 && c.len() > 0 {
        lemma_lex_order(a.drop_first(), b.drop_first(), c.drop_first());
    } else if a.len() > 0 && b.len() > 0 {
        lemma_lex_order(a.drop_first(), b.drop_first(), c);
    } else if a.len() > 0 {
        lemma_lex_order(a.drop_first(), b, c);
    }
    if a != b && a.len() > 0 && b.len() > 0 && a[0] == b[0] {
        assert(a.drop_first() != b.drop_first()) by {
            if a.drop_first() == b.drop_first() {
                assert(a =~= seq![a[0]] + a.drop_first());
                assert(b =~= seq![b[0]] + b.drop_first());
            }
        }
    }
    if a.len() == 0 && b.len() == 0 {
        assert(a =~= b);
    }
}

/// Whether `a` sorts strictly before `b`.
fn str_lt(a: &str, b: &str) -> (r: bool)
    ensures
        r == lex_lt(a@, b@),
{
    let la = a.unicode_len();
    let lb = b.unicode_len();
    let mut i: usize = 0;
    proof {
        assert(a@.subrange(0, la as int) =~= a@);
        assert(b@.subrange(0, lb as int) =~= b@);
    }
    while i < la && i < lb
        invariant
            la == a@.len(),
            lb == b@.len(),
            i <= la,
            i <= lb,
            a@.subrange(0, i as int) == b@.subrange(0, i as int),
            lex_lt(a@, b@) == lex_lt(a@.subrange(i as int, la as int), b@.subrange(i as int, lb as int)),
        decreases la - i,
    {
        let ca = a.get_char(i);
        let cb = b.get_char(i);
        proof {
            let ra = a@.subrange(i as int, la as int);
            let rb = b@.subrange(i as int, lb as int);
            assert(ra[0] == ca && rb[0] == cb);
            assert(ra.drop_first() =~= a@.subrange(i + 1, la as int));
            assert(rb.drop_first() =~= b@.subrange(i + 1, lb as int));
        }
        if ca != cb {
            return (ca as u32) < (cb as u32);
        }
        proof {
            assert(a@.subrange(0, i + 1) =~= a@.subrange(0, i as int).push(ca));
            assert(b@.subrange(0, i + 1) =~= b@.subrange(0, i as int).push(cb));
        }
        i = i + 1;
    }
    proof {
        assert(a@.subrange(i as int, la as int).len() == la - i);
    }
    i < lb
}

/// Entry `i` of `ids` sorts before entry `j`: by id, ties broken by
/// position.
pub open spec fn id_before(ids: Seq<Seq<char>>, i: int, j: int) -> bool {
    lex_lt(ids[i], ids[j]) || (ids[i] == ids[j] && i < j)
}

/// `order` lists every index of `ids` exactly once, in increasing order of
/// id (ties in their original order).
pub open spec fn is_id_order(ids: Seq<Seq<char>>, order: Seq<usize>) -> bool {
    &&& order.len() == ids.len()
    &&& forall|k: int| 0 <= k < order.len() ==> (#[trigger] order[k]) < ids.len()
    &&& forall|j: int| 0 <= j < ids.len() ==> #[trigger] occurs_in(order, j)
    &&& forall|a: int, b: int| 0 <= a < b < order.len() ==> id_before(ids, #[trigger] order[a] as int, #[trigger] order[b] as int)
}

/// The views of a list of strings.
pub open spec fn string_views(v: Seq<String>) -> Seq<Seq<char>> {
    v.map_values(|s: String| s@)
}

/// The positions of `ids` sorted by id (stable), which gives the model list
/// the same order on every call whatever order its entries were read in.
pub fn order_by_id(ids: &Vec<String>) -> (order: Vec<usize>)
    ensures
        is_id_order(string_views(ids@), order@),
{
    let ghost v = string_views(ids@);
    let n = ids.len();
    let mut order: Vec<usize> = Vec::new();
    let mut i: usize = 0;
    while i < n
        invariant
            n == ids@.len(),
            v == string_views(ids@),
            i <= n,
            order@.len() == i,
            forall|k: int| 0 <= k < order@.len() ==> (#[trigger] order@[k]) < i,
            forall|j: int| 0 <= j < i ==> #[trigger] occurs_in(order@, j),
            forall|a: int, b: int| 0 <= a < b < order@.len() ==> id_before(v, #[trigger] order@[a] as int, #[trigger] order@[b] as int),
        decreases n - i,
    {
        let mut p: usize = 0;
        while p < order.len() && !str_lt(ids[i].as_str(), ids[order[p]].as_str())
            invariant
                n == ids@.len(),
                v == string_views(ids@),
                i < n,
                p <= order@.len(),
                forall|k: int| 0 <= k < order@.len() ==> (#[trigger] order@[k]) < i,
                forall|k: int| 0 <= k < p ==> !lex_lt(v[i as int], v[#[trigger] order@[k] as int]),
            decreases order@.len() - p,
        {
            proof {
                assert(v[i as int] == ids@[i as int]@);
                assert(v[order@[p as int] as int] == ids@[order@[p as int] as int]@);
            }
            p = p + 1;
        }
        proof {
            assert(v[i as int] == ids@[i as int]@);
            if p < order@.len() {
                assert(v[order@[p as int] as int] == ids@[order@[p as int] as int]@);
            }
        }
        let ghost old_order = order@;
        order.insert(p, i);
        proof {
            let o = order@;
            assert(o =~= old_order.insert(p as int, i));
            assert(o[p as int] == i);
            assert forall|j: int| 0 <= j < i + 1 implies #[trigger] occurs_in(o, j) by {
                if j < i {
                    assert(occurs_in(old_order, j));
                    let a = choose|a: int| 0 <= a < old_order.len() && old_order[a] == j;
                    if a < p {
                        assert(o[a] == j);
                    } else {
                        assert(o[a + 1] == j);
                    }
                } else {
                    assert(o[p as int] == j);
                }
            }
            assert forall|a: int, b: int| 0 <= a < b < o.len() implies id_before(v, #[trigger] o[a] as int, #[trigger] o[b] as int) by {
                if a < p && b < p {
                    assert(o[a] == old_order[a] && o[b] == old_order[b]);
                } else if a < p && b == p {
                    let j = old_order[a] as int;
                    lemma_lex_order(v[i as int], v[j], v[j]);
                    assert(!lex_lt(v[i as int], v[j]));
                } else if a < p && b > p {
                    assert(o[a] == old_order[a] && o[b] == old_order[b - 1]);
                } else if a == p {
                    let j = old_order[b - 1] as int;
                    let q = old_order[p as int] as int;
                    assert(lex_lt(v[i as int], v[q]));
                    if b - 1 > p {
                        assert(id_before(v, q, j));
                        lemma_lex_order(v[i as int], v[q], v[j]);
                    }
                } else {
                    assert(o[a] == old_order[a - 1] && o[b] == old_order[b - 1]);
                }
            }
        }
        i = i + 1;
    }
    order
}

/// The positions of the enabled entries of `ids`, sorted by id (stable):
/// the model list shows the enabled models only, in the same order on every
/// call.
pub fn enabled_in_id_order(ids: &Vec<String>, enabled: &Vec<bool>) -> (order: Vec<usize>)
    requires
        ids@.len() == enabled@.len(),
    ensures
        forall|k: int| 0 <= k < order@.len() ==> (#[trigger] order@[k]) < ids@.len() && enabled@[order@[k] as int],
        forall|j: int| 0 <= j < ids@.len() && enabled@[j] ==> #[trigger] occurs_in(order@, j),
        forall|a: int, b: int|
            0 <= a < b < order@.len() ==> id_before(string_views(ids@), #[trigger] order@[a] as int, #[trigger] order@[b] as int),
{
    let ghost v = string_views(ids@);
    let full = order_by_id(ids);
    let n = full.len();
    let mut order: Vec<usize> = Vec::new();
    let ghost mut pos: Seq<int> = Seq::empty();
    let mut i: usize = 0;
    while i < n
        invariant
            v == string_views(ids@),
            is_id_order(v, full@),
            n == full@.len(),
            n == ids@.len(),
            ids@.len() == enabled@.len(),
            i <= n,
            pos.len() == order@.len(),
            forall|k: int| 0 <= k < pos.len() ==> 0 <= #[trigger] pos[k] < i && order@[k] == full@[pos[k]],
            forall|k: int, l: int| 0 <= k < l < pos.len() ==> #[trigger] pos[k] < #[trigger] pos[l],
            forall|k: int| 0 <= k < order@.len() ==> (#[trigger] order@[k]) < ids@.len() && enabled@[order@[k] as int],
            forall|p: int| 0 <= p < i && enabled@[full@[p] as int] ==> #[trigger] occurs_in(order@, full@[p] as int),
        decreases n - i,
    {
        let j = full[i];
        if enabled[j] {
            let ghost before = order@;
            order.push(j);
            proof {
                pos = pos.push(i as int);
                assert forall|p: int| 0 <= p < i + 1 && enabled@[full@[p] as int] implies #[trigger] occurs_in(order@, full@[p] as int) by {
                    if p < i {
                        assert(occurs_in(before, full@[p] as int));
                        let a = choose|a: int| 0 <= a < before.len() && before[a] == full@[p];
                        assert(order@[a] == full@[p]);
                    } else {
                        assert(order@[before.len() as int] == full@[p]);
                    }
                }
            }
        }
        i = i + 1;
    }
    proof {
        assert forall|j: int| 0 <= j < ids@.len() && enabled@[j] implies #[trigger] occurs_in(order@, j) by {
            assert(occurs_in(full@, j));
            let p = choose|p: int| 0 <= p < full@.len() && full@[p] == j;
            assert(occurs_in(order@, full@[p] as int));
        }
        assert forall|a: int, b: int| 0 <= a < b < order@.len() implies id_before(v, #[trigger] order@[a] as int, #[trigger] order@[b] as int) by {
            let pa = pos[a];
            let pb = pos[b];
            assert(pa < pb);
            assert(id_before(v, full@[pa] as int, full@[pb] as int));
        }
    }
    order
}

/// Index `j` occurs somewhere in `o`.
pub open spec fn occurs_in(o: Seq<usize>, j: int) -> bool {
    exists|a: int| 0 <= a < o.len() && o[a] == j
}

/// The ids of `ids` listed in the order `order`.
pub open spec fn ids_in_order(ids: Seq<Seq<char>>, order: Seq<usize>) -> Seq<Seq<char>> {
    order.map_values(|i: usize| ids[i as int])
}

/// No id occurs twice in `ids`.
pub open spec fn distinct_ids(ids: Seq<Seq<char>>) -> bool {
    forall|i: int, j: int| 0 <= i < j < ids.len() ==> ids[i] != ids[j]
}

/// `s` is strictly increasing under `lt`.
spec fn increasing<A>(s: Seq<A>, lt: spec_fn(A, A) -> bool) -> bool {
    forall|i: int, j: int| 0 <= i < j < s.len() ==> lt(#[trigger] s[i], #[trigger] s[j])
}

/// Two sequences that are strictly increasing under the same asymmetric
/// relation and hold the same elements are equal.
proof fn lemma_increasing_unique<A>(s: Seq<A>, t: Seq<A>, lt: spec_fn(A, A) -> bool)
    requires
        increasing(s, lt),
        increasing(t, lt),
        s.to_set() == t.to_set(),
        forall|x: A, y: A| #[trigger] lt(x, y) ==> !lt(y, x),
    ensures
        s == t,
    decreases s.len(),
{
    if s.len() == 0 {
        if t.len() > 0 {
            assert(t.to_set().contains(t[0]));
        }
        assert(s =~= t);
    } else if t.len() == 0 {
        assert(s.to_set().contains(s[0]));
    } else {
        assert(t.to_set().contains(s[0]));
        assert(s.to_set().contains(t[0]));
        let j = choose|j: int| 0 <= j < t.len() && t[j] == s[0];
        let i = choose|i: int| 0 <= i < s.len() && s[i] == t[0];
        if s[0] != t[0] {
            assert(i > 0 && j > 0);
            assert(lt(s[0], s[i]));
            assert(lt(t[0], t[j]));
        }
        let s1 = s.drop_first();
        let t1 = t.drop_first();
        assert(s1.to_set() =~= t1.to_set()) by {
            assert forall|x: A| s1.to_set().contains(x) implies t1.to_set().contains(x) by {
                let p = choose|p: int| 0 <= p < s1.len() && s1[p] == x;
                assert(s[p + 1] == x);
                assert(lt(s[0], s[p + 1]));
                assert(s.to_set().contains(x));
                let q = choose|q: int| 0 <= q < t.len() && t[q] == x;
                if q == 0 {
                    assert(lt(x, x));
                }
                assert(t1[q - 1] == x);
            }
            assert forall|x: A| t1.to_set().contains(x) implies s1.to_set().contains(x) by {
                let p = choose|p: int| 0 <= p < t1.len() && t1[p] == x;
                assert(t[p + 1] == x);
                assert(lt(t[0], t[p + 1]));
                assert(t.to_set().contains(x));
                let q = choose|q: int| 0 <= q < s.len() && s[q] == x;
                if q == 0 {
                    assert(lt(x, x));
                }
                assert(s1[q - 1] == x);
            }
        }
        assert forall|a: int, b: int| 0 <= a < b < s1.len() implies lt(#[trigger] s1[a], #[trigger] s1[b]) by {
            assert(lt(s[a + 1], s[b + 1]));
        }
        assert forall|a: int, b: int| 0 <= a < b < t1.len() implies lt(#[trigger] t1[a], #[trigger] t1[b]) by {
            assert(lt(t[a + 1], t[b + 1]));
        }
        lemma_increasing_unique(s1, t1, lt);
        assert(s =~= t) by {
            assert(s =~= seq![s[0]] + s1);
            assert(t =~= seq![t[0]] + t1);
        }
    }
}

proof fn lemma_id_before_order(ids: Seq<Seq<char>>, a: int, b: int, c: int)
    ensures
        !id_before(ids, a, a),
        id_before(ids, a, b) ==> !id_before(ids, b, a),
        id_before(ids, a, b) && id_before(ids, b, c) ==> id_before(ids, a, c),
        a != b ==> id_before(ids, a, b) || id_before(ids, b, a),
{
    lemma_lex_order(ids[a], ids[b], ids[c]);
    lemma_lex_order(ids[b], ids[a], ids[c]);
    lemma_lex_order(ids[a], ids[a], ids[a]);
}

/// Sorting by id fixes the order completely: two orders of the same ids are
/// the same sequence.
pub proof fn lemma_id_order_unique(ids: Seq<Seq<char>>, o1: Seq<usize>, o2: Seq<usize>)
    requires
        is_id_order(ids, o1),
        is_id_order(ids, o2),
    ensures
        o1 == o2,
{
    let lt = |x: usize, y: usize| id_before(ids, x as int, y as int);
    assert forall|x: usize, y: usize| #[trigger] lt(x, y) implies !lt(y, x) by {
        lemma_id_before_order(ids, x as int, y as int, x as int);
    }
    assert forall|i: int, j: int| 0 <= i < j < o1.len() implies lt(#[trigger] o1[i], #[trigger] o1[j]) by {
        assert(id_before(ids, o1[i] as int, o1[j] as int));
    }
    assert forall|i: int, j: int| 0 <= i < j < o2.len() implies lt(#[trigger] o2[i], #[trigger] o2[j]) by {
        assert(id_before(ids, o2[i] as int, o2[j] as int));
    }
    assert(o1.to_set() =~= o2.to_set()) by {
        assert forall|x: usize| o1.to_set().contains(x) implies o2.to_set().contains(x) by {
            let a = choose|a: int| 0 <= a < o1.len() && o1[a] == x;
            assert(o1[a] < ids.len());
            assert(occurs_in(o2, x as int));
        }
        assert forall|x: usize| o2.to_set().contains(x) implies o1.to_set().contains(x) by {
            let a = choose|a: int| 0 <= a < o2.len() && o2[a] == x;
            assert(o2[a] < ids.len());
            assert(occurs_in(o1, x as int));
        }
    }
    lemma_increasing_unique(o1, o2, lt);
}

/// Two lists of distinct ids that hold the same ids give the same list once
/// sorted: the model list does not depend on the order in which its entries
/// were read.
pub proof fn lemma_order_independent(a: Seq<Seq<char>>, b: Seq<Seq<char>>, oa: Seq<usize>, ob: Seq<usize>)
    requires
        distinct_ids(a),
        distinct_ids(b),
        a.to_set() == b.to_set(),
        is_id_order(a, oa),
        is_id_order(b, ob),
    ensures
        ids_in_order(a, oa) == ids_in_order(b, ob),
{
    let sa = ids_in_order(a, oa);
    let sb = ids_in_order(b, ob);
    let lt = |x: Seq<char>, y: Seq<char>| lex_lt(x, y);
    assert forall|x: Seq<char>, y: Seq<char>| #[trigger] lt(x, y) implies !lt(y, x) by {
        lemma_lex_order(x, y, x);
    }
    assert forall|i: int, j: int| 0 <= i < j < sa.len() implies lt(#[trigger] sa[i], #[trigger] sa[j]) by {
        assert(id_before(a, oa[i] as int, oa[j] as int));
        if oa[i] == oa[j] {
            lemma_lex_order(a[oa[i] as int], a[oa[i] as int], a[oa[i] as int]);
        } else if oa[i] < oa[j] {
            assert(a[oa[i] as int] != a[oa[j] as int]);
        } else {
            assert(a[oa[j] as int] != a[oa[i] as int]);
        }
    }
    assert forall|i: int, j: int| 0 <= i < j < sb.len() implies lt(#[trigger] sb[i], #[trigger] sb[j]) by {
        assert(id_before(b, ob[i] as int, ob[j] as int));
        if ob[i] == ob[j] {
            lemma_lex_order(b[ob[i] as int], b[ob[i] as int], b[ob[i] as int]);
        } else if ob[i] < ob[j] {
            assert(b[ob[i] as int] != b[ob[j] as int]);
        } else {
            assert(b[ob[j] as int] != b[ob[i] as int]);
        }
    }
    lemma_ids_in_order_set(a, oa);
    lemma_ids_in_order_set(b, ob);
    lemma_increasing_unique(sa, sb, lt);
}

/// Listing every index once keeps the set of ids.
proof fn lemma_ids_in_order_set(ids: Seq<Seq<char>>, o: Seq<usize>)
    requires
        is_id_order(ids, o),
    ensures
        ids_in_order(ids, o).to_set() == ids.to_set(),
{
    let s = ids_in_order(ids, o);
    assert forall|x: Seq<char>| s.to_set().contains(x) implies ids.to_set().contains(x) by {
        let p = choose|p: int| 0 <= p < s.len() && s[p] == x;
        assert(ids[o[p] as int] == x);
    }
    assert forall|x: Seq<char>| ids.to_set().contains(x) implies s.to_set().contains(x) by {
        let j = choose|j: int| 0 <= j < ids.len() && ids[j] == x;
        assert(occurs_in(o, j));
        let p = choose|p: int| 0 <= p < o.len() && o[p] == j;
        assert(s[p] == x);
    }
    assert(s.to_set() =~= ids.to_set());
}


/// The message of a batch download in which every download failed: a header
/// line followed by one line per failure.
pub open spec fn all_failed_message(errors: Seq<Seq<char>>) -> Seq<char> {
    "All downloads failed:\n"@ + joined_lines(errors)
}

/// The strings joined with newlines.
pub open spec fn joined_lines(items: Seq<Seq<char>>) -> Seq<char>
    decreases items.len(),
{
    if items.len() == 0 {
        Seq::empty()
    } else if items.len() == 1 {
        items[0]
    } else {
        joined_lines(items.drop_last()) + "\n"@ + items.last()
    }
}

/// The outcome of downloading every missing model: an error only when
/// something failed and nothing was downloaded; otherwise the downloaded
/// paths (partial failures are only reported).
pub fn summarize_downloads<T>(paths: Vec<T>, errors: &Vec<String>) -> (r: Result<Vec<T>, String>)
    ensures
        (errors@.len() > 0 && paths@.len() == 0) ==> (r matches Err(m) && m@ == all_failed_message(string_views(errors@))),
        !(errors@.len() > 0 && paths@.len() == 0) ==> (r matches Ok(p) && p@ == paths@),
{
    if errors.len() > 0 && paths.len() == 0 {
        let mut msg = String::from_str("All downloads failed:\n");
        let n = errors.len();
        let mut i: usize = 0;
        let ghost views = string_views(errors@);
        while i < n
            invariant
                n == errors@.len(),
                views == string_views(errors@),
                i <= n,
                msg@ == "All downloads failed:\n"@ + joined_lines(views.subrange(0, i as int)),
            decreases n - i,
        {
            proof {
                let pre = views.subrange(0, i + 1);
                assert(pre.drop_last() =~= views.subrange(0, i as int));
                assert(pre.last() == errors@[i as int]@);
            }
            if i > 0 {
                msg.append("\n");
            }
            msg.append(errors[i].as_str());
            proof {
                let pre = views.subrange(0, i + 1);
                if i == 0 {
                    assert(views.subrange(0, 0 as int).len() == 0);
                    assert(joined_lines(views.subrange(0, 0 as int)) =~= Seq::<char>::empty());
                }
            }
            i = i + 1;
        }
        proof {
            assert(views.subrange(0, n as int) =~= views);
        }
        Err(msg)
    } else {
        Ok(paths)
    }
}

/// Whether model `i` is to be downloaded: it is enabled and its file is not
/// there yet.
pub open spec fn is_pending(enabled: Seq<bool>, downloaded: Seq<bool>, i: int) -> bool {
    enabled[i] && !downloaded[i]
}

/// Which of the models (given, in one order, by whether each is enabled and
/// whether its file is already there) a download of everything missing
/// fetches: the positions of the enabled models not yet downloaded, in
/// increasing order.
pub fn pending_downloads(enabled: &Vec<bool>, downloaded: &Vec<bool>) -> (pending: Vec<usize>)
    requires
        enabled@.len() == downloaded@.len(),
    ensures
        forall|k: int| 0 <= k < pending@.len() ==> pending@[k] < enabled@.len() && is_pending(enabled@, downloaded@, pending@[k] as int),
        forall|k: int, l: int| 0 <= k < l < pending@.len() ==> pending@[k] < pending@[l],
        forall|i: int| 0 <= i < enabled@.len() && is_pending(enabled@, downloaded@, i) ==> pending@.contains(i as usize),
{
    let mut pending: Vec<usize> = Vec::new();
    let n = enabled.len();
    let mut i: usize = 0;
    while i < n
        invariant
            n == enabled@.len(),
            n == downloaded@.len(),
            i <= n,
            forall|k: int| 0 <= k < pending@.len() ==> pending@[k] < i && is_pending(enabled@, downloaded@, pending@[k] as int),
            forall|k: int, l: int| 0 <= k < l < pending@.len() ==> pending@[k] < pending@[l],
            forall|j: int| 0 <= j < i && is_pending(enabled@, downloaded@, j) ==> pending@.contains(j as usize),
        decreases n - i,
    {
        if enabled[i] && !downloaded[i] {
            let ghost before = pending@;
            pending.push(i);
            proof {
                assert forall|j: int| 0 <= j < i && is_pending(enabled@, downloaded@, j) implies pending@.contains(j as usize) by {
                    let k = choose|k: int| 0 <= k < before.len() && before[k] == j as usize;
                    assert(pending@[k] == j as usize);
                }
                assert(pending@[before.len() as int] == i);
            }
        }
        i = i + 1;
    }
    pending
}

} // verus!
