//! Route patterns and request paths: trimming, splitting into segments, and
//! matching a pattern against a concrete path.

use vstd::prelude::*;
use crate::strmap::{StrMap, str_eq, pair_view};

verus! {

pub open spec fn is_sep(c: char) -> bool {
    c == '/'
}

/// `s` without its leading separators.
pub open spec fn trim_start(s: Seq<char>) -> Seq<char>
    decreases s.len(),
{
    if s.len() > 0 && is_sep(s[0]) {
        trim_start(s.drop_first())
    } else {
        s
    }
}

/// `s` without its trailing separators.
pub open spec fn trim_end(s: Seq<char>) -> Seq<char>
    decreases s.len(),
{
    if s.len() > 0 && is_sep(s.last()) {
        trim_end(s.drop_last())
    } else {
        s
    }
}

/// `s` without leading and trailing separators.
pub open spec fn trim(s: Seq<char>) -> Seq<char> {
    trim_end(trim_start(s))
}

/// The pieces of `s` between separators; the empty sequence is one empty piece.
pub open spec fn split(s: Seq<char>) -> Seq<Seq<char>>
    decreases s.len(),
{
    if s.len() == 0 {
        seq![Seq::<char>::empty()]
    } else {
        let p = split(s.drop_last());
        if is_sep(s.last()) {
            p.push(Seq::<char>::empty())
        } else {
            p.update(p.len() - 1, p.last().push(s.last()))
        }
    }
}

/// The segments of a pattern or of a path.
pub open spec fn segments(s: Seq<char>) -> Seq<Seq<char>> {
    split(trim(s))
}

/// A pattern segment that names a parameter starts with `:`.
pub open spec fn is_param(seg: Seq<char>) -> bool {
    seg.len() > 0 && seg[0] == ':'
}

/// Every literal segment of `ps` equals the segment of `rs` at its position.
pub open spec fn literals_agree(ps: Seq<Seq<char>>, rs: Seq<Seq<char>>) -> bool {
    forall|i: int| 0 <= i < ps.len() && !is_param(ps[i]) ==> ps[i] == rs[i]
}

/// The parameters bound by the first `n` segments, left to right: a later
/// binding of a name replaces an earlier one.
pub open spec fn bindings(ps: Seq<Seq<char>>, rs: Seq<Seq<char>>, n: nat) -> Map<Seq<char>, Seq<char>>
    decreases n,
{
    if n == 0 {
        Map::empty()
    } else {
        let m = bindings(ps, rs, (n - 1) as nat);
        let i = n - 1;
        if is_param(ps[i]) {
            m.insert(ps[i].drop_first(), rs[i])
        } else {
            m
        }
    }
}

/// What matching `pattern` against `path` gives: the parameter bindings, or
/// `None` when the segment counts differ or a literal segment differs.
pub open spec fn match_spec(pattern: Seq<char>, path: Seq<char>) -> Option<Map<Seq<char>, Seq<char>>> {
    let ps = segments(pattern);
    let rs = segments(path);
    if ps.len() == rs.len() && literals_agree(ps, rs) {
        Some(bindings(ps, rs, ps.len()))
    } else {
        None
    }
}

pub open spec fn params_view(r: Option<StrMap>) -> Option<Map<Seq<char>, Seq<char>>> {
    match r {
        Some(m) => Some(m@),
        None => None,
    }
}

proof fn lemma_split_nonempty(s: Seq<char>)
    ensures
        split(s).len() >= 1,
    decreases s.len(),
{
    if s.len() > 0 {
        lemma_split_nonempty(s.drop_last());
    }
}

proof fn lemma_trim_start_skip(s: Seq<char>, lo: int)
    requires
        0 <= lo <= s.len(),
        forall|j: int| 0 <= j < lo ==> is_sep(s[j]),
    ensures
        trim_start(s) == trim_start(s.subrange(lo, s.len() as int)),
    decreases lo,
{
    if lo > 0 {
        lemma_trim_start_skip(s.drop_first(), lo - 1);
        assert(s.drop_first().subrange(lo - 1, s.len() - 1) =~= s.subrange(lo, s.len() as int));
    } else {
        assert(s.subrange(0, s.len() as int) =~= s);
    }
}

proof fn lemma_trim_end_skip(s: Seq<char>, hi: int)
    requires
        0 <= hi <= s.len(),
        forall|j: int| hi <= j < s.len() ==> is_sep(s[j]),
    ensures
        trim_end(s) == trim_end(s.subrange(0, hi)),
    decreases s.len() - hi,
{
    if hi < s.len() {
        lemma_trim_end_skip(s.drop_last(), hi);
        assert(s.drop_last().subrange(0, hi) =~= s.subrange(0, hi));
    } else {
        assert(s.subrange(0, hi) =~= s);
    }
}

/// The pieces joined back together with a separator between each two.
pub open spec fn join(ss: Seq<Seq<char>>) -> Seq<char>
    decreases ss.len(),
{
    if ss.len() <= 1 {
        if ss.len() == 1 { ss[0] } else { Seq::empty() }
    } else {
        join(ss.drop_last()) + seq!['/'] + ss.last()
    }
}

proof fn lemma_join_extend(q: Seq<Seq<char>>, c: char)
    requires
        q.len() >= 1,
    ensures
        join(q.update(q.len() - 1, q.last().push(c))) == join(q).push(c),
{
    let t = q.update(q.len() - 1, q.last().push(c));
    if q.len() > 1 {
        assert(t.drop_last() =~= q.drop_last());
        assert(join(t) =~= join(q).push(c));
    } else {
        assert(join(t) =~= join(q).push(c));
    }
}

proof fn lemma_join_split(s: Seq<char>)
    ensures
        join(split(s)) == s,
    decreases s.len(),
{
    if s.len() == 0 {
    } else {
        let p = split(s.drop_last());
        lemma_join_split(s.drop_last());
        lemma_split_nonempty(s.drop_last());
        if is_sep(s.last()) {
            assert(p.push(Seq::<char>::empty()).drop_last() =~= p);
            assert(join(split(s)) =~= s);
        } else {
            lemma_join_extend(p, s.last());
            assert(join(split(s)) =~= s);
        }
    }
}

proof fn lemma_bindings_no_params(ps: Seq<Seq<char>>, rs: Seq<Seq<char>>, n: nat)
    requires
        n <= ps.len(),
        forall|i: int| 0 <= i < ps.len() ==> !is_param(#[trigger] ps[i]),
    ensures
        bindings(ps, rs, n) == Map::<Seq<char>, Seq<char>>::empty(),
    decreases n,
{
    if n > 0 {
        lemma_bindings_no_params(ps, rs, (n - 1) as nat);
    }
}

/// A pattern and a path whose segment counts differ never match.
pub proof fn law_segment_count_mismatch(pattern: Seq<char>, path: Seq<char>)
    requires
        segments(pattern).len() != segments(path).len(),
    ensures
        match_spec(pattern, path) is None,
{
}

/// A pattern without parameters matches a path, binding nothing, exactly when
/// the two are equal once trimmed of leading and trailing separators.
pub proof fn law_literal_pattern(pattern: Seq<char>, path: Seq<char>)
    requires
        forall|i: int| 0 <= i < segments(pattern).len() ==> !is_param(#[trigger] segments(pattern)[i]),
    ensures
        match_spec(pattern, path) == (if trim(pattern) == trim(path) {
            Some(Map::<Seq<char>, Seq<char>>::empty())
        } else {
            None
        }),
{
    let ps = segments(pattern);
    let rs = segments(path);
    lemma_bindings_no_params(ps, rs, ps.len());
    lemma_join_split(trim(pattern));
    lemma_join_split(trim(path));
    if ps.len() == rs.len() && literals_agree(ps, rs) {
        assert(ps =~= rs);
    }
}

/// The segments of `s`, in order.
pub fn split_segments(s: &str) -> (r: Vec<String>)
    ensures
        r@.map_values(|x: String| x@) == segments(s@),
{
    let n = s.unicode_len();
    let mut lo: usize = 0;
    while lo < n && s.get_char(lo) == '/'
        invariant
            n == s@.len(),
            lo <= n,
            forall|j: int| 0 <= j < lo ==> is_sep(s@[j]),
        decreases n - lo,
    {
        lo = lo + 1;
    }
    let ghost t = s@.subrange(lo as int, n as int);
    proof {
        lemma_trim_start_skip(s@, lo as int);
        if lo < n {
            assert(t[0] == s@[lo as int]);
        }
        assert(trim_start(t) == t);
    }
    let mut hi: usize = n;
    while hi > lo && s.get_char(hi - 1) == '/'
        invariant
            n == s@.len(),
            lo <= hi <= n,
            forall|j: int| hi <= j < n ==> is_sep(s@[j]),
        decreases hi,
    {
        hi = hi - 1;
    }
    proof {
        lemma_trim_end_skip(t, hi - lo);
        assert(t.subrange(0, hi - lo) =~= s@.subrange(lo as int, hi as int));
        let u = s@.subrange(lo as int, hi as int);
        if hi > lo {
            assert(u.last() == s@[hi - 1]);
        }
        assert(trim_end(u) == u);
        assert(trim(s@) == u);
    }
    let mut segs: Vec<String> = Vec::new();
    let mut start: usize = lo;
    let mut i: usize = lo;
    proof {
        assert(s@.subrange(lo as int, lo as int) =~= Seq::<char>::empty());
        assert(segs@.map_values(|x: String| x@).push(Seq::<char>::empty()) =~= seq![Seq::<char>::empty()]);
    }
    while i < hi
        invariant
            n == s@.len(),
            lo <= start <= i <= hi <= n,
            segs@.map_values(|x: String| x@).push(s@.subrange(start as int, i as int))
                == split(s@.subrange(lo as int, i as int)),
        decreases hi - i,
    {
        let c = s.get_char(i);
        let ghost prev = s@.subrange(lo as int, i as int);
        let ghost next = s@.subrange(lo as int, i + 1);
        proof {
            assert(next.drop_last() =~= prev);
            assert(next.last() == c);
        }
        if c == '/' {
            let piece = String::from_str(s.substring_char(start, i));
            let ghost before = segs@.map_values(|x: String| x@);
            segs.push(piece);
            proof {
                assert(segs@.map_values(|x: String| x@) =~= before.push(piece@));
                assert(s@.subrange((i + 1) as int, (i + 1) as int) =~= Seq::<char>::empty());
            }
            start = i + 1;
        } else {
            proof {
                assert(s@.subrange(start as int, i + 1) =~= s@.subrange(start as int, i as int).push(c));
                let v = segs@.map_values(|x: String| x@);
                assert(v.push(s@.subrange(start as int, i + 1)) =~= v.push(s@.subrange(start as int, i as int)).update(v.len() as int, s@.subrange(start as int, i as int).push(c)));
            }
        }
        i = i + 1;
    }
    let last = String::from_str(s.substring_char(start, hi));
    let ghost before = segs@.map_values(|x: String| x@);
    segs.push(last);
    proof {
        assert(segs@.map_values(|x: String| x@) =~= before.push(last@));
    }
    segs
}

/// Matches `route_path` against `req_path`: both are trimmed of leading and
/// trailing `/` and split on `/`; a segment `:name` binds `name` to the
/// request's segment at that position, any other segment must equal it.
pub fn match_route(route_path: &str, req_path: &str) -> (r: Option<StrMap>)
    ensures
        params_view(r) == match_spec(route_path@, req_path@),
        r matches Some(m) ==> m.wf(),
{
    let route_parts = split_segments(route_path);
    let req_parts = split_segments(req_path);
    let ghost ps = segments(route_path@);
    let ghost rs = segments(req_path@);
    if route_parts.len() != req_parts.len() {
        return None;
    }
    let mut params = StrMap::new();
    let mut i: usize = 0;
    while i < route_parts.len()
        invariant
            ps == segments(route_path@),
            rs == segments(req_path@),
            route_parts@.map_values(|x: String| x@) == ps,
            req_parts@.map_values(|x: String| x@) == rs,
            ps.len() == rs.len(),
            i <= ps.len(),
            params.wf(),
            params@ == bindings(ps, rs, i as nat),
            forall|j: int| 0 <= j < i && !is_param(ps[j]) ==> ps[j] == rs[j],
        decreases ps.len() - i,
    {
        let route_part: &str = route_parts[i].as_str();
        let req_part: &str = req_parts[i].as_str();
        assert(route_part@ == ps[i as int]);
        assert(req_part@ == rs[i as int]);
        let len = route_part.unicode_len();
        if len > 0 && route_part.get_char(0) == ':' {
            let name = String::from_str(route_part.substring_char(1, len));
            assert(name@ =~= ps[i as int].drop_first());
            params.insert(name, String::from_str(req_part));
        } else if !str_eq(route_part, req_part) {
            assert(!is_param(ps[i as int]) && ps[i as int] != rs[i as int]);
            assert(!literals_agree(ps, rs));
            return None;
        }
        i = i + 1;
    }
    Some(params)
}

} // verus!
