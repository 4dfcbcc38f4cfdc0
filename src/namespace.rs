//! Namespaces: the module path where a named type is declared.
use vstd::prelude::*;

verus! {

/// Whether `c` may stand anywhere in a path segment.
pub open spec fn is_ident_char(c: char) -> bool {
    ('a' <= c && c <= 'z') || ('A' <= c && c <= 'Z') || ('0' <= c && c <= '9') || c == '_'
}

/// Whether `c` may start a path segment.
pub open spec fn is_ident_start(c: char) -> bool {
    ('a' <= c && c <= 'z') || ('A' <= c && c <= 'Z') || c == '_'
}

/// A path segment: a non-empty identifier-like token.
pub open spec fn is_segment(s: Seq<char>) -> bool {
    &&& s.len() > 0
    &&& is_ident_start(s[0])
    &&& forall|i: int| 0 <= i < s.len() ==> is_ident_char(#[trigger] s[i])
}

/// A valid namespace: at least one segment, each of them valid.
pub open spec fn valid_segments(segs: Seq<Seq<char>>) -> bool {
    &&& segs.len() > 0
    &&& forall|i: int| 0 <= i < segs.len() ==> is_segment(#[trigger] segs[i])
}

/// The segments written one after the other, with `::` between two of them.
pub open spec fn join_path(segs: Seq<Seq<char>>) -> Seq<char>
    decreases segs.len(),
{
    if segs.len() == 0 {
        seq![]
    } else if segs.len() == 1 {
        segs[0]
    } else {
        join_path(segs.drop_last()) + seq![':', ':'] + segs.last()
    }
}

/// The ordered, non-empty list of segments where a named type is declared.
#[derive(Clone, Debug)]
pub struct Namespace {
    segments: Vec<String>,
}

/// Raised when a namespace is built from no segment or from a malformed one.
#[derive(Debug, PartialEq, Eq, Structural)]
pub enum NamespaceError {
    InvalidNamespace,
}

impl View for Namespace {
    type V = Seq<Seq<char>>;

    closed spec fn view(&self) -> Seq<Seq<char>> {
        self.segments@.map_values(|s: String| s@)
    }
}

fn char_is_ident(c: char) -> (r: bool)
    ensures
        r == is_ident_char(c),
{
    ('a' <= c && c <= 'z') || ('A' <= c && c <= 'Z') || ('0' <= c && c <= '9') || c == '_'
}

fn check_segment(s: &str) -> (r: bool)
    ensures
        r == is_segment(s@),
{
    let n = s.unicode_len();
    if n == 0 {
        return false;
    }
    let c0 = s.get_char(0);
    if !(('a' <= c0 && c0 <= 'z') || ('A' <= c0 && c0 <= 'Z') || c0 == '_') {
        return false;
    }
    let mut i: usize = 0;
    while i < n
        invariant
            n == s@.len(),
            0 <= i <= n,
            forall|j: int| 0 <= j < i ==> is_ident_char(#[trigger] s@[j]),
        decreases n - i,
    {
        if !char_is_ident(s.get_char(i)) {
            return false;
        }
        i = i + 1;
    }
    true
}

impl Namespace {
    /// Builds a namespace from its segments, kept in the order given.
    pub fn new(segments: Vec<&str>) -> (r: Result<Namespace, NamespaceError>)
        ensures
            r is Ok <==> valid_segments(segments@.map_values(|s: &str| s@)),
            r matches Ok(ns) ==> ns@ == segments@.map_values(|s: &str| s@),
    {
        let ghost want = segments@.map_values(|s: &str| s@);
        if segments.len() == 0 {
            return Err(NamespaceError::InvalidNamespace);
        }
        let mut out: Vec<String> = Vec::new();
        let mut i: usize = 0;
        while i < segments.len()
            invariant
                0 <= i <= segments@.len(),
                want == segments@.map_values(|s: &str| s@),
                out@.len() == i,
                forall|j: int| 0 <= j < i ==> (#[trigger] out@[j])@ == want[j],
                forall|j: int| 0 <= j < i ==> is_segment(#[trigger] want[j]),
            decreases segments@.len() - i,
        {
            let s: &str = segments[i];
            if !check_segment(s) {
                assert(!is_segment(want[i as int]));
                return Err(NamespaceError::InvalidNamespace);
            }
            out.push(s.to_owned());
            i = i + 1;
        }
        let ns = Namespace { segments: out };
        assert(ns@ =~= want);
        Ok(ns)
    }

    /// The namespace of the types that every program can name without import
    /// (optional values, results, growable vectors): the single segment `prelude`.
    pub fn prelude() -> (r: Namespace)
        ensures
            r@ == seq![seq!['p', 'r', 'e', 'l', 'u', 'd', 'e']],
            valid_segments(r@),
    {
        let mut segments: Vec<String> = Vec::new();
        let p = "prelude".to_owned();
        proof {
            reveal_strlit("prelude");
            assert(p@ =~= seq!['p', 'r', 'e', 'l', 'u', 'd', 'e']);
        }
        segments.push(p);
        let r = Namespace { segments };
        assert(r@ =~= seq![seq!['p', 'r', 'e', 'l', 'u', 'd', 'e']]);
        assert(is_segment(r@[0]));
        r
    }

    /// Whether both namespaces have the same segments in the same order.
    pub fn same_as(&self, other: &Namespace) -> (r: bool)
        ensures
            r == (self@ == other@),
    {
        if self.segments.len() != other.segments.len() {
            assert(self@.len() != other@.len());
            return false;
        }
        let mut i: usize = 0;
        while i < self.segments.len()
            invariant
                self.segments@.len() == other.segments@.len(),
                0 <= i <= self.segments@.len(),
                forall|j: int| 0 <= j < i ==> self@[j] == #[trigger] other@[j],
            decreases self.segments@.len() - i,
        {
            let same = self.segments[i] == other.segments[i];
            if !same {
                assert(self@[i as int] != other@[i as int]);
                return false;
            }
            i = i + 1;
        }
        assert(self@ =~= other@);
        true
    }

    /// A copy with the same segments.
    pub fn copy(&self) -> (r: Namespace)
        ensures
            r@ == self@,
    {
        let mut out: Vec<String> = Vec::new();
        let mut i: usize = 0;
        while i < self.segments.len()
            invariant
                0 <= i <= self.segments@.len(),
                out@.len() == i,
                forall|j: int| 0 <= j < i ==> (#[trigger] out@[j])@ == self.segments@[j]@,
            decreases self.segments@.len() - i,
        {
            out.push(self.segments[i].clone());
            i = i + 1;
        }
        let r = Namespace { segments: out };
        assert(r@ =~= self@);
        r
    }

    /// The number of segments.
    pub fn len(&self) -> (r: usize)
        ensures
            r == self@.len(),
    {
        self.segments.len()
    }

    /// The segment at `i`.
    pub fn segment(&self, i: usize) -> (r: &str)
        requires
            i < self@.len(),
        ensures
            r@ == self@[i as int],
    {
        self.segments[i].as_str()
    }
}


/// Whether `path` is some valid list of segments joined by `::`.
pub open spec fn is_path(path: Seq<char>) -> bool {
    exists|segs: Seq<Seq<char>>| valid_segments(segs) && join_path(segs) == path
}

proof fn lemma_join_front(segs: Seq<Seq<char>>)
    requires
        segs.len() >= 2,
    ensures
        join_path(segs) == segs[0] + seq![':', ':'] + join_path(segs.drop_first()),
    decreases segs.len(),
{
    if segs.len() == 2 {
        assert(segs.drop_last() =~= seq![segs[0]]);
        assert(segs.drop_first() =~= seq![segs[1]]);
        assert(join_path(segs.drop_last()) == segs[0]);
        assert(join_path(segs.drop_first()) == segs[1]);
        assert(join_path(segs) == join_path(segs.drop_last()) + seq![':', ':'] + segs.last());
    } else {
        let dl = segs.drop_last();
        let df = segs.drop_first();
        lemma_join_front(dl);
        assert(dl.drop_first() =~= df.drop_last());
        assert(df.last() == segs.last());
        assert(dl[0] == segs[0]);
        let x = join_path(dl.drop_first());
        assert(join_path(segs) == join_path(dl) + seq![':', ':'] + segs.last());
        assert(join_path(df) == join_path(df.drop_last()) + seq![':', ':'] + df.last());
        assert(segs[0] + seq![':', ':'] + x + seq![':', ':'] + segs.last() =~= segs[0] + seq![
            ':',
            ':',
        ] + (x + seq![':', ':'] + segs.last()));
    }
}

proof fn lemma_join_ident(segs: Seq<Seq<char>>)
    requires
        segs.len() == 1,
        valid_segments(segs),
    ensures
        join_path(segs) == segs[0],
        forall|q: int| 0 <= q < segs[0].len() ==> is_ident_char(#[trigger] segs[0][q]),
{
    assert(is_segment(segs[0]));
}

/// Where `t` is valid segments joined by `::` and its first `j` characters may
/// stand in a segment while the next one may not, the first segment is exactly
/// those `j` characters.
proof fn lemma_first_segment(w: Seq<Seq<char>>, t: Seq<char>, j: int)
    requires
        valid_segments(w),
        join_path(w) == t,
        0 <= j <= t.len(),
        forall|q: int| 0 <= q < j ==> is_ident_char(#[trigger] t[q]),
        j < t.len() ==> !is_ident_char(t[j]),
    ensures
        j == t.len() ==> w.len() == 1 && w[0] == t,
        j < t.len() ==> {
            &&& w.len() >= 2
            &&& w[0] == t.subrange(0, j)
            &&& j + 1 < t.len()
            &&& t[j] == ':'
            &&& t[j + 1] == ':'
            &&& valid_segments(w.drop_first())
            &&& join_path(w.drop_first()) == t.subrange(j + 2, t.len() as int)
        },
{
    assert(is_segment(w[0]));
    let m = w[0].len() as int;
    if w.len() == 1 {
        assert(join_path(w) == w[0]);
        if j < t.len() {
            assert(is_ident_char(t[j]));
        }
    } else {
        lemma_join_front(w);
        let rest = join_path(w.drop_first());
        assert(t == w[0] + seq![':', ':'] + rest);
        assert(t[m] == ':');
        if j < m {
            assert(t[j] == w[0][j]);
            assert(is_ident_char(w[0][j]));
        } else if j > m {
            assert(is_ident_char(t[m]));
        } else {
            assert(t.subrange(0, j) =~= w[0]);
            assert(t.subrange(j + 2, t.len() as int) =~= rest);
            assert forall|i: int| 0 <= i < w.drop_first().len() implies is_segment(
                #[trigger] w.drop_first()[i],
            ) by {
                assert(w.drop_first()[i] == w[i + 1]);
            }
        }
    }
}

proof fn lemma_join_push(segs: Seq<Seq<char>>, seg: Seq<char>)
    requires
        segs.len() > 0,
    ensures
        join_path(segs.push(seg)) == join_path(segs) + seq![':', ':'] + seg,
{
    assert(segs.push(seg).drop_last() =~= segs);
}

impl Namespace {
    /// Builds a namespace from a module path whose segments are separated by `::`.
    /// On success the segments are valid and, joined by `::`, give back `path`.
    pub fn from_str(path: &str) -> (r: Result<Namespace, NamespaceError>)
        ensures
            r is Ok <==> is_path(path@),
            r matches Ok(ns) ==> valid_segments(ns@) && join_path(ns@) == path@,
    {
        let n = path.unicode_len();
        let ghost has_w = is_path(path@);
        let ghost w = choose|segs: Seq<Seq<char>>| valid_segments(segs) && join_path(segs) == path@;
        proof {
            if has_w {
                assert(w.subrange(0, w.len() as int) =~= w);
                assert(path@.subrange(0, n as int) =~= path@);
            }
        }
        let mut segs: Vec<String> = Vec::new();
        let mut start: usize = 0;
        let mut i: usize = 0;
        while i < n
            invariant
                n == path@.len(),
                0 <= start <= i <= n,
                segs@.len() == 0 ==> start == 0,
                segs@.len() > 0 ==> start >= 2 && join_path(segs@.map_values(|s: String| s@))
                    + seq![':', ':'] == path@.subrange(0, start as int),
                forall|j: int| 0 <= j < segs@.len() ==> is_segment(#[trigger] segs@[j]@),
                forall|j: int| start <= j < i ==> is_ident_char(#[trigger] path@[j]),
                has_w == is_path(path@),
                has_w ==> valid_segments(w) && join_path(w) == path@,
                has_w ==> segs@.len() < w.len(),
                has_w ==> valid_segments(w.subrange(segs@.len() as int, w.len() as int)),
                has_w ==> join_path(w.subrange(segs@.len() as int, w.len() as int))
                    == path@.subrange(start as int, n as int),
            decreases n - i,
        {
            let c = path.get_char(i);
            let ghost k = segs@.len() as int;
            let ghost rest = w.subrange(k, w.len() as int);
            let ghost t = path@.subrange(start as int, n as int);
            if c == ':' {
                proof {
                    if has_w {
                        assert forall|q: int| 0 <= q < i - start implies is_ident_char(
                            #[trigger] t[q],
                        ) by {
                            assert(t[q] == path@[start + q]);
                        }
                        lemma_first_segment(rest, t, i - start);
                    }
                }
                if i + 1 >= n || path.get_char(i + 1) != ':' {
                    proof {
                        if has_w {
                            assert(t[i - start + 1] == path@[i + 1]);
                        }
                    }
                    return Err(NamespaceError::InvalidNamespace);
                }
                let seg = path.substring_char(start, i);
                if !check_segment(seg) {
                    proof {
                        if has_w {
                            assert(rest[0] == seg@);
                            assert(is_segment(rest[0]));
                        }
                    }
                    return Err(NamespaceError::InvalidNamespace);
                }
                let ghost before = segs@.map_values(|s: String| s@);
                segs.push(seg.to_owned());
                proof {
                    let after = segs@.map_values(|s: String| s@);
                    assert(after =~= before.push(seg@));
                    if before.len() > 0 {
                        lemma_join_push(before, seg@);
                        assert(path@.subrange(0, i + 2) =~= path@.subrange(0, start as int)
                            + seg@ + seq![':', ':']);
                    } else {
                        assert(after =~= seq![seg@]);
                        assert(path@.subrange(0, i + 2) =~= seg@ + seq![':', ':']);
                    }
                    if has_w {
                        assert(rest.drop_first() =~= w.subrange(k + 1, w.len() as int));
                        assert(t.subrange(i - start + 2, t.len() as int) =~= path@.subrange(
                            i + 2,
                            n as int,
                        ));
                    }
                }
                i = i + 2;
                start = i;
            } else {
                if !char_is_ident(c) {
                    proof {
                        if has_w {
                            assert forall|q: int| 0 <= q < i - start implies is_ident_char(
                                #[trigger] t[q],
                            ) by {
                                assert(t[q] == path@[start + q]);
                            }
                            lemma_first_segment(rest, t, i - start);
                        }
                    }
                    return Err(NamespaceError::InvalidNamespace);
                }
                i = i + 1;
            }
        }
        let ghost k = segs@.len() as int;
        let ghost rest = w.subrange(k, w.len() as int);
        let ghost t = path@.subrange(start as int, n as int);
        proof {
            if has_w {
                assert forall|q: int| 0 <= q < n - start implies is_ident_char(#[trigger] t[q]) by {
                    assert(t[q] == path@[start + q]);
                }
                lemma_first_segment(rest, t, n - start);
            }
        }
        let seg = path.substring_char(start, n);
        if !check_segment(seg) {
            proof {
                if has_w {
                    assert(rest[0] == seg@);
                    assert(is_segment(rest[0]));
                }
            }
            return Err(NamespaceError::InvalidNamespace);
        }
        let ghost before = segs@.map_values(|s: String| s@);
        segs.push(seg.to_owned());
        let ns = Namespace { segments: segs };
        proof {
            assert(ns@ =~= before.push(seg@));
            if before.len() > 0 {
                lemma_join_push(before, seg@);
                assert(path@ =~= path@.subrange(0, start as int) + seg@);
            } else {
                assert(ns@ =~= seq![seg@]);
                assert(path@ =~= seg@);
            }
            assert forall|j: int| 0 <= j < ns@.len() implies is_segment(#[trigger] ns@[j]) by {
                if j < before.len() {
                    assert(ns@[j] == segs@[j]@);
                }
            }
            assert(valid_segments(ns@) && join_path(ns@) == path@);
        }
        Ok(ns)
    }
}

} // verus!
