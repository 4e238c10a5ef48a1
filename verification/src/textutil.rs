use vstd::prelude::*;

verus! {

/// Horizontal whitespace tolerated around keys and values (space, tab,
/// carriage return).
pub open spec fn is_space(b: u8) -> bool {
    b == 32 || b == 9 || b == 13
}

pub fn is_space_exec(b: u8) -> (r: bool)
    ensures
        r == is_space(b),
{
    b == 32 || b == 9 || b == 13
}

pub open spec fn trim_start_spec(s: Seq<u8>) -> Seq<u8>
    decreases s.len(),
{
    if s.len() == 0 {
        s
    } else if is_space(s[0]) {
        trim_start_spec(s.drop_first())
    } else {
        s
    }
}

pub open spec fn trim_end_spec(s: Seq<u8>) -> Seq<u8>
    decreases s.len(),
{
    if s.len() == 0 {
        s
    } else if is_space(s[s.len() - 1]) {
        trim_end_spec(s.drop_last())
    } else {
        s
    }
}

/// A line with surrounding whitespace removed.
pub open spec fn trim_spec(s: Seq<u8>) -> Seq<u8> {
    trim_end_spec(trim_start_spec(s))
}

pub proof fn lemma_trim_start_at(s: Seq<u8>, k: int)
    requires
        0 <= k <= s.len(),
        forall|j: int| 0 <= j < k ==> is_space(s[j]),
        k == s.len() || !is_space(s[k]),
    ensures
        trim_start_spec(s) == s.subrange(k, s.len() as int),
    decreases k,
{
    if k == 0 {
        assert(s.subrange(0, s.len() as int) =~= s);
    } else {
        assert(is_space(s[0]));
        lemma_trim_start_at(s.drop_first(), k - 1);
        assert(s.drop_first().subrange(k - 1, s.drop_first().len() as int) =~= s.subrange(
            k,
            s.len() as int,
        ));
    }
}

pub proof fn lemma_trim_end_at(s: Seq<u8>, k: int)
    requires
        0 <= k <= s.len(),
        forall|j: int| k <= j < s.len() ==> is_space(s[j]),
        k == 0 || !is_space(s[k - 1]),
    ensures
        trim_end_spec(s) == s.subrange(0, k),
    decreases s.len(),
{
    if k == s.len() {
        assert(s.subrange(0, k) =~= s);
        if s.len() > 0 {
            assert(!is_space(s[s.len() - 1]));
        }
    } else {
        assert(is_space(s[s.len() - 1]));
        lemma_trim_end_at(s.drop_last(), k);
        assert(s.drop_last().subrange(0, k) =~= s.subrange(0, k));
    }
}

/// The index of the first occurrence of `b`, or the length when `b` is
/// absent.
pub open spec fn first_occ(t: Seq<u8>, b: u8) -> nat
    decreases t.len(),
{
    if t.len() == 0 {
        0
    } else if t[0] == b {
        0
    } else {
        1 + first_occ(t.drop_first(), b)
    }
}

pub proof fn lemma_first_occ_props(t: Seq<u8>, b: u8)
    ensures
        first_occ(t, b) <= t.len(),
        first_occ(t, b) < t.len() ==> t[first_occ(t, b) as int] == b,
        forall|k: int| 0 <= k < first_occ(t, b) ==> t[k] != b,
    decreases t.len(),
{
    if t.len() == 0 {
    } else if t[0] == b {
    } else {
        lemma_first_occ_props(t.drop_first(), b);
        assert forall|k: int| 0 <= k < first_occ(t, b) implies t[k] != b by {
            if k >= 1 {
                assert(t.drop_first()[k - 1] != b);
            }
        }
    }
}

pub proof fn lemma_first_occ_at(t: Seq<u8>, b: u8, j: int)
    requires
        0 <= j <= t.len(),
        forall|k: int| 0 <= k < j ==> t[k] != b,
        j == t.len() || t[j] == b,
    ensures
        first_occ(t, b) == j,
    decreases j,
{
    if j == 0 {
    } else {
        assert(t[0] != b);
        lemma_first_occ_at(t.drop_first(), b, j - 1);
    }
}

/// Text that can stand inside quotes without breaking the line it is on:
/// no quote and no newline.
pub open spec fn clean_text(s: Seq<u8>) -> bool {
    forall|i: int| 0 <= i < s.len() ==> #[trigger] s[i] != 34 && s[i] != 10
}

pub fn is_clean_text(v: &Vec<u8>) -> (r: bool)
    ensures
        r == clean_text(v@),
{
    let mut i: usize = 0;
    while i < v.len()
        invariant
            i <= v@.len(),
            forall|j: int| 0 <= j < i ==> #[trigger] v@[j] != 34 && v@[j] != 10,
        decreases v@.len() - i,
    {
        if v[i] == 34 || v[i] == 10 {
            return false;
        }
        i += 1;
    }
    true
}

/// Copies `v[lo..hi]` into a fresh vector.
pub fn copy_range(v: &Vec<u8>, lo: usize, hi: usize) -> (r: Vec<u8>)
    requires
        lo <= hi <= v@.len(),
    ensures
        r@ == v@.subrange(lo as int, hi as int),
{
    let mut out: Vec<u8> = Vec::new();
    let mut i: usize = lo;
    while i < hi
        invariant
            lo <= i <= hi <= v@.len(),
            out@ =~= v@.subrange(lo as int, i as int),
        decreases hi - i,
    {
        out.push(v[i]);
        assert(out@ =~= v@.subrange(lo as int, i + 1));
        i += 1;
    }
    assert(out@ =~= v@.subrange(lo as int, hi as int));
    out
}

/// Appends all of `add` to `out`.
pub fn push_all(out: &mut Vec<u8>, add: &Vec<u8>)
    ensures
        final(out)@ == old(out)@ + add@,
{
    let mut i: usize = 0;
    while i < add.len()
        invariant
            i <= add@.len(),
            out@ =~= old(out)@ + add@.subrange(0, i as int),
        decreases add@.len() - i,
    {
        out.push(add[i]);
        assert(out@ =~= old(out)@ + add@.subrange(0, i + 1));
        i += 1;
    }
    assert(out@ =~= old(out)@ + add@);
}

/// Whether two byte strings hold the same bytes.
pub fn bytes_eq(a: &Vec<u8>, b: &Vec<u8>) -> (r: bool)
    ensures
        r == (a@ == b@),
{
    if a.len() != b.len() {
        return false;
    }
    let mut i: usize = 0;
    while i < a.len()
        invariant
            i <= a@.len(),
            a@.len() == b@.len(),
            forall|j: int| 0 <= j < i ==> a@[j] == b@[j],
        decreases a@.len() - i,
    {
        if a[i] != b[i] {
            return false;
        }
        i += 1;
    }
    proof {
        assert(a@ =~= b@);
    }
    true
}

/// Removes the whitespace around a line.
pub fn trim(v: &Vec<u8>) -> (r: Vec<u8>)
    ensures
        r@ == trim_spec(v@),
{
    let n = v.len();
    let mut lo: usize = 0;
    while lo < n && is_space_exec(v[lo])
        invariant
            lo <= n,
            n == v@.len(),
            forall|j: int| 0 <= j < lo ==> is_space(v@[j]),
        decreases n - lo,
    {
        lo += 1;
    }
    let mut hi: usize = n;
    while hi > lo && is_space_exec(v[hi - 1])
        invariant
            lo <= hi <= n,
            n == v@.len(),
            forall|j: int| hi <= j < n ==> is_space(v@[j]),
        decreases hi,
    {
        hi -= 1;
    }
    let out = copy_range(v, lo, hi);
    proof {
        lemma_trim_start_at(v@, lo as int);
        let t = v@.subrange(lo as int, n as int);
        assert(forall|j: int| hi - lo <= j < t.len() ==> is_space(t[j]));
        if hi > lo {
            assert(t[hi - lo - 1] == v@[hi - 1]);
        }
        lemma_trim_end_at(t, hi - lo);
        assert(t.subrange(0, hi - lo) =~= v@.subrange(lo as int, hi as int));
    }
    out
}

/// Scans for the first occurrence of `b` in `v`, starting at `from`.
pub fn find_from(v: &Vec<u8>, from: usize, b: u8) -> (r: usize)
    requires
        from <= v@.len(),
    ensures
        r == from + first_occ(v@.subrange(from as int, v@.len() as int), b),
        from <= r <= v@.len(),
    decreases v@.len() - from,
{
    let n = v.len();
    let mut i: usize = from;
    while i < n && v[i] != b
        invariant
            from <= i <= n,
            n == v@.len(),
            forall|k: int| from <= k < i ==> v@[k] != b,
        decreases n - i,
    {
        i += 1;
    }
    proof {
        let t = v@.subrange(from as int, n as int);
        assert(forall|k: int| 0 <= k < i - from ==> t[k] != b);
        if i < n {
            assert(t[i - from] == b);
        }
        lemma_first_occ_at(t, b, i - from);
    }
    i
}

/// The document text split at newlines; a final newline closes the last line
/// rather than opening an empty one.
pub open spec fn split_lines_spec(t: Seq<u8>) -> Seq<Seq<u8>>
    decreases t.len(),
{
    if t.len() == 0 {
        seq![]
    } else {
        let j = first_occ(t, 10u8) as int;
        if j >= t.len() {
            seq![t]
        } else {
            seq![t.subrange(0, j)] + split_lines_spec(t.subrange(j + 1, t.len() as int))
        }
    }
}

/// The lines of a document joined back into text, each closed by a newline.
pub open spec fn join_lines_spec(ls: Seq<Seq<u8>>) -> Seq<u8>
    decreases ls.len(),
{
    if ls.len() == 0 {
        seq![]
    } else {
        ls[0] + seq![10u8] + join_lines_spec(ls.drop_first())
    }
}

/// A line may not contain a newline byte.
pub open spec fn line_ok(l: Seq<u8>) -> bool {
    forall|k: int| 0 <= k < l.len() ==> l[k] != 10
}

/// The byte-level image of a vector of lines.
pub open spec fn lines_view(ls: Seq<Vec<u8>>) -> Seq<Seq<u8>> {
    ls.map_values(|l: Vec<u8>| l@)
}

pub proof fn lemma_join_snoc(ls: Seq<Seq<u8>>, l: Seq<u8>)
    ensures
        join_lines_spec(ls.push(l)) == join_lines_spec(ls) + l + seq![10u8],
    decreases ls.len(),
{
    if ls.len() == 0 {
        assert(join_lines_spec(ls.push(l)) =~= l + seq![10u8] + join_lines_spec(
            ls.push(l).drop_first(),
        ));
        assert(ls.push(l).drop_first() =~= Seq::<Seq<u8>>::empty());
        assert(join_lines_spec(ls.push(l)) =~= join_lines_spec(ls) + l + seq![10u8]);
    } else {
        assert(ls.push(l).drop_first() =~= ls.drop_first().push(l));
        lemma_join_snoc(ls.drop_first(), l);
        assert(ls.push(l)[0] == ls[0]);
        assert(join_lines_spec(ls.push(l)) =~= join_lines_spec(ls) + l + seq![10u8]);
    }
}

/// Splitting undoes joining, for lines that hold no newline byte.
pub proof fn lemma_split_join(ls: Seq<Seq<u8>>)
    requires
        forall|i: int| 0 <= i < ls.len() ==> line_ok(#[trigger] ls[i]),
    ensures
        split_lines_spec(join_lines_spec(ls)) == ls,
    decreases ls.len(),
{
    if ls.len() == 0 {
    } else {
        let t = join_lines_spec(ls);
        let l0 = ls[0];
        let rest = join_lines_spec(ls.drop_first());
        assert(t == l0 + seq![10u8] + rest);
        assert(line_ok(ls[0]));
        assert(forall|k: int| 0 <= k < l0.len() ==> t[k] == l0[k] && t[k] != 10u8);
        assert(t[l0.len() as int] == 10u8);
        lemma_first_occ_at(t, 10u8, l0.len() as int);
        assert(t.len() > l0.len());
        assert(t.subrange(0, l0.len() as int) =~= l0);
        assert(t.subrange(l0.len() as int + 1, t.len() as int) =~= rest);
        assert(forall|i: int| 0 <= i < ls.drop_first().len() ==> line_ok(
            #[trigger] ls.drop_first()[i],
        ));
        lemma_split_join(ls.drop_first());
        assert(split_lines_spec(t) =~= ls);
    }
}

/// Splits document text into its lines.
pub fn split_lines(v: &Vec<u8>) -> (r: Vec<Vec<u8>>)
    ensures
        lines_view(r@) == split_lines_spec(v@),
{
    let n = v.len();
    let mut out: Vec<Vec<u8>> = Vec::new();
    let mut i: usize = 0;
    proof {
        assert(v@.subrange(0, n as int) =~= v@);
        assert(lines_view(out@) =~= Seq::<Seq<u8>>::empty());
        assert(lines_view(out@) + split_lines_spec(v@) =~= split_lines_spec(v@));
    }
    while i < n
        invariant
            i <= n,
            n == v@.len(),
            split_lines_spec(v@) =~= lines_view(out@) + split_lines_spec(
                v@.subrange(i as int, n as int),
            ),
        decreases n - i,
    {
        let j = find_from(v, i, 10);
        let line = copy_range(v, i, j);
        proof {
            let t = v@.subrange(i as int, n as int);
            assert(first_occ(t, 10u8) == j - i);
            if j == n {
                assert(t =~= line@);
                assert(split_lines_spec(t) =~= seq![line@]);
                assert(lines_view(out@.push(line)) =~= lines_view(out@) + seq![line@]);
                assert(split_lines_spec(v@.subrange(n as int, n as int)) =~= Seq::<Seq<
                    u8,
                >>::empty());
            } else {
                assert(t[j - i] == v@[j as int]);
                assert(t.subrange(0, j - i) =~= line@);
                assert(t.subrange(j - i + 1, t.len() as int) =~= v@.subrange(j + 1, n as int));
                assert(split_lines_spec(t) =~= seq![line@] + split_lines_spec(
                    v@.subrange(j + 1, n as int),
                ));
                assert(lines_view(out@.push(line)) =~= lines_view(out@) + seq![line@]);
            }
        }
        out.push(line);
        if j == n {
            i = n;
        } else {
            i = j + 1;
        }
    }
    proof {
        assert(split_lines_spec(v@.subrange(n as int, n as int)) =~= Seq::<Seq<u8>>::empty());
        assert(lines_view(out@) =~= split_lines_spec(v@));
    }
    out
}

/// Joins lines into document text.
pub fn join_lines(ls: &Vec<Vec<u8>>) -> (r: Vec<u8>)
    ensures
        r@ == join_lines_spec(lines_view(ls@)),
{
    let mut out: Vec<u8> = Vec::new();
    let mut i: usize = 0;
    while i < ls.len()
        invariant
            i <= ls@.len(),
            out@ =~= join_lines_spec(lines_view(ls@.subrange(0, i as int))),
        decreases ls@.len() - i,
    {
        push_all(&mut out, &ls[i]);
        out.push(10);
        proof {
            assert(lines_view(ls@.subrange(0, i + 1)) =~= lines_view(
                ls@.subrange(0, i as int),
            ).push(ls@[i as int]@));
            lemma_join_snoc(lines_view(ls@.subrange(0, i as int)), ls@[i as int]@);
            assert(out@ =~= join_lines_spec(lines_view(ls@.subrange(0, i + 1))));
        }
        i += 1;
    }
    proof {
        assert(ls@.subrange(0, ls@.len() as int) =~= ls@);
    }
    out
}

} // verus!
