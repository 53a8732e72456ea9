use vstd::prelude::*;
use vstd::string::StrSliceExecFns;

verus! {

/// Unicode `White_Space`, as `char::is_whitespace` has it.
pub open spec fn is_white(c: char) -> bool {
    let u = c as u32;
    (0x09 <= u <= 0x0d) || u == 0x20 || u == 0x85 || u == 0xa0 || u == 0x1680 || (0x2000 <= u
        <= 0x200a) || u == 0x2028 || u == 0x2029 || u == 0x202f || u == 0x205f || u == 0x3000
}

pub fn is_white_char(c: char) -> (r: bool)
    ensures
        r == is_white(c),
{
    let u = c as u32;
    (0x09 <= u && u <= 0x0d) || u == 0x20 || u == 0x85 || u == 0xa0 || u == 0x1680 || (0x2000
        <= u && u <= 0x200a) || u == 0x2028 || u == 0x2029 || u == 0x202f || u == 0x205f || u
        == 0x3000
}

/// `s` without its leading white space.
pub open spec fn trim_start(s: Seq<char>) -> Seq<char>
    decreases s.len(),
{
    if s.len() > 0 && is_white(s[0]) {
        trim_start(s.drop_first())
    } else {
        s
    }
}

/// `s` without its trailing white space.
pub open spec fn trim_end(s: Seq<char>) -> Seq<char>
    decreases s.len(),
{
    if s.len() > 0 && is_white(s.last()) {
        trim_end(s.drop_last())
    } else {
        s
    }
}

/// `s` without white space at either end.
pub open spec fn trim(s: Seq<char>) -> Seq<char> {
    trim_end(trim_start(s))
}

/// `s` with every occurrence of `p` removed, scanning from the left; an
/// empty `p` removes nothing.
pub open spec fn remove_all(s: Seq<char>, p: Seq<char>) -> Seq<char>
    decreases s.len(),
{
    if p.len() == 0 || s.len() == 0 {
        s
    } else if p.len() <= s.len() && s.subrange(0, p.len() as int) == p {
        remove_all(s.subrange(p.len() as int, s.len() as int), p)
    } else {
        seq![s[0]] + remove_all(s.drop_first(), p)
    }
}

/// Whether a blank line, two newlines in a row, starts at `i`.
pub open spec fn blank_at(s: Seq<char>, i: int) -> bool {
    0 <= i && i + 1 < s.len() && s[i] == '\n' && s[i + 1] == '\n'
}

/// Where the first blank line at or after `k` starts.
pub open spec fn first_blank_from(s: Seq<char>, k: int) -> Option<int>
    decreases s.len() - k,
{
    if k < 0 || k + 1 >= s.len() {
        None
    } else if blank_at(s, k) {
        Some(k)
    } else {
        first_blank_from(s, k + 1)
    }
}

pub open spec fn first_blank(s: Seq<char>) -> Option<int> {
    first_blank_from(s, 0)
}

/// Relies on `String`'s `FromIterator<char>`: the string of these characters.
#[verifier::external_body]
pub(crate) fn string_of(v: &Vec<char>) -> (r: String)
    ensures
        r@ == v@,
{
    v.iter().collect()
}

/// The characters of `s`, in order.
pub fn chars_of(s: &str) -> (r: Vec<char>)
    ensures
        r@ == s@,
{
    let n = s.unicode_len();
    let mut out: Vec<char> = Vec::new();
    let mut i: usize = 0;
    while i < n
        invariant
            n == s@.len(),
            i <= n,
            out@ == s@.subrange(0, i as int),
        decreases n - i,
    {
        out.push(s.get_char(i));
        i = i + 1;
        assert(out@ =~= s@.subrange(0, i as int));
    }
    assert(s@.subrange(0, n as int) =~= s@);
    out
}

/// The characters of `s` from `lo` up to `hi`.
pub fn slice_chars(s: &Vec<char>, lo: usize, hi: usize) -> (r: Vec<char>)
    requires
        lo <= hi <= s@.len(),
    ensures
        r@ == s@.subrange(lo as int, hi as int),
{
    let mut out: Vec<char> = Vec::new();
    let mut i: usize = lo;
    while i < hi
        invariant
            lo <= i <= hi <= s@.len(),
            out@ == s@.subrange(lo as int, i as int),
        decreases hi - i,
    {
        out.push(s[i]);
        i = i + 1;
        assert(out@ =~= s@.subrange(lo as int, i as int));
    }
    out
}

/// `s` without white space at either end.
pub fn trim_chars(s: &Vec<char>) -> (r: Vec<char>)
    ensures
        r@ == trim(s@),
{
    let n = s.len();
    let mut lo: usize = 0;
    assert(s@.subrange(0, n as int) =~= s@);
    while lo < n && is_white_char(s[lo])
        invariant
            n == s@.len(),
            lo <= n,
            trim_start(s@) == trim_start(s@.subrange(lo as int, n as int)),
        decreases n - lo,
    {
        assert(s@.subrange(lo as int, n as int).drop_first() =~= s@.subrange(
            lo as int + 1,
            n as int,
        ));
        lo = lo + 1;
    }
    let ghost mid = s@.subrange(lo as int, n as int);
    assert(trim_start(mid) == mid);
    let mut hi: usize = n;
    while hi > lo && is_white_char(s[hi - 1])
        invariant
            lo <= hi <= n == s@.len(),
            mid == s@.subrange(lo as int, n as int),
            trim_end(mid) == trim_end(s@.subrange(lo as int, hi as int)),
        decreases hi,
    {
        assert(s@.subrange(lo as int, hi as int).drop_last() =~= s@.subrange(
            lo as int,
            hi as int - 1,
        ));
        hi = hi - 1;
    }
    slice_chars(s, lo, hi)
}

/// Whether `p` occurs in `s` at `i`.
fn occurs_at(s: &Vec<char>, i: usize, p: &Vec<char>) -> (r: bool)
    requires
        i <= s@.len(),
    ensures
        r == (p@.len() <= s@.len() - i && s@.subrange(i as int, i + p@.len()) == p@),
{
    if p.len() > s.len() - i {
        return false;
    }
    let sl = s.len();
    let mut k: usize = 0;
    while k < p.len()
        invariant
            sl == s@.len(),
            i <= s@.len(),
            i + p@.len() <= s@.len(),
            k <= p@.len(),
            forall|j: int| 0 <= j < k ==> s@[i + j] == p@[j],
        decreases p@.len() - k,
    {
        if s[i + k] != p[k] {
            assert(s@.subrange(i as int, i + p@.len())[k as int] != p@[k as int]);
            return false;
        }
        k = k + 1;
    }
    assert(s@.subrange(i as int, i + p@.len()) =~= p@);
    true
}

/// `s` with every occurrence of `p` removed, scanning from the left.
pub fn remove_all_chars(s: &Vec<char>, p: &Vec<char>) -> (r: Vec<char>)
    ensures
        r@ == remove_all(s@, p@),
{
    if p.len() == 0 {
        return slice_chars(s, 0, s.len());
    }
    let n = s.len();
    let mut out: Vec<char> = Vec::new();
    let mut i: usize = 0;
    assert(s@.subrange(0, n as int) =~= s@);
    while i < n
        invariant
            n == s@.len(),
            i <= n,
            p@.len() > 0,
            remove_all(s@, p@) == out@ + remove_all(s@.subrange(i as int, n as int), p@),
        decreases n - i,
    {
        let ghost rest = s@.subrange(i as int, n as int);
        if occurs_at(s, i, p) {
            assert(rest.subrange(0, p@.len() as int) =~= p@);
            assert(rest.subrange(p@.len() as int, rest.len() as int) =~= s@.subrange(
                i + p@.len(),
                n as int,
            ));
            i = i + p.len();
        } else {
            proof {
                if p@.len() <= rest.len() {
                    assert(rest.subrange(0, p@.len() as int) =~= s@.subrange(
                        i as int,
                        i + p@.len(),
                    ));
                }
            }
            assert(rest.drop_first() =~= s@.subrange(i + 1, n as int));
            assert(rest[0] == s@[i as int]);
            out.push(s[i]);
            i = i + 1;
            assert(out@ + remove_all(s@.subrange(i as int, n as int), p@) =~= out@.drop_last()
                + (seq![s@[i - 1]] + remove_all(s@.subrange(i as int, n as int), p@)));
        }
    }
    assert(remove_all(s@.subrange(n as int, n as int), p@) =~= Seq::<char>::empty());
    assert(out@ + Seq::<char>::empty() =~= out@);
    out
}

/// Where the first blank line of `s` starts.
pub fn find_blank(s: &Vec<char>) -> (r: Option<usize>)
    ensures
        r matches Some(i) ==> first_blank(s@) == Some(i as int) && blank_at(s@, i as int),
        r is None ==> first_blank(s@) is None,
{
    let n = s.len();
    let mut i: usize = 0;
    while i < n && i + 1 < n
        invariant
            n == s@.len(),
            i <= n,
            first_blank_from(s@, 0) == first_blank_from(s@, i as int),
        decreases n - i,
    {
        if s[i] == '\n' && s[i + 1] == '\n' {
            return Some(i);
        }
        i = i + 1;
    }
    None
}

/// Whether the opening `<!--` of a markup comment starts at `k`.
pub open spec fn opens_at(s: Seq<char>, k: int) -> bool {
    0 <= k && k + 3 < s.len() && s[k] == '<' && s[k + 1] == '!' && s[k + 2] == '-' && s[k + 3]
        == '-'
}

/// `s` holds no `<!--`.
pub open spec fn no_opening(s: Seq<char>) -> bool {
    forall|k: int| !#[trigger] opens_at(s, k)
}

/// What trimming keeps of the start is a suffix, and of the end a prefix.
pub proof fn lemma_trim_keeps(s: Seq<char>)
    ensures
        trim_start(s).len() <= s.len(),
        trim_start(s) == s.subrange(s.len() - trim_start(s).len(), s.len() as int),
        trim_end(s).len() <= s.len(),
        trim_end(s) == s.subrange(0, trim_end(s).len() as int),
    decreases s.len(),
{
    if s.len() > 0 {
        lemma_trim_keeps(s.drop_first());
        lemma_trim_keeps(s.drop_last());
        assert(s.drop_first().subrange(
            s.len() - 1 - trim_start(s.drop_first()).len(),
            s.len() - 1,
        ) =~= s.subrange(s.len() - trim_start(s.drop_first()).len(), s.len() as int));
        assert(s.drop_last().subrange(0, trim_end(s.drop_last()).len() as int) =~= s.subrange(
            0,
            trim_end(s.drop_last()).len() as int,
        ));
        assert(s.subrange(0, s.len() as int) =~= s);
    } else {
        assert(s.subrange(0, 0) =~= s);
    }
}

proof fn lemma_trim_start_before(x: Seq<char>, q: Seq<char>)
    requires
        q.len() > 0,
        !is_white(q[0]),
    ensures
        trim_start(x + q) == trim_start(x) + q,
    decreases x.len(),
{
    if x.len() == 0 {
        assert(x + q =~= q);
        assert(trim_start(x) + q =~= q);
    } else {
        assert((x + q)[0] == x[0]);
        assert((x + q).drop_first() =~= x.drop_first() + q);
        lemma_trim_start_before(x.drop_first(), q);
    }
}

proof fn lemma_trim_end_after(q: Seq<char>, y: Seq<char>)
    requires
        q.len() > 0,
        !is_white(q.last()),
    ensures
        trim_end(q + y) == q + trim_end(y),
    decreases y.len(),
{
    if y.len() == 0 {
        assert(q + y =~= q);
        assert(q + trim_end(y) =~= q);
    } else {
        assert((q + y).last() == y.last());
        assert((q + y).drop_last() =~= q + y.drop_last());
        lemma_trim_end_after(q, y.drop_last());
    }
}

proof fn lemma_trim_start_twice(x: Seq<char>, y: Seq<char>)
    ensures
        trim_start(trim_start(x) + y) == trim_start(x + y),
    decreases x.len(),
{
    if x.len() > 0 && is_white(x[0]) {
        assert((x + y)[0] == x[0]);
        assert((x + y).drop_first() =~= x.drop_first() + y);
        lemma_trim_start_twice(x.drop_first(), y);
    }
}

proof fn lemma_trim_end_twice(x: Seq<char>, y: Seq<char>)
    ensures
        trim_end(x + trim_end(y)) == trim_end(x + y),
    decreases y.len(),
{
    if y.len() > 0 && is_white(y.last()) {
        assert((x + y).last() == y.last());
        assert((x + y).drop_last() =~= x + y.drop_last());
        lemma_trim_end_twice(x, y.drop_last());
    }
}

proof fn lemma_trim_end_white_first(s: Seq<char>)
    requires
        s.len() > 0,
        is_white(s[0]),
    ensures
        trim_end(s) == if trim_end(s.drop_first()).len() == 0 {
            Seq::<char>::empty()
        } else {
            seq![s[0]] + trim_end(s.drop_first())
        },
    decreases s.len(),
{
    let t = s.drop_first();
    if s.len() == 1 {
        assert(s.drop_last() =~= Seq::<char>::empty());
        assert(t =~= Seq::<char>::empty());
    } else if is_white(s.last()) {
        let d = s.drop_last();
        assert(d[0] == s[0]);
        lemma_trim_end_white_first(d);
        assert(d.drop_first() =~= t.drop_last());
        assert(t.last() == s.last());
    } else {
        assert(t.last() == s.last());
        assert(seq![s[0]] + t =~= s);
    }
}

/// Trimming the two ends does not depend on the order.
proof fn lemma_trim_commutes(s: Seq<char>)
    ensures
        trim_end(trim_start(s)) == trim_start(trim_end(s)),
    decreases s.len(),
{
    if s.len() > 0 {
        if is_white(s[0]) {
            let t = s.drop_first();
            lemma_trim_commutes(t);
            lemma_trim_end_white_first(s);
            if trim_end(t).len() > 0 {
                let e = seq![s[0]] + trim_end(t);
                assert(e.drop_first() =~= trim_end(t));
            }
        } else {
            lemma_trim_keeps(s);
            if trim_end(s).len() > 0 {
                assert(trim_end(s)[0] == s[0]);
            }
        }
    }
}

/// Trimming around the pieces of a text that a block was cut out of trims
/// the text without the block.
pub proof fn lemma_trim_joined(b0: Seq<char>, b1: Seq<char>)
    ensures
        trim(trim_start(b0) + trim_end(b1)) == trim(b0 + b1),
{
    lemma_trim_start_twice(b0, trim_end(b1));
    lemma_trim_commutes(b0 + trim_end(b1));
    lemma_trim_end_twice(b0, b1);
    lemma_trim_commutes(b0 + b1);
}

/// Trimming a text with a block in it that starts and ends with visible
/// characters trims the two sides of the block.
pub proof fn lemma_trim_around(b0: Seq<char>, p: Seq<char>, b1: Seq<char>)
    requires
        p.len() > 0,
        !is_white(p[0]),
        !is_white(p.last()),
    ensures
        trim(b0 + p + b1) == trim_start(b0) + p + trim_end(b1),
{
    assert(b0 + p + b1 =~= b0 + (p + b1));
    lemma_trim_start_before(b0, p + b1);
    assert(trim_start(b0) + (p + b1) =~= (trim_start(b0) + p) + b1);
    lemma_trim_end_after(trim_start(b0) + p, b1);
}

proof fn lemma_remove_nothing(v: Seq<char>, p: Seq<char>)
    requires
        opens_at(p, 0),
        no_opening(v),
    ensures
        remove_all(v, p) == v,
    decreases v.len(),
{
    if v.len() > 0 {
        if p.len() <= v.len() && v.subrange(0, p.len() as int) == p {
            assert(v.subrange(0, p.len() as int)[0] == p[0]);
            assert(v.subrange(0, p.len() as int)[1] == p[1]);
            assert(v.subrange(0, p.len() as int)[2] == p[2]);
            assert(v.subrange(0, p.len() as int)[3] == p[3]);
            assert(opens_at(v, 0));
        }
        let w = v.drop_first();
        assert forall|k: int| !#[trigger] opens_at(w, k) by {
            if opens_at(w, k) {
                assert(opens_at(v, k + 1));
            }
        }
        lemma_remove_nothing(w, p);
        assert(seq![v[0]] + w =~= v);
    }
}

/// Cutting a block out of a text, where no other block can start.
pub proof fn lemma_remove_block(u: Seq<char>, p: Seq<char>, v: Seq<char>)
    requires
        opens_at(p, 0),
        no_opening(u),
        no_opening(v),
    ensures
        remove_all(u + p + v, p) == u + v,
    decreases u.len(),
{
    let s = u + p + v;
    if u.len() == 0 {
        assert(s.subrange(0, p.len() as int) =~= p);
        assert(s.subrange(p.len() as int, s.len() as int) =~= v);
        lemma_remove_nothing(v, p);
        assert(u + v =~= v);
    } else {
        if p.len() <= s.len() && s.subrange(0, p.len() as int) == p {
            let h = s.subrange(0, p.len() as int);
            assert(h[0] == s[0] && h[1] == s[1] && h[2] == s[2] && h[3] == s[3]);
            if u.len() >= 4 {
                assert(opens_at(u, 0));
            } else {
                assert(s[u.len() as int] == p[0]);
            }
        }
        let w = u.drop_first();
        assert forall|k: int| !#[trigger] opens_at(w, k) by {
            if opens_at(w, k) {
                assert(opens_at(u, k + 1));
            }
        }
        assert(s.drop_first() =~= w + p + v);
        lemma_remove_block(w, p, v);
        assert(seq![u[0]] + (w + v) =~= u + v);
    }
}

/// Pieces of a text without `<!--` hold none either.
pub proof fn lemma_no_opening_piece(s: Seq<char>, lo: int, hi: int)
    requires
        0 <= lo <= hi <= s.len(),
        no_opening(s),
    ensures
        no_opening(s.subrange(lo, hi)),
{
    assert forall|k: int| !#[trigger] opens_at(s.subrange(lo, hi), k) by {
        if opens_at(s.subrange(lo, hi), k) {
            assert(opens_at(s, lo + k));
        }
    }
}

/// In a line followed by a blank line, the blank line is the first one.
pub proof fn lemma_first_blank_after_line(a: Seq<char>, rest: Seq<char>, k: int)
    requires
        0 <= k <= a.len(),
        forall|j: int| 0 <= j < a.len() ==> a[j] != '\n',
    ensures
        first_blank_from(a + seq!['\n', '\n'] + rest, k) == Some(a.len() as int),
    decreases a.len() - k,
{
    let s = a + seq!['\n', '\n'] + rest;
    if k < a.len() {
        assert(s[k] == a[k]);
        lemma_first_blank_after_line(a, rest, k + 1);
    } else {
        assert(s[k] == '\n' && s[k + 1] == '\n');
    }
}

} // verus!
