//! Case-insensitive host name patterns, where a `*` stands for one or more
//! characters none of which is a dot.

use vstd::prelude::*;

verus! {

/// The code point of `c`, with ASCII upper-case letters taken to lower case.
pub open spec fn folded(c: char) -> u32 {
    if 65 <= c as u32 && c as u32 <= 90 {
        (c as u32 + 32) as u32
    } else {
        c as u32
    }
}

/// A name, character by character, with ASCII case folded away.
pub open spec fn fold_all(s: Seq<char>) -> Seq<u32> {
    s.map_values(|c: char| folded(c))
}

/// The position of the last `*` of `p`, or -1 when `p` has none.
pub open spec fn last_star(p: Seq<u32>) -> int
    decreases p.len(),
{
    if p.len() == 0 {
        -1
    } else if p.last() == 42 {
        p.len() - 1
    } else {
        last_star(p.drop_last())
    }
}

/// `name` matches `pattern`, ignoring ASCII case, when it is the pattern with
/// the pattern's last `*` replaced by a non-empty run of characters that holds
/// no dot. Without a `*` the two must be equal; a `*` left of the last one
/// stands for itself.
pub open spec fn wildcard_match(name: Seq<char>, pattern: Seq<char>) -> bool {
    let n = fold_all(name);
    let p = fold_all(pattern);
    let star = last_star(p);
    if star < 0 {
        n == p
    } else {
        let left = p.take(star);
        let right = p.skip(star + 1);
        &&& n.len() > left.len() + right.len()
        &&& n.take(left.len() as int) == left
        &&& n.skip(n.len() - right.len()) == right
        &&& forall|j: int| left.len() <= j < n.len() - right.len() ==> #[trigger] n[j] != 46
    }
}

/// Some pattern of `patterns` matches `name`.
pub open spec fn any_match(name: Seq<char>, patterns: Seq<Seq<char>>) -> bool {
    exists|i: int| 0 <= i < patterns.len() && wildcard_match(name, #[trigger] patterns[i])
}

/// The texts of a list of strings.
pub open spec fn views(v: Seq<String>) -> Seq<Seq<char>> {
    v.map_values(|s: String| s@)
}

/// `last_star` is the position of the last `*`.
proof fn lemma_last_star(p: Seq<u32>, k: int)
    requires
        -1 <= k < p.len(),
        k >= 0 ==> p[k] == 42,
        forall|j: int| k < j < p.len() ==> #[trigger] p[j] != 42,
    ensures
        last_star(p) == k,
    decreases p.len(),
{
    if p.len() > 0 && p.last() != 42 {
        assert forall|j: int| k < j < p.drop_last().len() implies #[trigger] p.drop_last()[j]
            != 42 by {
            assert(p.drop_last()[j] == p[j]);
        }
        lemma_last_star(p.drop_last(), k);
    }
}

/// Whether `a[a_from..a_from + len]` and `b[b_from..b_from + len]` are equal.
fn same_range(a: &Vec<u32>, a_from: usize, b: &Vec<u32>, b_from: usize, len: usize) -> (r: bool)
    requires
        a_from + len <= a@.len(),
        b_from + len <= b@.len(),
    ensures
        r == (a@.subrange(a_from as int, a_from + len) == b@.subrange(b_from as int, b_from + len)),
{
    let mut i: usize = 0;
    while i < len
        invariant
            i <= len,
            a_from + len <= a.len(),
            b_from + len <= b.len(),
            a@.subrange(a_from as int, a_from + i) == b@.subrange(b_from as int, b_from + i),
        decreases len - i,
    {
        if a[a_from + i] != b[b_from + i] {
            assert(a@.subrange(a_from as int, a_from + len)[i as int] != b@.subrange(
                b_from as int,
                b_from + len,
            )[i as int]);
            return false;
        }
        assert(a@.subrange(a_from as int, a_from + i + 1) == a@.subrange(a_from as int, a_from + i).push(
            a@[a_from + i],
        ));
        assert(b@.subrange(b_from as int, b_from + i + 1) == b@.subrange(b_from as int, b_from + i).push(
            b@[b_from + i],
        ));
        i = i + 1;
    }
    true
}

fn fold_char(c: char) -> (r: u32)
    ensures
        r == folded(c),
{
    let code = c as u32;
    if 65 <= code && code <= 90 {
        code + 32
    } else {
        code
    }
}

fn folded_chars(s: &str) -> (r: Vec<u32>)
    ensures
        r@ == fold_all(s@),
{
    let mut out: Vec<u32> = Vec::new();
    for c in it: s.chars()
        invariant
            it.seq() == s@,
            out@ == fold_all(s@.take(it.index() as int)),
    {
        proof {
            assert(s@.take(it.index() + 1) == s@.take(it.index() as int).push(c));
        }
        out.push(fold_char(c));
    }
    proof {
        assert(s@.take(s@.len() as int) == s@);
    }
    out
}

/// Whether `input` matches `pattern`.
pub fn is_match(input: &str, pattern: &str) -> (r: bool)
    ensures
        r == wildcard_match(input@, pattern@),
{
    let n = folded_chars(input);
    let p = folded_chars(pattern);
    let nl = n.len();
    let pl = p.len();
    let mut i: usize = pl;
    while i > 0 && p[i - 1] != 42
        invariant
            i <= pl,
            pl == p@.len(),
            forall|j: int| i <= j < pl ==> #[trigger] p@[j] != 42,
        decreases i,
    {
        i = i - 1;
    }
    if i == 0 {
        proof {
            lemma_last_star(p@, -1);
        }
        if nl != pl {
            return false;
        }
        let r = same_range(&n, 0, &p, 0, pl);
        proof {
            assert(n@.subrange(0, nl as int) == n@);
            assert(p@.subrange(0, pl as int) == p@);
        }
        return r;
    }
    let star = i - 1;
    proof {
        lemma_last_star(p@, star as int);
    }
    let right = pl - star - 1;
    if nl <= star + right {
        return false;
    }
    let left_ok = same_range(&n, 0, &p, 0, star);
    let right_ok = same_range(&n, nl - right, &p, star + 1, right);
    proof {
        assert(n@.take(star as int) == n@.subrange(0, star as int));
        assert(p@.take(star as int) == p@.subrange(0, star as int));
        assert(n@.skip(nl - right) == n@.subrange(nl - right, nl - right + right));
        assert(p@.skip(star + 1) == p@.subrange(star + 1, star + 1 + right));
    }
    if !left_ok || !right_ok {
        return false;
    }
    let mut j: usize = star;
    while j < nl - right
        invariant
            star <= j <= nl - right,
            nl == n@.len(),
            n@ == fold_all(input@),
            p@ == fold_all(pattern@),
            pl == p@.len(),
            last_star(p@) == star,
            right == pl - star - 1,
            forall|k: int| star <= k < j ==> #[trigger] n@[k] != 46,
        decreases nl - right - j,
    {
        if n[j] == 46 {
            return false;
        }
        j = j + 1;
    }
    true
}

/// Whether some pattern of `patterns` matches `input`.
pub fn has_match(input: &str, patterns: &Vec<String>) -> (r: bool)
    ensures
        r == any_match(input@, views(patterns@)),
{
    let ghost texts = views(patterns@);
    let mut i: usize = 0;
    while i < patterns.len()
        invariant
            texts == views(patterns@),
            i <= patterns.len(),
            forall|j: int| 0 <= j < i ==> !wildcard_match(input@, #[trigger] texts[j]),
        decreases patterns.len() - i,
    {
        if is_match(input, patterns[i].as_str()) {
            assert(wildcard_match(input@, texts[i as int]));
            return true;
        }
        i = i + 1;
    }
    false
}

} // verus!
