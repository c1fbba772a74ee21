//! Character-level text utilities: whitespace classification, trimming,
//! content checks, and removal of delimiter markers.

use vstd::prelude::*;

verus! {

/// Whether `c` has the Unicode `White_Space` property, the set that
/// `str::trim` strips.
pub open spec fn is_ws_char(c: char) -> bool {
    let u = c as u32;
    ||| u == 0x09
    ||| u == 0x0A
    ||| u == 0x0B
    ||| u == 0x0C
    ||| u == 0x0D
    ||| u == 0x20
    ||| u == 0x85
    ||| u == 0xA0
    ||| u == 0x1680
    ||| (0x2000 <= u && u <= 0x200A)
    ||| u == 0x2028
    ||| u == 0x2029
    ||| u == 0x202F
    ||| u == 0x205F
    ||| u == 0x3000
}

/// Decides the Unicode `White_Space` property for one character.
pub fn is_whitespace_char(c: char) -> (r: bool)
    ensures
        r == is_ws_char(c),
{
    let u = c as u32;
    u == 0x09 || u == 0x0A || u == 0x0B || u == 0x0C || u == 0x0D || u == 0x20 || u == 0x85
        || u == 0xA0 || u == 0x1680 || (0x2000 <= u && u <= 0x200A) || u == 0x2028 || u == 0x2029
        || u == 0x202F || u == 0x205F || u == 0x3000
}

/// Whether `s` holds at least one non-whitespace character, i.e. whether it
/// still has characters after trimming.
pub open spec fn has_content(s: Seq<char>) -> bool {
    exists|i: int| 0 <= i < s.len() && !is_ws_char(s[i])
}

/// Scans `s` for a non-whitespace character.
pub fn str_has_content(s: &str) -> (r: bool)
    ensures
        r == has_content(s@),
{
    let n = s.unicode_len();
    let mut i: usize = 0;
    while i < n
        invariant
            n == s@.len(),
            0 <= i <= n,
            forall|j: int| 0 <= j < i ==> is_ws_char(s@[j]),
        decreases n - i,
    {
        if !is_whitespace_char(s.get_char(i)) {
            return true;
        }
        i = i + 1;
    }
    false
}

/// `s` with its maximal whitespace prefix removed.
pub open spec fn trim_start(s: Seq<char>) -> Seq<char>
    decreases s.len(),
{
    if s.len() > 0 && is_ws_char(s[0]) {
        trim_start(s.drop_first())
    } else {
        s
    }
}

/// `s` with its maximal whitespace suffix removed.
pub open spec fn trim_end(s: Seq<char>) -> Seq<char>
    decreases s.len(),
{
    if s.len() > 0 && is_ws_char(s[s.len() - 1]) {
        trim_end(s.drop_last())
    } else {
        s
    }
}

/// `s` with whitespace removed from both ends, as `str::trim` leaves it.
pub open spec fn trimmed(s: Seq<char>) -> Seq<char> {
    trim_end(trim_start(s))
}

proof fn lemma_trim_start_skip(s: Seq<char>, a: int)
    requires
        0 <= a <= s.len(),
        forall|j: int| 0 <= j < a ==> is_ws_char(s[j]),
        a == s.len() || !is_ws_char(s[a]),
    ensures
        trim_start(s) == s.skip(a),
    decreases a,
{
    if a == 0 {
        assert(s.skip(0) =~= s);
    } else {
        assert(is_ws_char(s[0]));
        let t = s.drop_first();
        assert(t =~= s.skip(1));
        lemma_trim_start_skip(t, a - 1);
        assert(t.skip(a - 1) =~= s.skip(a));
    }
}

proof fn lemma_trim_end_take(s: Seq<char>, e: int)
    requires
        0 <= e <= s.len(),
        forall|j: int| e <= j < s.len() ==> is_ws_char(s[j]),
        e == 0 || !is_ws_char(s[e - 1]),
    ensures
        trim_end(s) == s.take(e),
    decreases s.len() - e,
{
    if e == s.len() {
        assert(s.take(e) =~= s);
    } else {
        assert(is_ws_char(s[s.len() - 1]));
        let t = s.drop_last();
        assert(t =~= s.take(s.len() - 1));
        lemma_trim_end_take(t, e);
        assert(t.take(e) =~= s.take(e));
    }
}

/// Trimming a string that straddles non-whitespace characters at indices `a`
/// and `b` keeps exactly the span from `a` through `b`.
proof fn lemma_trimmed_subrange(s: Seq<char>, a: int, b: int)
    requires
        0 <= a <= b < s.len(),
        !is_ws_char(s[a]),
        !is_ws_char(s[b]),
        forall|j: int| 0 <= j < a ==> is_ws_char(s[j]),
        forall|j: int| b < j < s.len() ==> is_ws_char(s[j]),
    ensures
        trimmed(s) == s.subrange(a, b + 1),
{
    lemma_trim_start_skip(s, a);
    let t = s.skip(a);
    lemma_trim_end_take(t, b + 1 - a);
    assert(t.take(b + 1 - a) =~= s.subrange(a, b + 1));
}

proof fn lemma_all_ws_trims_empty(s: Seq<char>)
    requires
        forall|j: int| 0 <= j < s.len() ==> is_ws_char(s[j]),
    ensures
        trimmed(s).len() == 0,
{
    lemma_trim_start_skip(s, s.len() as int);
    assert(s.skip(s.len() as int) =~= Seq::<char>::empty());
}

proof fn lemma_trim_start_keeps_content(s: Seq<char>)
    requires
        has_content(s),
    ensures
        has_content(trim_start(s)),
    decreases s.len(),
{
    if s.len() > 0 && is_ws_char(s[0]) {
        let i = choose|i: int| 0 <= i < s.len() && !is_ws_char(s[i]);
        assert(!is_ws_char(s.drop_first()[i - 1]));
        lemma_trim_start_keeps_content(s.drop_first());
    }
}

proof fn lemma_trim_end_keeps_content(s: Seq<char>)
    requires
        has_content(s),
    ensures
        trim_end(s).len() > 0,
    decreases s.len(),
{
    if s.len() > 0 && is_ws_char(s[s.len() - 1]) {
        let i = choose|i: int| 0 <= i < s.len() && !is_ws_char(s[i]);
        assert(!is_ws_char(s.drop_last()[i]));
        lemma_trim_end_keeps_content(s.drop_last());
    }
}

/// A string survives trimming exactly when it holds a non-whitespace
/// character.
pub proof fn lemma_has_content_iff_trimmed_nonempty(s: Seq<char>)
    ensures
        has_content(s) <==> trimmed(s).len() > 0,
{
    if has_content(s) {
        lemma_trim_start_keeps_content(s);
        lemma_trim_end_keeps_content(trim_start(s));
    } else {
        assert(forall|j: int| 0 <= j < s.len() ==> is_ws_char(s[j]));
        lemma_all_ws_trims_empty(s);
    }
}

/// Strips whitespace from both ends of `s`.
pub fn trim_str(s: &str) -> (r: &str)
    ensures
        r@ == trimmed(s@),
{
    let n = s.unicode_len();
    let mut a: usize = 0;
    while a < n && is_whitespace_char(s.get_char(a))
        invariant
            n == s@.len(),
            0 <= a <= n,
            forall|j: int| 0 <= j < a ==> is_ws_char(s@[j]),
        decreases n - a,
    {
        a = a + 1;
    }
    if a == n {
        proof {
            lemma_trim_start_skip(s@, n as int);
            assert(s@.skip(n as int) =~= Seq::<char>::empty());
            assert(trimmed(s@) =~= s@.subrange(n as int, n as int));
        }
        return s.substring_char(n, n);
    }
    let mut b: usize = n - 1;
    while is_whitespace_char(s.get_char(b))
        invariant
            n == s@.len(),
            a <= b < n,
            !is_ws_char(s@[a as int]),
            forall|j: int| b < j < n ==> is_ws_char(s@[j]),
        decreases b,
    {
        b = b - 1;
    }
    proof {
        lemma_trimmed_subrange(s@, a as int, b as int);
    }
    s.substring_char(a, b + 1)
}

/// `s` with every occurrence of the non-empty marker `m` removed, scanning
/// left to right and resuming after each removed occurrence, as
/// `str::replace(m, "")` does.
pub open spec fn remove_all(s: Seq<char>, m: Seq<char>) -> Seq<char>
    decreases s.len(),
{
    if s.len() == 0 {
        s
    } else if 0 < m.len() <= s.len() && s.take(m.len() as int) == m {
        remove_all(s.skip(m.len() as int), m)
    } else {
        seq![s[0]] + remove_all(s.drop_first(), m)
    }
}

/// Relies on `String::push`: appends exactly the one character `c`.
#[verifier::external_body]
pub(crate) fn push_char(s: &mut String, c: char)
    ensures
        final(s)@ == old(s)@.push(c),
{
    s.push(c)
}

/// Relies on `String::pop`: removes and returns the last character, or does
/// nothing on an empty string.
#[verifier::external_body]
pub(crate) fn pop_char(s: &mut String) -> (r: Option<char>)
    ensures
        old(s)@.len() == 0 ==> final(s)@ == old(s)@ && r is None,
        old(s)@.len() > 0 ==> final(s)@ == old(s)@.drop_last() && r == Some(old(s)@.last()),
{
    s.pop()
}

/// Removes every occurrence of `marker` from `s`.
pub fn remove_occurrences(s: &str, marker: &str) -> (r: String)
    requires
        marker@.len() > 0,
    ensures
        r@ == remove_all(s@, marker@),
{
    let n = s.unicode_len();
    let m = marker.unicode_len();
    let mut out = String::new();
    let mut i: usize = 0;
    proof {
        assert(s@.skip(0) =~= s@);
    }
    while i < n
        invariant
            n == s@.len(),
            m == marker@.len(),
            m > 0,
            0 <= i <= n,
            remove_all(s@, marker@) == out@ + remove_all(s@.skip(i as int), marker@),
        decreases n - i,
    {
        let ghost rest = s@.skip(i as int);
        let matched: bool;
        if n - i >= m {
            let mut ok = true;
            let mut k: usize = 0;
            while k < m && ok
                invariant
                    n == s@.len(),
                    m == marker@.len(),
                    0 <= i,
                    i + m <= n,
                    rest == s@.skip(i as int),
                    0 <= k <= m,
                    ok ==> forall|j: int| 0 <= j < k ==> rest[j] == marker@[j],
                    !ok ==> rest.take(m as int) != marker@,
                decreases m - k + (if ok { 1int } else { 0int }),
            {
                if s.get_char(i + k) != marker.get_char(k) {
                    proof {
                        assert(rest.take(m as int)[k as int] == s@[i + k]);
                    }
                    ok = false;
                } else {
                    proof {
                        assert(rest[k as int] == s@[i + k]);
                    }
                    k = k + 1;
                }
            }
            proof {
                if ok {
                    assert(rest.take(m as int) =~= marker@);
                }
            }
            matched = ok;
        } else {
            matched = false;
        }
        if matched {
            proof {
                assert(rest.skip(m as int) =~= s@.skip(i + m));
            }
            i = i + m;
        } else {
            proof {
                assert(rest.len() == n - i);
                assert(!(0 < marker@.len() <= rest.len() && rest.take(m as int) == marker@));
                assert(remove_all(rest, marker@) == seq![rest[0]] + remove_all(
                    rest.drop_first(),
                    marker@,
                ));
                assert(rest.drop_first() =~= s@.skip(i + 1));
                assert(rest[0] == s@[i as int]);
                assert(out@.push(s@[i as int]) + remove_all(s@.skip(i + 1), marker@) =~= out@
                    + remove_all(rest, marker@));
            }
            let c = s.get_char(i);
            push_char(&mut out, c);
            i = i + 1;
        }
    }
    proof {
        assert(s@.skip(n as int) =~= Seq::<char>::empty());
        assert(out@ + Seq::<char>::empty() =~= out@);
    }
    out
}

} // verus!
