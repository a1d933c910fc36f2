use vstd::prelude::*;
use vstd::string::StrSliceExecFns;

verus! {

/// Horizontal whitespace stripped around section names, keys and values; a
/// carriage return counts so that CRLF line ends are handled.
pub open spec fn is_ws(c: char) -> bool {
    c == ' ' || c == '\t' || c == '\r'
}

/// Index of the first occurrence of `c` in `s`, or `s.len()` if there is none.
pub open spec fn first_index(s: Seq<char>, c: char) -> int
    decreases s.len(),
{
    if s.len() == 0 {
        0
    } else if s[0] == c {
        0
    } else {
        1 + first_index(s.skip(1), c)
    }
}

pub proof fn lemma_first_index_bounds(s: Seq<char>, c: char)
    ensures
        0 <= first_index(s, c) <= s.len(),
        forall|m: int| 0 <= m < first_index(s, c) ==> s[m] != c,
        first_index(s, c) < s.len() ==> s[first_index(s, c)] == c,
    decreases s.len(),
{
    if s.len() > 0 && s[0] != c {
        lemma_first_index_bounds(s.skip(1), c);
        assert forall|m: int| 0 <= m < first_index(s, c) implies s[m] != c by {
            if m > 0 {
                assert(s.skip(1)[m - 1] != c);
            }
        }
    }
}

/// Number of leading whitespace characters.
pub open spec fn front_ws(s: Seq<char>) -> int
    decreases s.len(),
{
    if s.len() == 0 {
        0
    } else if is_ws(s[0]) {
        1 + front_ws(s.skip(1))
    } else {
        0
    }
}

/// Number of trailing whitespace characters.
pub open spec fn back_ws(s: Seq<char>) -> int
    decreases s.len(),
{
    if s.len() == 0 {
        0
    } else if is_ws(s.last()) {
        1 + back_ws(s.drop_last())
    } else {
        0
    }
}

pub proof fn lemma_front_ws_is(s: Seq<char>, a: int)
    requires
        0 <= a <= s.len(),
        forall|m: int| 0 <= m < a ==> is_ws(s[m]),
        a < s.len() ==> !is_ws(s[a]),
    ensures
        front_ws(s) == a,
    decreases s.len(),
{
    if a == 0 {
    } else {
        assert(is_ws(s[0]));
        assert forall|m: int| 0 <= m < a - 1 implies is_ws(s.skip(1)[m]) by {
            assert(is_ws(s[m + 1]));
        }
        lemma_front_ws_is(s.skip(1), a - 1);
    }
}

pub proof fn lemma_back_ws_is(s: Seq<char>, k: int)
    requires
        0 <= k <= s.len(),
        forall|m: int| s.len() - k <= m < s.len() ==> is_ws(s[m]),
        k < s.len() ==> !is_ws(s[s.len() - k - 1]),
    ensures
        back_ws(s) == k,
    decreases s.len(),
{
    if s.len() == 0 {
    } else if k == 0 {
        assert(!is_ws(s.last()));
    } else {
        assert(is_ws(s.last()));
        assert forall|m: int|
            s.drop_last().len() - (k - 1) <= m < s.drop_last().len() implies is_ws(
            s.drop_last()[m],
        ) by {
            assert(is_ws(s[m]));
        }
        lemma_back_ws_is(s.drop_last(), k - 1);
    }
}

/// `s` with leading and trailing whitespace removed.
pub open spec fn trim(s: Seq<char>) -> Seq<char> {
    let f = s.skip(front_ws(s));
    f.take(f.len() - back_ws(f))
}

/// Exec trimming, phrased over an index range: the trimmed range inside
/// `[lo, hi)` of `chars`.
fn trim_range(chars: &Vec<char>, lo: usize, hi: usize) -> (r: (usize, usize))
    requires
        lo <= hi <= chars@.len(),
    ensures
        lo <= r.0 <= r.1 <= hi,
        trim(chars@.subrange(lo as int, hi as int)) == chars@.subrange(r.0 as int, r.1 as int),
{
    let mut a = lo;
    while a < hi && (chars[a] == ' ' || chars[a] == '\t' || chars[a] == '\r')
        invariant
            lo <= a <= hi <= chars@.len(),
            forall|m: int| lo <= m < a ==> is_ws(chars@[m]),
        decreases hi - a,
    {
        a = a + 1;
    }
    let mut b = hi;
    while b > a && (chars[b - 1] == ' ' || chars[b - 1] == '\t' || chars[b - 1] == '\r')
        invariant
            a <= b <= hi <= chars@.len(),
            forall|m: int| b <= m < hi ==> is_ws(chars@[m]),
        decreases b,
    {
        b = b - 1;
    }
    proof {
        lemma_trim_is(chars@.subrange(lo as int, hi as int), a - lo, b - lo);
        assert(chars@.subrange(lo as int, hi as int).subrange(a - lo, b - lo) =~= chars@.subrange(
            a as int,
            b as int,
        ));
    }
    (a, b)
}

/// Trimming a range whose outside is all whitespace and whose edges are not
/// yields exactly that range.
proof fn lemma_trim_is(s: Seq<char>, a: int, b: int)
    requires
        0 <= a <= b <= s.len(),
        forall|m: int| 0 <= m < a ==> is_ws(s[m]),
        forall|m: int| b <= m < s.len() ==> is_ws(s[m]),
        a < b ==> !is_ws(s[a]) && !is_ws(s[b - 1]),
        a == b ==> b == s.len(),
    ensures
        trim(s) == s.subrange(a, b),
{
    lemma_front_ws_is(s, a);
    let f = s.skip(a);
    assert forall|m: int| f.len() - (s.len() - b) <= m < f.len() implies is_ws(f[m]) by {
        assert(f[m] == s[m + a]);
    }
    if (s.len() - b) < f.len() {
        assert(f[f.len() - (s.len() - b) - 1] == s[b - 1]);
    }
    lemma_back_ws_is(f, s.len() - b);
    assert(trim(s) =~= s.subrange(a, b));
}

/// Effect of one line on the scanning state: `in_sect` says whether the
/// current section is the one looked for, `acc` is the value found so far.
/// Blank lines and comments change nothing; a bracketed header switches the
/// section; inside the looked-for section a `key=value` line whose key
/// matches replaces the value found so far.
pub open spec fn ini_step(
    in_sect: bool,
    acc: Option<Seq<char>>,
    line: Seq<char>,
    sect: Seq<char>,
    key: Seq<char>,
) -> (bool, Option<Seq<char>>) {
    let t = trim(line);
    if t.len() == 0 {
        (in_sect, acc)
    } else if t[0] == ';' || t[0] == '#' {
        (in_sect, acc)
    } else if t[0] == '[' {
        if t.len() >= 2 && t[t.len() - 1] == ']' {
            (trim(t.subrange(1, t.len() - 1)) == sect, acc)
        } else {
            (in_sect, acc)
        }
    } else {
        let e = first_index(t, '=');
        if e < t.len() && in_sect && trim(t.take(e)) == key {
            (in_sect, Some(trim(t.skip(e + 1))))
        } else {
            (in_sect, acc)
        }
    }
}

/// Scans the remaining text line by line, carrying the state, and yields the
/// value the last matching line left behind.
pub open spec fn ini_scan(
    s: Seq<char>,
    sect: Seq<char>,
    key: Seq<char>,
    in_sect: bool,
    acc: Option<Seq<char>>,
) -> Option<Seq<char>>
    decreases s.len(),
    via ini_scan_dec
{
    let k = first_index(s, '\n');
    let st = ini_step(in_sect, acc, s.take(k), sect, key);
    if k >= s.len() {
        st.1
    } else {
        ini_scan(s.skip(k + 1), sect, key, st.0, st.1)
    }
}

#[via_fn]
proof fn ini_scan_dec(
    s: Seq<char>,
    sect: Seq<char>,
    key: Seq<char>,
    in_sect: bool,
    acc: Option<Seq<char>>,
) {
    lemma_first_index_bounds(s, '\n');
}

/// The value of `key` in section `sect` of the given text, if any line sets
/// it: the last assignment wins, assignments outside `sect` do not count.
pub open spec fn ini_get_spec(content: Seq<char>, sect: Seq<char>, key: Seq<char>) -> Option<
    Seq<char>,
> {
    ini_scan(content, sect, key, false, None)
}

/// The characters of `s`, as a vector.
fn str_chars(s: &str) -> (v: Vec<char>)
    ensures
        v@ == s@,
{
    let n = s.unicode_len();
    let mut v: Vec<char> = Vec::new();
    let mut i: usize = 0;
    while i < n
        invariant
            i <= n,
            n == s@.len(),
            v@ == s@.take(i as int),
        decreases n - i,
    {
        let c = s.get_char(i);
        v.push(c);
        proof {
            assert(v@ =~= s@.take(i + 1));
        }
        i = i + 1;
    }
    proof {
        assert(s@.take(n as int) =~= s@);
    }
    v
}

/// Whether the characters of `v` in `[a, b)` are exactly `w`.
fn range_eq(v: &Vec<char>, a: usize, b: usize, w: &Vec<char>) -> (r: bool)
    requires
        a <= b <= v@.len(),
    ensures
        r == (v@.subrange(a as int, b as int) == w@),
{
    if b - a != w.len() {
        proof {
            assert(v@.subrange(a as int, b as int).len() != w@.len());
        }
        return false;
    }
    let mut m: usize = 0;
    while m < b - a
        invariant
            a <= b <= v@.len(),
            b - a == w@.len(),
            m <= b - a,
            forall|k: int| 0 <= k < m ==> v@[a + k] == w@[k],
        decreases b - a - m,
    {
        if v[a + m] != w[m] {
            proof {
                assert(v@.subrange(a as int, b as int)[m as int] != w@[m as int]);
            }
            return false;
        }
        m = m + 1;
    }
    proof {
        assert(v@.subrange(a as int, b as int) =~= w@);
    }
    true
}

/// Looks `key` up in section `sect` of the section-delimited key/value text
/// `content`: lines are split on line feeds, whitespace is trimmed, `;` and
/// `#` start comments, `[name]` switches the section, and `key=value` inside
/// the looked-for section sets the value; the last assignment wins.
pub fn ini_get(content: &str, sect: &str, key: &str) -> (r: Option<String>)
    ensures
        r.deep_view() == ini_get_spec(content@, sect@, key@),
{
    let chars = str_chars(content);
    let sectv = str_chars(sect);
    let keyv = str_chars(key);
    let len = chars.len();
    let mut i: usize = 0;
    let mut in_sect = false;
    let mut result: Option<String> = None;
    proof {
        assert(content@.skip(0) =~= content@);
    }
    while i < len
        invariant
            chars@ == content@,
            sectv@ == sect@,
            keyv@ == key@,
            len == chars@.len(),
            i <= len,
            ini_get_spec(content@, sect@, key@) == ini_scan(
                content@.skip(i as int),
                sect@,
                key@,
                in_sect,
                result.deep_view(),
            ),
        decreases len - i,
    {
        let ghost rem = content@.skip(i as int);
        let ghost acc0 = result.deep_view();
        let ghost in0 = in_sect;
        // Find the end of the current line.
        let mut j = i;
        while j < len && chars[j] != '\n'
            invariant
                i <= j <= len,
                len == chars@.len(),
                forall|m: int| i <= m < j ==> chars@[m] != '\n',
            decreases len - j,
        {
            j = j + 1;
        }
        proof {
            lemma_first_index_bounds(rem, '\n');
            assert forall|m: int| 0 <= m < j - i implies rem[m] != '\n' by {
                assert(rem[m] == content@[i + m]);
            }
            if j < len {
                assert(rem[j - i] == content@[j as int]);
            }
            assert(first_index(rem, '\n') == j - i);
            assert(rem.take(j - i) =~= content@.subrange(i as int, j as int));
        }
        let ghost line = content@.subrange(i as int, j as int);
        // Work on the trimmed line.
        let (a, b) = trim_range(&chars, i, j);
        let ghost t = trim(line);
        if a == b {
            // blank line: nothing changes
        } else {
            let c0 = chars[a];
            proof {
                assert(t[0] == chars@[a as int]);
            }
            if c0 == ';' || c0 == '#' {
                // comment: nothing changes
            } else if c0 == '[' {
                if b - a >= 2 && chars[b - 1] == ']' {
                    let (sa, sb) = trim_range(&chars, a + 1, b - 1);
                    proof {
                        assert(t[t.len() - 1] == chars@[b - 1]);
                        assert(t.subrange(1, t.len() - 1) =~= chars@.subrange(
                            a + 1,
                            b - 1,
                        ));
                    }
                    in_sect = range_eq(&chars, sa, sb, &sectv);
                } else {
                    proof {
                        if b - a >= 2 {
                            assert(t[t.len() - 1] == chars@[b - 1]);
                        }
                    }
                    // malformed header: nothing changes
                }
            } else {
                // Find the first '=' of the trimmed line.
                let mut e = a;
                while e < b && chars[e] != '='
                    invariant
                        a <= e <= b <= chars@.len(),
                        forall|m: int| a <= m < e ==> chars@[m] != '=',
                    decreases b - e,
                {
                    e = e + 1;
                }
                proof {
                    lemma_first_index_bounds(t, '=');
                    assert forall|m: int| 0 <= m < e - a implies t[m] != '=' by {
                        assert(t[m] == chars@[a + m]);
                    }
                    if e < b {
                        assert(t[e - a] == chars@[e as int]);
                    }
                    assert(first_index(t, '=') == e - a);
                }
                if e < b && in_sect {
                    let (ka, kb) = trim_range(&chars, a, e);
                    proof {
                        assert(t.take(e - a) =~= chars@.subrange(a as int, e as int));
                    }
                    if range_eq(&chars, ka, kb, &keyv) {
                        let (va, vb) = trim_range(&chars, e + 1, b);
                        proof {
                            assert(t.skip(e - a + 1) =~= chars@.subrange(e + 1, b as int));
                        }
                        let value = content.substring_char(va, vb).to_owned();
                        result = Some(value);
                    }
                }
            }
        }
        proof {
            let st = ini_step(in0, acc0, line, sect@, key@);
            assert(st.0 == in_sect && st.1 == result.deep_view());
            if j < len {
                assert(rem.skip(j - i + 1) =~= content@.skip(j + 1));
            }
        }
        i = if j < len {
            j + 1
        } else {
            len
        };
    }
    proof {
        let e = content@.skip(len as int);
        assert(e =~= Seq::<char>::empty());
        assert(e.take(first_index(e, '\n')) =~= Seq::<char>::empty());
        lemma_front_ws_is(Seq::<char>::empty(), 0);
        assert(trim(Seq::<char>::empty()) =~= Seq::<char>::empty());
    }
    result
}

} // verus!
