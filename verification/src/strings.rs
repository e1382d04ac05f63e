//! Small verified string utilities: equality of slices, placeholder
//! substitution for message templates, and decimal rendering of counters.

use vstd::prelude::*;

verus! {

/// Whether two string slices hold the same characters.
pub fn str_eq(a: &str, b: &str) -> (r: bool)
    ensures
        r == (a@ == b@),
{
    let n = a.unicode_len();
    if n != b.unicode_len() {
        assert(a@ != b@);
        return false;
    }
    let mut i: usize = 0;
    while i < n
        invariant
            n == a@.len(),
            n == b@.len(),
            i <= n,
            forall|j: int| 0 <= j < i ==> a@[j] == b@[j],
        decreases n - i,
    {
        if a.get_char(i) != b.get_char(i) {
            return false;
        }
        i += 1;
    }
    assert(a@ =~= b@);
    true
}

/// The character sequence of an optional string.
pub open spec fn opt_view(s: Option<String>) -> Option<Seq<char>> {
    match s {
        Some(v) => Some(v@),
        None => None,
    }
}

/// An owned copy of an optional string, equal to it as a value.
pub fn opt_clone(s: &Option<String>) -> (r: Option<String>)
    ensures
        r == *s,
{
    match s {
        Some(v) => Some(v.clone()),
        None => None,
    }
}

/// `s` with every non-overlapping occurrence of `pattern` (scanned left to
/// right) replaced by `value`; an empty `pattern` leaves `s` unchanged.
pub open spec fn replace_seq(s: Seq<char>, pattern: Seq<char>, value: Seq<char>) -> Seq<char>
    decreases s.len(),
{
    if pattern.len() == 0 || s.len() < pattern.len() {
        s
    } else if s.take(pattern.len() as int) == pattern {
        value + replace_seq(s.skip(pattern.len() as int), pattern, value)
    } else {
        seq![s[0]] + replace_seq(s.skip(1), pattern, value)
    }
}

/// Whether an occurrence of `pattern` starts at position `i` of `s`.
pub open spec fn match_at(s: Seq<char>, pattern: Seq<char>, i: int) -> bool {
    &&& 0 <= i
    &&& i + pattern.len() <= s.len()
    &&& s.subrange(i, i + pattern.len()) == pattern
}

proof fn lemma_replace_skip_unmatched(s: Seq<char>, pattern: Seq<char>, value: Seq<char>, k: int)
    requires
        pattern.len() > 0,
        0 <= k <= s.len(),
        forall|i: int| 0 <= i < k ==> !match_at(s, pattern, i),
    ensures
        replace_seq(s, pattern, value) == s.take(k) + replace_seq(s.skip(k), pattern, value),
    decreases k,
{
    if k == 0 {
        assert(s.skip(0) =~= s);
        assert(s.take(0) + replace_seq(s, pattern, value) =~= replace_seq(s, pattern, value));
    } else {
        assert(!match_at(s, pattern, 0));
        let t = s.skip(1);
        assert forall|i: int| 0 <= i < k - 1 implies !match_at(t, pattern, i) by {
            if i + pattern.len() <= t.len() {
                assert(t.subrange(i, i + pattern.len() as int) =~= s.subrange(
                    i + 1,
                    i + 1 + pattern.len() as int,
                ));
                assert(!match_at(s, pattern, i + 1));
            }
        }
        lemma_replace_skip_unmatched(t, pattern, value, k - 1);
        assert(t.skip(k - 1) =~= s.skip(k));
        if s.len() >= pattern.len() {
            assert(s.take(pattern.len() as int) =~= s.subrange(0, pattern.len() as int));
            assert(s.take(pattern.len() as int) != pattern);
            assert(replace_seq(s, pattern, value) == seq![s[0]] + replace_seq(t, pattern, value));
            assert(seq![s[0]] + (t.take(k - 1) + replace_seq(t.skip(k - 1), pattern, value)) =~= s.take(
                k,
            ) + replace_seq(s.skip(k), pattern, value));
        } else {
            assert(replace_seq(s, pattern, value) == s);
            assert(s.skip(k).len() < pattern.len());
            assert(replace_seq(s.skip(k), pattern, value) == s.skip(k));
            assert(s =~= s.take(k) + s.skip(k));
        }
    }
}

proof fn lemma_replace_no_match(s: Seq<char>, pattern: Seq<char>, value: Seq<char>)
    requires
        pattern.len() > 0,
        forall|i: int| 0 <= i ==> !match_at(s, pattern, i),
    ensures
        replace_seq(s, pattern, value) == s,
    decreases s.len(),
{
    if s.len() >= pattern.len() {
        assert(!match_at(s, pattern, 0));
        assert(s.take(pattern.len() as int) =~= s.subrange(0, pattern.len() as int));
        let t = s.skip(1);
        assert forall|i: int| 0 <= i implies !match_at(t, pattern, i) by {
            if i + pattern.len() <= t.len() {
                assert(t.subrange(i, i + pattern.len() as int) =~= s.subrange(
                    i + 1,
                    i + 1 + pattern.len() as int,
                ));
                assert(!match_at(s, pattern, i + 1));
            }
        }
        lemma_replace_no_match(t, pattern, value);
        assert(seq![s[0]] + t =~= s);
    }
}

/// Whether `pattern` occurs at position `i` of `s`, decided by comparing
/// characters.
fn occurs_at(s: &str, n: usize, pattern: &str, m: usize, i: usize) -> (r: bool)
    requires
        n == s@.len(),
        m == pattern@.len(),
        i + m <= n,
    ensures
        r == match_at(s@, pattern@, i as int),
{
    let mut j: usize = 0;
    while j < m
        invariant
            n == s@.len(),
            m == pattern@.len(),
            i + m <= n,
            j <= m,
            forall|k: int| 0 <= k < j ==> s@[i + k] == pattern@[k],
        decreases m - j,
    {
        if s.get_char(i + j) != pattern.get_char(j) {
            assert(s@.subrange(i as int, i + m) != pattern@) by {
                assert(s@.subrange(i as int, i + m)[j as int] == s@[i + j]);
            }
            return false;
        }
        j += 1;
    }
    assert(s@.subrange(i as int, i + m) =~= pattern@);
    true
}

/// `s` with every occurrence of `pattern` replaced by `value`.
pub fn replace(s: &str, pattern: &str, value: &str) -> (r: String)
    ensures
        r@ == replace_seq(s@, pattern@, value@),
{
    let n = s.unicode_len();
    let m = pattern.unicode_len();
    if m == 0 {
        return String::from_str(s);
    }
    let mut result = String::new();
    let mut start: usize = 0;
    let mut i: usize = 0;
    proof {
        assert(s@.skip(0) =~= s@);
        assert(result@ + replace_seq(s@, pattern@, value@) =~= replace_seq(s@, pattern@, value@));
    }
    while i < n
        invariant
            n == s@.len(),
            m == pattern@.len(),
            m > 0,
            start <= i <= n,
            result@ + replace_seq(s@.skip(start as int), pattern@, value@) == replace_seq(
                s@,
                pattern@,
                value@,
            ),
            forall|k: int| start <= k < i ==> !match_at(s@, pattern@, k),
        decreases n - i,
    {
        if m <= n - i && occurs_at(s, n, pattern, m, i) {
            proof {
                let t = s@.skip(start as int);
                assert forall|k: int| 0 <= k < i - start implies !match_at(t, pattern@, k) by {
                    if k + pattern@.len() <= t.len() {
                        assert(t.subrange(k, k + pattern@.len() as int) =~= s@.subrange(
                            start + k,
                            start + k + pattern@.len() as int,
                        ));
                        assert(!match_at(s@, pattern@, start + k));
                    }
                }
                lemma_replace_skip_unmatched(t, pattern@, value@, i as int - start as int);
                assert(t.skip(i as int - start as int) =~= s@.skip(i as int));
                assert(t.take(i as int - start as int) =~= s@.subrange(start as int, i as int));
                assert(s@.skip(i as int).take(pattern@.len() as int) =~= s@.subrange(
                    i as int,
                    i + pattern@.len() as int,
                ));
                assert(s@.skip(i as int).skip(pattern@.len() as int) =~= s@.skip(i + m));
                assert(replace_seq(s@.skip(i as int), pattern@, value@) == value@ + replace_seq(
                    s@.skip(i + m),
                    pattern@,
                    value@,
                ));
            }
            result.append(s.substring_char(start, i));
            result.append(value);
            proof {
                assert(result@ + replace_seq(s@.skip(i + m), pattern@, value@) =~= replace_seq(
                    s@,
                    pattern@,
                    value@,
                ));
            }
            i += m;
            start = i;
        } else {
            i += 1;
        }
    }
    proof {
        let t = s@.skip(start as int);
        assert forall|k: int| 0 <= k implies !match_at(t, pattern@, k) by {
            if k + pattern@.len() <= t.len() {
                assert(t.subrange(k, k + pattern@.len() as int) =~= s@.subrange(
                    start + k,
                    start + k + pattern@.len() as int,
                ));
                assert(!match_at(s@, pattern@, start + k));
            }
        }
        lemma_replace_no_match(t, pattern@, value@);
        assert(s@.subrange(start as int, n as int) =~= t);
    }
    result.append(s.substring_char(start, n));
    result
}

/// The string a context map supplies for a template key: the text stored
/// under the key, or empty when the key is absent or holds no text.
pub open spec fn ctx_str(
    m: Map<Seq<char>, crate::context::SpecContextValue>,
    key: Seq<char>,
) -> Seq<char> {
    if m.dom().contains(key) {
        match m[key] {
            crate::context::SpecContextValue::Text(s) => s,
            _ => Seq::empty(),
        }
    } else {
        Seq::empty()
    }
}

/// The template `m` with `{last_input}` and `{error_message}` placeholders
/// substituted from the context map; unresolved placeholders become empty.
pub open spec fn rendered_template(
    m: Seq<char>,
    ctx: Map<Seq<char>, crate::context::SpecContextValue>,
) -> Seq<char> {
    replace_seq(
        replace_seq(m, "{last_input}"@, ctx_str(ctx, "last_input"@)),
        "{error_message}"@,
        ctx_str(ctx, "error_message"@),
    )
}

/// Substitutes the template placeholders from a context map.
pub(crate) fn render_template(m: &str, ctx: &crate::context::Context) -> (r: String)
    requires
        ctx.wf(),
    ensures
        r@ == rendered_template(m@, ctx@),
{
    let last_input = match ctx.get("last_input") {
        Some(crate::context::ContextValue::Text(s)) => s,
        _ => String::new(),
    };
    let error_message = match ctx.get("error_message") {
        Some(crate::context::ContextValue::Text(s)) => s,
        _ => String::new(),
    };
    let step = replace(m, "{last_input}", last_input.as_str());
    replace(step.as_str(), "{error_message}", error_message.as_str())
}

/// The decimal digits of `n`, most significant first.
pub open spec fn spec_decimal(n: nat) -> Seq<char>
    decreases n,
{
    if n < 10 {
        seq![digit_char(n)]
    } else {
        spec_decimal(n / 10).push(digit_char(n % 10))
    }
}

/// The character for one decimal digit.
pub open spec fn digit_char(d: nat) -> char {
    if d == 0 {
        '0'
    } else if d == 1 {
        '1'
    } else if d == 2 {
        '2'
    } else if d == 3 {
        '3'
    } else if d == 4 {
        '4'
    } else if d == 5 {
        '5'
    } else if d == 6 {
        '6'
    } else if d == 7 {
        '7'
    } else if d == 8 {
        '8'
    } else {
        '9'
    }
}

fn digit_str(d: u64) -> (r: &'static str)
    requires
        d < 10,
    ensures
        r@ =~= seq![digit_char(d as nat)],
{
    let r = if d == 0 {
        "0"
    } else if d == 1 {
        "1"
    } else if d == 2 {
        "2"
    } else if d == 3 {
        "3"
    } else if d == 4 {
        "4"
    } else if d == 5 {
        "5"
    } else if d == 6 {
        "6"
    } else if d == 7 {
        "7"
    } else if d == 8 {
        "8"
    } else {
        "9"
    };
    proof {
        reveal_strlit("0");
        reveal_strlit("1");
        reveal_strlit("2");
        reveal_strlit("3");
        reveal_strlit("4");
        reveal_strlit("5");
        reveal_strlit("6");
        reveal_strlit("7");
        reveal_strlit("8");
        reveal_strlit("9");
    }
    r
}

/// `n` written in decimal.
pub fn decimal(n: u64) -> (r: String)
    ensures
        r@ == spec_decimal(n as nat),
    decreases n,
{
    if n < 10 {
        String::from_str(digit_str(n))
    } else {
        let mut r = decimal(n / 10);
        r.append(digit_str(n % 10));
        proof {
            assert(spec_decimal((n / 10) as nat).push(digit_char((n % 10) as nat)) =~= spec_decimal(
                (n / 10) as nat,
            ) + seq![digit_char((n % 10) as nat)]);
        }
        r
    }
}

} // verus!
