//! Character-level text operations shared by the rest of the library: the
//! specifications (over `Seq<char>`) and executable counterparts of the few
//! string operations the launcher relies on — whitespace splitting and
//! trimming, separator splitting, literal replacement, decimal and hex
//! rendering.
use vstd::prelude::*;

verus! {

// ─── Specifications ──────────────────────────────────────────────────────────

/// Unicode `White_Space`, exactly the set `char::is_whitespace` accepts.
pub open spec fn is_ws(c: char) -> bool {
    let u = c as u32;
    ||| 0x9 <= u <= 0xD
    ||| u == 0x20
    ||| u == 0x85
    ||| u == 0xA0
    ||| u == 0x1680
    ||| 0x2000 <= u <= 0x200A
    ||| u == 0x2028
    ||| u == 0x2029
    ||| u == 0x202F
    ||| u == 0x205F
    ||| u == 0x3000
}

/// Length of the run of non-whitespace characters at the start of `s`.
pub open spec fn token_len(s: Seq<char>) -> nat
    decreases s.len(),
{
    if s.len() == 0 || is_ws(s[0]) {
        0
    } else {
        1 + token_len(s.drop_first())
    }
}

/// The maximal runs of non-whitespace characters of `s`, in order
/// (what `str::split_whitespace` yields).
pub open spec fn split_ws(s: Seq<char>) -> Seq<Seq<char>>
    decreases s.len(),
{
    if s.len() == 0 {
        seq![]
    } else if is_ws(s[0]) {
        split_ws(s.drop_first())
    } else {
        let n = token_len(s);
        proof {
            lemma_token_len_bound(s);
        }
        seq![s.take(n as int)] + split_ws(s.skip(n as int))
    }
}

/// A token never runs past the end of the text.
pub proof fn lemma_token_len_bound(s: Seq<char>)
    ensures
        token_len(s) <= s.len(),
        s.len() > 0 && !is_ws(s[0]) ==> token_len(s) >= 1,
    decreases s.len(),
{
    if s.len() > 0 && !is_ws(s[0]) {
        lemma_token_len_bound(s.drop_first());
    }
}

/// `s` without its leading whitespace.
pub open spec fn trim_start(s: Seq<char>) -> Seq<char>
    decreases s.len(),
{
    if s.len() > 0 && is_ws(s[0]) {
        trim_start(s.drop_first())
    } else {
        s
    }
}

/// `s` without its trailing whitespace.
pub open spec fn trim_end(s: Seq<char>) -> Seq<char>
    decreases s.len(),
{
    if s.len() > 0 && is_ws(s.last()) {
        trim_end(s.drop_last())
    } else {
        s
    }
}

/// `s` without leading and trailing whitespace (what `str::trim` yields).
pub open spec fn trim(s: Seq<char>) -> Seq<char> {
    trim_end(trim_start(s))
}

/// Index of the first `sep` in `s`, or `s.len()` when there is none.
pub open spec fn find_char(s: Seq<char>, sep: char) -> nat
    decreases s.len(),
{
    if s.len() == 0 || s[0] == sep {
        0
    } else {
        1 + find_char(s.drop_first(), sep)
    }
}

/// The search for a separator never runs past the end of the text, and
/// stops exactly at the first separator.
pub proof fn lemma_find_char_bound(s: Seq<char>, sep: char)
    ensures
        find_char(s, sep) <= s.len(),
        find_char(s, sep) < s.len() ==> s[find_char(s, sep) as int] == sep,
        forall|j: int| 0 <= j < find_char(s, sep) ==> s[j] != sep,
    decreases s.len(),
{
    if s.len() > 0 && s[0] != sep {
        lemma_find_char_bound(s.drop_first(), sep);
        assert forall|j: int| 0 <= j < find_char(s, sep) implies s[j] != sep by {
            if j > 0 {
                assert(s[j] == s.drop_first()[j - 1]);
            }
        }
    }
}

/// The pieces of `s` between occurrences of `sep` (what `str::split` with a
/// `char` yields): always at least one piece, empty pieces kept.
pub open spec fn split_on(s: Seq<char>, sep: char) -> Seq<Seq<char>>
    decreases s.len(),
{
    let n = find_char(s, sep);
    proof {
        lemma_find_char_bound(s, sep);
    }
    if n >= s.len() {
        seq![s]
    } else {
        seq![s.take(n as int)] + split_on(s.skip(n + 1 as int), sep)
    }
}

/// `s` with every non-overlapping occurrence of `needle`, scanned left to
/// right, replaced by `with` (what `str::replace` does for a non-empty
/// needle).
pub open spec fn replace_all(s: Seq<char>, needle: Seq<char>, with: Seq<char>) -> Seq<char>
    decreases s.len(),
{
    if needle.len() == 0 || s.len() < needle.len() {
        s
    } else if s.take(needle.len() as int) == needle {
        with + replace_all(s.skip(needle.len() as int), needle, with)
    } else {
        seq![s[0]] + replace_all(s.drop_first(), needle, with)
    }
}

/// Whether `needle` occurs in `s` starting at position `i`.
pub open spec fn occurs_at(s: Seq<char>, needle: Seq<char>, i: int) -> bool {
    0 <= i && i + needle.len() <= s.len() && s.subrange(i, i + needle.len()) == needle
}

/// Whether `needle` occurs anywhere in `s`.
pub open spec fn contains_seq(s: Seq<char>, needle: Seq<char>) -> bool {
    exists|i: int| occurs_at(s, needle, i)
}

/// The decimal digit `d` (for `0 <= d < 10`).
pub open spec fn digit_char(d: int) -> char {
    seq!['0', '1', '2', '3', '4', '5', '6', '7', '8', '9'][d]
}

/// The decimal rendering of `n`, without leading zeros.
pub open spec fn decimal(n: nat) -> Seq<char>
    decreases n,
{
    if n < 10 {
        seq![digit_char(n as int)]
    } else {
        decimal(n / 10).push(digit_char((n % 10) as int))
    }
}

/// Lower-case hex digit for `0 <= d < 16`.
pub open spec fn hex_lower(d: int) -> char {
    seq!['0', '1', '2', '3', '4', '5', '6', '7', '8', '9', 'a', 'b', 'c', 'd', 'e', 'f'][d]
}

/// Upper-case hex digit for `0 <= d < 16`.
pub open spec fn hex_upper(d: int) -> char {
    seq!['0', '1', '2', '3', '4', '5', '6', '7', '8', '9', 'A', 'B', 'C', 'D', 'E', 'F'][d]
}

/// Two lower-case hex digits for a byte.
pub open spec fn hex_byte_lower(b: u8) -> Seq<char> {
    seq![hex_lower(b as int / 16), hex_lower(b as int % 16)]
}

/// Lower-case hex rendering of a byte string, two digits per byte.
pub open spec fn hex_lower_of(bytes: Seq<u8>) -> Seq<char>
    decreases bytes.len(),
{
    if bytes.len() == 0 {
        seq![]
    } else {
        hex_lower_of(bytes.drop_last()) + hex_byte_lower(bytes.last())
    }
}

/// ASCII lower-casing of one character (non-ASCII letters are unchanged).
pub open spec fn ascii_lower(c: char) -> char {
    if 'A' <= c <= 'Z' {
        ((c as u32) + 32) as char
    } else {
        c
    }
}

/// Equality up to ASCII case (what `str::eq_ignore_ascii_case` decides).
pub open spec fn eq_ignore_ascii_case(a: Seq<char>, b: Seq<char>) -> bool {
    a.len() == b.len() && forall|i: int| 0 <= i < a.len() ==> ascii_lower(a[i]) == ascii_lower(b[i])
}

// ─── Trusted std calls that vstd leaves unspecified ──────────────────────────

/// `String::push`: appends one character. Trusted: the contract says the
/// string afterwards is the old one with `c` appended, as std documents.
#[verifier::external_body]
pub(crate) fn push_char(s: &mut String, c: char)
    ensures
        final(s)@ == old(s)@.push(c),
{
    s.push(c);
}

// ─── Executable helpers ──────────────────────────────────────────────────────

/// All characters of `s`, in order.
pub fn chars_of(s: &str) -> (v: Vec<char>)
    ensures
        v@ == s@,
{
    let mut v: Vec<char> = Vec::new();
    for c in it: s.chars()
        invariant
            v@ == it.seq().take(it.index() as int),
    {
        v.push(c);
    }
    proof {
        broadcast use vstd::string::group_string_axioms;
    }
    assert(v@ =~= s@);
    v
}

/// Appends the characters `c[from..to]` to `out`.
pub fn push_range(out: &mut String, c: &Vec<char>, from: usize, to: usize)
    requires
        from <= to <= c.len(),
    ensures
        final(out)@ == old(out)@ + c@.subrange(from as int, to as int),
{
    let mut i: usize = from;
    while i < to
        invariant
            from <= i <= to <= c.len(),
            out@ == old(out)@ + c@.subrange(from as int, i as int),
        decreases to - i,
    {
        push_char(out, c[i]);
        i = i + 1;
        assert(c@.subrange(from as int, i as int) =~= c@.subrange(from as int, i - 1).push(c@[i - 1]));
    }
}

/// A `String` holding exactly the characters `c[from..to]`.
pub fn string_of_range(c: &Vec<char>, from: usize, to: usize) -> (s: String)
    requires
        from <= to <= c.len(),
    ensures
        s@ == c@.subrange(from as int, to as int),
{
    let mut s = String::new();
    push_range(&mut s, c, from, to);
    assert(s@ =~= c@.subrange(from as int, to as int));
    s
}

/// A fresh `String` copy of `s`.
pub fn owned(s: &str) -> (r: String)
    ensures
        r@ == s@,
{
    s.to_owned()
}

/// `a` followed by `b`, as a new `String`.
pub fn concat2(a: &str, b: &str) -> (r: String)
    ensures
        r@ == a@ + b@,
{
    let mut r = a.to_owned();
    r.append(b);
    r
}

/// `a`, `b` and `c` concatenated, as a new `String`.
pub fn concat3(a: &str, b: &str, c: &str) -> (r: String)
    ensures
        r@ == a@ + b@ + c@,
{
    let mut r = a.to_owned();
    r.append(b);
    r.append(c);
    r
}

/// Whether the two character sequences are equal.
pub fn chars_eq(a: &Vec<char>, b: &Vec<char>) -> (res: bool)
    ensures
        res == (a@ == b@),
{
    if a.len() != b.len() {
        return false;
    }
    let mut i: usize = 0;
    while i < a.len()
        invariant
            a.len() == b.len(),
            0 <= i <= a.len(),
            forall|j: int| 0 <= j < i ==> a@[j] == b@[j],
        decreases a.len() - i,
    {
        if a[i] != b[i] {
            return false;
        }
        i = i + 1;
    }
    assert(a@ =~= b@);
    true
}

/// Whether the two strings hold the same characters.
pub fn str_eq(a: &str, b: &str) -> (res: bool)
    ensures
        res == (a@ == b@),
{
    let ca = chars_of(a);
    let cb = chars_of(b);
    chars_eq(&ca, &cb)
}

/// Whether `p` occurs in `s` at position `i`.
pub fn occurs_at_exec(s: &Vec<char>, p: &Vec<char>, i: usize) -> (res: bool)
    ensures
        res == occurs_at(s@, p@, i as int),
{
    if i > s.len() || p.len() > s.len() - i {
        return false;
    }
    let mut k: usize = 0;
    while k < p.len()
        invariant
            i + p.len() <= s.len(),
            0 <= k <= p.len(),
            forall|j: int| 0 <= j < k ==> s@[i + j] == p@[j],
        decreases p.len() - k,
    {
        if s[i + k] != p[k] {
            assert(s@.subrange(i as int, i + p.len())[k as int] != p@[k as int]);
            return false;
        }
        k = k + 1;
    }
    assert(s@.subrange(i as int, i + p.len()) =~= p@);
    true
}

/// Whether `s` starts with `p`.
pub fn starts_with(s: &str, p: &str) -> (res: bool)
    ensures
        res == (p@.len() <= s@.len() && s@.take(p@.len() as int) == p@),
{
    let cs = chars_of(s);
    let cp = chars_of(p);
    let r = occurs_at_exec(&cs, &cp, 0);
    proof {
        if p@.len() <= s@.len() {
            assert(s@.subrange(0, p@.len() as int) =~= s@.take(p@.len() as int));
        }
    }
    r
}

/// Whether `s` ends with the character `c`.
pub fn ends_with_char(s: &str, c: char) -> (res: bool)
    ensures
        res == (s@.len() > 0 && s@.last() == c),
{
    let cs = chars_of(s);
    cs.len() > 0 && cs[cs.len() - 1] == c
}

/// Whether `needle` occurs in `s` (what `str::contains` decides).
pub fn contains(s: &str, needle: &str) -> (res: bool)
    ensures
        res == contains_seq(s@, needle@),
{
    let cs = chars_of(s);
    let cn = chars_of(needle);
    let mut i: usize = 0;
    while i < cs.len()
        invariant
            cs@ == s@,
            cn@ == needle@,
            0 <= i <= cs.len(),
            forall|j: int| 0 <= j < i ==> !occurs_at(s@, needle@, j),
        decreases cs.len() - i,
    {
        if occurs_at_exec(&cs, &cn, i) {
            return true;
        }
        i = i + 1;
    }
    if occurs_at_exec(&cs, &cn, cs.len()) {
        return true;
    }
    assert forall|j: int| !occurs_at(s@, needle@, j) by {
        if 0 <= j < i {
        } else if j > cs.len() {
        }
    }
    false
}

/// Whether `c` is whitespace (what `char::is_whitespace` decides).
pub fn is_whitespace(c: char) -> (res: bool)
    ensures
        res == is_ws(c),
{
    let u = c as u32;
    (0x9 <= u && u <= 0xD) || u == 0x20 || u == 0x85 || u == 0xA0 || u == 0x1680 || (0x2000
        <= u && u <= 0x200A) || u == 0x2028 || u == 0x2029 || u == 0x202F || u == 0x205F || u
        == 0x3000
}

/// If `a·sep·b` equals `c·sep·d` and neither `a` nor `c` contains `sep`,
/// then the parts match.
pub proof fn lemma_split_at_first(a: Seq<char>, b: Seq<char>, c: Seq<char>, d: Seq<char>, sep: char)
    requires
        a + seq![sep] + b == c + seq![sep] + d,
        forall|i: int| 0 <= i < a.len() ==> a[i] != sep,
        forall|i: int| 0 <= i < c.len() ==> c[i] != sep,
    ensures
        a == c,
        b == d,
{
    let x = a + seq![sep] + b;
    let y = c + seq![sep] + d;
    if a.len() < c.len() {
        assert(x[a.len() as int] == sep);
        assert(y[a.len() as int] == c[a.len() as int]);
    } else if c.len() < a.len() {
        assert(y[c.len() as int] == sep);
        assert(x[c.len() as int] == a[c.len() as int]);
    } else {
        assert(x.subrange(0, a.len() as int) =~= a);
        assert(y.subrange(0, c.len() as int) =~= c);
        assert(x.subrange(a.len() + 1int, x.len() as int) =~= b);
        assert(y.subrange(c.len() + 1int, y.len() as int) =~= d);
    }
}

/// No piece of a split contains the separator.
pub proof fn lemma_split_on_pieces(s: Seq<char>, sep: char)
    ensures
        split_on(s, sep).len() >= 1,
        forall|k: int, i: int|
            0 <= k < split_on(s, sep).len() && 0 <= i < split_on(s, sep)[k].len() ==> #[trigger] split_on(
                s,
                sep,
            )[k][i] != sep,
    decreases s.len(),
{
    lemma_find_char_bound(s, sep);
    let n = find_char(s, sep);
    if n < s.len() {
        lemma_split_on_pieces(s.skip(n + 1int), sep);
        let rest = split_on(s.skip(n + 1int), sep);
        assert forall|k: int, i: int|
            0 <= k < split_on(s, sep).len() && 0 <= i < split_on(s, sep)[k].len() implies #[trigger] split_on(
            s,
            sep,
        )[k][i] != sep by {
            if k == 0 {
                assert(split_on(s, sep)[0][i] == s[i]);
            } else {
                assert(split_on(s, sep)[k] == rest[k - 1]);
            }
        }
    }
}

/// The character views of a sequence of strings.
pub open spec fn views(v: Seq<String>) -> Seq<Seq<char>> {
    v.map_values(|x: String| x@)
}

/// A token is exactly the non-whitespace run that a whitespace character (or
/// the end of the text) closes.
pub proof fn lemma_token_len_exact(t: Seq<char>, k: nat)
    requires
        k <= t.len(),
        forall|m: int| 0 <= m < k ==> !is_ws(#[trigger] t[m]),
        k == t.len() || is_ws(t[k as int]),
    ensures
        token_len(t) == k,
    decreases k,
{
    if k > 0 {
        assert forall|m: int| 0 <= m < k - 1 implies !is_ws(#[trigger] t.drop_first()[m]) by {
            assert(t.drop_first()[m] == t[m + 1]);
        }
        if k < t.len() {
            assert(t.drop_first()[k - 1] == t[k as int]);
        }
        lemma_token_len_exact(t.drop_first(), (k - 1) as nat);
    }
}

/// The maximal runs of non-whitespace characters of `s`, in order
/// (what `str::split_whitespace` yields).
pub fn split_whitespace(s: &str) -> (res: Vec<String>)
    ensures
        views(res@) == split_ws(s@),
{
    let c = chars_of(s);
    let mut res: Vec<String> = Vec::new();
    let mut i: usize = 0;
    assert(s@.skip(0) =~= s@);
    while i < c.len()
        invariant
            c@ == s@,
            0 <= i <= c.len(),
            split_ws(s@) == views(res@) + split_ws(s@.skip(i as int)),
        decreases c.len() - i,
    {
        let ghost rest = s@.skip(i as int);
        if is_whitespace(c[i]) {
            assert(rest.drop_first() =~= s@.skip(i + 1));
            i = i + 1;
        } else {
            let mut j: usize = i;
            while j < c.len() && !is_whitespace(c[j])
                invariant
                    c@ == s@,
                    i <= j <= c.len(),
                    forall|m: int| i <= m < j ==> !is_ws(#[trigger] c@[m]),
                decreases c.len() - j,
            {
                j = j + 1;
            }
            let token = string_of_range(&c, i, j);
            let ghost old_res = res@;
            res.push(token);
            proof {
                assert forall|m: int| 0 <= m < j - i implies !is_ws(#[trigger] rest[m]) by {
                    assert(rest[m] == c@[i + m]);
                }
                if j < c.len() {
                    assert(rest[j - i] == c@[j as int]);
                }
                lemma_token_len_exact(rest, (j - i) as nat);
                lemma_token_len_bound(rest);
                assert(rest.take((j - i) as int) =~= c@.subrange(i as int, j as int));
                assert(rest.skip((j - i) as int) =~= s@.skip(j as int));
                assert(views(res@) =~= views(old_res).push(token@));
                assert(split_ws(rest) == seq![rest.take((j - i) as int)] + split_ws(
                    rest.skip((j - i) as int),
                ));
                assert(views(old_res) + split_ws(rest) =~= views(res@) + split_ws(
                    s@.skip(j as int),
                ));
            }
            i = j;
        }
    }
    assert(s@.skip(i as int) =~= Seq::<char>::empty());
    assert(views(res@) + seq![] =~= views(res@));
    res
}

/// Leading whitespace of length `a` is exactly what `trim_start` drops.
pub proof fn lemma_trim_start_exact(s: Seq<char>, a: nat)
    requires
        a <= s.len(),
        forall|m: int| 0 <= m < a ==> is_ws(#[trigger] s[m]),
        a == s.len() || !is_ws(s[a as int]),
    ensures
        trim_start(s) == s.skip(a as int),
    decreases a,
{
    if a == 0 {
        assert(s.skip(0) =~= s);
    } else {
        assert forall|m: int| 0 <= m < a - 1 implies is_ws(#[trigger] s.drop_first()[m]) by {
            assert(s.drop_first()[m] == s[m + 1]);
        }
        if a < s.len() {
            assert(s.drop_first()[a - 1] == s[a as int]);
        }
        lemma_trim_start_exact(s.drop_first(), (a - 1) as nat);
        assert(s.drop_first().skip(a - 1) =~= s.skip(a as int));
    }
}

/// Trailing whitespace after position `b` is exactly what `trim_end` drops.
pub proof fn lemma_trim_end_exact(s: Seq<char>, b: nat)
    requires
        b <= s.len(),
        forall|m: int| b <= m < s.len() ==> is_ws(#[trigger] s[m]),
        b == 0 || !is_ws(s[b - 1]),
    ensures
        trim_end(s) == s.take(b as int),
    decreases s.len() - b,
{
    if b == s.len() {
        assert(s.take(b as int) =~= s);
    } else {
        assert forall|m: int| b <= m < s.drop_last().len() implies is_ws(
            #[trigger] s.drop_last()[m],
        ) by {
            assert(s.drop_last()[m] == s[m]);
        }
        if b > 0 {
            assert(s.drop_last()[b - 1] == s[b - 1]);
        }
        lemma_trim_end_exact(s.drop_last(), b);
        assert(s.drop_last().take(b as int) =~= s.take(b as int));
    }
}

/// Index range `[a, b)` of `s` without leading and trailing whitespace.
pub fn trim_bounds(c: &Vec<char>) -> (r: (usize, usize))
    ensures
        r.0 <= r.1 <= c.len(),
        trim(c@) == c@.subrange(r.0 as int, r.1 as int),
{
    let mut a: usize = 0;
    while a < c.len() && is_whitespace(c[a])
        invariant
            0 <= a <= c.len(),
            forall|m: int| 0 <= m < a ==> is_ws(#[trigger] c@[m]),
        decreases c.len() - a,
    {
        a = a + 1;
    }
    let mut b: usize = c.len();
    while b > a && is_whitespace(c[b - 1])
        invariant
            a <= b <= c.len(),
            forall|m: int| b <= m < c.len() ==> is_ws(#[trigger] c@[m]),
        decreases b,
    {
        b = b - 1;
    }
    proof {
        lemma_trim_start_exact(c@, a as nat);
        let t = c@.skip(a as int);
        assert forall|m: int| b - a <= m < t.len() implies is_ws(#[trigger] t[m]) by {
            assert(t[m] == c@[m + a]);
        }
        if b > a {
            assert(t[b - a - 1] == c@[b - 1]);
        }
        lemma_trim_end_exact(t, (b - a) as nat);
        assert(t.take((b - a) as int) =~= c@.subrange(a as int, b as int));
    }
    (a, b)
}

/// `s` without leading and trailing whitespace (what `str::trim` yields).
pub fn trim_string(s: &str) -> (r: String)
    ensures
        r@ == trim(s@),
{
    let c = chars_of(s);
    let (a, b) = trim_bounds(&c);
    string_of_range(&c, a, b)
}

/// Whether `s` is empty once trimmed.
pub fn is_blank(s: &str) -> (r: bool)
    ensures
        r == (trim(s@).len() == 0),
{
    let c = chars_of(s);
    let (a, b) = trim_bounds(&c);
    a == b
}

/// The pieces of `s` between occurrences of `sep`.
pub fn split_on_char(s: &str, sep: char) -> (res: Vec<String>)
    ensures
        views(res@) == split_on(s@, sep),
{
    let c = chars_of(s);
    let mut res: Vec<String> = Vec::new();
    let mut i: usize = 0;
    assert(s@.skip(0) =~= s@);
    loop
        invariant
            c@ == s@,
            0 <= i <= c.len(),
            split_on(s@, sep) == views(res@) + split_on(s@.skip(i as int), sep),
        decreases c.len() - i,
    {
        let ghost rest = s@.skip(i as int);
        let mut j: usize = i;
        while j < c.len() && c[j] != sep
            invariant
                c@ == s@,
                i <= j <= c.len(),
                forall|m: int| i <= m < j ==> c@[m] != sep,
            decreases c.len() - j,
        {
            j = j + 1;
        }
        proof {
            lemma_find_char_bound(rest, sep);
            let n = find_char(rest, sep);
            if n < j - i {
                assert(rest[n as int] == c@[i + n]);
            }
            if j < c.len() && j - i < n {
                assert(rest[j - i] == c@[j as int]);
            }
            assert(n == j - i);
            assert(rest.take((j - i) as int) =~= c@.subrange(i as int, j as int));
        }
        let piece = string_of_range(&c, i, j);
        let ghost old_res = res@;
        res.push(piece);
        assert(views(res@) =~= views(old_res).push(piece@));
        if j == c.len() {
            assert(rest =~= c@.subrange(i as int, j as int));
            assert(views(old_res) + split_on(rest, sep) =~= views(res@));
            return res;
        }
        assert(rest.skip((j - i) + 1) =~= s@.skip(j + 1));
        assert(views(old_res) + split_on(rest, sep) =~= views(res@) + split_on(
            s@.skip(j + 1),
            sep,
        ));
        i = j + 1;
    }
}

/// `s` with every occurrence of the non-empty `needle` replaced by `with`.
pub fn replace(s: &str, needle: &str, with: &str) -> (r: String)
    requires
        needle@.len() > 0,
    ensures
        r@ == replace_all(s@, needle@, with@),
{
    let c = chars_of(s);
    let n = chars_of(needle);
    let mut out = String::new();
    let mut i: usize = 0;
    assert(s@.skip(0) =~= s@);
    while i < c.len()
        invariant
            c@ == s@,
            n@ == needle@,
            n@.len() > 0,
            0 <= i <= c.len(),
            replace_all(s@, needle@, with@) == out@ + replace_all(s@.skip(i as int), needle@, with@),
        decreases c.len() - i,
    {
        let ghost rest = s@.skip(i as int);
        if n.len() > c.len() - i {
            push_range(&mut out, &c, i, c.len());
            assert(rest =~= c@.subrange(i as int, c.len() as int));
            assert(s@.skip(c.len() as int) =~= Seq::<char>::empty());
            i = c.len();
        } else if occurs_at_exec(&c, &n, i) {
            out.append(with);
            assert(rest.take(n@.len() as int) =~= c@.subrange(i as int, i + n@.len()));
            assert(rest.skip(n@.len() as int) =~= s@.skip(i + n@.len()));
            i = i + n.len();
        } else {
            push_char(&mut out, c[i]);
            assert(rest.take(n@.len() as int) =~= c@.subrange(i as int, i + n@.len()));
            assert(rest.drop_first() =~= s@.skip(i + 1));
            i = i + 1;
        }
    }
    assert(s@.skip(i as int) =~= Seq::<char>::empty());
    assert(out@ + Seq::<char>::empty() =~= out@);
    out
}

/// The decimal digit character for `d < 10`.
pub fn digit(d: u64) -> (c: char)
    requires
        d < 10,
    ensures
        c == digit_char(d as int),
{
    match d {
        0 => '0',
        1 => '1',
        2 => '2',
        3 => '3',
        4 => '4',
        5 => '5',
        6 => '6',
        7 => '7',
        8 => '8',
        _ => '9',
    }
}

/// Appends the decimal rendering of `n` to `out`.
pub fn push_decimal(out: &mut String, n: u64)
    ensures
        final(out)@ == old(out)@ + decimal(n as nat),
    decreases n,
{
    if n < 10 {
        push_char(out, digit(n));
    } else {
        push_decimal(out, n / 10);
        push_char(out, digit(n % 10));
    }
}

/// The decimal rendering of `n` (what `u64::to_string` yields).
pub fn decimal_string(n: u64) -> (r: String)
    ensures
        r@ == decimal(n as nat),
{
    let mut r = String::new();
    push_decimal(&mut r, n);
    assert(r@ =~= decimal(n as nat));
    r
}

/// The lower-case hex digit for `d < 16`.
pub fn hex_digit_lower(d: u8) -> (c: char)
    requires
        d < 16,
    ensures
        c == hex_lower(d as int),
{
    match d {
        0 => '0',
        1 => '1',
        2 => '2',
        3 => '3',
        4 => '4',
        5 => '5',
        6 => '6',
        7 => '7',
        8 => '8',
        9 => '9',
        10 => 'a',
        11 => 'b',
        12 => 'c',
        13 => 'd',
        14 => 'e',
        _ => 'f',
    }
}

/// The upper-case hex digit for `d < 16`.
pub fn hex_digit_upper(d: u8) -> (c: char)
    requires
        d < 16,
    ensures
        c == hex_upper(d as int),
{
    match d {
        0 => '0',
        1 => '1',
        2 => '2',
        3 => '3',
        4 => '4',
        5 => '5',
        6 => '6',
        7 => '7',
        8 => '8',
        9 => '9',
        10 => 'A',
        11 => 'B',
        12 => 'C',
        13 => 'D',
        14 => 'E',
        _ => 'F',
    }
}

/// Lower-case hex rendering of `bytes`, two digits per byte.
pub fn hex_encode(bytes: &[u8]) -> (r: String)
    ensures
        r@ == hex_lower_of(bytes@),
{
    let mut r = String::new();
    let mut i: usize = 0;
    assert(bytes@.take(0) =~= Seq::<u8>::empty());
    while i < bytes.len()
        invariant
            0 <= i <= bytes.len(),
            r@ == hex_lower_of(bytes@.take(i as int)),
        decreases bytes.len() - i,
    {
        let b = bytes[i];
        push_char(&mut r, hex_digit_lower(b / 16));
        push_char(&mut r, hex_digit_lower(b % 16));
        assert(bytes@.take(i + 1).drop_last() =~= bytes@.take(i as int));
        assert(r@ =~= hex_lower_of(bytes@.take(i + 1)));
        i = i + 1;
    }
    assert(bytes@.take(bytes.len() as int) =~= bytes@);
    r
}

/// Equality up to ASCII case.
pub fn eq_ignore_case_exec(a: &str, b: &str) -> (res: bool)
    ensures
        res == eq_ignore_ascii_case(a@, b@),
{
    let ca = chars_of(a);
    let cb = chars_of(b);
    if ca.len() != cb.len() {
        return false;
    }
    let mut i: usize = 0;
    while i < ca.len()
        invariant
            ca@ == a@,
            cb@ == b@,
            ca.len() == cb.len(),
            0 <= i <= ca.len(),
            forall|j: int| 0 <= j < i ==> ascii_lower(ca@[j]) == ascii_lower(cb@[j]),
        decreases ca.len() - i,
    {
        if lower_ascii(ca[i]) != lower_ascii(cb[i]) {
            return false;
        }
        i = i + 1;
    }
    true
}

/// ASCII lower-casing of one character.
pub fn lower_ascii(c: char) -> (r: char)
    ensures
        r == ascii_lower(c),
{
    if 'A' <= c && c <= 'Z' {
        ((c as u8) + 32) as char
    } else {
        c
    }
}

} // verus!
