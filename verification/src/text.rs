use vstd::prelude::*;

verus! {

/// The `White_Space` property of the Unicode Character Database: the
/// characters that `char::is_whitespace` accepts.
pub open spec fn is_white_space(c: char) -> bool {
    let u = c as u32;
    ||| 0x9 <= u <= 0xD
    ||| u == 0x20
    ||| u == 0x85
    ||| u == 0xA0
    ||| u == 0x1680
    ||| 0x2000 <= u <= 0x200A
    ||| u == 0x2028
    ||| u == 0x2029
    ||| u == 0x202F
    ||| u == 0x205F
    ||| u == 0x3000
}

/// A string made of white space only (the empty string included): what
/// `s.trim().is_empty()` tests.
pub open spec fn is_blank(s: Seq<char>) -> bool {
    forall|i: int| 0 <= i < s.len() ==> is_white_space(#[trigger] s[i])
}

/// Index of the first character of `s` that is not white space (`s.len()`
/// when there is none).
pub open spec fn first_non_blank(s: Seq<char>) -> int
    decreases s.len(),
{
    if s.len() == 0 {
        0
    } else if !is_white_space(s[0]) {
        0
    } else {
        1 + first_non_blank(s.drop_first())
    }
}

/// One past the index of the last character of `s` that is not white space
/// (0 when there is none).
pub open spec fn end_non_blank(s: Seq<char>) -> int
    decreases s.len(),
{
    if s.len() == 0 {
        0
    } else if !is_white_space(s.last()) {
        s.len() as int
    } else {
        end_non_blank(s.drop_last())
    }
}

/// `str::trim`: `s` without its leading and trailing white space.
pub open spec fn trimmed(s: Seq<char>) -> Seq<char> {
    if is_blank(s) {
        Seq::empty()
    } else {
        s.subrange(first_non_blank(s), end_non_blank(s))
    }
}

/// `s` holds the two characters `..` side by side.
pub open spec fn has_parent_ref(s: Seq<char>) -> bool {
    exists|i: int| 0 <= i && i + 1 < s.len() && #[trigger] s[i] == '.' && s[i + 1] == '.'
}

/// `s` holds the character `c`.
pub open spec fn has_char(s: Seq<char>, c: char) -> bool {
    exists|i: int| 0 <= i < s.len() && s[i] == c
}

/// `p` is a prefix of `s` (`str::starts_with`).
pub open spec fn is_prefix_of(p: Seq<char>, s: Seq<char>) -> bool {
    p.len() <= s.len() && s.subrange(0, p.len() as int) == p
}

/// `p` occurs in `s` at position `i`.
pub open spec fn occurs_at(p: Seq<char>, s: Seq<char>, i: int) -> bool {
    0 <= i && i + p.len() <= s.len() && s.subrange(i, i + p.len()) == p
}

/// `p` occurs somewhere in `s` (`str::contains`).
pub open spec fn is_infix_of(p: Seq<char>, s: Seq<char>) -> bool {
    exists|i: int| occurs_at(p, s, i)
}

/// The strings of `parts` joined with `sep` between neighbours
/// (`[String]::join`).
pub open spec fn joined(parts: Seq<Seq<char>>, sep: Seq<char>) -> Seq<char>
    decreases parts.len(),
{
    if parts.len() == 0 {
        Seq::empty()
    } else if parts.len() == 1 {
        parts[0]
    } else {
        joined(parts.drop_last(), sep) + sep + parts.last()
    }
}

/// The views of a sequence of strings.
pub open spec fn views(v: Seq<String>) -> Seq<Seq<char>> {
    v.map_values(|s: String| s@)
}

/// Strict lexicographic order on character sequences, characters compared
/// by code point: the order of `String` (UTF-8 byte order and code point
/// order agree).
pub open spec fn lex_lt(a: Seq<char>, b: Seq<char>) -> bool
    decreases a.len(),
{
    if a.len() == 0 {
        b.len() > 0
    } else if b.len() == 0 {
        false
    } else if a[0] != b[0] {
        a[0] < b[0]
    } else {
        lex_lt(a.drop_first(), b.drop_first())
    }
}

/// `lex_lt` is irreflexive.
pub proof fn lemma_lex_irreflexive(a: Seq<char>)
    ensures
        !lex_lt(a, a),
    decreases a.len(),
{
    if a.len() > 0 {
        lemma_lex_irreflexive(a.drop_first());
    }
}

/// `lex_lt` is transitive.
pub proof fn lemma_lex_transitive(a: Seq<char>, b: Seq<char>, c: Seq<char>)
    requires
        lex_lt(a, b),
        lex_lt(b, c),
    ensures
        lex_lt(a, c),
    decreases a.len(),
{
    if a.len() > 0 && b.len() > 0 && c.len() > 0 {
        if a[0] == b[0] && b[0] == c[0] {
            lemma_lex_transitive(a.drop_first(), b.drop_first(), c.drop_first());
        }
    }
}

/// Two different sequences are ordered one way or the other.
pub proof fn lemma_lex_total(a: Seq<char>, b: Seq<char>)
    ensures
        a == b || lex_lt(a, b) || lex_lt(b, a),
    decreases a.len(),
{
    if a.len() > 0 && b.len() > 0 {
        if a[0] == b[0] {
            lemma_lex_total(a.drop_first(), b.drop_first());
            if a.drop_first() == b.drop_first() {
                assert(a == seq![a[0]] + a.drop_first());
                assert(b == seq![b[0]] + b.drop_first());
            }
        }
    } else if a.len() == 0 && b.len() == 0 {
        assert(a =~= b);
    }
}

/// Whether `c` has the `White_Space` property, the test that
/// `char::is_whitespace` makes.
pub(crate) fn char_is_whitespace(c: char) -> (r: bool)
    ensures
        r == is_white_space(c),
{
    let u = c as u32;
    (0x9 <= u && u <= 0xD) || u == 0x20 || u == 0x85 || u == 0xA0 || u == 0x1680 || (0x2000 <= u
        && u <= 0x200A) || u == 0x2028 || u == 0x2029 || u == 0x202F || u == 0x205F || u == 0x3000
}

/// Every character of `s` is ASCII.
pub open spec fn is_ascii_text(s: Seq<char>) -> bool {
    forall|i: int| 0 <= i < s.len() ==> (#[trigger] s[i] as u32) < 128
}

/// `char::to_ascii_lowercase`: `A`..=`Z` to `a`..=`z`, anything else kept.
pub open spec fn ascii_lower_char(c: char) -> char {
    if 'A' <= c && c <= 'Z' {
        ((c as u32) + 32) as char
    } else {
        c
    }
}

/// `char::to_ascii_uppercase`: `a`..=`z` to `A`..=`Z`, anything else kept.
pub open spec fn ascii_upper_char(c: char) -> char {
    if 'a' <= c && c <= 'z' {
        ((c as u32) - 32) as char
    } else {
        c
    }
}

/// `str::to_ascii_lowercase`.
pub open spec fn ascii_lowered(s: Seq<char>) -> Seq<char> {
    s.map_values(|c: char| ascii_lower_char(c))
}

/// `str::to_ascii_uppercase`.
pub open spec fn ascii_uppered(s: Seq<char>) -> Seq<char> {
    s.map_values(|c: char| ascii_upper_char(c))
}

/// `String::push`: appends one character.
#[verifier::external_body]
pub(crate) fn push_char(s: &mut String, c: char)
    ensures
        final(s)@ == old(s)@.push(c),
{
    s.push(c)
}

/// Unicode lower-casing of a whole string, as `str::to_lowercase` computes
/// it.
pub uninterp spec fn lowercase(s: Seq<char>) -> Seq<char>;

/// `str::to_lowercase`. Its result is named, not stated: Unicode case
/// mapping (with its context-dependent rule for final sigma) depends on the
/// argument alone but takes pages to state. The contract adds that the
/// empty string stays empty and that on ASCII text the Unicode mapping is
/// the ASCII one: `A`..=`Z` become `a`..=`z`, every other character stays.
#[verifier::external_body]
pub(crate) fn to_lowercase(s: &str) -> (r: String)
    ensures
        r@ == lowercase(s@),
        s@.len() == 0 ==> r@.len() == 0,
        is_ascii_text(s@) ==> r@ == ascii_lowered(s@),
{
    s.to_lowercase()
}

/// The characters of a string, in order.
pub fn chars_of(s: &str) -> (r: Vec<char>)
    ensures
        r@ == s@,
{
    let mut out: Vec<char> = Vec::new();
    for c in it: s.chars()
        invariant
            out@ == it.seq().take(it.index() as int),
    {
        out.push(c);
    }
    out
}

/// A string holding the given characters.
pub fn string_of(chars: &Vec<char>) -> (r: String)
    ensures
        r@ == chars@,
{
    let mut out = String::new();
    let mut i: usize = 0;
    while i < chars.len()
        invariant
            i <= chars.len(),
            out@ == chars@.take(i as int),
        decreases chars.len() - i,
    {
        push_char(&mut out, chars[i]);
        assert(chars@.take(i as int).push(chars@[i as int]) =~= chars@.take(i + 1));
        i = i + 1;
    }
    assert(chars@.take(chars.len() as int) =~= chars@);
    out
}

/// An owned copy of a string slice.
pub fn owned(s: &str) -> (r: String)
    ensures
        r@ == s@,
{
    s.to_owned()
}

/// `s.trim().is_empty()`: the string is empty or white space only.
pub fn blank(s: &str) -> (r: bool)
    ensures
        r == is_blank(s@),
{
    let cs = chars_of(s);
    let mut i: usize = 0;
    while i < cs.len()
        invariant
            cs@ == s@,
            i <= cs.len(),
            forall|k: int| 0 <= k < i ==> is_white_space(#[trigger] s@[k]),
        decreases cs.len() - i,
    {
        if !char_is_whitespace(cs[i]) {
            return false;
        }
        i = i + 1;
    }
    true
}

proof fn lemma_first_non_blank(s: Seq<char>, i: int)
    requires
        0 <= i <= s.len(),
        forall|k: int| 0 <= k < i ==> is_white_space(#[trigger] s[k]),
        i == s.len() || !is_white_space(s[i]),
    ensures
        first_non_blank(s) == i,
    decreases s.len(),
{
    if s.len() > 0 && i > 0 {
        let t = s.drop_first();
        assert forall|k: int| 0 <= k < i - 1 implies is_white_space(#[trigger] t[k]) by {
            assert(t[k] == s[k + 1]);
        }
        lemma_first_non_blank(t, i - 1);
    }
}

proof fn lemma_end_non_blank(s: Seq<char>, j: int)
    requires
        0 <= j <= s.len(),
        forall|k: int| j <= k < s.len() ==> is_white_space(#[trigger] s[k]),
        j == 0 || !is_white_space(s[j - 1]),
    ensures
        end_non_blank(s) == j,
    decreases s.len(),
{
    if s.len() > 0 && j < s.len() {
        let t = s.drop_last();
        assert forall|k: int| j <= k < t.len() implies is_white_space(#[trigger] t[k]) by {
            assert(t[k] == s[k]);
        }
        lemma_end_non_blank(t, j);
    }
}

/// `str::trim`.
pub fn trim(s: &str) -> (r: String)
    ensures
        r@ == trimmed(s@),
{
    let cs = chars_of(s);
    let n = cs.len();
    let mut i: usize = 0;
    while i < n && char_is_whitespace(cs[i])
        invariant
            cs@ == s@,
            n == cs.len(),
            i <= n,
            forall|k: int| 0 <= k < i ==> is_white_space(#[trigger] s@[k]),
        decreases n - i,
    {
        i = i + 1;
    }
    if i == n {
        return String::new();
    }
    let mut j: usize = n;
    while j > i && char_is_whitespace(cs[j - 1])
        invariant
            cs@ == s@,
            n == cs.len(),
            i < n,
            i <= j <= n,
            !is_white_space(s@[i as int]),
            forall|k: int| j <= k < n ==> is_white_space(#[trigger] s@[k]),
        decreases j,
    {
        j = j - 1;
    }
    proof {
        lemma_first_non_blank(s@, i as int);
        lemma_end_non_blank(s@, j as int);
        assert(!is_blank(s@));
    }
    let mut out = String::new();
    let mut k: usize = i;
    while k < j
        invariant
            cs@ == s@,
            n == cs.len(),
            i <= k <= j <= n,
            out@ == s@.subrange(i as int, k as int),
        decreases j - k,
    {
        push_char(&mut out, cs[k]);
        assert(s@.subrange(i as int, k as int).push(s@[k as int]) =~= s@.subrange(
            i as int,
            k + 1,
        ));
        k = k + 1;
    }
    out
}

/// `s.contains("..")`.
pub fn parent_ref(s: &str) -> (r: bool)
    ensures
        r == has_parent_ref(s@),
{
    let cs = chars_of(s);
    let mut i: usize = 0;
    while cs.len() > 0 && i < cs.len() - 1
        invariant
            cs@ == s@,
            i <= cs.len(),
            forall|k: int| 0 <= k < i && k + 1 < s@.len() ==> !(#[trigger] s@[k] == '.' && s@[k
                + 1] == '.'),
        decreases cs.len() - i,
    {
        if cs[i] == '.' && cs[i + 1] == '.' {
            return true;
        }
        i = i + 1;
    }
    false
}

/// `s.contains(c)` for a single character.
pub fn contains_char(s: &str, c: char) -> (r: bool)
    ensures
        r == has_char(s@, c),
{
    let cs = chars_of(s);
    let mut i: usize = 0;
    while i < cs.len()
        invariant
            cs@ == s@,
            i <= cs.len(),
            forall|k: int| 0 <= k < i ==> s@[k] != c,
        decreases cs.len() - i,
    {
        if cs[i] == c {
            return true;
        }
        i = i + 1;
    }
    false
}

/// `p` occurs in `s` at position `i`, on character vectors.
fn matches_at(p: &Vec<char>, s: &Vec<char>, i: usize) -> (r: bool)
    requires
        i + p.len() <= s.len(),
    ensures
        r == occurs_at(p@, s@, i as int),
{
    let mut k: usize = 0;
    while k < p.len()
        invariant
            i + p.len() <= s.len(),
            k <= p.len(),
            forall|m: int| 0 <= m < k ==> p@[m] == s@[i + m],
        decreases p.len() - k,
    {
        if p[k] != s[i + k] {
            assert(s@.subrange(i as int, i + p.len())[k as int] != p@[k as int]);
            return false;
        }
        k = k + 1;
    }
    assert(s@.subrange(i as int, i + p.len()) =~= p@);
    true
}

/// `s.starts_with(p)`.
pub fn starts_with(s: &str, p: &str) -> (r: bool)
    ensures
        r == is_prefix_of(p@, s@),
{
    let sc = chars_of(s);
    let pc = chars_of(p);
    if pc.len() > sc.len() {
        return false;
    }
    matches_at(&pc, &sc, 0)
}

/// `s.contains(p)`.
pub fn contains(s: &str, p: &str) -> (r: bool)
    ensures
        r == is_infix_of(p@, s@),
{
    let sc = chars_of(s);
    let pc = chars_of(p);
    if pc.len() > sc.len() {
        assert forall|i: int| !occurs_at(p@, s@, i) by {}
        return false;
    }
    if pc.len() == 0 {
        assert(s@.subrange(0, 0) =~= p@);
        assert(occurs_at(p@, s@, 0));
        return true;
    }
    let mut i: usize = 0;
    while i <= sc.len() - pc.len()
        invariant
            sc@ == s@,
            pc@ == p@,
            1 <= pc.len() <= sc.len(),
            i <= sc.len() - pc.len() + 1,
            forall|k: int| 0 <= k < i ==> !occurs_at(p@, s@, k),
        decreases sc.len() - pc.len() + 1 - i,
    {
        if matches_at(&pc, &sc, i) {
            return true;
        }
        i = i + 1;
    }
    assert forall|k: int| !occurs_at(p@, s@, k) by {}
    false
}

/// `parts.join(sep)`.
pub fn join(parts: &Vec<String>, sep: &str) -> (r: String)
    ensures
        r@ == joined(views(parts@), sep@),
{
    let ghost vs = views(parts@);
    let mut out = String::new();
    let mut i: usize = 0;
    while i < parts.len()
        invariant
            vs == views(parts@),
            i <= parts.len(),
            out@ == joined(vs.take(i as int), sep@),
        decreases parts.len() - i,
    {
        if i > 0 {
            out.append(sep);
        }
        out.append(parts[i].as_str());
        proof {
            let t = vs.take(i + 1);
            assert(t.drop_last() =~= vs.take(i as int));
            assert(t.last() == parts@[i as int]@);
        }
        i = i + 1;
    }
    assert(vs.take(parts.len() as int) =~= vs);
    out
}

/// `a < b` for strings.
pub fn less_than(a: &str, b: &str) -> (r: bool)
    ensures
        r == lex_lt(a@, b@),
{
    let ac = chars_of(a);
    let bc = chars_of(b);
    let mut i: usize = 0;
    assert(a@.skip(0) =~= a@);
    assert(b@.skip(0) =~= b@);
    while i < ac.len() && i < bc.len() && ac[i] == bc[i]
        invariant
            ac@ == a@,
            bc@ == b@,
            i <= ac.len(),
            i <= bc.len(),
            lex_lt(a@, b@) == lex_lt(a@.skip(i as int), b@.skip(i as int)),
        decreases ac.len() - i,
    {
        proof {
            let x = a@.skip(i as int);
            let y = b@.skip(i as int);
            assert(x.drop_first() =~= a@.skip(i + 1));
            assert(y.drop_first() =~= b@.skip(i + 1));
        }
        i = i + 1;
    }
    let ghost x = a@.skip(i as int);
    let ghost y = b@.skip(i as int);
    if i == ac.len() {
        assert(x.len() == 0);
        i < bc.len()
    } else if i == bc.len() {
        assert(y.len() == 0);
        false
    } else {
        assert(x[0] == ac@[i as int] && y[0] == bc@[i as int]);
        ac[i] < bc[i]
    }
}

/// `a == b` for string slices.
pub fn same(a: &str, b: &str) -> (r: bool)
    ensures
        r == (a@ == b@),
{
    let ac = chars_of(a);
    let bc = chars_of(b);
    if ac.len() != bc.len() {
        return false;
    }
    let mut i: usize = 0;
    while i < ac.len()
        invariant
            ac@ == a@,
            bc@ == b@,
            ac.len() == bc.len(),
            i <= ac.len(),
            forall|k: int| 0 <= k < i ==> a@[k] == b@[k],
        decreases ac.len() - i,
    {
        if ac[i] != bc[i] {
            return false;
        }
        i = i + 1;
    }
    assert(a@ =~= b@);
    true
}

/// A copy of a vector of strings.
pub fn copy_strings(v: &Vec<String>) -> (r: Vec<String>)
    ensures
        r@ == v@,
{
    let mut out: Vec<String> = Vec::new();
    let mut i: usize = 0;
    while i < v.len()
        invariant
            i <= v.len(),
            out@ == v@.take(i as int),
        decreases v.len() - i,
    {
        out.push(v[i].clone());
        assert(v@.take(i as int).push(v@[i as int]) =~= v@.take(i + 1));
        i = i + 1;
    }
    assert(v@.take(v.len() as int) =~= v@);
    out
}

/// A string holding `a` followed by `b`.
pub fn concat(a: &str, b: &str) -> (r: String)
    ensures
        r@ == a@ + b@,
{
    let mut out = owned(a);
    out.append(b);
    out
}

/// The white-space-separated words of `s`, in order (`str::split_whitespace`).
pub open spec fn words(s: Seq<char>) -> Seq<Seq<char>>
    decreases s.len(),
{
    if s.len() == 0 {
        Seq::empty()
    } else {
        let w = words(s.drop_last());
        let c = s.last();
        if is_white_space(c) {
            w
        } else if s.len() >= 2 && !is_white_space(s[s.len() - 2]) {
            w.update(w.len() - 1, w.last().push(c))
        } else {
            w.push(seq![c])
        }
    }
}

proof fn lemma_words_nonempty(s: Seq<char>)
    requires
        s.len() > 0,
        !is_white_space(s.last()),
    ensures
        words(s).len() > 0,
    decreases s.len(),
{
    if s.len() >= 2 && !is_white_space(s[s.len() - 2]) {
        let t = s.drop_last();
        assert(t.last() == s[s.len() - 2]);
        lemma_words_nonempty(t);
    }
}

proof fn lemma_joined_extend_last(w: Seq<Seq<char>>, sep: Seq<char>, c: char)
    requires
        w.len() > 0,
    ensures
        joined(w.update(w.len() - 1, w.last().push(c)), sep) == joined(w, sep).push(c),
{
    let u = w.update(w.len() - 1, w.last().push(c));
    if w.len() >= 2 {
        assert(u.drop_last() =~= w.drop_last());
        assert(u.last() == w.last().push(c));
    }
}

proof fn lemma_joined_push(w: Seq<Seq<char>>, sep: Seq<char>, x: Seq<char>)
    ensures
        joined(w.push(x), sep) == if w.len() == 0 {
            x
        } else {
            joined(w, sep) + sep + x
        },
{
    assert(w.push(x).drop_last() =~= w);
}

/// The words of `text` joined by single spaces.
pub fn collapse_whitespace(text: &str) -> (r: Vec<char>)
    ensures
        r@ == joined(words(text@), seq![' ']),
{
    let cs = chars_of(text);
    let mut out: Vec<char> = Vec::new();
    let mut in_word = false;
    let mut any_word = false;
    let mut i: usize = 0;
    while i < cs.len()
        invariant
            cs@ == text@,
            i <= cs.len(),
            out@ == joined(words(text@.take(i as int)), seq![' ']),
            in_word == (i > 0 && !is_white_space(text@[i - 1])),
            any_word == (words(text@.take(i as int)).len() > 0),
        decreases cs.len() - i,
    {
        let c = cs[i];
        let ws = char_is_whitespace(c);
        proof {
            let t = text@.take(i + 1);
            assert(t.drop_last() =~= text@.take(i as int));
            assert(t.last() == c);
            if i > 0 {
                assert(t[t.len() - 2] == text@[i - 1]);
            }
        }
        let ghost w = words(text@.take(i as int));
        if !ws {
            if in_word {
                proof {
                    lemma_words_nonempty(text@.take(i as int));
                    lemma_joined_extend_last(w, seq![' '], c);
                }
                out.push(c);
            } else {
                proof {
                    lemma_joined_push(w, seq![' '], seq![c]);
                }
                let ghost before = out@;
                if any_word {
                    out.push(' ');
                }
                out.push(c);
                assert(any_word ==> out@ =~= before + seq![' '] + seq![c]);
                assert(!any_word ==> out@ =~= seq![c]);
            }
            any_word = true;
            in_word = true;
        } else {
            in_word = false;
        }
        i = i + 1;
    }
    assert(text@.take(cs.len() as int) =~= text@);
    out
}

/// The decimal digit for a value below 10.
pub open spec fn decimal_digit(d: nat) -> char {
    if d == 0 {
        '0'
    } else if d == 1 {
        '1'
    } else if d == 2 {
        '2'
    } else if d == 3 {
        '3'
    } else if d == 4 {
        '4'
    } else if d == 5 {
        '5'
    } else if d == 6 {
        '6'
    } else if d == 7 {
        '7'
    } else if d == 8 {
        '8'
    } else {
        '9'
    }
}

/// The decimal text of `n`, as `{}` formats it.
pub open spec fn decimal(n: nat) -> Seq<char>
    decreases n,
{
    if n < 10 {
        seq![decimal_digit(n)]
    } else {
        decimal(n / 10).push(decimal_digit(n % 10))
    }
}

/// The decimal text of a number.
pub fn decimal_text(n: usize) -> (r: String)
    ensures
        r@ == decimal(n as nat),
    decreases n,
{
    let d = n % 10;
    let c = if d == 0 {
        '0'
    } else if d == 1 {
        '1'
    } else if d == 2 {
        '2'
    } else if d == 3 {
        '3'
    } else if d == 4 {
        '4'
    } else if d == 5 {
        '5'
    } else if d == 6 {
        '6'
    } else if d == 7 {
        '7'
    } else if d == 8 {
        '8'
    } else {
        '9'
    };
    if n < 10 {
        let mut s = String::new();
        push_char(&mut s, c);
        s
    } else {
        let mut s = decimal_text(n / 10);
        push_char(&mut s, c);
        s
    }
}

/// The final component of a path, as `Path::file_name` finds it.
pub uninterp spec fn path_file_name(path: Seq<char>) -> Option<Seq<char>>;

/// `Path::file_name`, read back as text. The component is named, not
/// stated: which component counts (trailing separators, `.` and `..`)
/// follows the platform's path syntax.
#[verifier::external_body]
pub(crate) fn file_name(path: &str) -> (r: Option<String>)
    ensures
        match r {
            Some(name) => path_file_name(path@) == Some(name@),
            None => path_file_name(path@) is None,
        },
{
    match std::path::Path::new(path).file_name() {
        Some(name) => Some(name.to_string_lossy().into_owned()),
        None => None,
    }
}


/// What `first_non_blank` finds: only white space before it, and not white
/// space at it (when inside `s`).
pub proof fn lemma_first_non_blank_facts(s: Seq<char>)
    ensures
        0 <= first_non_blank(s) <= s.len(),
        forall|k: int| 0 <= k < first_non_blank(s) ==> is_white_space(#[trigger] s[k]),
        first_non_blank(s) < s.len() ==> !is_white_space(s[first_non_blank(s)]),
    decreases s.len(),
{
    if s.len() > 0 && is_white_space(s[0]) {
        let t = s.drop_first();
        lemma_first_non_blank_facts(t);
        assert forall|k: int| 0 <= k < first_non_blank(s) implies is_white_space(#[trigger] s[k]) by {
            if k > 0 {
                assert(s[k] == t[k - 1]);
            }
        }
    }
}

/// What `end_non_blank` finds: only white space from it on, and not white
/// space just before it (when it is not 0).
pub proof fn lemma_end_non_blank_facts(s: Seq<char>)
    ensures
        0 <= end_non_blank(s) <= s.len(),
        forall|k: int| end_non_blank(s) <= k < s.len() ==> is_white_space(#[trigger] s[k]),
        end_non_blank(s) > 0 ==> !is_white_space(s[end_non_blank(s) - 1]),
    decreases s.len(),
{
    if s.len() > 0 && is_white_space(s.last()) {
        let t = s.drop_last();
        lemma_end_non_blank_facts(t);
        assert forall|k: int| end_non_blank(s) <= k < s.len() implies is_white_space(#[trigger] s[k]) by {
            if k < t.len() {
                assert(s[k] == t[k]);
            }
        }
    }
}

/// A string that is not blank has its first non-blank character before the
/// end of its last one.
pub proof fn lemma_trim_bounds(s: Seq<char>)
    requires
        !is_blank(s),
    ensures
        0 <= first_non_blank(s) < end_non_blank(s) <= s.len(),
        forall|k: int| 0 <= k < first_non_blank(s) ==> is_white_space(#[trigger] s[k]),
        forall|k: int| end_non_blank(s) <= k < s.len() ==> is_white_space(#[trigger] s[k]),
        !is_white_space(s[first_non_blank(s)]),
        !is_white_space(s[end_non_blank(s) - 1]),
{
    lemma_first_non_blank_facts(s);
    lemma_end_non_blank_facts(s);
    let k = choose|k: int| 0 <= k < s.len() && !is_white_space(#[trigger] s[k]);
    assert(first_non_blank(s) <= k);
    assert(k < end_non_blank(s));
}

/// Blank text around a string is trimmed away with its own surrounding
/// white space.
pub proof fn lemma_trimmed_padded(left: Seq<char>, u: Seq<char>, right: Seq<char>)
    requires
        is_blank(left),
        is_blank(right),
    ensures
        trimmed(left + u + right) == trimmed(u),
{
    let p = left + u + right;
    let n = left.len();
    if is_blank(u) {
        assert forall|k: int| 0 <= k < p.len() implies is_white_space(#[trigger] p[k]) by {
            if k < n {
                assert(p[k] == left[k]);
            } else if k < n + u.len() {
                assert(p[k] == u[k - n]);
            } else {
                assert(p[k] == right[k - n - u.len()]);
            }
        }
    } else {
        lemma_trim_bounds(u);
        let f = first_non_blank(u);
        let e = end_non_blank(u);
        assert(p[n + f] == u[f]);
        assert(p[n + e - 1] == u[e - 1]);
        assert forall|k: int| 0 <= k < n + f implies is_white_space(#[trigger] p[k]) by {
            if k < n {
                assert(p[k] == left[k]);
            } else {
                assert(p[k] == u[k - n]);
            }
        }
        assert forall|k: int| n + e <= k < p.len() implies is_white_space(#[trigger] p[k]) by {
            if k < n + u.len() {
                assert(p[k] == u[k - n]);
            } else {
                assert(p[k] == right[k - n - u.len()]);
            }
        }
        lemma_first_non_blank(p, n + f);
        lemma_end_non_blank(p, n + e);
        assert(!is_blank(p));
        assert(p.subrange(n + f, n + e) =~= u.subrange(f, e));
    }
}

/// ASCII upper-casing keeps white space white space and everything else
/// not.
proof fn lemma_upper_white_space(c: char)
    ensures
        is_white_space(ascii_upper_char(c)) == is_white_space(c),
{
}

/// Trimming and ASCII upper-casing commute.
pub proof fn lemma_trimmed_uppered(q: Seq<char>)
    ensures
        trimmed(ascii_uppered(q)) == ascii_uppered(trimmed(q)),
{
    let u = ascii_uppered(q);
    assert forall|k: int| 0 <= k < q.len() implies is_white_space(#[trigger] u[k]) == is_white_space(
        q[k],
    ) by {
        lemma_upper_white_space(q[k]);
    }
    if is_blank(q) {
        assert forall|k: int| 0 <= k < u.len() implies is_white_space(#[trigger] u[k]) by {
            assert(is_white_space(q[k]));
        }
        assert(ascii_uppered(Seq::<char>::empty()) =~= Seq::<char>::empty());
    } else {
        lemma_trim_bounds(q);
        let f = first_non_blank(q);
        let e = end_non_blank(q);
        assert forall|k: int| 0 <= k < f implies is_white_space(#[trigger] u[k]) by {
            assert(is_white_space(q[k]));
        }
        assert forall|k: int| e <= k < u.len() implies is_white_space(#[trigger] u[k]) by {
            assert(is_white_space(q[k]));
        }
        assert(!is_white_space(u[f]));
        assert(!is_white_space(u[e - 1]));
        lemma_first_non_blank(u, f);
        lemma_end_non_blank(u, e);
        assert(!is_blank(u));
        assert(u.subrange(f, e) =~= ascii_uppered(q.subrange(f, e)));
    }
}

/// ASCII lower-casing undoes ASCII upper-casing.
pub proof fn lemma_lowered_uppered(t: Seq<char>)
    ensures
        ascii_lowered(ascii_uppered(t)) == ascii_lowered(t),
{
    assert forall|k: int| 0 <= k < t.len() implies #[trigger] ascii_lowered(ascii_uppered(t))[k]
        == ascii_lowered(t)[k] by {
        let c = t[k];
        if 'a' <= c && c <= 'z' {
            assert(ascii_upper_char(c) as u32 == c as u32 - 32);
        } else if 'A' <= c && c <= 'Z' {
        }
    }
    assert(ascii_lowered(ascii_uppered(t)) =~= ascii_lowered(t));
}
} // verus!
