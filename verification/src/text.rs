//! Character-level text utilities shared by the parsers and policies.
//!
//! Every string is modelled by its view, the sequence of its `char`s.
use vstd::prelude::*;

verus! {

// ───────────────────────────── specifications ─────────────────────────────

/// Unicode `White_Space` property (the set `char::is_whitespace` and
/// `str::trim` use).
pub open spec fn is_ws(c: char) -> bool {
    let u = c as u32;
    ||| 0x09 <= u <= 0x0D
    ||| u == 0x20
    ||| u == 0x85
    ||| u == 0xA0
    ||| u == 0x1680
    ||| 0x2000 <= u <= 0x200A
    ||| u == 0x2028
    ||| u == 0x2029
    ||| u == 0x202F
    ||| u == 0x205F
    ||| u == 0x3000
}

/// `s` without its leading whitespace.
pub open spec fn trim_start(s: Seq<char>) -> Seq<char>
    decreases s.len(),
{
    if s.len() > 0 && is_ws(s[0]) {
        trim_start(s.drop_first())
    } else {
        s
    }
}

/// `s` without its trailing whitespace.
pub open spec fn trim_end(s: Seq<char>) -> Seq<char>
    decreases s.len(),
{
    if s.len() > 0 && is_ws(s.last()) {
        trim_end(s.drop_last())
    } else {
        s
    }
}

/// `s` without leading and trailing whitespace (`str::trim`).
pub open spec fn trim(s: Seq<char>) -> Seq<char> {
    trim_end(trim_start(s))
}

/// `p` occurs in `s` starting at index `i`.
pub open spec fn occurs_at(s: Seq<char>, p: Seq<char>, i: int) -> bool {
    0 <= i && i + p.len() <= s.len() && s.subrange(i, i + p.len()) == p
}

/// `p` occurs somewhere in `s` (`str::contains` with a string pattern).
pub open spec fn contains_sub(s: Seq<char>, p: Seq<char>) -> bool {
    exists|i: int| occurs_at(s, p, i)
}

/// `s` begins with `p`.
pub open spec fn starts_with(s: Seq<char>, p: Seq<char>) -> bool {
    occurs_at(s, p, 0)
}

/// Index of the first occurrence of `c` in `s` at or after `i`, or `s.len()`.
pub open spec fn find_from(s: Seq<char>, i: int, c: char) -> int
    decreases s.len() - i,
{
    if i >= s.len() {
        s.len() as int
    } else if i >= 0 && s[i] == c {
        i
    } else {
        find_from(s, i + 1, c)
    }
}

/// Number of occurrences of `c` in `s`.
pub open spec fn count_char(s: Seq<char>, c: char) -> nat
    decreases s.len(),
{
    if s.len() == 0 {
        0
    } else {
        count_char(s.drop_last(), c) + if s.last() == c { 1nat } else { 0nat }
    }
}

/// The parts joined with `sep` in between (`[&str]::join`).
pub open spec fn join(parts: Seq<Seq<char>>, sep: Seq<char>) -> Seq<char>
    decreases parts.len(),
{
    if parts.len() == 0 {
        Seq::empty()
    } else if parts.len() == 1 {
        parts[0]
    } else {
        join(parts.drop_last(), sep) + sep + parts.last()
    }
}

/// The decimal digit character of `d < 10`.
pub open spec fn digit_char(d: nat) -> char {
    if d == 0 { '0' }
    else if d == 1 { '1' }
    else if d == 2 { '2' }
    else if d == 3 { '3' }
    else if d == 4 { '4' }
    else if d == 5 { '5' }
    else if d == 6 { '6' }
    else if d == 7 { '7' }
    else if d == 8 { '8' }
    else { '9' }
}

/// Decimal representation of a natural number (as `Display` prints it).
pub open spec fn decimal(n: nat) -> Seq<char>
    decreases n,
{
    if n < 10 {
        seq![digit_char(n)]
    } else {
        decimal(n / 10).push(digit_char(n % 10))
    }
}

/// Decimal representation of an integer (as `Display` prints it).
pub open spec fn decimal_int(n: int) -> Seq<char> {
    if n < 0 {
        seq!['-'] + decimal((-n) as nat)
    } else {
        decimal(n as nat)
    }
}

/// A string as `Debug` prints it, for strings with nothing to escape.
pub open spec fn quoted(s: Seq<char>) -> Seq<char> {
    seq!['"'] + s + seq!['"']
}

/// Join of the quoted elements with `", "` in between.
pub open spec fn quoted_join(items: Seq<Seq<char>>) -> Seq<char>
    decreases items.len(),
{
    if items.len() == 0 {
        Seq::empty()
    } else if items.len() == 1 {
        quoted(items[0])
    } else {
        quoted_join(items.drop_last()) + seq![',', ' '] + quoted(items.last())
    }
}

/// A list of plain strings as `Debug` prints it: `["a", "b"]`.
pub open spec fn debug_list(items: Seq<Seq<char>>) -> Seq<char> {
    seq!['['] + quoted_join(items) + seq![']']
}

/// The views of a sequence of string slices.
pub open spec fn str_views(v: Seq<&str>) -> Seq<Seq<char>> {
    v.map_values(|s: &str| s@)
}

/// The view of an optional string.
pub open spec fn opt_string_view(o: Option<String>) -> Option<Seq<char>> {
    match o {
        Some(s) => Some(s@),
        None => None,
    }
}

/// The views of a sequence of strings.
pub open spec fn string_views(v: Seq<String>) -> Seq<Seq<char>> {
    v.map_values(|s: String| s@)
}

/// Number of bytes in the UTF-8 encoding of `c`.
pub open spec fn char_width(c: char) -> nat {
    vstd::utf8::encode_scalar(c as u32).len()
}

/// Number of bytes in the UTF-8 encoding of `s` (`str::len`).
pub open spec fn utf8_len(s: Seq<char>) -> nat {
    vstd::utf8::encode_utf8(s).len()
}

/// The longest prefix of `s` whose UTF-8 encoding has at most `n` bytes.
pub open spec fn utf8_prefix(s: Seq<char>, n: int) -> Seq<char>
    decreases s.len(),
{
    if s.len() == 0 || char_width(s[0]) > n {
        Seq::empty()
    } else {
        seq![s[0]] + utf8_prefix(s.drop_first(), n - char_width(s[0]))
    }
}

// ───────────────────────────── lemmas ─────────────────────────────

proof fn lemma_trim_start_skip(s: Seq<char>, i: int)
    requires
        0 <= i <= s.len(),
        forall|k: int| 0 <= k < i ==> is_ws(#[trigger] s[k]),
    ensures
        trim_start(s) == trim_start(s.subrange(i, s.len() as int)),
    decreases i,
{
    if i > 0 {
        assert(s.drop_first() == s.subrange(1, s.len() as int));
        let t = s.drop_first();
        assert forall|k: int| 0 <= k < i - 1 implies is_ws(#[trigger] t[k]) by {
            assert(t[k] == s[k + 1]);
        }
        lemma_trim_start_skip(t, i - 1);
        assert(t.subrange(i - 1, t.len() as int) == s.subrange(i, s.len() as int));
        assert(is_ws(s[0]));
    } else {
        assert(s.subrange(0, s.len() as int) == s);
    }
}

proof fn lemma_trim_end_skip(s: Seq<char>, j: int)
    requires
        0 <= j <= s.len(),
        forall|k: int| j <= k < s.len() ==> is_ws(#[trigger] s[k]),
    ensures
        trim_end(s) == trim_end(s.subrange(0, j)),
    decreases s.len() - j,
{
    if j < s.len() {
        let t = s.drop_last();
        assert forall|k: int| j <= k < t.len() implies is_ws(#[trigger] t[k]) by {
            assert(t[k] == s[k]);
        }
        lemma_trim_end_skip(t, j);
        assert(t.subrange(0, j) == s.subrange(0, j));
    } else {
        assert(s.subrange(0, j) == s);
    }
}

pub proof fn lemma_find_from_bounds(s: Seq<char>, i: int, c: char)
    requires
        0 <= i <= s.len(),
    ensures
        i <= find_from(s, i, c) <= s.len(),
        find_from(s, i, c) < s.len() ==> s[find_from(s, i, c)] == c,
        forall|k: int| i <= k < find_from(s, i, c) ==> s[k] != c,
    decreases s.len() - i,
{
    if i < s.len() && s[i] != c {
        lemma_find_from_bounds(s, i + 1, c);
    }
}

/// Searching a suffix for `c` finds it at the same place, shifted.
pub proof fn lemma_find_from_shift(s: Seq<char>, p: int, i: int, c: char)
    requires
        0 <= p <= s.len(),
        0 <= i <= s.len() - p,
    ensures
        find_from(s.subrange(p, s.len() as int), i, c) == find_from(s, p + i, c) - p,
    decreases s.len() - p - i,
{
    let t = s.subrange(p, s.len() as int);
    if i < t.len() {
        assert(t[i] == s[p + i]);
        if t[i] != c {
            lemma_find_from_shift(s, p, i + 1, c);
        }
    }
}

/// The count of `c` in a prefix grows by one step at a time.
pub proof fn lemma_count_char_take(s: Seq<char>, k: int, c: char)
    requires
        0 <= k < s.len(),
    ensures
        count_char(s.take(k + 1), c) == count_char(s.take(k), c) + if s[k] == c { 1nat } else { 0nat },
{
    assert(s.take(k + 1).drop_last() =~= s.take(k));
}

/// The encoding of a concatenation is the concatenation of the encodings.
pub proof fn lemma_utf8_len_concat(a: Seq<char>, b: Seq<char>)
    ensures
        utf8_len(a + b) == utf8_len(a) + utf8_len(b),
    decreases a.len(),
{
    if a.len() > 0 {
        assert((a + b).drop_first() =~= a.drop_first() + b);
        assert((a + b)[0] == a[0]);
        lemma_utf8_len_concat(a.drop_first(), b);
    }
}

/// The encoding of one character has `char_width` bytes.
pub proof fn lemma_utf8_len_single(c: char)
    ensures
        utf8_len(seq![c]) == char_width(c),
{
    assert(seq![c].drop_first() =~= Seq::<char>::empty());
    assert(vstd::utf8::encode_utf8(Seq::<char>::empty()) =~= Seq::<u8>::empty());
    assert(vstd::utf8::encode_utf8(seq![c]) =~= vstd::utf8::encode_scalar(c as u32));
}

pub proof fn lemma_decimal_nonempty(n: nat)
    ensures
        decimal(n).len() >= 1,
    decreases n,
{
    if n >= 10 {
        lemma_decimal_nonempty(n / 10);
    }
}

proof fn lemma_trim_start_shape(s: Seq<char>)
    ensures
        trim_start(s).len() > 0 ==> !is_ws(trim_start(s)[0]),
    decreases s.len(),
{
    if s.len() > 0 && is_ws(s[0]) {
        lemma_trim_start_shape(s.drop_first());
    }
}

proof fn lemma_trim_end_shape(s: Seq<char>)
    ensures
        trim_end(s).len() <= s.len(),
        trim_end(s) == s.subrange(0, trim_end(s).len() as int),
        trim_end(s).len() > 0 ==> !is_ws(trim_end(s).last()),
    decreases s.len(),
{
    if s.len() > 0 && is_ws(s.last()) {
        lemma_trim_end_shape(s.drop_last());
        assert(s.drop_last().subrange(0, trim_end(s).len() as int) =~= s.subrange(0, trim_end(s).len() as int));
    } else {
        assert(s.subrange(0, s.len() as int) =~= s);
    }
}

proof fn lemma_trim_start_suffix(s: Seq<char>)
    ensures
        trim_start(s).len() <= s.len(),
        trim_start(s) == s.subrange(s.len() - trim_start(s).len(), s.len() as int),
    decreases s.len(),
{
    if s.len() > 0 && is_ws(s[0]) {
        lemma_trim_start_suffix(s.drop_first());
        assert(s.drop_first().subrange(s.drop_first().len() - trim_start(s).len(), s.drop_first().len() as int)
            =~= s.subrange(s.len() - trim_start(s).len(), s.len() as int));
    } else {
        assert(s.subrange(0, s.len() as int) =~= s);
    }
}

/// A trimmed string is a slice of the string: every character of it is a
/// character of the original, in place.
pub proof fn lemma_trim_is_slice(s: Seq<char>)
    ensures
        exists|a: int| 0 <= a && a + trim(s).len() <= s.len() && #[trigger] s.subrange(a, a + trim(s).len()) == trim(s),
{
    lemma_trim_start_suffix(s);
    let y = trim_start(s);
    lemma_trim_end_shape(y);
    let a = s.len() - y.len();
    assert(s.subrange(a, a + trim(s).len()) =~= trim(s));
}

proof fn lemma_trim_start_push(x: Seq<char>, c: char)
    ensures
        trim_start(x.push(c)) == if trim_start(x).len() > 0 { trim_start(x).push(c) } else { trim_start(seq![c]) },
    decreases x.len(),
{
    if x.len() == 0 {
        assert(x.push(c) =~= seq![c]);
    } else if is_ws(x[0]) {
        assert(x.push(c).drop_first() =~= x.drop_first().push(c));
        lemma_trim_start_push(x.drop_first(), c);
    }
}

/// A trailing whitespace character changes nothing once trimmed.
pub proof fn lemma_trim_push_ws(x: Seq<char>, c: char)
    requires
        is_ws(c),
    ensures
        trim(x.push(c)) == trim(x),
{
    lemma_trim_start_push(x, c);
    let y = trim_start(x);
    if y.len() > 0 {
        assert(y.push(c).drop_last() =~= y);
    } else {
        assert(seq![c].drop_first() =~= Seq::<char>::empty());
        assert(trim_start(seq![c]) == trim_start(Seq::<char>::empty()));
    }
}

/// A leading whitespace character changes nothing once trimmed.
pub proof fn lemma_trim_prepend_ws(c: char, y: Seq<char>)
    requires
        is_ws(c),
    ensures
        trim(seq![c] + y) == trim(y),
{
    assert((seq![c] + y).drop_first() =~= y);
}

proof fn lemma_count_drop_first(s: Seq<char>, c: char)
    requires
        s.len() > 0,
    ensures
        count_char(s, c) == count_char(s.drop_first(), c) + if s[0] == c { 1nat } else { 0nat },
    decreases s.len(),
{
    if s.len() > 1 {
        let a = s.drop_last();
        let b = s.drop_first();
        lemma_count_drop_first(a, c);
        assert(a.drop_first() =~= b.drop_last());
        assert(b.last() == s.last());
        assert(a[0] == s[0]);
        assert(count_char(s, c) == count_char(a, c) + if s.last() == c { 1nat } else { 0nat });
        assert(count_char(b, c) == count_char(b.drop_last(), c) + if b.last() == c { 1nat } else { 0nat });
    } else {
        assert(s.drop_first().len() == 0);
        assert(s.drop_last().len() == 0);
        assert(s.last() == s[0]);
        assert(count_char(s, c) == count_char(s.drop_last(), c) + if s.last() == c { 1nat } else { 0nat });
    }
}

/// Trimming removes whitespace only, so it keeps the count of any other
/// character.
pub proof fn lemma_count_trim(s: Seq<char>, c: char)
    requires
        !is_ws(c),
    ensures
        count_char(trim(s), c) == count_char(s, c),
{
    lemma_count_trim_start(s, c);
    lemma_count_trim_end(trim_start(s), c);
}

proof fn lemma_count_trim_start(s: Seq<char>, c: char)
    requires
        !is_ws(c),
    ensures
        count_char(trim_start(s), c) == count_char(s, c),
    decreases s.len(),
{
    if s.len() > 0 && is_ws(s[0]) {
        lemma_count_drop_first(s, c);
        lemma_count_trim_start(s.drop_first(), c);
    }
}

proof fn lemma_count_trim_end(s: Seq<char>, c: char)
    requires
        !is_ws(c),
    ensures
        count_char(trim_end(s), c) == count_char(s, c),
    decreases s.len(),
{
    if s.len() > 0 && is_ws(s.last()) {
        lemma_count_trim_end(s.drop_last(), c);
    }
}

/// Trimming twice trims nothing more: a trimmed string is its own trim.
pub proof fn lemma_trim_idempotent(s: Seq<char>)
    ensures
        trim(trim(s)) == trim(s),
{
    let y = trim_start(s);
    lemma_trim_start_shape(s);
    let z = trim_end(y);
    lemma_trim_end_shape(y);
    if z.len() > 0 {
        assert(z[0] == y[0]);
    }
    assert(trim_start(z) == z);
    assert(trim_end(z) == z);
}

// ───────────────────────────── trusted std ─────────────────────────────

/// Appends one character to a string (`String::push`). Claims that the
/// string afterwards is the old one followed by `c`.
#[verifier::external_body]
fn push_char(s: &mut String, c: char)
    ensures
        final(s)@ == old(s)@.push(c),
{
    s.push(c);
}

// ───────────────────────────── executable ─────────────────────────────

/// The characters of a string slice, in order.
pub fn chars_of(s: &str) -> (r: Vec<char>)
    ensures
        r@ == s@,
{
    let mut v: Vec<char> = Vec::new();
    for c in it: s.chars()
        invariant
            v@ == it.seq().take(it.index() as int),
    {
        v.push(c);
    }
    v
}

/// A string made of the characters `v[lo..hi]`.
pub fn string_of_range(v: &Vec<char>, lo: usize, hi: usize) -> (r: String)
    requires
        lo <= hi <= v.len(),
    ensures
        r@ == v@.subrange(lo as int, hi as int),
{
    let mut s = String::new();
    let mut i = lo;
    while i < hi
        invariant
            lo <= i <= hi <= v.len(),
            s@ == v@.subrange(lo as int, i as int),
        decreases hi - i,
    {
        push_char(&mut s, v[i]);
        assert(v@.subrange(lo as int, i + 1) == v@.subrange(lo as int, i as int).push(v@[i as int]));
        i += 1;
    }
    s
}

/// A string made of all characters of `v`.
pub fn string_of(v: &Vec<char>) -> (r: String)
    ensures
        r@ == v@,
{
    assert(v@.subrange(0, v@.len() as int) == v@);
    string_of_range(v, 0, v.len())
}

/// Appends a string slice to a string.
pub fn append_str(s: &mut String, t: &str)
    ensures
        final(s)@ == old(s)@ + t@,
{
    let cs = chars_of(t);
    let ghost s0 = s@;
    let mut i: usize = 0;
    while i < cs.len()
        invariant
            i <= cs.len(),
            cs@ == t@,
            s@ == s0 + cs@.subrange(0, i as int),
        decreases cs.len() - i,
    {
        push_char(s, cs[i]);
        assert(cs@.subrange(0, i + 1) == cs@.subrange(0, i as int).push(cs@[i as int]));
        i += 1;
    }
    assert(cs@.subrange(0, cs@.len() as int) == cs@);
}

/// Appends characters `v[lo..hi]` to a string.
pub fn append_range(s: &mut String, v: &Vec<char>, lo: usize, hi: usize)
    requires
        lo <= hi <= v.len(),
    ensures
        final(s)@ == old(s)@ + v@.subrange(lo as int, hi as int),
{
    let ghost s0 = s@;
    let mut i = lo;
    while i < hi
        invariant
            lo <= i <= hi <= v.len(),
            s@ == s0 + v@.subrange(lo as int, i as int),
        decreases hi - i,
    {
        push_char(s, v[i]);
        assert(v@.subrange(lo as int, i + 1) == v@.subrange(lo as int, i as int).push(v@[i as int]));
        i += 1;
    }
}

/// Appends a string to a string.
pub fn append_string(s: &mut String, t: &String)
    ensures
        final(s)@ == old(s)@ + t@,
{
    append_str(s, t.as_str());
}

/// A string with the characters of `t`.
pub fn string_from(t: &str) -> (r: String)
    ensures
        r@ == t@,
{
    let mut s = String::new();
    append_str(&mut s, t);
    assert(Seq::<char>::empty() + t@ == t@);
    s
}

/// A copy of a list of strings.
pub fn copy_strings(v: &Vec<String>) -> (r: Vec<String>)
    ensures
        string_views(r@) == string_views(v@),
{
    let mut r: Vec<String> = Vec::new();
    let mut k: usize = 0;
    while k < v.len()
        invariant
            k <= v.len(),
            string_views(r@) == string_views(v@.take(k as int)),
        decreases v.len() - k,
    {
        let s = string_from(v[k].as_str());
        let ghost before = r@;
        r.push(s);
        proof {
            assert(string_views(r@) =~= string_views(before).push(s@));
            assert(string_views(v@.take(k + 1)) =~= string_views(v@.take(k as int)).push(v@[k as int]@));
        }
        k += 1;
    }
    assert(v@.take(v@.len() as int) =~= v@);
    r
}

/// A copy of an optional string.
pub fn copy_opt_string(o: &Option<String>) -> (r: Option<String>)
    ensures
        opt_string_view(r) == opt_string_view(*o),
{
    match o {
        Some(s) => Some(string_from(s.as_str())),
        None => None,
    }
}

/// Whether two character sequences are equal.
pub fn seq_eq(a: &Vec<char>, b: &Vec<char>) -> (r: bool)
    ensures
        r == (a@ == b@),
{
    if a.len() != b.len() {
        return false;
    }
    let mut i: usize = 0;
    while i < a.len()
        invariant
            a.len() == b.len(),
            i <= a.len(),
            forall|k: int| 0 <= k < i ==> a@[k] == b@[k],
        decreases a.len() - i,
    {
        if a[i] != b[i] {
            return false;
        }
        i += 1;
    }
    assert(a@ =~= b@);
    true
}

/// Whether a string equals a string slice.
pub fn string_eq_str(a: &String, b: &str) -> (r: bool)
    ensures
        r == (a@ == b@),
{
    let x = chars_of(a.as_str());
    let y = chars_of(b);
    seq_eq(&x, &y)
}

/// Whether two string slices are equal.
pub fn str_eq(a: &str, b: &str) -> (r: bool)
    ensures
        r == (a@ == b@),
{
    let x = chars_of(a);
    let y = chars_of(b);
    seq_eq(&x, &y)
}

/// Whether `c` is Unicode whitespace (`char::is_whitespace`).
pub fn is_whitespace(c: char) -> (r: bool)
    ensures
        r == is_ws(c),
{
    let u = c as u32;
    (0x09 <= u && u <= 0x0D) || u == 0x20 || u == 0x85 || u == 0xA0 || u == 0x1680 || (0x2000
        <= u && u <= 0x200A) || u == 0x2028 || u == 0x2029 || u == 0x202F || u == 0x205F || u
        == 0x3000
}

/// Bounds `[a, b)` of `v[lo..hi]` with surrounding whitespace removed.
pub fn trim_bounds(v: &Vec<char>, lo: usize, hi: usize) -> (r: (usize, usize))
    requires
        lo <= hi <= v.len(),
    ensures
        lo <= r.0 <= r.1 <= hi,
        v@.subrange(r.0 as int, r.1 as int) == trim(v@.subrange(lo as int, hi as int)),
{
    let ghost s = v@.subrange(lo as int, hi as int);
    let mut a = lo;
    while a < hi && is_whitespace(v[a])
        invariant
            lo <= a <= hi <= v.len(),
            forall|k: int| lo <= k < a ==> is_ws(#[trigger] v@[k]),
        decreases hi - a,
    {
        a += 1;
    }
    proof {
        assert forall|k: int| 0 <= k < a - lo implies is_ws(#[trigger] s[k]) by {
            assert(s[k] == v@[lo + k]);
        }
        lemma_trim_start_skip(s, a - lo);
        assert(s.subrange(a - lo, s.len() as int) == v@.subrange(a as int, hi as int));
        let t = v@.subrange(a as int, hi as int);
        if a < hi {
            assert(t[0] == v@[a as int]);
            assert(!is_ws(t[0]));
        }
        assert(trim_start(t) == t);
    }
    let mut b = hi;
    while b > a && is_whitespace(v[b - 1])
        invariant
            lo <= a <= b <= hi <= v.len(),
            forall|k: int| b <= k < hi ==> is_ws(#[trigger] v@[k]),
        decreases b - a,
    {
        b -= 1;
    }
    proof {
        let t = v@.subrange(a as int, hi as int);
        assert forall|k: int| b - a <= k < t.len() implies is_ws(#[trigger] t[k]) by {
            assert(t[k] == v@[a + k]);
        }
        lemma_trim_end_skip(t, b - a);
        let u = t.subrange(0, b - a);
        assert(u == v@.subrange(a as int, b as int));
        if b > a {
            assert(u.last() == v@[b - 1]);
        }
        assert(trim_end(u) == u);
    }
    (a, b)
}

/// `v[lo..hi]` as a string with surrounding whitespace removed.
pub fn trimmed_string(v: &Vec<char>, lo: usize, hi: usize) -> (r: String)
    requires
        lo <= hi <= v.len(),
    ensures
        r@ == trim(v@.subrange(lo as int, hi as int)),
{
    let (a, b) = trim_bounds(v, lo, hi);
    string_of_range(v, a, b)
}

/// Whether `p` occurs in `v` at index `i`.
pub fn occurs_at_exec(v: &Vec<char>, p: &Vec<char>, i: usize) -> (r: bool)
    ensures
        r == occurs_at(v@, p@, i as int),
{
    if i > v.len() || p.len() > v.len() - i {
        return false;
    }
    let mut k: usize = 0;
    while k < p.len()
        invariant
            i + p.len() <= v.len(),
            k <= p.len(),
            forall|m: int| 0 <= m < k ==> v@[i + m] == p@[m],
        decreases p.len() - k,
    {
        if v[i + k] != p[k] {
            assert(v@.subrange(i as int, i + p.len())[k as int] != p@[k as int]);
            return false;
        }
        k += 1;
    }
    assert(v@.subrange(i as int, i + p.len()) =~= p@);
    true
}

/// Whether `p` occurs anywhere in `v`.
pub fn contains_exec(v: &Vec<char>, p: &Vec<char>) -> (r: bool)
    ensures
        r == contains_sub(v@, p@),
{
    let mut i: usize = 0;
    while i <= v.len()
        invariant
            i <= v.len() + 1,
            forall|m: int| 0 <= m < i ==> !occurs_at(v@, p@, m),
        decreases v.len() + 1 - i,
    {
        if occurs_at_exec(v, p, i) {
            return true;
        }
        if i == v.len() {
            assert forall|m: int| !occurs_at(v@, p@, m) by {
                if 0 <= m && m + p@.len() <= v@.len() {
                    assert(m <= i);
                }
            }
            return false;
        }
        i += 1;
    }
    assert forall|m: int| !occurs_at(v@, p@, m) by {
        if 0 <= m && m + p@.len() <= v@.len() {
            assert(m < i);
        }
    }
    false
}

/// Whether string slice `s` contains string slice `p`.
pub fn str_contains(s: &str, p: &str) -> (r: bool)
    ensures
        r == contains_sub(s@, p@),
{
    let a = chars_of(s);
    let b = chars_of(p);
    contains_exec(&a, &b)
}

/// Index of the first `c` in `v` at or after `i`, or `v.len()`.
pub fn find_char(v: &Vec<char>, i: usize, c: char) -> (r: usize)
    requires
        i <= v.len(),
    ensures
        r as int == find_from(v@, i as int, c),
        i <= r <= v.len(),
{
    proof {
        lemma_find_from_bounds(v@, i as int, c);
    }
    let mut k = i;
    while k < v.len() && v[k] != c
        invariant
            i <= k <= v.len(),
            find_from(v@, i as int, c) == find_from(v@, k as int, c),
        decreases v.len() - k,
    {
        k += 1;
    }
    k
}

/// Number of occurrences of `c` in `v`.
pub fn count_char_exec(v: &Vec<char>, c: char) -> (r: usize)
    ensures
        r == count_char(v@, c),
{
    let mut n: usize = 0;
    let mut k: usize = 0;
    while k < v.len()
        invariant
            k <= v.len(),
            n <= k,
            n == count_char(v@.take(k as int), c),
        decreases v.len() - k,
    {
        proof {
            lemma_count_char_take(v@, k as int, c);
        }
        if v[k] == c {
            n += 1;
        }
        k += 1;
    }
    assert(v@.take(v@.len() as int) =~= v@);
    n
}

/// The characters `v[lo..hi]` as a vector of their own.
pub fn sub_vec(v: &Vec<char>, lo: usize, hi: usize) -> (r: Vec<char>)
    requires
        lo <= hi <= v.len(),
    ensures
        r@ == v@.subrange(lo as int, hi as int),
{
    let mut r: Vec<char> = Vec::new();
    let mut k = lo;
    while k < hi
        invariant
            lo <= k <= hi <= v.len(),
            r@ == v@.subrange(lo as int, k as int),
        decreases hi - k,
    {
        r.push(v[k]);
        assert(v@.subrange(lo as int, k + 1) == v@.subrange(lo as int, k as int).push(v@[k as int]));
        k += 1;
    }
    r
}

/// Number of bytes in the UTF-8 encoding of `c`.
pub fn char_width_exec(c: char) -> (r: usize)
    ensures
        r == char_width(c),
        1 <= r <= 4,
{
    let u = c as u32;
    if u < 0x80 {
        1
    } else if u < 0x800 {
        2
    } else if u < 0x10000 {
        3
    } else {
        4
    }
}

/// The longest prefix of `s` whose UTF-8 encoding has at most `n` bytes.
pub fn utf8_prefix_exec(s: &str, n: usize) -> (r: String)
    ensures
        r@ == utf8_prefix(s@, n as int),
{
    let v = chars_of(s);
    let mut k: usize = 0;
    let mut budget = n;
    assert(v@.subrange(0, v@.len() as int) =~= v@);
    assert(v@.take(0) =~= Seq::<char>::empty());
    while k < v.len() && char_width_exec(v[k]) <= budget
        invariant
            k <= v.len(),
            v@ == s@,
            budget <= n,
            utf8_prefix(s@, n as int) == v@.take(k as int) + utf8_prefix(
                v@.subrange(k as int, v@.len() as int),
                budget as int,
            ),
        decreases v.len() - k,
    {
        let w = char_width_exec(v[k]);
        proof {
            let t = v@.subrange(k as int, v@.len() as int);
            assert(t[0] == v@[k as int]);
            assert(t.drop_first() =~= v@.subrange(k + 1, v@.len() as int));
            assert(v@.take(k + 1) =~= v@.take(k as int) + seq![v@[k as int]]);
        }
        budget = budget - w;
        k += 1;
    }
    proof {
        let t = v@.subrange(k as int, v@.len() as int);
        if k < v.len() {
            assert(t[0] == v@[k as int]);
        }
        assert(utf8_prefix(t, budget as int) =~= Seq::<char>::empty());
        assert(v@.take(k as int) + Seq::<char>::empty() =~= v@.take(k as int));
        assert(v@.take(k as int) =~= v@.subrange(0, k as int));
    }
    string_of_range(&v, 0, k)
}

/// Number of bytes in the UTF-8 encoding of `s`.
pub fn utf8_len_exec(s: &str) -> (r: u128)
    ensures
        r == utf8_len(s@),
        r <= 4 * s@.len(),
        s@.len() <= usize::MAX,
{
    let v = chars_of(s);
    let mut n: u128 = 0;
    let mut k: usize = 0;
    assert(vstd::utf8::encode_utf8(Seq::<char>::empty()) =~= Seq::<u8>::empty());
    assert(v@.take(0) =~= Seq::<char>::empty());
    while k < v.len()
        invariant
            k <= v.len(),
            v@ == s@,
            n == utf8_len(v@.take(k as int)),
            n <= 4 * k,
        decreases v.len() - k,
    {
        let w = char_width_exec(v[k]);
        proof {
            assert(v@.take(k + 1) =~= v@.take(k as int) + seq![v@[k as int]]);
            lemma_utf8_len_concat(v@.take(k as int), seq![v@[k as int]]);
            lemma_utf8_len_single(v@[k as int]);
        }
        n = n + w as u128;
        k += 1;
    }
    assert(v@.take(v@.len() as int) =~= v@);
    n
}

/// The decimal digit character of `d`.
fn digit_of(d: u64) -> (r: char)
    requires
        d < 10,
    ensures
        r == digit_char(d as nat),
{
    if d == 0 { '0' }
    else if d == 1 { '1' }
    else if d == 2 { '2' }
    else if d == 3 { '3' }
    else if d == 4 { '4' }
    else if d == 5 { '5' }
    else if d == 6 { '6' }
    else if d == 7 { '7' }
    else if d == 8 { '8' }
    else { '9' }
}

/// Appends the decimal representation of `n`.
pub fn push_decimal(s: &mut String, n: u64)
    ensures
        final(s)@ == old(s)@ + decimal(n as nat),
    decreases n,
{
    if n < 10 {
        push_char(s, digit_of(n));
        assert(old(s)@.push(digit_char(n as nat)) == old(s)@ + seq![digit_char(n as nat)]);
    } else {
        push_decimal(s, n / 10);
        push_char(s, digit_of(n % 10));
        assert(old(s)@ + decimal((n / 10) as nat).push(digit_char((n % 10) as nat)) == (old(s)@
            + decimal((n / 10) as nat)).push(digit_char((n % 10) as nat)));
    }
}

/// Appends the decimal representation of a signed `n`.
pub fn push_decimal_i64(s: &mut String, n: i64)
    ensures
        final(s)@ == old(s)@ + decimal_int(n as int),
{
    if n < 0 {
        push_char(s, '-');
        // -n as an unsigned number, computed without overflow for i64::MIN.
        let m: u64 = ((-(n + 1)) as u64) + 1;
        assert(m == -n);
        push_decimal(s, m);
        assert(old(s)@.push('-') + decimal(m as nat) == old(s)@ + (seq!['-'] + decimal(
            (-n) as nat,
        )));
    } else {
        push_decimal(s, n as u64);
    }
}

} // verus!
