//! Text as sequences of characters.
//!
//! A string is modelled by its view, the sequence of its characters. The
//! functions here are the string operations the rest of the library is built
//! on, each with a specification function that says what it computes.
use vstd::prelude::*;


verus! {

/// `String::push`: appends the given character to the end of the string.
pub assume_specification[ String::push ](s: &mut String, c: char)
    ensures
        final(s)@ == old(s)@.push(c),
;

/// `str`'s `==`: two strings are equal when they hold the same characters.
pub assume_specification[ <str as PartialEq>::eq ](a: &str, b: &str) -> (r: bool)
    ensures
        r == (a@ == b@),
;

/// What `str::to_lowercase` makes of a text.
pub uninterp spec fn lowercase(s: Seq<char>) -> Seq<char>;

/// The lower case of an ASCII letter; any other character is kept.
pub open spec fn ascii_lower_char(c: char) -> char {
    if 'A' <= c <= 'Z' {
        ((c as u32) + 32) as char
    } else {
        c
    }
}

/// ASCII letters in lower case, everything else as it is.
pub open spec fn ascii_lower(s: Seq<char>) -> Seq<char> {
    Seq::new(s.len(), |i: int| ascii_lower_char(s[i]))
}

/// Whether every character is ASCII.
pub open spec fn all_ascii(s: Seq<char>) -> bool {
    forall|i: int| 0 <= i < s.len() ==> (#[trigger] s[i] as u32) < 128
}

/// Whether every character is ASCII or a Hangul syllable. Hangul has no case.
pub open spec fn plain(s: Seq<char>) -> bool {
    forall|i: int|
        0 <= i < s.len() ==> (#[trigger] s[i] as u32) < 128 || 0xAC00 <= (s[i] as u32) <= 0xD7A3
}

/// Whether the lower case of a text is the ASCII one, should the text be plain.
pub open spec fn lower_is_plain(s: Seq<char>) -> bool {
    plain(s) ==> lowercase(s) == ascii_lower(s)
}

/// `str::to_lowercase`: the lower case of a text by the Unicode mapping, which
/// depends on the text alone. On ASCII text it is the ASCII lower case, and
/// characters of a script without case, such as Hangul, are not changed.
#[verifier::external_body]
pub(crate) fn to_lowercase(s: &str) -> (r: String)
    ensures
        r@ == lowercase(s@),
        plain(s@) ==> r@ == ascii_lower(s@),
{
    s.to_lowercase()
}

/// Whether two strings hold the same characters.
pub fn str_eq(a: &str, b: &str) -> (r: bool)
    ensures
        r == (a@ == b@),
{
    *a == *b
}

/// The views of a list of strings.
pub open spec fn views(v: Seq<String>) -> Seq<Seq<char>> {
    v.map_values(|s: String| s@)
}

/// The view of an optional string.
pub open spec fn opt_view(s: Option<String>) -> Option<Seq<char>> {
    match s {
        Some(t) => Some(t@),
        None => None,
    }
}

/// A copy of an optional string.
pub fn clone_opt(s: &Option<String>) -> (r: Option<String>)
    ensures
        opt_view(r) == opt_view(*s),
        r == *s,
{
    match s {
        Some(t) => Some(t.clone()),
        None => None,
    }
}

/// The text of an optional string, empty where there is none.
pub open spec fn or_empty(s: Option<Seq<char>>) -> Seq<char> {
    match s {
        Some(t) => t,
        None => Seq::empty(),
    }
}

/// The text of an optional string, empty where there is none.
pub fn unwrap_or_empty(s: &Option<String>) -> (r: String)
    ensures
        r@ == or_empty(opt_view(*s)),
{
    match s {
        Some(t) => t.clone(),
        None => String::new(),
    }
}

/// Whether a text is in a list.
pub fn is_in(list: &[String], s: &str) -> (r: bool)
    ensures
        r == views(list@).contains(s@),
{
    let mut i: usize = 0;
    while i < list.len()
        invariant
            i <= list.len(),
            forall|k: int| 0 <= k < i ==> (#[trigger] views(list@)[k]) != s@,
        decreases list.len() - i,
    {
        if str_eq(&list[i], s) {
            assert(views(list@)[i as int] == s@);
            return true;
        }
        i = i + 1;
    }
    false
}

/// The number of bytes of the UTF-8 encoding of a text, as a machine length.
pub open spec fn byte_len(s: Seq<char>) -> usize {
    vstd::utf8::encode_utf8(s).len() as usize
}

/// The characters of a string.
pub fn chars_of(s: &str) -> (r: Vec<char>)
    ensures
        r@ == s@,
{
    let mut out: Vec<char> = Vec::new();
    for c in it: s.chars()
        invariant
            out@ == s@.take(it.index()),
            it.seq() == s@,
    {
        out.push(c);
        proof {
            assert(s@.take(it.index() + 1) =~= s@.take(it.index()).push(c));
        }
    }
    proof {
        assert(s@.take(s@.len() as int) =~= s@);
    }
    out
}

/// Appends characters to a string.
pub fn push_chars(out: &mut String, v: &[char])
    ensures
        final(out)@ == old(out)@ + v@,
{
    let ghost start = out@;
    let mut i: usize = 0;
    while i < v.len()
        invariant
            i <= v.len(),
            out@ == start + v@.take(i as int),
        decreases v.len() - i,
    {
        out.push(v[i]);
        i = i + 1;
        proof {
            assert(v@.take(i as int) =~= v@.take(i - 1).push(v@[i - 1]));
            assert(out@ =~= start + v@.take(i as int));
        }
    }
    proof {
        assert(v@.take(v@.len() as int) =~= v@);
    }
}

/// The string of the given characters.
pub fn string_of(v: &[char]) -> (r: String)
    ensures
        r@ == v@,
{
    let mut out = String::new();
    push_chars(&mut out, v);
    proof {
        assert(Seq::<char>::empty() + v@ =~= v@);
    }
    out
}

// ---------------------------------------------------------------------------
// White space
// ---------------------------------------------------------------------------

/// Whether a character has the Unicode property White_Space.
pub open spec fn space(c: char) -> bool {
    let u = c as u32;
    ||| 0x09 <= u <= 0x0d
    ||| u == 0x20
    ||| u == 0x85
    ||| u == 0xa0
    ||| u == 0x1680
    ||| 0x2000 <= u <= 0x200a
    ||| u == 0x2028
    ||| u == 0x2029
    ||| u == 0x202f
    ||| u == 0x205f
    ||| u == 0x3000
}

/// Whether a character is white space.
pub fn is_space(c: char) -> (r: bool)
    ensures
        r == space(c),
{
    let u: u32 = c as u32;
    (0x09 <= u && u <= 0x0d) || u == 0x20 || u == 0x85 || u == 0xa0 || u == 0x1680 || (0x2000 <= u
        && u <= 0x200a) || u == 0x2028 || u == 0x2029 || u == 0x202f || u == 0x205f || u == 0x3000
}

/// A text without its leading white space.
pub open spec fn trimmed_start(s: Seq<char>) -> Seq<char>
    decreases s.len(),
{
    if s.len() > 0 && space(s[0]) {
        trimmed_start(s.skip(1))
    } else {
        s
    }
}

/// A text without its trailing white space.
pub open spec fn trimmed_end(s: Seq<char>) -> Seq<char>
    decreases s.len(),
{
    if s.len() > 0 && space(s.last()) {
        trimmed_end(s.drop_last())
    } else {
        s
    }
}

/// A text without its leading and trailing white space.
pub open spec fn trimmed(s: Seq<char>) -> Seq<char> {
    trimmed_end(trimmed_start(s))
}

/// Whether a text is empty or all white space.
pub open spec fn blank(s: Seq<char>) -> bool {
    trimmed(s).len() == 0
}

/// Where the text without leading white space begins.
pub fn start_of_text(v: &[char]) -> (i: usize)
    ensures
        i <= v@.len(),
        v@.skip(i as int) == trimmed_start(v@),
{
    let mut i: usize = 0;
    proof {
        assert(v@.skip(0) =~= v@);
    }
    while i < v.len() && is_space(v[i])
        invariant
            i <= v.len(),
            trimmed_start(v@.skip(i as int)) == trimmed_start(v@),
        decreases v.len() - i,
    {
        proof {
            assert(v@.skip(i as int).skip(1) =~= v@.skip(i + 1));
        }
        i = i + 1;
    }
    i
}

/// Where the text without trailing white space ends.
pub fn end_of_text(v: &[char]) -> (i: usize)
    ensures
        i <= v@.len(),
        v@.take(i as int) == trimmed_end(v@),
{
    let mut i: usize = v.len();
    proof {
        assert(v@.take(v@.len() as int) =~= v@);
    }
    while i > 0 && is_space(v[i - 1])
        invariant
            i <= v.len(),
            trimmed_end(v@.take(i as int)) == trimmed_end(v@),
        decreases i,
    {
        proof {
            assert(v@.take(i as int).drop_last() =~= v@.take(i - 1));
        }
        i = i - 1;
    }
    i
}

/// The part of a text from character `a` to character `b`.
pub fn slice<'a>(s: &'a str, a: usize, b: usize) -> (r: &'a str)
    requires
        a <= b <= s@.len(),
    ensures
        r@ == s@.subrange(a as int, b as int),
{
    s.substring_char(a, b)
}

/// A text without its leading white space.
pub fn trim_start<'a>(s: &'a str) -> (r: &'a str)
    ensures
        r@ == trimmed_start(s@),
{
    let v = chars_of(s);
    let a = start_of_text(&v);
    let r = slice(s, a, v.len());
    proof {
        assert(s@.subrange(a as int, s@.len() as int) =~= s@.skip(a as int));
    }
    r
}

/// A text without its leading and trailing white space.
pub fn trim<'a>(s: &'a str) -> (r: &'a str)
    ensures
        r@ == trimmed(s@),
{
    let t = trim_start(s);
    let v = chars_of(t);
    let b = end_of_text(&v);
    let r = slice(t, 0, b);
    proof {
        assert(t@.subrange(0, b as int) =~= t@.take(b as int));
    }
    r
}

/// Whether a text is empty or all white space.
pub fn is_blank(s: &str) -> (r: bool)
    ensures
        r == blank(s@),
{
    trim(s).is_empty()
}

/// Whether a text neither begins nor ends with white space.
pub open spec fn tight(s: Seq<char>) -> bool {
    s.len() == 0 || (!space(s[0]) && !space(s.last()))
}

/// Whether a text is white space throughout.
pub open spec fn all_space(s: Seq<char>) -> bool {
    forall|i: int| 0 <= i < s.len() ==> space(#[trigger] s[i])
}

/// What is left of a text without its leading white space is a suffix of it
/// that does not begin with white space.
pub proof fn lemma_trimmed_start(s: Seq<char>)
    ensures
        trimmed_start(s).is_suffix_of(s),
        trimmed_start(s).len() > 0 ==> !space(trimmed_start(s)[0]),
    decreases s.len(),
{
    if s.len() > 0 && space(s[0]) {
        lemma_trimmed_start(s.skip(1));
        let t = trimmed_start(s);
        assert(t =~= s.skip(s.len() - t.len()));
        assert(t.is_suffix_of(s));
    } else {
        assert(s =~= s.skip(0));
    }
}

/// What is left of a text without its trailing white space is a prefix of it
/// that does not end with white space.
pub proof fn lemma_trimmed_end(s: Seq<char>)
    ensures
        trimmed_end(s).is_prefix_of(s),
        trimmed_end(s).len() > 0 ==> !space(trimmed_end(s).last()),
    decreases s.len(),
{
    if s.len() > 0 && space(s.last()) {
        lemma_trimmed_end(s.drop_last());
        let t = trimmed_end(s);
        assert(t =~= s.take(t.len() as int));
        assert(t.is_prefix_of(s));
    } else {
        assert(s =~= s.take(s.len() as int));
    }
}

/// A trimmed text neither begins nor ends with white space, and a text that
/// does neither is its own trimmed text.
pub proof fn lemma_tight(s: Seq<char>)
    ensures
        tight(trimmed(s)),
        tight(s) <==> trimmed(s) == s,
{
    lemma_trimmed_start(s);
    lemma_trimmed_end(trimmed_start(s));
    let a = trimmed_start(s);
    let t = trimmed(s);
    if t.len() > 0 {
        assert(t[0] == a[0]);
    }
    if s.len() == 0 || !space(s[0]) {
        assert(a == s);
    }
}

/// White space behind a text does not change its trimmed text.
pub proof fn lemma_pad_end(s: Seq<char>, pad: Seq<char>)
    requires
        all_space(pad),
    ensures
        trimmed_end(s + pad) == trimmed_end(s),
    decreases pad.len(),
{
    if pad.len() == 0 {
        assert(s + pad =~= s);
    } else {
        assert(space(pad.last()));
        assert((s + pad).drop_last() =~= s + pad.drop_last());
        assert forall|i: int| 0 <= i < pad.drop_last().len() implies space(
            #[trigger] pad.drop_last()[i],
        ) by {
            assert(space(pad[i]));
        }
        lemma_pad_end(s, pad.drop_last());
    }
}

/// White space before a text does not change its trimmed text.
pub proof fn lemma_pad_start(pad: Seq<char>, s: Seq<char>)
    requires
        all_space(pad),
    ensures
        trimmed_start(pad + s) == trimmed_start(s),
    decreases pad.len(),
{
    if pad.len() == 0 {
        assert(pad + s =~= s);
    } else {
        assert(space(pad[0]));
        assert((pad + s).skip(1) =~= pad.skip(1) + s);
        assert forall|i: int| 0 <= i < pad.skip(1).len() implies space(#[trigger] pad.skip(1)[i]) by {
            assert(space(pad[i + 1]));
        }
        lemma_pad_start(pad.skip(1), s);
    }
}

/// White space on either side of a tight text is trimmed away.
pub proof fn lemma_trim_pads(before: Seq<char>, s: Seq<char>, after: Seq<char>)
    requires
        all_space(before),
        all_space(after),
        tight(s),
    ensures
        trimmed(before + s + after) == s,
{
    assert(before + s + after =~= before + (s + after));
    lemma_pad_start(before, s + after);
    if s.len() == 0 {
        assert(s + after =~= after);
        lemma_pad_start(after, Seq::empty());
        assert(after + Seq::<char>::empty() =~= after);
        assert(trimmed_start(Seq::<char>::empty()) =~= Seq::empty());
        assert(s =~= Seq::empty());
    } else {
        assert((s + after)[0] == s[0]);
        lemma_pad_end(s, after);
    }
}

/// A text is blank exactly where it is white space throughout.
pub proof fn lemma_blank(s: Seq<char>)
    ensures
        blank(s) <==> all_space(s),
{
    lemma_blank_start(s);
    lemma_trimmed_start(s);
    let a = trimmed_start(s);
    if a.len() > 0 {
        lemma_kept_start(a);
    }
}

/// Nothing is left of a text without the white space at its beginning exactly
/// where it is white space throughout.
proof fn lemma_blank_start(s: Seq<char>)
    ensures
        trimmed_start(s).len() == 0 <==> all_space(s),
    decreases s.len(),
{
    if s.len() > 0 && space(s[0]) {
        let t = s.skip(1);
        lemma_blank_start(t);
        if all_space(t) {
            assert forall|i: int| 0 <= i < s.len() implies space(#[trigger] s[i]) by {
                if i > 0 {
                    assert(t[i - 1] == s[i]);
                }
            }
        }
        if all_space(s) {
            assert forall|i: int| 0 <= i < t.len() implies space(#[trigger] t[i]) by {
                assert(t[i] == s[i + 1]);
            }
        }
    }
}

/// A text that does not begin with white space is not lost where the white space
/// at its end is.
proof fn lemma_kept_start(s: Seq<char>)
    requires
        s.len() > 0,
        !space(s[0]),
    ensures
        trimmed_end(s).len() > 0,
    decreases s.len(),
{
    if space(s.last()) {
        assert(s.drop_last()[0] == s[0]);
        lemma_kept_start(s.drop_last());
    }
}

/// Trimming a trimmed text changes nothing.
pub proof fn law_trim_idempotent(s: Seq<char>)
    ensures
        trimmed(trimmed(s)) == trimmed(s),
{
    lemma_tight(s);
    lemma_tight(trimmed(s));
}

/// A text that was trimmed and written in ASCII lower case stays as it is when
/// that is done again, and holds no other kinds of characters than before.
pub proof fn law_ascii_lower_idempotent(s: Seq<char>)
    ensures
        ({
            let t = ascii_lower(trimmed(s));
            &&& trimmed(t) == t
            &&& ascii_lower(trimmed(t)) == t
            &&& plain(trimmed(s)) ==> plain(t)
            &&& all_ascii(trimmed(s)) ==> all_ascii(t)
        }),
{
    let a = trimmed(s);
    let t = ascii_lower(a);
    lemma_tight(s);
    assert forall|i: int| 0 <= i < a.len() implies space(#[trigger] t[i]) == space(a[i]) by {}
    if a.len() > 0 {
        assert(t[0] == ascii_lower_char(a[0]));
        assert(t.last() == ascii_lower_char(a.last()));
    }
    lemma_tight(t);
    assert(ascii_lower(t) =~= t);
    if plain(a) {
        assert forall|i: int| 0 <= i < t.len() implies (#[trigger] t[i] as u32) < 128 || 0xAC00
            <= (t[i] as u32) <= 0xD7A3 by {
            assert(t[i] == ascii_lower_char(a[i]));
        }
    }
    if all_ascii(a) {
        assert forall|i: int| 0 <= i < t.len() implies (#[trigger] t[i] as u32) < 128 by {
            assert(t[i] == ascii_lower_char(a[i]));
        }
    }
}

// ---------------------------------------------------------------------------
// Runs of a character
// ---------------------------------------------------------------------------

/// How many times a character stands at the start of a text.
pub open spec fn run_length(s: Seq<char>, c: char) -> nat
    decreases s.len(),
{
    if s.len() > 0 && s[0] == c {
        1 + run_length(s.skip(1), c)
    } else {
        0
    }
}

/// A text without the leading run of a character.
pub open spec fn without_leading(s: Seq<char>, c: char) -> Seq<char> {
    s.skip(run_length(s, c) as int)
}

/// A text without the trailing run of a character.
pub open spec fn without_trailing(s: Seq<char>, c: char) -> Seq<char>
    decreases s.len(),
{
    if s.len() > 0 && s.last() == c {
        without_trailing(s.drop_last(), c)
    } else {
        s
    }
}

/// How many times a character stands at the start of a text.
pub fn leading_run(v: &[char], c: char) -> (n: usize)
    ensures
        n == run_length(v@, c),
        n <= v@.len(),
{
    let mut n: usize = 0;
    proof {
        assert(v@.skip(0) =~= v@);
    }
    while n < v.len() && v[n] == c
        invariant
            n <= v.len(),
            n + run_length(v@.skip(n as int), c) == run_length(v@, c),
        decreases v.len() - n,
    {
        proof {
            assert(v@.skip(n as int).skip(1) =~= v@.skip(n + 1));
        }
        n = n + 1;
    }
    n
}

/// A text from character `n` on.
pub fn after<'a>(s: &'a str, n: usize) -> (r: &'a str)
    requires
        n <= s@.len(),
    ensures
        r@ == s@.skip(n as int),
{
    let v = chars_of(s);
    let r = slice(s, n, v.len());
    proof {
        assert(s@.subrange(n as int, s@.len() as int) =~= s@.skip(n as int));
    }
    r
}

/// A text without the leading run of a character.
pub fn trim_leading<'a>(s: &'a str, c: char) -> (r: &'a str)
    ensures
        r@ == without_leading(s@, c),
{
    let v = chars_of(s);
    let n = leading_run(&v, c);
    after(s, n)
}

/// A text without the trailing run of a character.
pub fn trim_trailing<'a>(s: &'a str, c: char) -> (r: &'a str)
    ensures
        r@ == without_trailing(s@, c),
{
    let v = chars_of(s);
    let mut n: usize = v.len();
    proof {
        assert(v@.take(v@.len() as int) =~= v@);
    }
    while n > 0 && v[n - 1] == c
        invariant
            n <= v.len(),
            without_trailing(v@.take(n as int), c) == without_trailing(v@, c),
        decreases n,
    {
        proof {
            assert(v@.take(n as int).drop_last() =~= v@.take(n - 1));
        }
        n = n - 1;
    }
    let r = slice(s, 0, n);
    proof {
        assert(s@.subrange(0, n as int) =~= s@.take(n as int));
    }
    r
}

/// Whether a character stands in a text.
pub fn holds(s: &str, c: char) -> (r: bool)
    ensures
        r == s@.contains(c),
{
    let v = chars_of(s);
    let mut i: usize = 0;
    while i < v.len()
        invariant
            i <= v.len(),
            v@ == s@,
            forall|k: int| 0 <= k < i ==> v@[k] != c,
        decreases v.len() - i,
    {
        if v[i] == c {
            assert(s@[i as int] == c);
            return true;
        }
        i = i + 1;
    }
    false
}

// ---------------------------------------------------------------------------
// Searching
// ---------------------------------------------------------------------------

/// Whether `pat` stands in `s` at position `i`.
pub open spec fn occurs_at(s: Seq<char>, pat: Seq<char>, i: int) -> bool {
    0 <= i && i + pat.len() <= s.len() && s.subrange(i, i + pat.len()) == pat
}

/// Whether `pat` stands somewhere in `s`.
pub open spec fn contains(s: Seq<char>, pat: Seq<char>) -> bool {
    exists|i: int| occurs_at(s, pat, i)
}

/// The first position from `i` on at which `pat` stands in `s`.
pub open spec fn find_from(s: Seq<char>, pat: Seq<char>, i: int) -> Option<int>
    decreases s.len() - i + 1,
{
    if i + pat.len() > s.len() {
        None
    } else if occurs_at(s, pat, i) {
        Some(i)
    } else {
        find_from(s, pat, i + 1)
    }
}

/// The first position at which `pat` stands in `s`.
pub open spec fn find(s: Seq<char>, pat: Seq<char>) -> Option<int> {
    find_from(s, pat, 0)
}

/// The last position up to `i` at which `pat` stands in `s`.
pub open spec fn rfind_from(s: Seq<char>, pat: Seq<char>, i: int) -> Option<int>
    decreases i + 1,
{
    if i < 0 {
        None
    } else if occurs_at(s, pat, i) {
        Some(i)
    } else {
        rfind_from(s, pat, i - 1)
    }
}

/// The last position at which `pat` stands in `s`.
pub open spec fn rfind(s: Seq<char>, pat: Seq<char>) -> Option<int> {
    rfind_from(s, pat, s.len() - pat.len())
}

/// `find_from` gives the first occurrence, and `None` only where there is none.
pub proof fn lemma_find_from(s: Seq<char>, pat: Seq<char>, i: int)
    requires
        0 <= i,
    ensures
        match find_from(s, pat, i) {
            Some(k) => i <= k && occurs_at(s, pat, k) && forall|j: int|
                i <= j < k ==> !occurs_at(s, pat, j),
            None => forall|j: int| i <= j ==> !occurs_at(s, pat, j),
        },
    decreases s.len() - i + 1,
{
    if i + pat.len() > s.len() {
    } else if occurs_at(s, pat, i) {
    } else {
        lemma_find_from(s, pat, i + 1);
    }
}

/// A text contains a pattern exactly when a first occurrence is found.
pub proof fn lemma_contains_find(s: Seq<char>, pat: Seq<char>)
    ensures
        contains(s, pat) <==> find(s, pat) is Some,
{
    lemma_find_from(s, pat, 0);
}

/// `rfind_from` gives the last occurrence, and `None` only where there is none.
pub proof fn lemma_rfind_from(s: Seq<char>, pat: Seq<char>, i: int)
    ensures
        match rfind_from(s, pat, i) {
            Some(k) => k <= i && occurs_at(s, pat, k) && forall|j: int|
                k < j <= i ==> !occurs_at(s, pat, j),
            None => forall|j: int| j <= i ==> !occurs_at(s, pat, j),
        },
    decreases i + 1,
{
    if i < 0 {
    } else if occurs_at(s, pat, i) {
    } else {
        lemma_rfind_from(s, pat, i - 1);
    }
}

/// Whether `pat` stands in `s` at position `i`.
pub fn stands_at(s: &[char], pat: &[char], i: usize) -> (r: bool)
    ensures
        r == occurs_at(s@, pat@, i as int),
{
    if pat.len() > s.len() || i > s.len() - pat.len() {
        return false;
    }
    let mut k: usize = 0;
    while k < pat.len()
        invariant
            k <= pat.len(),
            i + pat.len() <= s.len(),
            forall|j: int| 0 <= j < k ==> s@[i + j] == pat@[j],
        decreases pat.len() - k,
    {
        if s[i + k] != pat[k] {
            proof {
                assert(s@.subrange(i as int, i + pat@.len())[k as int] != pat@[k as int]);
            }
            return false;
        }
        k = k + 1;
    }
    proof {
        assert(s@.subrange(i as int, i + pat@.len()) =~= pat@);
    }
    true
}

/// The first position from `from` on at which `pat` stands in `s`.
pub fn search(s: &[char], pat: &[char], from: usize) -> (r: Option<usize>)
    ensures
        (match r {
            Some(i) => Some(i as int),
            None => None,
        }) == find_from(s@, pat@, from as int),
        r matches Some(i) ==> from <= i && i + pat@.len() <= s@.len(),
{
    let mut i: usize = from;
    while pat.len() <= s.len() && i <= s.len() - pat.len()
        invariant
            from <= i,
            find_from(s@, pat@, i as int) == find_from(s@, pat@, from as int),
        decreases s.len() - i,
    {
        if stands_at(s, pat, i) {
            return Some(i);
        }
        if i == s.len() {
            proof {
                assert(find_from(s@, pat@, i + 1) is None);
            }
            return None;
        }
        i = i + 1;
    }
    None
}

/// The last position at which `pat` stands in `s`.
pub fn search_last(s: &[char], pat: &[char]) -> (r: Option<usize>)
    ensures
        (match r {
            Some(i) => Some(i as int),
            None => None,
        }) == rfind(s@, pat@),
        r matches Some(i) ==> i + pat@.len() <= s@.len(),
{
    if pat.len() > s.len() {
        return None;
    }
    let mut i: usize = s.len() - pat.len();
    loop
        invariant
            i <= s.len() - pat.len(),
            rfind_from(s@, pat@, i as int) == rfind(s@, pat@),
        decreases i,
    {
        if stands_at(s, pat, i) {
            return Some(i);
        }
        if i == 0 {
            proof {
                assert(rfind_from(s@, pat@, -1int) is None);
            }
            return None;
        }
        i = i - 1;
    }
}

/// Whether a text contains a pattern.
pub fn has(s: &str, pat: &str) -> (r: bool)
    ensures
        r == contains(s@, pat@),
{
    let v = chars_of(s);
    let p = chars_of(pat);
    proof {
        lemma_contains_find(s@, pat@);
    }
    search(&v, &p, 0).is_some()
}

/// The first position at which a pattern stands in a text.
pub fn find_first(s: &str, pat: &str) -> (r: Option<usize>)
    ensures
        (match r {
            Some(i) => Some(i as int),
            None => None,
        }) == find(s@, pat@),
        r matches Some(i) ==> i + pat@.len() <= s@.len(),
{
    let v = chars_of(s);
    let p = chars_of(pat);
    search(&v, &p, 0)
}

/// Whether a text begins with a pattern.
pub fn starts_with(s: &str, pat: &str) -> (r: bool)
    ensures
        r == pat@.is_prefix_of(s@),
{
    let v = chars_of(s);
    let p = chars_of(pat);
    stands_at(&v, &p, 0)
}

/// Whether a text ends with a pattern.
pub fn ends_with(s: &str, pat: &str) -> (r: bool)
    ensures
        r == pat@.is_suffix_of(s@),
{
    let v = chars_of(s);
    let p = chars_of(pat);
    if p.len() > v.len() {
        return false;
    }
    let r = stands_at(&v, &p, v.len() - p.len());
    proof {
        let k = v@.len() - p@.len();
        assert(v@.subrange(k as int, v@.len() as int) =~= v@.skip(k as int));
    }
    r
}

/// What follows a prefix, where the text begins with it.
pub open spec fn after_prefix(s: Seq<char>, pre: Seq<char>) -> Option<Seq<char>> {
    if pre.is_prefix_of(s) {
        Some(s.skip(pre.len() as int))
    } else {
        None
    }
}

/// What follows a prefix, where the text begins with it.
pub fn strip_prefix<'a>(s: &'a str, pre: &str) -> (r: Option<&'a str>)
    ensures
        (match r {
            Some(t) => Some(t@),
            None => None,
        }) == after_prefix(s@, pre@),
{
    if starts_with(s, pre) {
        let n: usize = pre.unicode_len();
        let m: usize = s.unicode_len();
        let t = slice(s, n, m);
        proof {
            assert(s@.subrange(n as int, m as int) =~= s@.skip(n as int));
        }
        Some(t)
    } else {
        None
    }
}

/// The two sides of the first occurrence of a character.
pub open spec fn around_first(s: Seq<char>, c: char) -> Option<(Seq<char>, Seq<char>)> {
    match find(s, seq![c]) {
        Some(i) => Some((s.take(i), s.skip(i + 1))),
        None => None,
    }
}

/// The two sides of the first occurrence of a character.
pub fn split_once<'a>(s: &'a str, c: char) -> (r: Option<(&'a str, &'a str)>)
    ensures
        (match r {
            Some(p) => Some((p.0@, p.1@)),
            None => None,
        }) == around_first(s@, c),
{
    let v = chars_of(s);
    let mut p: Vec<char> = Vec::new();
    p.push(c);
    proof {
        assert(p@ =~= seq![c]);
    }
    match search(&v, &p, 0) {
        Some(i) => {
            let n: usize = v.len();
            let a = slice(s, 0, i);
            let b = slice(s, i + 1, n);
            proof {
                assert(s@.subrange(0, i as int) =~= s@.take(i as int));
                assert(s@.subrange(i + 1, s@.len() as int) =~= s@.skip(i + 1));
            }
            Some((a, b))
        },
        None => None,
    }
}

// ---------------------------------------------------------------------------
// Replacing and counting
// ---------------------------------------------------------------------------

/// `s` with every occurrence of `pat`, taken from the left without overlap,
/// replaced by `with`.
pub open spec fn replaced(s: Seq<char>, pat: Seq<char>, with: Seq<char>) -> Seq<char>
    recommends
        pat.len() > 0,
    decreases s.len(),
    when pat.len() > 0
{
    match find(s, pat) {
        Some(i) if 0 <= i && i + pat.len() <= s.len() => s.take(i) + with + replaced(
            s.skip(i + pat.len()),
            pat,
            with,
        ),
        _ => s,
    }
}

/// The number of occurrences of `pat` in `s`, taken from the left without overlap.
pub open spec fn occurrences(s: Seq<char>, pat: Seq<char>) -> nat
    recommends
        pat.len() > 0,
    decreases s.len(),
    when pat.len() > 0
{
    match find(s, pat) {
        Some(i) if 0 <= i && i + pat.len() <= s.len() => 1 + occurrences(
            s.skip(i + pat.len()),
            pat,
        ),
        _ => 0,
    }
}

/// `s` with the first occurrence of `pat` replaced by `with`.
pub open spec fn replaced_first(s: Seq<char>, pat: Seq<char>, with: Seq<char>) -> Seq<char> {
    match find(s, pat) {
        Some(i) => s.take(i) + with + s.skip(i + pat.len()),
        None => s,
    }
}

/// Searching behind a position is searching in what follows it.
pub proof fn lemma_find_shift(s: Seq<char>, pat: Seq<char>, base: int, i: int)
    requires
        0 <= base <= i,
        base <= s.len(),
    ensures
        find_from(s, pat, i) == (match find_from(s.skip(base), pat, i - base) {
            Some(k) => Some(k + base),
            None => None,
        }),
    decreases s.len() - i + 1,
{
    let t = s.skip(base);
    if i + pat.len() > s.len() {
    } else {
        assert(s.subrange(i, i + pat.len()) =~= t.subrange(i - base, i - base + pat.len()));
        if !occurs_at(s, pat, i) {
            lemma_find_shift(s, pat, base, i + 1);
        }
    }
}

/// Replaces every occurrence of a pattern.
pub fn replace(s: &str, pat: &str, with: &str) -> (r: String)
    requires
        pat@.len() > 0,
    ensures
        r@ == replaced(s@, pat@, with@),
{
    let v = chars_of(s);
    let p = chars_of(pat);
    let mut out = String::new();
    let mut pos: usize = 0;
    proof {
        assert(v@.skip(0) =~= v@);
        assert(Seq::<char>::empty() + replaced(s@, pat@, with@) =~= replaced(s@, pat@, with@));
    }
    loop
        invariant
            v@ == s@,
            p@ == pat@,
            p@.len() > 0,
            pos <= v.len(),
            out@ + replaced(v@.skip(pos as int), pat@, with@) == replaced(s@, pat@, with@),
        decreases v@.len() - pos,
    {
        let ghost rest = v@.skip(pos as int);
        proof {
            lemma_find_shift(v@, p@, pos as int, pos as int);
            lemma_find_from(rest, p@, 0);
        }
        match search(&v, &p, pos) {
            Some(i) => {
                let ghost before = out@;
                push_chars(&mut out, &v[pos..i]);
                out.append(with);
                proof {
                    let k = i - pos;
                    assert(v@.subrange(pos as int, i as int) =~= rest.take(k));
                    assert(rest.skip(k + p@.len()) =~= v@.skip(i + p@.len()));
                    assert(out@ + replaced(v@.skip(i + p@.len()), pat@, with@) =~= before + (
                    rest.take(k) + with@ + replaced(rest.skip(k + p@.len()), pat@, with@)));
                }
                pos = i + p.len();
            },
            None => {
                push_chars(&mut out, &v[pos..v.len()]);
                proof {
                    assert(v@.subrange(pos as int, v@.len() as int) =~= rest);
                }
                return out;
            },
        }
    }
}

/// Replaces the first occurrence of a pattern.
pub fn replace_first(s: &str, pat: &str, with: &str) -> (r: String)
    ensures
        r@ == replaced_first(s@, pat@, with@),
{
    let v = chars_of(s);
    let p = chars_of(pat);
    match search(&v, &p, 0) {
        Some(i) => {
            let mut out = String::new();
            push_chars(&mut out, &v[0..i]);
            out.append(with);
            let n: usize = v.len();
            push_chars(&mut out, &v[i + p.len()..n]);
            proof {
                assert(v@.subrange(0, i as int) =~= s@.take(i as int));
                assert(v@.subrange(i + p@.len(), v@.len() as int) =~= s@.skip(i + p@.len()));
                assert(out@ =~= replaced_first(s@, pat@, with@));
            }
            out
        },
        None => s.to_string(),
    }
}

/// There are no more occurrences than characters.
pub proof fn lemma_occurrences_bound(s: Seq<char>, pat: Seq<char>)
    requires
        pat.len() > 0,
    ensures
        occurrences(s, pat) <= s.len(),
    decreases s.len(),
{
    match find(s, pat) {
        Some(i) if 0 <= i && i + pat.len() <= s.len() => {
            lemma_occurrences_bound(s.skip(i + pat.len()), pat);
        },
        _ => {},
    }
}

/// Counts the occurrences of a pattern.
pub fn count(s: &str, pat: &str) -> (r: usize)
    requires
        pat@.len() > 0,
    ensures
        r == occurrences(s@, pat@),
{
    let v = chars_of(s);
    let p = chars_of(pat);
    let mut n: usize = 0;
    let mut pos: usize = 0;
    proof {
        assert(v@.skip(0) =~= v@);
        lemma_occurrences_bound(s@, pat@);
    }
    loop
        invariant
            v@ == s@,
            p@ == pat@,
            p@.len() > 0,
            pos <= v.len(),
            occurrences(s@, pat@) <= v.len(),
            n + occurrences(v@.skip(pos as int), pat@) == occurrences(s@, pat@),
        decreases v@.len() - pos,
    {
        let ghost rest = v@.skip(pos as int);
        proof {
            lemma_find_shift(v@, p@, pos as int, pos as int);
            lemma_find_from(rest, p@, 0);
        }
        match search(&v, &p, pos) {
            Some(i) => {
                proof {
                    let k = i - pos;
                    assert(rest.skip(k + p@.len()) =~= v@.skip(i + p@.len()));
                }
                n = n + 1;
                pos = i + p.len();
            },
            None => {
                return n;
            },
        }
    }
}

// ---------------------------------------------------------------------------
// Splitting and joining
// ---------------------------------------------------------------------------

/// A line without the carriage return before its line feed.
pub open spec fn without_cr(s: Seq<char>) -> Seq<char> {
    if s.len() > 0 && s.last() == '\r' {
        s.drop_last()
    } else {
        s
    }
}

/// The lines of a text: a line ends with a line feed, or with a carriage
/// return and a line feed, which do not belong to it; the last line may end
/// with the text.
pub open spec fn lines_of(s: Seq<char>) -> Seq<Seq<char>>
    decreases s.len(),
{
    if s.len() == 0 {
        Seq::empty()
    } else {
        match find(s, seq!['\n']) {
            Some(i) if 0 <= i < s.len() => seq![without_cr(s.take(i))] + lines_of(s.skip(i + 1)),
            _ => seq![s],
        }
    }
}

/// The parts of a text between the occurrences of a character.
pub open spec fn split_on(s: Seq<char>, c: char) -> Seq<Seq<char>>
    decreases s.len(),
{
    match find(s, seq![c]) {
        Some(i) if 0 <= i < s.len() => seq![s.take(i)] + split_on(s.skip(i + 1), c),
        _ => seq![s],
    }
}

/// The first character from `i` on that is white space, or the end.
pub open spec fn word_end(s: Seq<char>, i: int) -> int
    decreases s.len() - i,
{
    if i < s.len() && !space(s[i]) {
        word_end(s, i + 1)
    } else {
        i
    }
}

/// A word ends behind its start and within the text.
pub proof fn lemma_word_end(s: Seq<char>, i: int)
    requires
        0 <= i <= s.len(),
    ensures
        i <= word_end(s, i) <= s.len(),
        i < s.len() && !space(s[i]) ==> i < word_end(s, i),
    decreases s.len() - i,
{
    if i < s.len() && !space(s[i]) {
        lemma_word_end(s, i + 1);
    }
}

/// The words of a text, which white space separates.
pub open spec fn words_of(s: Seq<char>) -> Seq<Seq<char>>
    decreases s.len(),
{
    if s.len() == 0 {
        Seq::empty()
    } else if space(s[0]) {
        words_of(s.skip(1))
    } else {
        let e = word_end(s, 0);
        if 0 < e <= s.len() {
            seq![s.take(e)] + words_of(s.skip(e))
        } else {
            Seq::empty()
        }
    }
}

/// The parts with a separator between them.
pub open spec fn joined(parts: Seq<Seq<char>>, sep: Seq<char>) -> Seq<char>
    decreases parts.len(),
{
    if parts.len() == 0 {
        Seq::empty()
    } else if parts.len() == 1 {
        parts[0]
    } else {
        joined(parts.drop_last(), sep) + sep + parts.last()
    }
}

/// The lines of a text.
pub fn lines(s: &str) -> (r: Vec<String>)
    ensures
        views(r@) == lines_of(s@),
{
    let v = chars_of(s);
    let nl: [char; 1] = ['\n'];
    let mut out: Vec<String> = Vec::new();
    let mut pos: usize = 0;
    proof {
        assert(nl@ =~= seq!['\n']);
        assert(v@.skip(0) =~= v@);
        assert(views(out@) + lines_of(s@) =~= lines_of(s@));
    }
    while pos < v.len()
        invariant
            v@ == s@,
            nl@ == seq!['\n'],
            pos <= v.len(),
            views(out@) + lines_of(v@.skip(pos as int)) == lines_of(s@),
        decreases v.len() - pos,
    {
        let ghost rest = v@.skip(pos as int);
        let ghost before = views(out@);
        proof {
            lemma_find_shift(v@, nl@, pos as int, pos as int);
            lemma_find_from(rest, nl@, 0);
        }
        match search(&v, &nl, pos) {
            Some(i) => {
                let ghost k = i - pos;
                let mut end: usize = i;
                if i > pos && v[i - 1] == '\r' {
                    end = i - 1;
                }
                let line = string_of(&v[pos..end]);
                proof {
                    assert(rest.take(k) =~= v@.subrange(pos as int, i as int));
                    assert(without_cr(rest.take(k)) =~= v@.subrange(pos as int, end as int));
                    assert(rest.skip(k + 1) =~= v@.skip(i + 1));
                }
                out.push(line);
                pos = i + 1;
                proof {
                    assert(views(out@) =~= before.push(line@));
                    assert(views(out@) + lines_of(v@.skip(pos as int)) =~= before + (seq![
                        line@,
                    ] + lines_of(v@.skip(pos as int))));
                }
            },
            None => {
                let line = string_of(&v[pos..v.len()]);
                proof {
                    assert(v@.subrange(pos as int, v@.len() as int) =~= rest);
                }
                out.push(line);
                pos = v.len();
                proof {
                    assert(views(out@) =~= before.push(line@));
                    assert(v@.skip(pos as int).len() == 0);
                    assert(views(out@) + lines_of(v@.skip(pos as int)) =~= before + seq![line@]);
                }
            },
        }
    }
    proof {
        assert(v@.skip(pos as int).len() == 0);
        assert(views(out@) + lines_of(v@.skip(pos as int)) =~= views(out@));
    }
    out
}

/// The parts of a text between the occurrences of a character.
pub fn split(s: &str, c: char) -> (r: Vec<String>)
    ensures
        views(r@) == split_on(s@, c),
{
    let v = chars_of(s);
    let sep: [char; 1] = [c];
    let mut out: Vec<String> = Vec::new();
    let mut pos: usize = 0;
    proof {
        assert(sep@ =~= seq![c]);
        assert(v@.skip(0) =~= v@);
        assert(views(out@) + split_on(s@, c) =~= split_on(s@, c));
    }
    loop
        invariant
            v@ == s@,
            sep@ == seq![c],
            pos <= v.len(),
            views(out@) + split_on(v@.skip(pos as int), c) == split_on(s@, c),
        decreases v.len() - pos,
    {
        let ghost rest = v@.skip(pos as int);
        let ghost before = views(out@);
        proof {
            lemma_find_shift(v@, sep@, pos as int, pos as int);
            lemma_find_from(rest, sep@, 0);
        }
        match search(&v, &sep, pos) {
            Some(i) => {
                let part = string_of(&v[pos..i]);
                proof {
                    assert(rest.take(i - pos) =~= v@.subrange(pos as int, i as int));
                    assert(rest.skip(i - pos + 1) =~= v@.skip(i + 1));
                }
                out.push(part);
                pos = i + 1;
                proof {
                    assert(views(out@) =~= before.push(part@));
                    assert(views(out@) + split_on(v@.skip(pos as int), c) =~= before + (seq![
                        part@,
                    ] + split_on(v@.skip(pos as int), c)));
                }
            },
            None => {
                let part = string_of(&v[pos..v.len()]);
                proof {
                    assert(v@.subrange(pos as int, v@.len() as int) =~= rest);
                }
                out.push(part);
                proof {
                    assert(views(out@) =~= before.push(part@));
                    assert(views(out@) =~= before + seq![part@]);
                }
                return out;
            },
        }
    }
}

/// The words of a text.
pub fn words(s: &str) -> (r: Vec<String>)
    ensures
        views(r@) == words_of(s@),
{
    let v = chars_of(s);
    let mut out: Vec<String> = Vec::new();
    let mut pos: usize = 0;
    proof {
        assert(v@.skip(0) =~= v@);
        assert(views(out@) + words_of(s@) =~= words_of(s@));
    }
    while pos < v.len()
        invariant
            v@ == s@,
            pos <= v.len(),
            views(out@) + words_of(v@.skip(pos as int)) == words_of(s@),
        decreases v.len() - pos,
    {
        let ghost rest = v@.skip(pos as int);
        let ghost before = views(out@);
        if is_space(v[pos]) {
            proof {
                assert(rest.skip(1) =~= v@.skip(pos + 1));
            }
            pos = pos + 1;
        } else {
            let start: usize = pos;
            while pos < v.len() && !is_space(v[pos])
                invariant
                    start <= pos <= v.len(),
                    rest == v@.skip(start as int),
                    word_end(rest, pos - start) == word_end(rest, 0),
                decreases v.len() - pos,
            {
                pos = pos + 1;
            }
            let word = string_of(&v[start..pos]);
            proof {
                lemma_word_end(rest, 0);
                assert(rest.take(pos - start) =~= v@.subrange(start as int, pos as int));
                assert(rest.skip(pos - start) =~= v@.skip(pos as int));
            }
            out.push(word);
            proof {
                assert(views(out@) =~= before.push(word@));
                assert(views(out@) + words_of(v@.skip(pos as int)) =~= before + (seq![word@]
                    + words_of(v@.skip(pos as int))));
            }
        }
    }
    proof {
        assert(v@.skip(pos as int).len() == 0);
        assert(views(out@) + words_of(v@.skip(pos as int)) =~= views(out@));
    }
    out
}

/// Joins parts with a separator.
pub fn join(parts: &[String], sep: &str) -> (r: String)
    ensures
        r@ == joined(views(parts@), sep@),
{
    let mut out = String::new();
    let mut i: usize = 0;
    let ghost all = views(parts@);
    proof {
        assert(all.take(0) =~= Seq::empty());
    }
    while i < parts.len()
        invariant
            i <= parts.len(),
            all == views(parts@),
            out@ == joined(all.take(i as int), sep@),
        decreases parts.len() - i,
    {
        if i > 0 {
            out.append(sep);
        }
        out.append(parts[i].as_str());
        proof {
            assert(all.take(i + 1).drop_last() =~= all.take(i as int));
            assert(all.take(i + 1).last() == parts@[i as int]@);
            if i == 0 {
                assert(out@ =~= parts@[0]@);
            }
        }
        i = i + 1;
    }
    proof {
        assert(all.take(i as int) =~= all);
    }
    out
}

// ---------------------------------------------------------------------------
// Prefixes by length
// ---------------------------------------------------------------------------

/// The number of bytes of a character in UTF-8.
pub open spec fn char_bytes(c: char) -> nat {
    let u = c as u32;
    if u < 0x80 {
        1
    } else if u < 0x800 {
        2
    } else if u < 0x10000 {
        3
    } else {
        4
    }
}

/// The number of bytes of a character in UTF-8.
fn size_of_char(c: char) -> (r: usize)
    ensures
        r == char_bytes(c),
{
    let u: u32 = c as u32;
    if u < 0x80 {
        1
    } else if u < 0x800 {
        2
    } else if u < 0x10000 {
        3
    } else {
        4
    }
}

/// The number of bytes of a text in UTF-8.
pub open spec fn text_bytes(s: Seq<char>) -> nat
    decreases s.len(),
{
    if s.len() == 0 {
        0
    } else {
        text_bytes(s.drop_last()) + char_bytes(s.last())
    }
}

/// The longest beginning of a text, of whole characters, that takes at most
/// `max` bytes.
pub open spec fn within(s: Seq<char>, max: nat) -> Seq<char>
    decreases s.len(),
{
    if s.len() == 0 || text_bytes(s) <= max {
        s
    } else {
        within(s.drop_last(), max)
    }
}

/// The beginning within a number of bytes is a beginning of the text that takes
/// no more bytes.
pub proof fn lemma_within(s: Seq<char>, max: nat)
    ensures
        within(s, max).is_prefix_of(s),
        text_bytes(within(s, max)) <= max,
    decreases s.len(),
{
    if s.len() > 0 && text_bytes(s) > max {
        lemma_within(s.drop_last(), max);
    }
}

/// A text whose beginning with one more character is too long keeps no more than
/// that beginning.
proof fn lemma_within_stops(s: Seq<char>, max: nat, n: int)
    requires
        0 <= n < s.len(),
        text_bytes(s.take(n)) <= max,
        text_bytes(s.take(n + 1)) > max,
    ensures
        within(s, max) == s.take(n),
    decreases s.len(),
{
    let k = s.len() as int;
    lemma_bytes_grow(s, n + 1, k);
    assert(s.take(k) =~= s);
    let shorter = s.drop_last();
    assert(shorter.take(n) =~= s.take(n));
    if n + 1 < k {
        assert(shorter.take(n + 1) =~= s.take(n + 1));
        lemma_within_stops(shorter, max, n);
    } else {
        assert(shorter =~= s.take(n));
        assert(within(shorter, max) == shorter);
    }
}

/// A longer beginning of a text has at least as many bytes.
proof fn lemma_bytes_grow(s: Seq<char>, a: int, b: int)
    requires
        0 <= a <= b <= s.len(),
    ensures
        text_bytes(s.take(a)) <= text_bytes(s.take(b)),
    decreases b - a,
{
    if a < b {
        lemma_bytes_grow(s, a, b - 1);
        assert(s.take(b).drop_last() =~= s.take(b - 1));
    }
}

/// How many whole characters from the start of a text fit into `max` bytes.
pub fn chars_within(s: &str, max: usize) -> (n: usize)
    ensures
        n == within(s@, max as nat).len(),
        n <= s@.len(),
        s@.take(n as int) == within(s@, max as nat),
{
    let v = chars_of(s);
    let mut n: usize = 0;
    let mut bytes: usize = 0;
    proof {
        assert(v@.take(0) =~= Seq::empty());
    }
    while n < v.len()
        invariant
            n <= v.len(),
            v@ == s@,
            bytes == text_bytes(v@.take(n as int)),
            bytes <= max,
        decreases v.len() - n,
    {
        let size: usize = size_of_char(v[n]);
        proof {
            assert(v@.take(n + 1).drop_last() =~= v@.take(n as int));
        }
        if size > max - bytes {
            proof {
                lemma_within_stops(s@, max as nat, n as int);
            }
            return n;
        }
        bytes = bytes + size;
        n = n + 1;
    }
    proof {
        assert(v@.take(n as int) =~= s@);
    }
    n
}

/// The longest beginning of a text, of whole characters, that takes at most
/// `max` bytes.
pub fn take_within<'a>(s: &'a str, max: usize) -> (r: &'a str)
    ensures
        r@ == within(s@, max as nat),
{
    let n = chars_within(s, max);
    let r = slice(s, 0, n);
    proof {
        assert(s@.subrange(0, n as int) =~= s@.take(n as int));
    }
    r
}

/// The longest end of a text, of whole characters, that takes at most `max`
/// bytes.
pub open spec fn tail_within(s: Seq<char>, max: nat) -> Seq<char>
    decreases s.len(),
{
    if s.len() == 0 || char_bytes(s.last()) > max {
        Seq::empty()
    } else {
        tail_within(s.drop_last(), (max - char_bytes(s.last())) as nat).push(s.last())
    }
}

/// The longest end of a text, of whole characters, that takes at most `max`
/// bytes.
pub fn take_tail_within<'a>(s: &'a str, max: usize) -> (r: &'a str)
    ensures
        r@ == tail_within(s@, max as nat),
{
    let v = chars_of(s);
    let mut n: usize = v.len();
    let mut left: usize = max;
    proof {
        assert(s@.take(n as int) =~= s@);
        assert(tail_within(s@, max as nat) + s@.skip(n as int) =~= tail_within(s@, max as nat));
    }
    while n > 0
        invariant
            n <= v.len(),
            v@ == s@,
            tail_within(s@, max as nat) == tail_within(s@.take(n as int), left as nat) + s@.skip(
                n as int,
            ),
        decreases n,
    {
        let size: usize = size_of_char(v[n - 1]);
        proof {
            assert(s@.take(n as int).last() == s@[n - 1]);
            assert(s@.take(n as int).drop_last() =~= s@.take(n - 1));
        }
        if size > left {
            proof {
                assert(Seq::empty() + s@.skip(n as int) =~= s@.skip(n as int));
            }
            return after(s, n);
        }
        proof {
            let rest = tail_within(s@.take(n - 1), (left - size) as nat);
            assert(rest.push(s@[n - 1]) + s@.skip(n as int) =~= rest + s@.skip(n - 1));
        }
        left = left - size;
        n = n - 1;
    }
    proof {
        assert(tail_within(s@.take(0), left as nat) + s@.skip(0) =~= s@);
    }
    s
}

/// A text with spaces behind it up to `n` characters.
pub open spec fn padded_right(s: Seq<char>, n: nat) -> Seq<char> {
    s + Seq::new(
        if s.len() < n {
            (n - s.len()) as nat
        } else {
            0
        },
        |i: int| ' ',
    )
}

/// A text with spaces behind it up to `n` characters.
pub fn pad_right(s: &str, n: usize) -> (r: String)
    ensures
        r@ == padded_right(s@, n as nat),
{
    let v = chars_of(s);
    let mut out = s.to_string();
    let mut len: usize = v.len();
    let ghost start = len;
    while len < n
        invariant
            start == s@.len(),
            start <= len,
            len <= n || len == start,
            out@ =~= s@ + Seq::new((len - start) as nat, |i: int| ' '),
        decreases n - len,
    {
        out.push(' ');
        len = len + 1;
    }
    out
}


/// The first `n` characters of a text, or all of it where it is shorter.
pub open spec fn first_chars(s: Seq<char>, n: nat) -> Seq<char> {
    if s.len() <= n {
        s
    } else {
        s.take(n as int)
    }
}

/// The first `n` characters of a text.
pub fn take_chars<'a>(s: &'a str, n: usize) -> (r: &'a str)
    ensures
        r@ == first_chars(s@, n as nat),
{
    let len: usize = s.unicode_len();
    if len <= n {
        s
    } else {
        let r = slice(s, 0, n);
        proof {
            assert(s@.subrange(0, n as int) =~= s@.take(n as int));
        }
        r
    }
}

// ---------------------------------------------------------------------------
// Decimal numbers
// ---------------------------------------------------------------------------

/// The character of a decimal digit.
pub open spec fn digit(d: int) -> char {
    (48 + d) as char
}

/// A number in decimal, without leading zeros.
pub open spec fn decimal(n: nat) -> Seq<char>
    decreases n,
{
    if n < 10 {
        seq![digit(n as int)]
    } else {
        decimal(n / 10).push(digit((n % 10) as int))
    }
}

/// An integer in decimal, with a minus sign where it is negative.
pub open spec fn signed_decimal(n: int) -> Seq<char> {
    if n < 0 {
        seq!['-'] + decimal((-n) as nat)
    } else {
        decimal(n as nat)
    }
}

/// Appends a number in decimal.
pub fn push_decimal(out: &mut String, n: u64)
    ensures
        final(out)@ == old(out)@ + decimal(n as nat),
    decreases n,
{
    let ghost start = out@;
    if n >= 10 {
        push_decimal(out, n / 10);
    }
    let d: u8 = (n % 10) as u8;
    let c: char = (48 + d) as char;
    out.push(c);
    proof {
        assert(c == digit((n % 10) as int));
        assert(out@ =~= start + decimal(n as nat));
    }
}

/// A number in decimal.
pub fn show(n: u64) -> (r: String)
    ensures
        r@ == decimal(n as nat),
{
    let mut out = String::new();
    push_decimal(&mut out, n);
    proof {
        assert(out@ =~= decimal(n as nat));
    }
    out
}

/// A signed number in decimal.
pub fn show_signed(n: i64) -> (r: String)
    ensures
        r@ == signed_decimal(n as int),
{
    let mut out = String::new();
    if n < 0 {
        out.push('-');
        let m: u64 = (-(n as i128)) as u64;
        push_decimal(&mut out, m);
    } else {
        push_decimal(&mut out, n as u64);
    }
    proof {
        assert(out@ =~= signed_decimal(n as int));
    }
    out
}

/// Whether a character is an ASCII digit.
pub open spec fn is_digit(c: char) -> bool {
    '0' <= c <= '9'
}

/// The number that a sequence of digits writes in decimal.
pub open spec fn digits_value(s: Seq<char>) -> nat
    decreases s.len(),
{
    if s.len() == 0 {
        0
    } else {
        (digits_value(s.drop_last()) * 10 + (s.last() as int - 48)) as nat
    }
}

/// Whether a text is one digit or more and nothing else.
pub open spec fn all_digits(s: Seq<char>) -> bool {
    s.len() > 0 && forall|i: int| 0 <= i < s.len() ==> is_digit(#[trigger] s[i])
}

/// The number that a text writes in decimal, where it is made of digits, with
/// an optional plus sign before them, and the number is at most `max`.
pub open spec fn parsed_number(s: Seq<char>, max: nat) -> Option<nat> {
    let body = if s.len() > 0 && s[0] == '+' {
        s.skip(1)
    } else {
        s
    };
    if all_digits(body) && digits_value(body) <= max {
        Some(digits_value(body))
    } else {
        None
    }
}

/// A prefix of digits writes no larger a number.
pub proof fn lemma_digits_monotone(s: Seq<char>, i: int)
    requires
        0 <= i <= s.len(),
        forall|k: int| 0 <= k < s.len() ==> is_digit(#[trigger] s[k]),
    ensures
        digits_value(s.take(i)) <= digits_value(s),
    decreases s.len() - i,
{
    if i == s.len() {
        assert(s.take(i) =~= s);
    } else {
        lemma_digits_monotone(s, i + 1);
        assert(s.take(i + 1).drop_last() =~= s.take(i));
        assert(is_digit(s[i]));
    }
}

/// Reads digits as a number of at most `max`.
pub fn parse_digits(v: &[char], max: u64) -> (r: Option<u64>)
    ensures
        match r {
            Some(n) => all_digits(v@) && n == digits_value(v@) && n <= max,
            None => !(all_digits(v@) && digits_value(v@) <= max),
        },
{
    if v.len() == 0 {
        return None;
    }
    let mut n: u64 = 0;
    let mut i: usize = 0;
    while i < v.len()
        invariant
            i <= v.len(),
            n <= max,
            n == digits_value(v@.take(i as int)),
            forall|k: int| 0 <= k < i ==> is_digit(#[trigger] v@[k]),
        decreases v.len() - i,
    {
        let c = v[i];
        if !('0' <= c && c <= '9') {
            proof {
                assert(!is_digit(v@[i as int]));
            }
            return None;
        }
        let d: u64 = (c as u32 - 48) as u64;
        proof {
            assert(v@.take(i + 1).drop_last() =~= v@.take(i as int));
            assert(digits_value(v@.take(i + 1)) == n * 10 + d);
        }
        let m: u128 = (n as u128) * 10 + (d as u128);
        if m > max as u128 {
            proof {
                if all_digits(v@) {
                    lemma_digits_monotone(v@, i + 1);
                }
            }
            return None;
        }
        n = m as u64;
        i = i + 1;
    }
    proof {
        assert(v@.take(i as int) =~= v@);
    }
    Some(n)
}

/// Reads a number of at most `max`.
pub fn parse_number(s: &str, max: u64) -> (r: Option<u64>)
    ensures
        (match r {
            Some(n) => Some(n as nat),
            None => None,
        }) == parsed_number(s@, max as nat),
        r matches Some(n) ==> n <= max,
{
    let v = chars_of(s);
    if v.len() > 0 && v[0] == '+' {
        let n: usize = v.len();
        proof {
            assert(v@.subrange(1, n as int) =~= s@.skip(1));
        }
        parse_digits(&v[1..n], max)
    } else {
        parse_digits(&v, max)
    }
}

/// The integer that a text writes in decimal: digits with an optional sign,
/// within the range of 64 bits.
pub open spec fn parsed_integer(s: Seq<char>) -> Option<int> {
    if s.len() > 0 && s[0] == '-' {
        let body = s.skip(1);
        if all_digits(body) && digits_value(body) <= 0x8000_0000_0000_0000 {
            Some(-(digits_value(body) as int))
        } else {
            None
        }
    } else {
        match parsed_number(s, 0x7fff_ffff_ffff_ffff) {
            Some(n) => Some(n as int),
            None => None,
        }
    }
}

/// Reads an integer of 64 bits.
pub fn parse_integer(s: &str) -> (r: Option<i64>)
    ensures
        (match r {
            Some(n) => Some(n as int),
            None => None,
        }) == parsed_integer(s@),
{
    let v = chars_of(s);
    if v.len() > 0 && v[0] == '-' {
        let n: usize = v.len();
        proof {
            assert(v@.subrange(1, n as int) =~= s@.skip(1));
        }
        match parse_digits(&v[1..n], 0x8000_0000_0000_0000) {
            Some(m) => if m == 0x8000_0000_0000_0000 {
                Some(i64::MIN)
            } else {
                Some(-(m as i64))
            },
            None => None,
        }
    } else {
        match parse_number(s, 0x7fff_ffff_ffff_ffff) {
            Some(m) => Some(m as i64),
            None => None,
        }
    }
}

/// Writing a number and reading it back gives the number.
pub proof fn law_decimal_roundtrip(n: nat, max: nat)
    requires
        n <= max,
    ensures
        parsed_number(decimal(n), max) == Some(n),
{
    lemma_decimal_digits(n);
    assert(decimal(n)[0] != '+') by {
        assert(is_digit(decimal(n)[0]));
    }
}

/// A number in decimal is made of digits that write the number.
pub proof fn lemma_decimal_digits(n: nat)
    ensures
        all_digits(decimal(n)),
        digits_value(decimal(n)) == n,
    decreases n,
{
    if n < 10 {
        assert(decimal(n).drop_last() =~= Seq::empty());
        assert(digits_value(Seq::<char>::empty()) == 0);
    } else {
        lemma_decimal_digits(n / 10);
        assert(decimal(n).drop_last() =~= decimal(n / 10));
        assert forall|i: int| 0 <= i < decimal(n).len() implies is_digit(#[trigger] decimal(n)[i]) by {
            if i < decimal(n).len() - 1 {
                assert(decimal(n)[i] == decimal(n / 10)[i]);
            }
        }
    }
}

// ---------------------------------------------------------------------------
// Order
// ---------------------------------------------------------------------------

/// Whether a text comes before another: at the first character in which they
/// differ it has the smaller one, or it is a proper prefix.
pub open spec fn before(a: Seq<char>, b: Seq<char>) -> bool
    decreases a.len(),
{
    if b.len() == 0 {
        false
    } else if a.len() == 0 {
        true
    } else if a[0] != b[0] {
        a[0] < b[0]
    } else {
        before(a.skip(1), b.skip(1))
    }
}

/// No text comes before itself.
pub proof fn lemma_before_irreflexive(a: Seq<char>)
    ensures
        !before(a, a),
    decreases a.len(),
{
    if a.len() > 0 {
        lemma_before_irreflexive(a.skip(1));
    }
}

/// What comes before a text comes before all that the text comes before.
pub proof fn lemma_before_transitive(a: Seq<char>, b: Seq<char>, c: Seq<char>)
    requires
        before(a, b),
        before(b, c),
    ensures
        before(a, c),
    decreases a.len(),
{
    if a.len() > 0 && a[0] == b[0] && b[0] == c[0] {
        lemma_before_transitive(a.skip(1), b.skip(1), c.skip(1));
    }
}

/// Of two different texts one comes before the other.
pub proof fn lemma_before_total(a: Seq<char>, b: Seq<char>)
    ensures
        a == b || before(a, b) || before(b, a),
    decreases a.len(),
{
    if a.len() == 0 && b.len() == 0 {
        assert(a =~= b);
    } else if a.len() > 0 && b.len() > 0 && a[0] == b[0] {
        lemma_before_total(a.skip(1), b.skip(1));
        if a.skip(1) == b.skip(1) {
            assert(a =~= seq![a[0]] + a.skip(1));
            assert(b =~= seq![b[0]] + b.skip(1));
        }
    }
}

/// Two texts that begin alike are in the order of what follows.
pub proof fn lemma_before_prefix(p: Seq<char>, a: Seq<char>, b: Seq<char>)
    requires
        before(a, b),
    ensures
        before(p + a, p + b),
    decreases p.len(),
{
    if p.len() == 0 {
        assert(p + a =~= a);
        assert(p + b =~= b);
    } else {
        lemma_before_prefix(p.skip(1), a, b);
        assert((p + a).skip(1) =~= p.skip(1) + a);
        assert((p + b).skip(1) =~= p.skip(1) + b);
        assert((p + a)[0] == (p + b)[0]);
    }
}

/// As many digits write the same number only where they are the same.
proof fn lemma_digits_same(a: Seq<char>, b: Seq<char>)
    requires
        forall|i: int| 0 <= i < a.len() ==> is_digit(#[trigger] a[i]),
        forall|i: int| 0 <= i < b.len() ==> is_digit(#[trigger] b[i]),
        a.len() == b.len(),
        digits_value(a) == digits_value(b),
    ensures
        a == b,
    decreases a.len(),
{
    if a.len() > 0 {
        assert(is_digit(a[a.len() - 1]));
        assert(is_digit(b[b.len() - 1]));
        lemma_digits_same(a.drop_last(), b.drop_last());
        assert(a =~= a.drop_last().push(a.last()));
        assert(b =~= b.drop_last().push(b.last()));
    } else {
        assert(a =~= b);
    }
}

/// Of numbers with as many digits, the text of the smaller one comes first,
/// whatever follows.
pub proof fn lemma_digits_in_order(a: Seq<char>, b: Seq<char>, s: Seq<char>, t: Seq<char>)
    requires
        forall|i: int| 0 <= i < a.len() ==> is_digit(#[trigger] a[i]),
        forall|i: int| 0 <= i < b.len() ==> is_digit(#[trigger] b[i]),
        a.len() == b.len(),
        digits_value(a) < digits_value(b),
    ensures
        before(a + s, b + t),
    decreases a.len(),
{
    if a.len() == 0 {
        assert(digits_value(a) == 0);
        assert(digits_value(b) == 0);
    } else {
        assert(is_digit(a[a.len() - 1]));
        assert(is_digit(b[b.len() - 1]));
        let x = seq![a.last()] + s;
        let y = seq![b.last()] + t;
        assert(a + s =~= a.drop_last() + x);
        assert(b + t =~= b.drop_last() + y);
        if digits_value(a.drop_last()) < digits_value(b.drop_last()) {
            lemma_digits_in_order(a.drop_last(), b.drop_last(), x, y);
        } else {
            lemma_digits_same(a.drop_last(), b.drop_last());
            assert(x[0] < y[0]);
            assert(before(x, y));
            lemma_before_prefix(a.drop_last(), x, y);
        }
    }
}

/// Whether a text comes before another.
pub fn is_before(a: &str, b: &str) -> (r: bool)
    ensures
        r == before(a@, b@),
{
    let x = chars_of(a);
    let y = chars_of(b);
    let mut i: usize = 0;
    proof {
        assert(x@.skip(0) =~= x@);
        assert(y@.skip(0) =~= y@);
    }
    while i < x.len() && i < y.len()
        invariant
            x@ == a@,
            y@ == b@,
            i <= x.len(),
            i <= y.len(),
            before(x@.skip(i as int), y@.skip(i as int)) == before(x@, y@),
        decreases x.len() - i,
    {
        let c = x[i];
        let d = y[i];
        if c != d {
            proof {
                assert(x@.skip(i as int)[0] == c);
                assert(y@.skip(i as int)[0] == d);
            }
            return c < d;
        }
        proof {
            assert(x@.skip(i as int).skip(1) =~= x@.skip(i + 1));
            assert(y@.skip(i as int).skip(1) =~= y@.skip(i + 1));
        }
        i = i + 1;
    }
    i < y.len()
}

/// Whether texts stand in order, equal ones next to each other.
pub open spec fn in_order(v: Seq<Seq<char>>) -> bool {
    forall|i: int, j: int| 0 <= i < j < v.len() ==> !before(#[trigger] v[j], #[trigger] v[i])
}

/// The number of leading texts that do not come behind the given one.
fn place_for(v: &Vec<String>, s: &str) -> (k: usize)
    requires
        in_order(views(v@)),
    ensures
        k <= v@.len(),
        forall|i: int| 0 <= i < k ==> !before(s@, #[trigger] v@[i]@),
        forall|i: int| k <= i < v@.len() ==> !before(#[trigger] v@[i]@, s@),
{
    let ghost all = views(v@);
    let mut k: usize = 0;
    while k < v.len() && !is_before(s, v[k].as_str())
        invariant
            k <= v.len(),
            forall|i: int| 0 <= i < k ==> !before(s@, #[trigger] v@[i]@),
        decreases v.len() - k,
    {
        k = k + 1;
    }
    proof {
        if k < v.len() {
            assert(before(s@, v@[k as int]@));
            assert forall|i: int| k <= i < v@.len() implies !before(#[trigger] v@[i]@, s@) by {
                if before(v@[i]@, s@) {
                    lemma_before_transitive(v@[i]@, s@, v@[k as int]@);
                    if i == k {
                        lemma_before_irreflexive(v@[i]@);
                    } else {
                        assert(!before(all[i], all[k as int]));
                    }
                }
            }
        }
    }
    k
}

/// Sorts texts.
pub fn sort(v: Vec<String>) -> (r: Vec<String>)
    ensures
        in_order(views(r@)),
        views(r@).to_multiset() == views(v@).to_multiset(),
{
    let mut out: Vec<String> = Vec::new();
    let mut i: usize = 0;
    let ghost all = views(v@);
    proof {
        assert(views(out@) =~= all.take(0));
    }
    while i < v.len()
        invariant
            i <= v.len(),
            all == views(v@),
            in_order(views(out@)),
            views(out@).to_multiset() == all.take(i as int).to_multiset(),
        decreases v.len() - i,
    {
        let s = v[i].clone();
        let k: usize = place_for(&out, s.as_str());
        let ghost old_out = views(out@);
        out.insert(k, s);
        proof {
            let new_out = views(out@);
            assert(new_out =~= old_out.insert(k as int, s@));
            vstd::seq_lib::to_multiset_insert(old_out, k as int, s@);
            assert(all.take(i + 1) =~= all.take(i as int).push(s@));
            vstd::seq_lib::to_multiset_build(all.take(i as int), s@);
            lemma_before_irreflexive(s@);
            assert forall|a: int, b: int| 0 <= a < b < new_out.len() implies !before(
                #[trigger] new_out[b],
                #[trigger] new_out[a],
            ) by {
                let oa = if a < k {
                    a
                } else {
                    a - 1
                };
                let ob = if b < k {
                    b
                } else {
                    b - 1
                };
                if a != k {
                    assert(new_out[a] == old_out[oa]);
                }
                if b != k {
                    assert(new_out[b] == old_out[ob]);
                }
            }
        }
        i = i + 1;
    }
    proof {
        assert(all.take(i as int) =~= all);
    }
    out
}

} // verus!
