//! Text as sequences of characters: the pieces of string handling that the
//! parsers and command builders are made of, each stated over `Seq<char>`.
use vstd::prelude::*;

verus! {

/// `String::push` appends one character.
pub assume_specification[ std::string::String::push ](s: &mut std::string::String, c: char)
    ensures
        final(s)@ == old(s)@.push(c),
;

/// The views of a sequence of strings.
pub open spec fn texts(v: Seq<String>) -> Seq<Seq<char>> {
    v.map_values(|s: String| s@)
}

/// What std's `Debug` writes for a list of strings.
pub uninterp spec fn debug_list(s: Seq<Seq<char>>) -> Seq<char>;

/// `format!` with `{:?}` of a list of strings. The text is a function of the
/// strings alone; how std escapes them is not stated.
#[verifier::external_body]
pub(crate) fn debug_strings(v: &Vec<String>) -> (r: String)
    ensures
        r@ == debug_list(texts(v@)),
{
    format!("{v:?}")
}

/// What std's `Debug` writes for a text.
pub uninterp spec fn debug_of(s: Seq<char>) -> Seq<char>;

/// `format!` with `{:?}` of a text. What is written is a function of the text
/// alone; how std escapes it is not stated.
#[verifier::external_body]
pub(crate) fn debug_str(s: &str) -> (r: String)
    ensures
        r@ == debug_of(s@),
{
    format!("{s:?}")
}

/// What `str::to_lowercase` makes of a text.
pub uninterp spec fn lowercase(s: Seq<char>) -> Seq<char>;

/// A letter of the English alphabet in lower case; any other character as it
/// is.
pub open spec fn ascii_lower(c: char) -> char {
    if 'A' <= c <= 'Z' {
        (c as u32 + 32) as char
    } else {
        c
    }
}

/// `str::to_lowercase`. Of a text of ASCII characters it maps the letters from
/// A to Z and leaves the rest.
#[verifier::external_body]
pub(crate) fn lower(s: &str) -> (r: String)
    ensures
        r@ == lowercase(s@),
        (forall|i: int| 0 <= i < s@.len() ==> (#[trigger] s@[i] as u32) < 128) ==> r@ == s@.map_values(
            |c: char| ascii_lower(c),
        ),
{
    s.to_lowercase()
}

/// The message with which std refuses to read a text as a `u32`.
pub uninterp spec fn u32_refusal(s: Seq<char>) -> Seq<char>;

/// The error of `str::parse` for `u32`, written by its `Display`. It is a
/// function of the text alone; its wording is not stated.
#[verifier::external_body]
pub(crate) fn u32_error(s: &str) -> (r: String)
    requires
        unsigned(s@, u32::MAX as nat) is None,
    ensures
        r@ == u32_refusal(s@),
{
    s.parse::<u32>().expect_err("the text holds no number").to_string()
}

/// The message with which std refuses to read a text as a `u64`.
pub uninterp spec fn u64_refusal(s: Seq<char>) -> Seq<char>;

/// The error of `str::parse` for `u64`, written by its `Display`. It is a
/// function of the text alone; its wording is not stated.
#[verifier::external_body]
pub(crate) fn u64_error(s: &str) -> (r: String)
    requires
        unsigned(s@, u64::MAX as nat) is None,
    ensures
        r@ == u64_refusal(s@),
{
    s.parse::<u64>().expect_err("the text holds no number").to_string()
}

/// `char::to_ascii_uppercase`.
pub open spec fn ascii_upper(c: char) -> char {
    if 'a' <= c <= 'z' {
        (c as u8 - 32) as char
    } else {
        c
    }
}

/// `str::to_ascii_uppercase`.
pub open spec fn upper(s: Seq<char>) -> Seq<char> {
    s.map_values(|c: char| ascii_upper(c))
}

pub fn to_upper(s: &str) -> (r: String)
    ensures
        r@ == upper(s@),
{
    let v: Vec<char> = chars(s);
    let mut out: String = String::new();
    let mut i: usize = 0;
    while i < v.len()
        invariant
            i <= v@.len(),
            v@ == s@,
            out@ =~= upper(s@).take(i as int),
        decreases v@.len() - i,
    {
        let c: char = v[i];
        if 'a' <= c && c <= 'z' {
            out.push(((c as u8) - 32) as char);
        } else {
            out.push(c);
        }
        i += 1;
    }
    out
}

/// A copy of a list of strings.
pub fn copy_strings(v: &Vec<String>) -> (r: Vec<String>)
    ensures
        texts(r@) == texts(v@),
{
    let mut out: Vec<String> = Vec::new();
    let mut i: usize = 0;
    while i < v.len()
        invariant
            i <= v@.len(),
            texts(out@) =~= texts(v@).take(i as int),
        decreases v@.len() - i,
    {
        let ghost was = out@;
        out.push(v[i].clone());
        assert(texts(out@) =~= texts(was).push(v@[i as int]@));
        i += 1;
    }
    out
}

/// Whether `k` is one of the strings.
pub fn is_among(v: &Vec<String>, k: &str) -> (r: bool)
    ensures
        r == texts(v@).contains(k@),
{
    let mut i: usize = 0;
    while i < v.len()
        invariant
            i <= v@.len(),
            forall|j: int| 0 <= j < i ==> #[trigger] texts(v@)[j] != k@,
        decreases v@.len() - i,
    {
        assert(texts(v@)[i as int] == v@[i as int]@);
        if same(&v[i], k) {
            return true;
        }
        i += 1;
    }
    false
}

/// Unicode white space, as `char::is_whitespace` has it.
pub open spec fn is_space(c: char) -> bool {
    let n = c as u32;
    (9 <= n <= 13) || n == 0x20 || n == 0x85 || n == 0xa0 || n == 0x1680 || (0x2000 <= n <= 0x200a)
        || n == 0x2028 || n == 0x2029 || n == 0x202f || n == 0x205f || n == 0x3000
}

pub fn space(c: char) -> (r: bool)
    ensures
        r == is_space(c),
{
    let n: u32 = c as u32;
    (9 <= n && n <= 13) || n == 0x20 || n == 0x85 || n == 0xa0 || n == 0x1680 || (0x2000 <= n && n
        <= 0x200a) || n == 0x2028 || n == 0x2029 || n == 0x202f || n == 0x205f || n == 0x3000
}

/// The characters of a string.
pub fn chars(s: &str) -> (r: Vec<char>)
    ensures
        r@ == s@,
{
    let mut v: Vec<char> = Vec::new();
    for c in it: s.chars()
        invariant
            it.seq() == s@,
            v@ == s@.take(it.index()),
    {
        v.push(c);
        assert(s@.take(it.index() + 1) =~= s@.take(it.index()).push(c));
    }
    assert(s@.take(s@.len() as int) =~= s@);
    v
}

/// The string of the characters `from..to`.
pub fn slice(v: &Vec<char>, from: usize, to: usize) -> (r: String)
    requires
        from <= to <= v@.len(),
    ensures
        r@ == v@.subrange(from as int, to as int),
{
    let mut s = String::new();
    let mut i: usize = from;
    while i < to
        invariant
            from <= i <= to <= v@.len(),
            s@ == v@.subrange(from as int, i as int),
        decreases to - i,
    {
        s.push(v[i]);
        i += 1;
        assert(v@.subrange(from as int, i as int) =~= v@.subrange(from as int, i - 1).push(v@[i - 1]));
    }
    s
}

/// The string of a sequence of characters.
pub fn string(v: &Vec<char>) -> (r: String)
    ensures
        r@ == v@,
{
    let r = slice(v, 0, v.len());
    assert(v@.subrange(0, v@.len() as int) =~= v@);
    r
}

/// Equality of two strings.
pub fn same(a: &str, b: &str) -> (r: bool)
    ensures
        r == (a@ == b@),
{
    let x = chars(a);
    let y = chars(b);
    if x.len() != y.len() {
        return false;
    }
    let mut i: usize = 0;
    while i < x.len()
        invariant
            i <= x@.len(),
            x@.len() == y@.len(),
            x@ == a@,
            y@ == b@,
            forall|j: int| 0 <= j < i ==> x@[j] == y@[j],
        decreases x@.len() - i,
    {
        if x[i] != y[i] {
            return false;
        }
        i += 1;
    }
    assert(a@ =~= b@);
    true
}

/// `a` followed by `b`.
pub fn join2(a: &str, b: &str) -> (r: String)
    ensures
        r@ == a@ + b@,
{
    let mut s = a.to_owned();
    s.append(b);
    s
}


/// The views of a sequence of string slices.
pub open spec fn slices(s: Seq<&str>) -> Seq<Seq<char>> {
    s.map_values(|x: &str| x@)
}

/// The parts one after another.
pub open spec fn cat(parts: Seq<Seq<char>>) -> Seq<char>
    decreases parts.len(),
{
    if parts.len() == 0 {
        Seq::empty()
    } else {
        cat(parts.drop_last()) + parts.last()
    }
}

/// The parts one after another.
pub fn concat(parts: &Vec<&str>) -> (r: String)
    ensures
        r@ == cat(slices(parts@)),
{
    let ghost all = slices(parts@);
    let mut s = String::new();
    assert(all.take(0) =~= Seq::empty());
    let mut i: usize = 0;
    while i < parts.len()
        invariant
            i <= parts@.len(),
            all == slices(parts@),
            s@ == cat(all.take(i as int)),
        decreases parts@.len() - i,
    {
        assert(all.take(i + 1).drop_last() =~= all.take(i as int));
        s.append(parts[i]);
        i += 1;
    }
    assert(all.take(all.len() as int) =~= all);
    s
}

/// The parts with `sep` between each two.
pub open spec fn joined(parts: Seq<Seq<char>>, sep: Seq<char>) -> Seq<char>
    decreases parts.len(),
{
    if parts.len() == 0 {
        Seq::empty()
    } else if parts.len() == 1 {
        parts[0]
    } else {
        joined(parts.drop_last(), sep) + sep + parts.last()
    }
}

/// The parts with `sep` between each two.
pub fn join(parts: &Vec<String>, sep: &str) -> (r: String)
    ensures
        r@ == joined(texts(parts@), sep@),
{
    let ghost all = texts(parts@);
    let mut s = String::new();
    assert(all.take(0) =~= Seq::empty());
    let mut i: usize = 0;
    while i < parts.len()
        invariant
            i <= parts@.len(),
            all == texts(parts@),
            s@ == joined(all.take(i as int), sep@),
        decreases parts@.len() - i,
    {
        let ghost now = all.take(i + 1);
        assert(now.drop_last() =~= all.take(i as int));
        assert(now.last() == parts@[i as int]@);
        if i > 0 {
            s.append(sep);
            s.append(&parts[i]);
        } else {
            s.append(&parts[i]);
            assert(s@ =~= now[0]);
        }
        i += 1;
    }
    assert(all.take(all.len() as int) =~= all);
    s
}

/// Whether `s` begins with `p`.
pub open spec fn has_prefix(s: Seq<char>, p: Seq<char>) -> bool {
    p.len() <= s.len() && s.take(p.len() as int) == p
}

/// Whether `s` ends with `p`.
pub open spec fn has_suffix(s: Seq<char>, p: Seq<char>) -> bool {
    p.len() <= s.len() && s.skip(s.len() - p.len()) == p
}

/// Whether `p` stands in `s` at position `i`.
pub open spec fn occurs_at(s: Seq<char>, p: Seq<char>, i: int) -> bool {
    0 <= i && i + p.len() <= s.len() && s.subrange(i, i + p.len()) == p
}

/// Whether `p` stands anywhere in `s`.
pub open spec fn has_part(s: Seq<char>, p: Seq<char>) -> bool {
    exists|i: int| occurs_at(s, p, i)
}

/// Whether `p` stands in `s` at position `i`.
pub fn part_at(s: &Vec<char>, p: &Vec<char>, i: usize) -> (r: bool)
    requires
        i <= s@.len(),
    ensures
        r == occurs_at(s@, p@, i as int),
{
    if s.len() - i < p.len() {
        return false;
    }
    let mut j: usize = 0;
    while j < p.len()
        invariant
            j <= p.len(),
            i + p.len() <= s.len(),
            forall|k: int| 0 <= k < j ==> s@[i + k] == p@[k],
        decreases p@.len() - j,
    {
        if s[i + j] != p[j] {
            assert(s@.subrange(i as int, i + p@.len())[j as int] != p@[j as int]);
            return false;
        }
        j += 1;
    }
    assert(s@.subrange(i as int, i + p@.len()) =~= p@);
    true
}

pub fn starts_with(s: &str, p: &str) -> (r: bool)
    ensures
        r == has_prefix(s@, p@),
{
    let a = chars(s);
    let b = chars(p);
    let r = part_at(&a, &b, 0);
    assert(p@.len() <= s@.len() ==> s@.subrange(0, p@.len() as int) =~= s@.take(p@.len() as int));
    r
}

pub fn ends_with(s: &str, p: &str) -> (r: bool)
    ensures
        r == has_suffix(s@, p@),
{
    let a = chars(s);
    let b = chars(p);
    if b.len() > a.len() {
        return false;
    }
    let r = part_at(&a, &b, a.len() - b.len());
    assert(s@.subrange(s@.len() - p@.len(), s@.len() - p@.len() + p@.len()) =~= s@.skip(
        s@.len() - p@.len(),
    ));
    r
}

pub fn contains(s: &str, p: &str) -> (r: bool)
    ensures
        r == has_part(s@, p@),
{
    let a = chars(s);
    let b = chars(p);
    let mut i: usize = 0;
    loop
        invariant
            i <= a@.len(),
            a@ == s@,
            b@ == p@,
            forall|k: int| 0 <= k < i ==> !occurs_at(s@, p@, k),
        decreases a@.len() - i,
    {
        if part_at(&a, &b, i) {
            return true;
        }
        if i == a.len() {
            assert forall|k: int| !occurs_at(s@, p@, k) by {
                if k > a@.len() {
                }
            }
            return false;
        }
        i += 1;
    }
}

/// `s` up to its first `c` from `from` on, and what stands after that.
pub open spec fn cut_from(s: Seq<char>, c: char, from: nat) -> Option<(Seq<char>, Seq<char>)>
    decreases s.len() - from,
{
    if from >= s.len() {
        None
    } else if s[from as int] == c {
        Some((s.take(from as int), s.skip(from as int + 1)))
    } else {
        cut_from(s, c, from + 1)
    }
}

/// What stands before and after the first `c`.
pub open spec fn cut_at(s: Seq<char>, c: char) -> Option<(Seq<char>, Seq<char>)> {
    cut_from(s, c, 0)
}

/// What stands before and after the first `c`.
pub fn cut(s: &str, c: char) -> (r: Option<(String, String)>)
    ensures
        match r {
            Some(p) => cut_at(s@, c) == Some((p.0@, p.1@)),
            None => cut_at(s@, c) is None,
        },
{
    let cs = chars(s);
    let mut i: usize = 0;
    while i < cs.len()
        invariant
            i <= cs@.len(),
            cs@ == s@,
            cut_at(s@, c) == cut_from(s@, c, i as nat),
        decreases cs@.len() - i,
    {
        if cs[i] == c {
            let a = slice(&cs, 0, i);
            let b = slice(&cs, i + 1, cs.len());
            assert(cs@.subrange(0, i as int) =~= cs@.take(i as int));
            assert(cs@.subrange(i + 1, cs@.len() as int) =~= cs@.skip(i + 1));
            return Some((a, b));
        }
        i += 1;
    }
    None
}

/// `s` without any `c` at its start.
pub open spec fn peel_start(s: Seq<char>, c: char) -> Seq<char>
    decreases s.len(),
{
    if s.len() > 0 && s[0] == c {
        peel_start(s.skip(1), c)
    } else {
        s
    }
}

/// `s` without any `c` at its end.
pub open spec fn peel_end(s: Seq<char>, c: char) -> Seq<char>
    decreases s.len(),
{
    if s.len() > 0 && s.last() == c {
        peel_end(s.drop_last(), c)
    } else {
        s
    }
}

/// `s` without any `c` at its start and its end.
pub fn peel(s: &str, c: char) -> (r: String)
    ensures
        r@ == peel_end(peel_start(s@, c), c),
{
    let a = chars(s);
    let mut i: usize = 0;
    assert(s@.skip(0) =~= s@);
    while i < a.len() && a[i] == c
        invariant
            i <= a@.len(),
            a@ == s@,
            peel_start(s@.skip(i as int), c) == peel_start(s@, c),
        decreases a@.len() - i,
    {
        assert(s@.skip(i as int).skip(1) =~= s@.skip(i + 1));
        i += 1;
    }
    let ghost t = s@.skip(i as int);
    assert(peel_start(s@, c) == t);
    let mut j: usize = a.len();
    assert(s@.subrange(i as int, j as int) =~= t);
    while j > i && a[j - 1] == c
        invariant
            i <= j <= a@.len(),
            a@ == s@,
            peel_end(s@.subrange(i as int, j as int), c) == peel_end(t, c),
        decreases j,
    {
        assert(s@.subrange(i as int, j as int).drop_last() =~= s@.subrange(i as int, j - 1));
        j -= 1;
    }
    slice(&a, i, j)
}

/// What follows the prefix `p` of `s`, where it has one.
pub open spec fn after_prefix(s: Seq<char>, p: Seq<char>) -> Option<Seq<char>> {
    if has_prefix(s, p) {
        Some(s.skip(p.len() as int))
    } else {
        None
    }
}

pub fn strip_prefix(s: &str, p: &str) -> (r: Option<String>)
    ensures
        opt_text(r) == after_prefix(s@, p@),
{
    if !starts_with(s, p) {
        return None;
    }
    let a = chars(s);
    let b = chars(p);
    let r = slice(&a, b.len(), a.len());
    assert(s@.subrange(p@.len() as int, s@.len() as int) =~= s@.skip(p@.len() as int));
    Some(r)
}

/// The view of an optional string.
pub open spec fn opt_text(o: Option<String>) -> Option<Seq<char>> {
    match o {
        Some(s) => Some(s@),
        None => None,
    }
}

/// `s` without white space at its start.
pub open spec fn trim_start(s: Seq<char>) -> Seq<char>
    decreases s.len(),
{
    if s.len() > 0 && is_space(s[0]) {
        trim_start(s.skip(1))
    } else {
        s
    }
}

/// `s` without white space at its start.
pub fn trim_leading(s: &str) -> (r: String)
    ensures
        r@ == trim_start(s@),
{
    let cs = chars(s);
    let mut i: usize = 0;
    assert(cs@.skip(0) =~= cs@);
    while i < cs.len() && space(cs[i])
        invariant
            i <= cs@.len(),
            cs@ == s@,
            trim_start(s@) == trim_start(cs@.skip(i as int)),
        decreases cs@.len() - i,
    {
        assert(cs@.skip(i as int).skip(1) =~= cs@.skip(i + 1));
        i += 1;
    }
    let r = slice(&cs, i, cs.len());
    assert(cs@.subrange(i as int, cs@.len() as int) =~= cs@.skip(i as int));
    r
}

/// `s` without white space at its end.
pub open spec fn trim_end(s: Seq<char>) -> Seq<char>
    decreases s.len(),
{
    if s.len() > 0 && is_space(s.last()) {
        trim_end(s.drop_last())
    } else {
        s
    }
}

/// `s` without white space at its start and end.
pub open spec fn trimmed(s: Seq<char>) -> Seq<char> {
    trim_end(trim_start(s))
}

pub fn trim(s: &str) -> (r: String)
    ensures
        r@ == trimmed(s@),
{
    let a = chars(s);
    let mut i: usize = 0;
    assert(s@.skip(0) =~= s@);
    while i < a.len() && space(a[i])
        invariant
            i <= a@.len(),
            a@ == s@,
            trim_start(s@.skip(i as int)) == trim_start(s@),
        decreases a@.len() - i,
    {
        assert(s@.skip(i as int).skip(1) =~= s@.skip(i + 1));
        i += 1;
    }
    let ghost t = s@.skip(i as int);
    assert(trim_start(s@) == t);
    let mut j: usize = a.len();
    assert(s@.subrange(i as int, j as int) =~= t);
    while j > i && space(a[j - 1])
        invariant
            i <= j <= a@.len(),
            a@ == s@,
            trim_end(s@.subrange(i as int, j as int)) == trim_end(t),
        decreases j,
    {
        assert(s@.subrange(i as int, j as int).drop_last() =~= s@.subrange(i as int, j - 1));
        j -= 1;
    }
    slice(&a, i, j)
}

/// The words read so far and the word being read, after the characters of `s`.
pub open spec fn word_state(s: Seq<char>) -> (Seq<Seq<char>>, Seq<char>)
    decreases s.len(),
{
    if s.len() == 0 {
        (Seq::empty(), Seq::empty())
    } else {
        let (done, word) = word_state(s.drop_last());
        if !is_space(s.last()) {
            (done, word.push(s.last()))
        } else if word.len() > 0 {
            (done.push(word), Seq::empty())
        } else {
            (done, word)
        }
    }
}

/// The maximal runs of characters other than white space, in order.
pub open spec fn words_of(s: Seq<char>) -> Seq<Seq<char>> {
    let (done, word) = word_state(s);
    if word.len() > 0 {
        done.push(word)
    } else {
        done
    }
}

pub fn words(s: &str) -> (r: Vec<String>)
    ensures
        texts(r@) == words_of(s@),
{
    let a = chars(s);
    let mut done: Vec<String> = Vec::new();
    let mut word = String::new();
    let mut any = false;
    let mut i: usize = 0;
    while i < a.len()
        invariant
            i <= a@.len(),
            a@ == s@,
            any == (word@.len() > 0),
            texts(done@) == word_state(s@.take(i as int)).0,
            word@ == word_state(s@.take(i as int)).1,
        decreases a@.len() - i,
    {
        assert(s@.take(i + 1).drop_last() =~= s@.take(i as int));
        let c = a[i];
        if !space(c) {
            word.push(c);
            any = true;
        } else if any {
            let ghost before = done@;
            done.push(word);
            assert(texts(done@) =~= texts(before).push(word@));
            word = String::new();
            any = false;
        }
        i += 1;
    }
    assert(s@.take(s@.len() as int) =~= s@);
    if any {
        let ghost before = done@;
        done.push(word);
        assert(texts(done@) =~= texts(before).push(word@));
    }
    done
}

/// Characters other than white space lengthen the last word.
pub proof fn lemma_word_goes_on(s: Seq<char>, t: Seq<char>)
    requires
        forall|i: int| 0 <= i < t.len() ==> !is_space(#[trigger] t[i]),
    ensures
        word_state(s + t) == (word_state(s).0, word_state(s).1 + t),
    decreases t.len(),
{
    if t.len() == 0 {
        assert(s + t =~= s);
        assert(word_state(s).1 + t =~= word_state(s).1);
    } else {
        lemma_word_goes_on(s, t.drop_last());
        assert((s + t).drop_last() =~= s + t.drop_last());
        assert((word_state(s).1 + t.drop_last()).push(t.last()) =~= word_state(s).1 + t);
    }
}

/// White space ends a word.
pub proof fn lemma_word_ends(s: Seq<char>, c: char)
    requires
        is_space(c),
        word_state(s).1.len() > 0,
    ensures
        word_state(s.push(c)) == (word_state(s).0.push(word_state(s).1), Seq::<char>::empty()),
{
    assert(s.push(c).drop_last() =~= s);
}

/// The pieces of `s` between the occurrences of `sep`.
pub open spec fn split_of(s: Seq<char>, sep: char) -> Seq<Seq<char>>
    decreases s.len(),
{
    if s.len() == 0 {
        seq![Seq::empty()]
    } else {
        let pieces = split_of(s.drop_last(), sep);
        if s.last() == sep {
            pieces.push(Seq::empty())
        } else {
            pieces.drop_last().push(pieces.last().push(s.last()))
        }
    }
}

pub proof fn lemma_split_nonempty(s: Seq<char>, sep: char)
    ensures
        split_of(s, sep).len() > 0,
    decreases s.len(),
{
    if s.len() > 0 {
        lemma_split_nonempty(s.drop_last(), sep);
    }
}

pub fn split(s: &str, sep: char) -> (r: Vec<String>)
    ensures
        texts(r@) == split_of(s@, sep),
        r@.len() > 0,
{
    let a = chars(s);
    let mut done: Vec<String> = Vec::new();
    let mut piece = String::new();
    let mut i: usize = 0;
    assert(texts(done@).push(piece@) =~= split_of(s@.take(0), sep));
    while i < a.len()
        invariant
            i <= a@.len(),
            a@ == s@,
            texts(done@).push(piece@) == split_of(s@.take(i as int), sep),
        decreases a@.len() - i,
    {
        let ghost now = s@.take(i + 1);
        let ghost was = texts(done@).push(piece@);
        assert(now.drop_last() =~= s@.take(i as int));
        let c = a[i];
        if c == sep {
            let ghost before = done@;
            done.push(piece);
            assert(texts(done@) =~= was);
            piece = String::new();
            assert(texts(done@).push(piece@) =~= split_of(now, sep));
        } else {
            assert(was.drop_last() =~= texts(done@));
            assert(was.last() == piece@);
            piece.push(c);
        }
        i += 1;
    }
    assert(s@.take(s@.len() as int) =~= s@);
    let ghost before = done@;
    done.push(piece);
    assert(texts(done@) =~= texts(before).push(piece@));
    done
}

/// `s` without one carriage return at its end.
pub open spec fn strip_cr(s: Seq<char>) -> Seq<char> {
    if s.len() > 0 && s.last() == '\r' {
        s.drop_last()
    } else {
        s
    }
}

/// The lines of `s`: each ends at a line feed, which is not part of it, nor is
/// a carriage return before it; what follows the last line feed is a line of
/// its own unless it is empty.
pub open spec fn lines_of(s: Seq<char>) -> Seq<Seq<char>> {
    let pieces = split_of(s, '\n');
    let ended = Seq::new((pieces.len() - 1) as nat, |i: int| strip_cr(pieces[i]));
    if pieces.last().len() > 0 {
        ended.push(pieces.last())
    } else {
        ended
    }
}

pub fn lines(s: &str) -> (r: Vec<String>)
    ensures
        texts(r@) == lines_of(s@),
{
    let pieces = split(s, '\n');
    let ghost p = split_of(s@, '\n');
    assert forall|i: int| 0 <= i < pieces@.len() implies #[trigger] pieces@[i]@ == p[i] by {
        assert(texts(pieces@)[i] == p[i]);
    }
    assert(p.len() == pieces@.len());
    let mut out: Vec<String> = Vec::new();
    let n: usize = pieces.len() - 1;
    let mut i: usize = 0;
    while i < n
        invariant
            i <= n,
            n == pieces@.len() - 1,
            p.len() == pieces@.len(),
            forall|j: int| 0 <= j < pieces@.len() ==> #[trigger] pieces@[j]@ == p[j],
            texts(out@) =~= Seq::new(i as nat, |j: int| strip_cr(p[j])),
        decreases n - i,
    {
        let a = chars(&pieces[i]);
        let ghost before = out@;
        if a.len() > 0 && a[a.len() - 1] == '\r' {
            let t = slice(&a, 0, a.len() - 1);
            assert(t@ =~= strip_cr(p[i as int]));
            out.push(t);
            assert(texts(out@) =~= texts(before).push(t@));
        } else {
            let t = pieces[i].clone();
            assert(t@ =~= strip_cr(p[i as int]));
            out.push(t);
            assert(texts(out@) =~= texts(before).push(t@));
        }
        i += 1;
    }
    if !pieces[n].as_str().is_empty() {
        let ghost before = out@;
        let t = pieces[n].clone();
        out.push(t);
        assert(texts(out@) =~= texts(before).push(t@));
    }
    out
}

/// `s` with each occurrence of `p`, taken from the left, replaced by `w`.
pub open spec fn replaced(s: Seq<char>, p: Seq<char>, w: Seq<char>) -> Seq<char>
    decreases s.len(),
{
    if p.len() == 0 || s.len() < p.len() {
        s
    } else if has_prefix(s, p) {
        w + replaced(s.skip(p.len() as int), p, w)
    } else {
        seq![s[0]] + replaced(s.skip(1), p, w)
    }
}

pub fn replace(s: &str, p: &str, w: &str) -> (r: String)
    requires
        p@.len() > 0,
    ensures
        r@ == replaced(s@, p@, w@),
{
    let a = chars(s);
    let b = chars(p);
    let mut out = String::new();
    let mut i: usize = 0;
    assert(s@.skip(0) =~= s@);
    assert(out@ + replaced(s@, p@, w@) =~= replaced(s@, p@, w@));
    while i < a.len()
        invariant
            i <= a@.len(),
            a@ == s@,
            b@ == p@,
            p@.len() > 0,
            out@ + replaced(s@.skip(i as int), p@, w@) == replaced(s@, p@, w@),
        decreases a@.len() - i,
    {
        let ghost rest = s@.skip(i as int);
        let ghost was = out@;
        if part_at(&a, &b, i) {
            assert(s@.subrange(i as int, i + p@.len()) =~= rest.take(p@.len() as int));
            assert(rest.skip(p@.len() as int) =~= s@.skip(i + p@.len()));
            out.append(w);
            assert(was + (w@ + replaced(s@.skip(i + p@.len()), p@, w@)) =~= out@ + replaced(
                s@.skip(i + p@.len()),
                p@,
                w@,
            ));
            i += b.len();
        } else {
            proof {
                if rest.len() >= p@.len() {
                    assert(s@.subrange(i as int, i + p@.len()) =~= rest.take(p@.len() as int));
                }
            }
            assert(rest.skip(1) =~= s@.skip(i + 1));
            assert(replaced(rest, p@, w@) =~= seq![rest[0]] + replaced(rest.skip(1), p@, w@)) by {
                if rest.len() < p@.len() {
                    assert(rest =~= seq![rest[0]] + rest.skip(1));
                }
            }
            out.push(a[i]);
            assert(was + (seq![rest[0]] + replaced(s@.skip(i + 1), p@, w@)) =~= out@ + replaced(
                s@.skip(i + 1),
                p@,
                w@,
            ));
            i += 1;
        }
    }
    assert(out@ + replaced(s@.skip(i as int), p@, w@) =~= out@);
    out
}

/// The decimal digit of a number below ten.
pub open spec fn digit(d: int) -> char {
    (48 + d) as char
}

/// A natural number in decimal.
pub open spec fn decimal(n: nat) -> Seq<char>
    decreases n,
{
    if n < 10 {
        seq![digit(n as int)]
    } else {
        decimal(n / 10).push(digit((n % 10) as int))
    }
}

/// An integer in decimal.
pub open spec fn decimal_int(n: int) -> Seq<char> {
    if n < 0 {
        "-"@ + decimal((-n) as nat)
    } else {
        decimal(n as nat)
    }
}

pub fn dec(n: u64) -> (r: String)
    ensures
        r@ == decimal(n as nat),
    decreases n,
{
    let d: u8 = (n % 10) as u8;
    let c: char = (48 + d) as char;
    if n < 10 {
        let mut s = String::new();
        s.push(c);
        assert(s@ =~= seq![digit(n as int)]);
        s
    } else {
        let mut s = dec(n / 10);
        s.push(c);
        s
    }
}

pub fn dec_i64(n: i64) -> (r: String)
    ensures
        r@ == decimal_int(n as int),
{
    if n < 0 {
        let m: u64 = if n == i64::MIN {
            0x8000_0000_0000_0000
        } else {
            (-n) as u64
        };
        join2("-", &dec(m))
    } else {
        dec(n as u64)
    }
}

pub open spec fn is_digit(c: char) -> bool {
    '0' <= c <= '9'
}

/// One or more decimal digits.
pub open spec fn is_digits(s: Seq<char>) -> bool {
    s.len() > 0 && forall|i: int| 0 <= i < s.len() ==> is_digit(#[trigger] s[i])
}

/// The number that a sequence of digits writes.
pub open spec fn number(s: Seq<char>) -> nat
    decreases s.len(),
{
    if s.len() == 0 {
        0
    } else {
        number(s.drop_last()) * 10 + (s.last() as nat - 48) as nat
    }
}

/// The number in `0..=max` that `s` writes in decimal, a plus sign before it
/// or not.
pub open spec fn unsigned(s: Seq<char>, max: nat) -> Option<nat> {
    let d = if s.len() > 0 && s[0] == '+' {
        s.skip(1)
    } else {
        s
    };
    if is_digits(d) && number(d) <= max {
        Some(number(d))
    } else {
        None
    }
}

/// The 64-bit signed number that `s` writes in decimal, a sign before it or
/// not.
pub open spec fn signed(s: Seq<char>) -> Option<int> {
    if s.len() > 0 && s[0] == '-' {
        if is_digits(s.skip(1)) && number(s.skip(1)) <= 0x8000_0000_0000_0000 {
            Some(-(number(s.skip(1)) as int))
        } else {
            None
        }
    } else {
        match unsigned(s, i64::MAX as nat) {
            Some(n) => Some(n as int),
            None => None,
        }
    }
}

/// The number that the characters from `from` on write, where they are digits
/// and it fits.
fn digits(a: &Vec<char>, from: usize) -> (r: Option<u64>)
    requires
        from <= a@.len(),
    ensures
        r == (if is_digits(a@.skip(from as int)) && number(a@.skip(from as int)) <= u64::MAX {
            Some(number(a@.skip(from as int)) as u64)
        } else {
            None
        }),
{
    let ghost d = a@.skip(from as int);
    if from == a.len() {
        return None;
    }
    let mut n: u64 = 0;
    let mut over = false;
    let mut i: usize = from;
    while i < a.len()
        invariant
            from <= i <= a@.len(),
            d == a@.skip(from as int),
            forall|j: int| 0 <= j < i - from ==> is_digit(#[trigger] d[j]),
            over ==> number(d.take(i - from)) > u64::MAX,
            !over ==> number(d.take(i - from)) == n,
        decreases a@.len() - i,
    {
        let c = a[i];
        assert(d[i - from] == c);
        if c < '0' || c > '9' {
            assert(!is_digit(d[i - from]));
            return None;
        }
        assert(d.take(i + 1 - from).drop_last() =~= d.take(i - from));
        let v: u64 = (c as u32 - 48) as u64;
        if !over {
            if n > (u64::MAX - v) / 10 {
                over = true;
            } else {
                n = n * 10 + v;
            }
        }
        i += 1;
    }
    assert(d.take(d.len() as int) =~= d);
    if over {
        None
    } else {
        Some(n)
    }
}

pub fn parse_unsigned(s: &str, max: u64) -> (r: Option<u64>)
    ensures
        r == (match unsigned(s@, max as nat) {
            Some(n) => Some(n as u64),
            None => None,
        }),
{
    let a = chars(s);
    let from: usize = if a.len() > 0 && a[0] == '+' {
        1
    } else {
        0
    };
    assert(s@.skip(0) =~= s@);
    match digits(&a, from) {
        Some(n) => if n <= max {
            Some(n)
        } else {
            None
        },
        None => None,
    }
}

pub fn parse_signed(s: &str) -> (r: Option<i64>)
    ensures
        r == (match signed(s@) {
            Some(n) => Some(n as i64),
            None => None,
        }),
{
    let a = chars(s);
    if a.len() > 0 && a[0] == '-' {
        match digits(&a, 1) {
            Some(n) => if n < 0x8000_0000_0000_0000 {
                Some(-(n as i64))
            } else if n == 0x8000_0000_0000_0000 {
                Some(i64::MIN)
            } else {
                None
            },
            None => None,
        }
    } else {
        match parse_unsigned(s, i64::MAX as u64) {
            Some(n) => Some(n as i64),
            None => None,
        }
    }
}

/// A number's decimal digits are digits and write that number.
pub proof fn lemma_decimal(n: nat)
    ensures
        is_digits(decimal(n)),
        number(decimal(n)) == n,
        decimal(n)[0] != '+',
        decimal(n)[0] != '-',
    decreases n,
{
    if n >= 10 {
        lemma_decimal(n / 10);
        let s = decimal(n);
        assert(s.drop_last() =~= decimal(n / 10));
        assert forall|i: int| 0 <= i < s.len() implies is_digit(#[trigger] s[i]) by {
            if i < s.len() - 1 {
                assert(s[i] == decimal(n / 10)[i]);
            }
        }
        assert(s[0] == decimal(n / 10)[0]);
    } else {
        let s = decimal(n);
        assert(s.drop_last() =~= Seq::<char>::empty());
        assert(number(s.drop_last()) == 0);
    }
}

/// Reading what was written gives the number back.
pub proof fn law_unsigned_reads_decimal(n: nat, max: nat)
    requires
        n <= max,
    ensures
        unsigned(decimal(n), max) == Some(n),
{
    lemma_decimal(n);
}

/// Reading what was written gives the integer back.
pub proof fn law_signed_reads_decimal(n: int)
    requires
        i64::MIN <= n <= i64::MAX,
    ensures
        signed(decimal_int(n)) == Some(n),
{
    reveal_strlit("-");
    if n < 0 {
        lemma_decimal((-n) as nat);
        assert(decimal_int(n).skip(1) =~= decimal((-n) as nat));
    } else {
        lemma_decimal(n as nat);
    }
}

} // verus!
