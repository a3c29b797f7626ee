//! Command-line arguments as flags with a value, flags without one, and words.
use crate::text;
use vstd::prelude::*;

verus! {

/// One piece of a command line.
#[derive(Debug)]
pub enum Token {
    /// A flag and the value after it.
    Valued(String, String),
    /// A flag that takes no value.
    Switch(String),
    /// Anything else.
    Word(String),
}

/// A `Token` as a mathematical value.
pub enum Tok {
    Valued(Seq<char>, Seq<char>),
    Switch(Seq<char>),
    Word(Seq<char>),
}

impl View for Token {
    type V = Tok;

    open spec fn view(&self) -> Tok {
        match *self {
            Token::Valued(f, v) => Tok::Valued(f@, v@),
            Token::Switch(f) => Tok::Switch(f@),
            Token::Word(w) => Tok::Word(w@),
        }
    }
}

pub open spec fn toks(s: Seq<Token>) -> Seq<Tok> {
    s.map_values(|t: Token| t@)
}

/// A command line in pieces, up to the first flag that is unknown or lacks its
/// value, and what is wrong with that one.
pub open spec fn pieces(
    argv: Seq<Seq<char>>,
    valued: Seq<Seq<char>>,
    switches: Seq<Seq<char>>,
) -> (Seq<Tok>, Option<Seq<char>>)
    decreases argv.len(),
{
    if argv.len() == 0 {
        (Seq::empty(), None)
    } else {
        let head = argv[0];
        if valued.contains(head) {
            if argv.len() == 1 {
                (Seq::empty(), Some("missing value after "@ + head))
            } else {
                let (rest, e) = pieces(argv.skip(2), valued, switches);
                (seq![Tok::Valued(head, argv[1])] + rest, e)
            }
        } else if switches.contains(head) {
            let (rest, e) = pieces(argv.skip(1), valued, switches);
            (seq![Tok::Switch(head)] + rest, e)
        } else if text::has_prefix(head, "--"@) {
            (Seq::empty(), Some("unknown flag "@ + head))
        } else {
            let (rest, e) = pieces(argv.skip(1), valued, switches);
            (seq![Tok::Word(head)] + rest, e)
        }
    }
}

fn is_one_of(v: &Vec<&str>, k: &str) -> (r: bool)
    ensures
        r == text::slices(v@).contains(k@),
{
    let mut i: usize = 0;
    while i < v.len()
        invariant
            i <= v@.len(),
            forall|j: int| 0 <= j < i ==> #[trigger] text::slices(v@)[j] != k@,
        decreases v@.len() - i,
    {
        assert(text::slices(v@)[i as int] == v@[i as int]@);
        if text::same(v[i], k) {
            return true;
        }
        i += 1;
    }
    false
}

/// Split a command line into its pieces.
pub fn scan(argv: &[String], valued: &Vec<&str>, switches: &Vec<&str>) -> (r: (
    Vec<Token>,
    Option<String>,
))
    ensures
        (toks(r.0@), text::opt_text(r.1)) == pieces(
            text::texts(argv@),
            text::slices(valued@),
            text::slices(switches@),
        ),
{
    let ghost all = text::texts(argv@);
    let ghost vs = text::slices(valued@);
    let ghost ss = text::slices(switches@);
    let mut out: Vec<Token> = Vec::new();
    let mut i: usize = 0;
    assert(all.skip(0) =~= all);
    assert(toks(out@) + pieces(all, vs, ss).0 =~= pieces(all, vs, ss).0);
    while i < argv.len()
        invariant
            i <= argv@.len(),
            all == text::texts(argv@),
            vs == text::slices(valued@),
            ss == text::slices(switches@),
            toks(out@) + pieces(all.skip(i as int), vs, ss).0 == pieces(all, vs, ss).0,
            pieces(all.skip(i as int), vs, ss).1 == pieces(all, vs, ss).1,
        decreases argv@.len() - i,
    {
        let ghost rest = all.skip(i as int);
        assert(rest[0] == argv@[i as int]@);
        assert(rest.skip(1) =~= all.skip(i + 1));
        let ghost was = toks(out@);
        let arg = &argv[i];
        if is_one_of(valued, arg) {
            if i + 1 == argv.len() {
                assert(toks(out@) + Seq::empty() =~= toks(out@));
                return (out, Some(text::join2("missing value after ", arg)));
            }
            assert(rest[1] == argv@[i + 1]@);
            assert(rest.skip(2) =~= all.skip(i + 2));
            out.push(Token::Valued(arg.clone(), argv[i + 1].clone()));
            assert(toks(out@) =~= was.push(Tok::Valued(rest[0], rest[1])));
            assert(was + (seq![Tok::Valued(rest[0], rest[1])] + pieces(all.skip(i + 2), vs, ss).0)
                =~= toks(out@) + pieces(all.skip(i + 2), vs, ss).0);
            i += 2;
        } else if is_one_of(switches, arg) {
            out.push(Token::Switch(arg.clone()));
            assert(toks(out@) =~= was.push(Tok::Switch(rest[0])));
            assert(was + (seq![Tok::Switch(rest[0])] + pieces(all.skip(i + 1), vs, ss).0) =~= toks(
                out@,
            ) + pieces(all.skip(i + 1), vs, ss).0);
            i += 1;
        } else if text::starts_with(arg, "--") {
            assert(toks(out@) + Seq::empty() =~= toks(out@));
            return (out, Some(text::join2("unknown flag ", arg)));
        } else {
            out.push(Token::Word(arg.clone()));
            assert(toks(out@) =~= was.push(Tok::Word(rest[0])));
            assert(was + (seq![Tok::Word(rest[0])] + pieces(all.skip(i + 1), vs, ss).0) =~= toks(
                out@,
            ) + pieces(all.skip(i + 1), vs, ss).0);
            i += 1;
        }
    }
    assert(all.skip(i as int).len() == 0);
    assert(toks(out@) + Seq::empty() =~= toks(out@));
    (out, None)
}

// ---------------------------------------------------------------------------
// Numbers that are not integers
// ---------------------------------------------------------------------------

/// Where `c` first stands in `s`; the length where it does not.
pub open spec fn first_index(s: Seq<char>, c: char) -> int
    decreases s.len(),
{
    if s.len() == 0 || s[0] == c {
        0
    } else {
        1 + first_index(s.skip(1), c)
    }
}

/// Digits with at most one point among, before or after them.
pub open spec fn is_mantissa(s: Seq<char>) -> bool {
    &&& forall|i: int| 0 <= i < s.len() ==> text::is_digit(#[trigger] s[i]) || s[i] == '.'
    &&& exists|i: int| 0 <= i < s.len() && text::is_digit(#[trigger] s[i])
    &&& forall|i: int, j: int|
        0 <= i < j < s.len() ==> !(#[trigger] s[i] == '.' && #[trigger] s[j] == '.')
}

/// `s` without a sign at its start.
pub open spec fn unsigned_part(s: Seq<char>) -> Seq<char> {
    if s.len() > 0 && (s[0] == '+' || s[0] == '-') {
        s.skip(1)
    } else {
        s
    }
}

/// Whether `s`, in lower case, is a number in the notation that std reads as
/// floating point: a sign or not, then `inf`, `infinity`, `nan`, or digits with
/// a point or not and an exponent or not.
pub open spec fn is_decimal_lower(s: Seq<char>) -> bool {
    let n = unsigned_part(s);
    let e = first_index(n, 'e');
    n == "inf"@ || n == "infinity"@ || n == "nan"@ || if e < n.len() {
        is_mantissa(n.take(e)) && text::is_digits(unsigned_part(n.skip(e + 1)))
    } else {
        is_mantissa(n)
    }
}

/// Whether `s` is a number in the notation that std reads as floating point.
pub open spec fn is_decimal(s: Seq<char>) -> bool {
    is_decimal_lower(s.map_values(|c: char| text::ascii_lower(c)))
}

fn mantissa(a: &Vec<char>, from: usize, to: usize) -> (r: bool)
    requires
        from <= to <= a@.len(),
    ensures
        r == is_mantissa(a@.subrange(from as int, to as int)),
{
    let ghost s = a@.subrange(from as int, to as int);
    let mut any = false;
    let mut dot = false;
    let ghost mut at: int = -1;
    let mut i: usize = from;
    while i < to
        invariant
            from <= i <= to <= a@.len(),
            s == a@.subrange(from as int, to as int),
            forall|j: int| 0 <= j < i - from ==> text::is_digit(#[trigger] s[j]) || s[j] == '.',
            any == exists|j: int| 0 <= j < i - from && text::is_digit(#[trigger] s[j]),
            dot ==> 0 <= at < i - from && s[at] == '.',
            forall|j: int| 0 <= j < i - from && #[trigger] s[j] == '.' ==> dot && j == at,
        decreases to - i,
    {
        let c = a[i];
        assert(s[i - from] == c);
        if '0' <= c && c <= '9' {
            any = true;
        } else if c == '.' {
            if dot {
                assert(s[at] == '.' && s[i - from] == '.');
                return false;
            }
            dot = true;
            proof {
                at = i - from;
            }
        } else {
            assert(!text::is_digit(s[i - from]) && s[i - from] != '.');
            return false;
        }
        i += 1;
    }
    any
}

fn all_digits(a: &Vec<char>, from: usize) -> (r: bool)
    requires
        from <= a@.len(),
    ensures
        r == text::is_digits(a@.skip(from as int)),
{
    let ghost s = a@.skip(from as int);
    let mut i: usize = from;
    while i < a.len()
        invariant
            from <= i <= a@.len(),
            s == a@.skip(from as int),
            forall|j: int| 0 <= j < i - from ==> text::is_digit(#[trigger] s[j]),
        decreases a@.len() - i,
    {
        let c = a[i];
        assert(s[i - from] == c);
        if c < '0' || c > '9' {
            assert(!text::is_digit(s[i - from]));
            return false;
        }
        i += 1;
    }
    from < a.len()
}

/// A text in lower case, letters from A to Z alone being mapped.
pub fn lowered(s: &str) -> (r: Vec<char>)
    ensures
        r@ == s@.map_values(|c: char| text::ascii_lower(c)),
{
    let a = text::chars(s);
    let mut out: Vec<char> = Vec::new();
    let mut i: usize = 0;
    while i < a.len()
        invariant
            i <= a@.len(),
            a@ == s@,
            out@ =~= s@.take(i as int).map_values(|c: char| text::ascii_lower(c)),
        decreases a@.len() - i,
    {
        let c = a[i];
        let d = if 'A' <= c && c <= 'Z' {
            ((c as u32 + 32) as u8) as char
        } else {
            c
        };
        assert(d == text::ascii_lower(s@[i as int]));
        out.push(d);
        i += 1;
        assert(s@.take(i as int) =~= s@.take(i - 1).push(s@[i - 1]));
    }
    assert(s@.take(s@.len() as int) =~= s@);
    out
}

/// Whether a text is a number in the notation that std reads as floating point.
pub fn reads_as_decimal(s: &str) -> (r: bool)
    ensures
        r == is_decimal(s@),
{
    let a = lowered(s);
    let ghost all = a@;
    let from: usize = if a.len() > 0 && (a[0] == '+' || a[0] == '-') {
        1
    } else {
        0
    };
    let n = text::slice(&a, from, a.len());
    let ghost m = unsigned_part(all);
    assert(n@ =~= m);
    if text::same(&n, "inf") || text::same(&n, "infinity") || text::same(&n, "nan") {
        return true;
    }
    let b = text::chars(&n);
    let mut e: usize = 0;
    assert(m.skip(0) =~= m);
    while e < b.len() && b[e] != 'e'
        invariant
            e <= b@.len(),
            b@ == m,
            first_index(m, 'e') == e + first_index(m.skip(e as int), 'e'),
        decreases b@.len() - e,
    {
        assert(m.skip(e as int).skip(1) =~= m.skip(e + 1));
        e += 1;
    }
    assert(first_index(m, 'e') == e);
    if e == b.len() {
        assert(m.subrange(0, m.len() as int) =~= m);
        return mantissa(&b, 0, b.len());
    }
    assert(m.subrange(0, e as int) =~= m.take(e as int));
    let ghost x = m.skip(e + 1);
    let start: usize = if e + 1 < b.len() && (b[e + 1] == '+' || b[e + 1] == '-') {
        assert(x[0] == m[e + 1]);
        assert(x.skip(1) =~= m.skip(e + 2));
        e + 2
    } else {
        proof {
            if x.len() > 0 {
                assert(x[0] == m[e + 1]);
            }
        }
        e + 1
    };
    assert(m.skip(start as int) =~= unsigned_part(x));
    mantissa(&b, 0, e) && all_digits(&b, start)
}

} // verus!
