//! Which definitions are accepted, what a cell's templates become, and how the
//! comparator is called for a definition.
use crate::adapter;
use crate::def::{self, BenchmarkDef, CaptureEntry};
use crate::gate;
use crate::gate_call::{self, GateThresholds};
use crate::json::{self, Json};
use crate::text;
use vstd::prelude::*;

verus! {

broadcast use json::law_lookup_put;

// ---------------------------------------------------------------------------
// Acceptance
// ---------------------------------------------------------------------------

/// Whether a capture entry can be run: its series are one, or bounded by a source of
/// keys and a ceiling above zero; and it attaches in a known way, not as a uprobe on a
/// hot path.
pub open spec fn sound(c: CaptureEntry) -> bool {
    &&& c.cardinality.class@ == "singleton"@ || (c.cardinality.class@ == "bounded"@
        && c.cardinality.key_source is Some && (c.cardinality.max_keys matches Some(n) && n > 0))
    &&& c.attach matches Some(a) ==> {
        &&& a@ == "tp_btf"@ || a@ == "tracepoint"@ || a@ == "fentry"@ || a@ == "fexit"@ || a@
            == "kprobe"@ || a@ == "kretprobe"@ || a@ == "uprobe"@ || a@ == "xdp"@ || a@ == "tc"@
        &&& !(a@ == "uprobe"@ && c.hot_path)
    }
}

proof fn lemma_entry(c: CaptureEntry)
    ensures
        def::cardinality_problems(c).len() + def::attach_problems(c).len() == 0 <==> sound(c),
{
    reveal_strlit("singleton");
    reveal_strlit("bounded");
    assert("singleton"@[0] == 's' && "bounded"@[0] == 'b');
}

proof fn lemma_entries(cs: Seq<CaptureEntry>)
    ensures
        def::capture_problems(cs).len() == 0 <==> forall|i: int|
            0 <= i < cs.len() ==> sound(#[trigger] cs[i]),
    decreases cs.len(),
{
    if cs.len() > 0 {
        let less = cs.drop_last();
        lemma_entries(less);
        lemma_entry(cs.last());
        assert(cs[cs.len() - 1] == cs.last());
        if forall|i: int| 0 <= i < cs.len() ==> sound(#[trigger] cs[i]) {
            assert forall|i: int| 0 <= i < less.len() implies sound(#[trigger] less[i]) by {
                assert(cs[i] == less[i]);
            }
        }
        if def::capture_problems(cs).len() == 0 {
            assert forall|i: int| 0 <= i < cs.len() implies sound(#[trigger] cs[i]) by {
                if i < less.len() {
                    assert(cs[i] == less[i]);
                }
            }
        }
    }
}

/// A definition is accepted exactly where its way of comparing and its tenancy class
/// are known, the parameter that it compares, if any, is declared with two values, and
/// every capture entry can be run.
pub proof fn law_which_definitions_are_accepted(d: BenchmarkDef)
    ensures
        def::problems(d).len() == 0 <==> {
            &&& d.gate.mode@ == "ab_permutation"@ || d.gate.mode@ == "longitudinal_drift"@
                || d.gate.mode@ == "subsystem_triad"@
            &&& d.tenancy@ == "single_tenant"@ || d.tenancy@ == "density"@
            &&& d.compare matches Some(dim) ==> (json::lookup(d.parameterise@, dim@) matches Some(v)
                && v.len() == 2)
            &&& forall|i: int| 0 <= i < d.capture@.len() ==> sound(#[trigger] d.capture@[i])
        },
{
    lemma_entries(d.capture@);
}

// ---------------------------------------------------------------------------
// Variables
// ---------------------------------------------------------------------------

proof fn lemma_param(e: Seq<(Seq<char>, Json)>, n: nat, i: int)
    requires
        0 <= i < n <= e.len(),
        forall|j: int| i < j < n ==> (#[trigger] e[j]).0 != e[i].0,
    ensures
        json::lookup(adapter::param_vars(e, n), e[i].0) == Some(adapter::plain(e[i].1)),
    decreases n,
{
    if i < n - 1 {
        lemma_param(e, (n - 1) as nat, i);
    }
}

/// Each parameter of a cell is a variable of its templates: a text as it is, null as
/// nothing, anything else as JSON. The build under test is one too, under `sut_sha`.
pub proof fn law_parameters_are_variables(e: Seq<(Seq<char>, Json)>, sut: Seq<char>, i: int)
    requires
        0 <= i < e.len(),
        forall|j: int| i < j < e.len() ==> (#[trigger] e[j]).0 != e[i].0,
    ensures
        json::lookup(adapter::cell_vars(Json::Obj(e), sut), "sut_sha"@) == Some(sut),
        e[i].0 != "sut_sha"@ ==> json::lookup(adapter::cell_vars(Json::Obj(e), sut), e[i].0) == Some(
            match e[i].1 {
                Json::Str(s) => s,
                Json::Null => Seq::empty(),
                _ => json::text_of(e[i].1),
            },
        ),
{
    lemma_param(e, e.len(), i);
}

/// Whether a character stands nowhere in a text.
pub open spec fn free_of(s: Seq<char>, c: char) -> bool {
    forall|i: int| 0 <= i < s.len() ==> #[trigger] s[i] != c
}

proof fn lemma_untouched(s: Seq<char>, p: Seq<char>, w: Seq<char>)
    requires
        p.len() > 0,
        free_of(s, p[0]),
    ensures
        text::replaced(s, p, w) == s,
    decreases s.len(),
{
    if s.len() >= p.len() {
        assert(s[0] != p[0]);
        assert(!text::has_prefix(s, p)) by {
            if text::has_prefix(s, p) {
                assert(s.take(p.len() as int)[0] == s[0]);
            }
        }
        assert forall|i: int| 0 <= i < s.skip(1).len() implies #[trigger] s.skip(1)[i] != p[0] by {
            assert(s[i + 1] != p[0]);
        }
        lemma_untouched(s.skip(1), p, w);
        assert(seq![s[0]] + s.skip(1) =~= s);
    }
}

proof fn lemma_inside(pre: Seq<char>, mid: Seq<char>, post: Seq<char>, p: Seq<char>, w: Seq<char>)
    requires
        p.len() > 0,
        mid.len() > 0,
        mid[0] == p[0],
        free_of(pre, p[0]),
        free_of(mid.skip(1), p[0]),
        free_of(post, p[0]),
        text::has_prefix(mid + post, p) <==> mid == p,
    ensures
        mid == p ==> text::replaced(pre + mid + post, p, w) == pre + w + post,
        mid != p ==> text::replaced(pre + mid + post, p, w) == pre + mid + post,
    decreases pre.len(),
{
    let s = pre + mid + post;
    if pre.len() == 0 {
        assert(s =~= mid + post);
        if mid == p {
            assert(s.skip(p.len() as int) =~= post);
            lemma_untouched(post, p, w);
            assert(pre + w + post =~= w + post);
        } else if s.len() >= p.len() {
            let rest = s.skip(1);
            assert(rest =~= mid.skip(1) + post);
            assert forall|i: int| 0 <= i < rest.len() implies #[trigger] rest[i] != p[0] by {
                if i < mid.len() - 1 {
                    assert(mid.skip(1)[i] != p[0]);
                    assert(rest[i] == mid.skip(1)[i]);
                } else {
                    assert(post[i - (mid.len() - 1)] != p[0]);
                    assert(rest[i] == post[i - (mid.len() - 1)]);
                }
            }
            lemma_untouched(rest, p, w);
            assert(seq![s[0]] + rest =~= s);
        }
    } else {
        let less = pre.skip(1);
        assert(s.skip(1) =~= less + mid + post);
        assert forall|i: int| 0 <= i < less.len() implies #[trigger] less[i] != p[0] by {
            assert(pre[i + 1] != p[0]);
        }
        lemma_inside(less, mid, post, p, w);
        assert(s[0] == pre[0]);
        assert(pre[0] != p[0]);
        if text::has_prefix(s, p) {
            assert(s.take(p.len() as int)[0] == s[0]);
        }
        if s.len() < p.len() {
            assert(mid != p);
        }
        assert(seq![s[0]] + (less + w + post) =~= pre + w + post);
        assert(seq![s[0]] + (less + mid + post) =~= s);
    }
}

proof fn lemma_names(k: Seq<char>, q: Seq<char>, post: Seq<char>)
    requires
        free_of(k, '}'),
        free_of(q, '}'),
    ensures
        text::has_prefix(adapter::reference(k) + post, adapter::reference(q)) <==> adapter::reference(
            k,
        ) == adapter::reference(q),
        adapter::reference(k) == adapter::reference(q) <==> k == q,
        adapter::reference(k).len() > 0,
        adapter::reference(k)[0] == '{',
{
    reveal_strlit("{");
    reveal_strlit("}");
    let a = adapter::reference(k);
    let b = adapter::reference(q);
    assert(a[0] == '{' && b[0] == '{');
    assert(a.len() == k.len() + 2 && b.len() == q.len() + 2);
    assert(a[k.len() + 1int] == '}' && b[q.len() + 1int] == '}');
    if a == b {
        assert(k =~= a.subrange(1, 1int + k.len()));
        assert(q =~= b.subrange(1, 1int + q.len()));
    }
    let s = a + post;
    if text::has_prefix(s, b) {
        let t = s.take(b.len() as int);
        assert(t == b);
        if q.len() < k.len() {
            assert(t[q.len() + 1int] == k[q.len() as int]);
        } else if k.len() < q.len() {
            assert(t[k.len() + 1int] == '}');
            assert(b[k.len() + 1int] == q[k.len() as int]);
        } else {
            assert(t =~= a);
        }
    }
    if a == b {
        assert(s.take(b.len() as int) =~= b);
    }
}

proof fn lemma_rendered(
    pre: Seq<char>,
    k: Seq<char>,
    post: Seq<char>,
    vars: Seq<(Seq<char>, Seq<char>)>,
    i: int,
    n: nat,
)
    requires
        0 <= i < vars.len(),
        n <= vars.len(),
        vars[i].0 == k,
        free_of(pre, '{'),
        free_of(post, '{'),
        free_of(k, '{'),
        free_of(vars[i].1, '{'),
        forall|j: int| 0 <= j < vars.len() ==> free_of((#[trigger] vars[j]).0, '}'),
        forall|j: int| 0 <= j < vars.len() && j != i ==> (#[trigger] vars[j]).0 != k,
    ensures
        adapter::rendered_to(pre + adapter::reference(k) + post, vars, n) == if n <= i {
            pre + adapter::reference(k) + post
        } else {
            pre + vars[i].1 + post
        },
    decreases n,
{
    if n > 0 {
        lemma_rendered(pre, k, post, vars, i, (n - 1) as nat);
        let q = vars[n - 1].0;
        assert(free_of(vars[i].0, '}'));
        lemma_names(k, q, post);
        lemma_names(q, k, post);
        if n - 1 <= i {
            let mid = adapter::reference(k);
            reveal_strlit("}");
            reveal_strlit("{");
            assert forall|j: int| 0 <= j < mid.skip(1).len() implies #[trigger] mid.skip(1)[j] != '{' by {
                if j < k.len() {
                    assert(mid.skip(1)[j] == k[j]);
                } else {
                    assert(mid.skip(1)[j] == '}');
                }
            }
            lemma_inside(pre, mid, post, adapter::reference(q), vars[n - 1].1);
        } else {
            let s = pre + vars[i].1 + post;
            assert forall|j: int| 0 <= j < s.len() implies #[trigger] s[j] != '{' by {
                if j < pre.len() {
                    assert(s[j] == pre[j]);
                } else if j < pre.len() + vars[i].1.len() {
                    assert(s[j] == vars[i].1[j - pre.len()]);
                } else {
                    assert(s[j] == post[j - pre.len() - vars[i].1.len()]);
                }
            }
            lemma_untouched(s, adapter::reference(q), vars[n - 1].1);
        }
    }
}

/// A reference to a variable in a template becomes the variable's value, and the text
/// around it stays.
pub proof fn law_references_become_values(
    pre: Seq<char>,
    k: Seq<char>,
    post: Seq<char>,
    vars: Seq<(Seq<char>, Seq<char>)>,
    i: int,
)
    requires
        0 <= i < vars.len(),
        vars[i].0 == k,
        free_of(pre, '{'),
        free_of(post, '{'),
        free_of(k, '{'),
        free_of(vars[i].1, '{'),
        forall|j: int| 0 <= j < vars.len() ==> free_of((#[trigger] vars[j]).0, '}'),
        forall|j: int| 0 <= j < vars.len() && j != i ==> (#[trigger] vars[j]).0 != k,
    ensures
        adapter::rendered(pre + ("{"@ + k + "}"@) + post, vars) == pre + vars[i].1 + post,
{
    lemma_rendered(pre, k, post, vars, i, vars.len());
}

proof fn lemma_no_reference(t: Seq<char>, vars: Seq<(Seq<char>, Seq<char>)>, n: nat)
    requires
        free_of(t, '{'),
        n <= vars.len(),
    ensures
        adapter::rendered_to(t, vars, n) == t,
    decreases n,
{
    if n > 0 {
        lemma_no_reference(t, vars, (n - 1) as nat);
        reveal_strlit("{");
        assert(adapter::reference(vars[n - 1].0)[0] == '{');
        lemma_untouched(t, adapter::reference(vars[n - 1].0), vars[n - 1].1);
    }
}

/// A template without references stays as it is.
pub proof fn law_plain_templates_stay(t: Seq<char>, vars: Seq<(Seq<char>, Seq<char>)>)
    requires
        free_of(t, '{'),
    ensures
        adapter::rendered(t, vars) == t,
{
    lemma_no_reference(t, vars, vars.len());
}

// ---------------------------------------------------------------------------
// The comparator
// ---------------------------------------------------------------------------

proof fn lemma_flagged(flag: Seq<char>, vs: Seq<Seq<char>>, i: int)
    ensures
        gate_call::flagged(flag, vs).len() == 2 * vs.len(),
        0 <= i < vs.len() ==> gate_call::flagged(flag, vs)[2 * i] == flag && gate_call::flagged(
            flag,
            vs,
        )[2 * i + 1] == vs[i],
    decreases vs.len(),
{
    if vs.len() > 0 {
        lemma_flagged(flag, vs.drop_last(), i);
    }
}

/// The comparator is called in the definition's mode with the first group's records
/// after `--a` and the second's after `--b`, in their order; with each threshold after
/// its flag; with a flag before each pattern to ignore; and it allows lower grades
/// exactly where that is asked, by the last word.
pub proof fn law_comparator_is_given_both_groups(
    mode: Seq<char>,
    a: Seq<Seq<char>>,
    b: Seq<Seq<char>>,
    t: GateThresholds,
    i: int,
)
    ensures
        ({
            let line = gate_call::gate_line(mode, a, b, t);
            let n: int = 4int + a.len() + b.len();
            let k: int = text::texts(t.ignore@).len() as int;
            &&& line[0] == "--mode"@ && line[1] == mode && line[2] == "--a"@
            &&& 0 <= i < a.len() ==> line[3 + i] == a[i]
            &&& line[3int + a.len()] == "--b"@
            &&& 0 <= i < b.len() ==> line[4 + a.len() + i] == b[i]
            &&& line[n] == "--p-threshold"@ && line[n + 1] == t.p_threshold@
            &&& line[n + 2] == "--noise-threshold"@ && line[n + 3] == t.noise_threshold@
            &&& line[n + 4] == "--resamples"@ && line[n + 5] == text::decimal(t.resamples as nat)
            &&& 0 <= i < k ==> line[n + 6 + 2 * i] == "--ignore"@ && line[n + 7 + 2 * i]
                == text::texts(t.ignore@)[i]
            &&& t.allow_ungraded ==> line.len() == n + 7 + 2 * k && line.last()
                == "--allow-ungraded"@
            &&& !t.allow_ungraded ==> line.len() == n + 6 + 2 * k
        }),
{
    lemma_flagged("--ignore"@, text::texts(t.ignore@), i);
}

/// What the comparator's exit code says is what its document says.
pub proof fn law_exit_codes_are_read_back(v: Seq<char>)
    requires
        v == "pass"@ || v == "fail"@ || v == "contaminated"@,
    ensures
        gate_call::verdict_of(gate::exit_code_for(v) as i32) == v,
{
    gate::lemma_verdict_names();
}

} // verus!
