use vstd::prelude::*;
use crate::difference::{divergences, Difference, Divergence};
use crate::path::{
    decimal, decimal_string, index_segment, index_segment_string, join, join_path, under_variant,
    under_variant_path,
};
use crate::value::{layouts_match, same_layout, Field, Members, Value};

verus! {

/// The two paths std's `Path` takes as equal: those with the same components.
pub uninterp spec fn same_path(a: Seq<char>, b: Seq<char>) -> bool;

/// Relies on `PartialEq` for `std::path::Path`, which compares two paths
/// component by component.
#[verifier::external_body]
fn paths_equal(a: &str, b: &str) -> (r: bool)
    ensures
        r == same_path(a@, b@),
{
    std::path::Path::new(a) == std::path::Path::new(b)
}

/// The path `"none"`.
pub open spec fn none_path() -> Seq<char> {
    seq!['n', 'o', 'n', 'e']
}

/// The path `"some"`.
pub open spec fn some_path() -> Seq<char> {
    seq!['s', 'o', 'm', 'e']
}

/// The path `"self"`.
pub open spec fn self_path() -> Seq<char> {
    seq!['s', 'e', 'l', 'f']
}

/// A divergence at `field` between `a` and `b`.
pub open spec fn found(field: Seq<char>, a: Value, b: Value) -> Divergence {
    Divergence { field, left: a, right: b }
}

/// The single divergence "these two values differ", or none.
pub open spec fn leaf(equal: bool, a: Value, b: Value) -> Seq<Divergence> {
    if equal {
        Seq::empty()
    } else {
        seq![found(Seq::empty(), a, b)]
    }
}

/// Each divergence moved under the path segment `segment`.
pub open spec fn prefixed(segment: Seq<char>, ds: Seq<Divergence>) -> Seq<Divergence> {
    ds.map_values(|d: Divergence| found(join(segment, d.field), d.left, d.right))
}

/// Each divergence moved under the variant named `name`.
pub open spec fn in_variant(name: Seq<char>, ds: Seq<Divergence>) -> Seq<Divergence> {
    ds.map_values(|d: Divergence| found(under_variant(name, d.field), d.left, d.right))
}

/// The segment of the member at position `i`: `[i]` in a sequence, `i` in a
/// tuple struct or tuple variant.
pub open spec fn position_segment(i: nat, in_sequence: bool) -> Seq<char> {
    if in_sequence {
        index_segment(i)
    } else {
        decimal(i)
    }
}

/// The ordered divergences between `a` and `b`; empty when they are equal.
///
/// - Wrappers on either side are looked through.
/// - Two leaves of one kind: one divergence at the empty path unless equal.
/// - Optional values: absent against present at `none`, present against
///   absent at `some`; two present values are compared as they are.
/// - Sequences: elements paired by index up to the shorter length, each found
///   under `[i]`; elements past the shorter length are not reported.
/// - Structs of one layout: member by member, under the member's name or
///   position.
/// - Variants of one name and layout: member by member, under the variant's
///   name and then the member's; variants that differ give one divergence at
///   `self` holding the two whole values.
/// - Values of different kinds, or structs of different layouts: one
///   divergence at the empty path.
pub open spec fn differences(a: Value, b: Value) -> Seq<Divergence>
    decreases a, b,
{
    match (a, b) {
        (Value::Boxed(x), _) => differences(*x, b),
        (_, Value::Boxed(y)) => differences(a, *y),
        (Value::Bool(x), Value::Bool(y)) => leaf(x == y, a, b),
        (Value::Int(x), Value::Int(y)) => leaf(x == y, a, b),
        (Value::UInt(x), Value::UInt(y)) => leaf(x == y, a, b),
        (Value::Char(x), Value::Char(y)) => leaf(x == y, a, b),
        (Value::Text(x), Value::Text(y)) => leaf(x@ == y@, a, b),
        (Value::Path(x), Value::Path(y)) => leaf(x@ == y@ || same_path(x@, y@), a, b),
        (Value::Time(x), Value::Time(y)) => leaf(x == y, a, b),
        (Value::Opt(x), Value::Opt(y)) => match (x, y) {
            (None, None) => Seq::empty(),
            (None, Some(_)) => seq![found(none_path(), a, b)],
            (Some(_), None) => seq![found(some_path(), a, b)],
            (Some(p), Some(q)) => differences(*p, *q),
        },
        (Value::List(xs), Value::List(ys)) => {
            let n = if xs@.len() <= ys@.len() { xs@.len() } else { ys@.len() };
            positional_differences(xs@, ys@, n, true)
        },
        (Value::Struct(m), Value::Struct(n)) => {
            if same_layout(m, n) {
                member_differences(m, n)
            } else {
                leaf(false, a, b)
            }
        },
        (Value::Variant(v, m), Value::Variant(w, n)) => {
            if v@ == w@ && same_layout(m, n) {
                in_variant(v@, member_differences(m, n))
            } else {
                seq![found(self_path(), a, b)]
            }
        },
        _ => leaf(false, a, b),
    }
}

/// The divergences between two member lists of the same layout, member by
/// member in declaration order.
pub open spec fn member_differences(m: Members, n: Members) -> Seq<Divergence>
    decreases m, n,
{
    match (m, n) {
        (Members::Tuple(xs), Members::Tuple(ys)) => positional_differences(xs@, ys@, xs@.len(), false),
        (Members::Named(fs), Members::Named(gs)) => named_differences(fs@, gs@, fs@.len()),
        _ => Seq::empty(),
    }
}

/// The divergences between the first `n` members of `xs` and of `ys`, paired
/// by position, in ascending order.
pub open spec fn positional_differences(
    xs: Seq<Value>,
    ys: Seq<Value>,
    n: nat,
    in_sequence: bool,
) -> Seq<Divergence>
    decreases xs, ys, n,
{
    if n == 0 || n > xs.len() || n > ys.len() {
        Seq::empty()
    } else {
        let i = (n - 1) as nat;
        positional_differences(xs, ys, i, in_sequence) + prefixed(
            position_segment(i, in_sequence),
            differences(xs[i as int], ys[i as int]),
        )
    }
}

/// The divergences between the first `n` named members of `fs` and of `gs`,
/// paired by position, each under the member's name, in declaration order.
pub open spec fn named_differences(fs: Seq<Field>, gs: Seq<Field>, n: nat) -> Seq<Divergence>
    decreases fs, gs, n,
{
    if n == 0 || n > fs.len() || n > gs.len() {
        Seq::empty()
    } else {
        let i = n - 1;
        named_differences(fs, gs, (n - 1) as nat) + prefixed(
            fs[i].name@,
            differences(fs[i].value, gs[i].value),
        )
    }
}


/// Structural comparison: every point where two values of one shape diverge.
pub trait Diff {
    /// What comparing `self` with `other` finds, in order.
    spec fn divergences_with(&self, other: &Self) -> Seq<Divergence>;

    /// `None` when nothing diverges, else every difference, in order.
    fn diff<'a>(&'a self, other: &'a Self) -> (r: Option<Vec<Difference<'a>>>)
        ensures
            (match r {
                None => self.divergences_with(other).len() == 0,
                Some(ds) => ds@.len() > 0 && divergences(ds@) == self.divergences_with(other),
            }),
    ;
}

impl Diff for Value {
    open spec fn divergences_with(&self, other: &Self) -> Seq<Divergence> {
        differences(*self, *other)
    }

    fn diff<'a>(&'a self, other: &'a Self) -> (r: Option<Vec<Difference<'a>>>) {
        let found = collect(self, other);
        if found.len() == 0 {
            None
        } else {
            Some(found)
        }
    }
}

/// Appends each of `ds`, moved under the path segment `segment`, to `out`.
fn push_prefixed<'a>(segment: &str, ds: &Vec<Difference<'a>>, out: &mut Vec<Difference<'a>>)
    ensures
        divergences(final(out)@) == divergences(old(out)@) + prefixed(segment@, divergences(ds@)),
{
    let ghost start = divergences(out@);
    let mut i: usize = 0;
    while i < ds.len()
        invariant
            0 <= i <= ds@.len(),
            start == divergences(old(out)@),
            divergences(out@) =~= start + prefixed(segment@, divergences(ds@.take(i as int))),
        decreases ds@.len() - i,
    {
        let d = &ds[i];
        let field = join_path(segment, d.field.as_str());
        let ghost before = out@;
        let next = Difference { field, left: d.left, right: d.right };
        out.push(next);
        proof {
            let done = divergences(ds@.take(i as int));
            assert(ds@.take(i + 1) =~= ds@.take(i as int).push(ds@[i as int]));
            assert(divergences(ds@.take(i + 1)) =~= done.push(ds@[i as int]@));
            assert(prefixed(segment@, done.push(ds@[i as int]@)) =~= prefixed(segment@, done).push(next@));
            assert(divergences(out@) =~= divergences(before).push(next@));
        }
        i = i + 1;
    }
    proof {
        assert(ds@.take(ds@.len() as int) =~= ds@);
    }
}

/// Appends each of `ds`, moved under the variant named `name`, to `out`.
fn push_in_variant<'a>(name: &str, ds: &Vec<Difference<'a>>, out: &mut Vec<Difference<'a>>)
    ensures
        divergences(final(out)@) == divergences(old(out)@) + in_variant(name@, divergences(ds@)),
{
    let ghost start = divergences(out@);
    let mut i: usize = 0;
    while i < ds.len()
        invariant
            0 <= i <= ds@.len(),
            start == divergences(old(out)@),
            divergences(out@) =~= start + in_variant(name@, divergences(ds@.take(i as int))),
        decreases ds@.len() - i,
    {
        let d = &ds[i];
        let field = under_variant_path(name, d.field.as_str());
        let ghost before = out@;
        let next = Difference { field, left: d.left, right: d.right };
        out.push(next);
        proof {
            let done = divergences(ds@.take(i as int));
            assert(ds@.take(i + 1) =~= ds@.take(i as int).push(ds@[i as int]));
            assert(divergences(ds@.take(i + 1)) =~= done.push(ds@[i as int]@));
            assert(in_variant(name@, done.push(ds@[i as int]@)) =~= in_variant(name@, done).push(next@));
            assert(divergences(out@) =~= divergences(before).push(next@));
        }
        i = i + 1;
    }
    proof {
        assert(ds@.take(ds@.len() as int) =~= ds@);
    }
}

/// A single difference at `field` between the two whole values.
fn one<'a>(field: String, a: &'a Value, b: &'a Value) -> (r: Vec<Difference<'a>>)
    ensures
        divergences(r@) == seq![found(field@, *a, *b)],
{
    let r = vec![Difference { field, left: a, right: b }];
    proof {
        assert(divergences(r@) =~= seq![found(field@, *a, *b)]);
    }
    r
}

/// The differences between two leaves known to be equal or not.
fn leaf_differences<'a>(equal: bool, a: &'a Value, b: &'a Value) -> (r: Vec<Difference<'a>>)
    ensures
        divergences(r@) == leaf(equal, *a, *b),
{
    if equal {
        let r = Vec::new();
        proof {
            assert(divergences(r@) =~= leaf(equal, *a, *b));
        }
        r
    } else {
        one(String::new(), a, b)
    }
}

/// The differences between `a` and `b`, in order; empty when they are equal.
fn collect<'a>(a: &'a Value, b: &'a Value) -> (r: Vec<Difference<'a>>)
    ensures
        divergences(r@) == differences(*a, *b),
    decreases a, b,
{
    match (a, b) {
        (Value::Boxed(x), _) => collect(&**x, b),
        (_, Value::Boxed(y)) => collect(a, &**y),
        (Value::Bool(x), Value::Bool(y)) => leaf_differences(*x == *y, a, b),
        (Value::Int(x), Value::Int(y)) => leaf_differences(*x == *y, a, b),
        (Value::UInt(x), Value::UInt(y)) => leaf_differences(*x == *y, a, b),
        (Value::Char(x), Value::Char(y)) => leaf_differences(*x == *y, a, b),
        (Value::Text(x), Value::Text(y)) => leaf_differences(*x == *y, a, b),
        (Value::Path(x), Value::Path(y)) => leaf_differences(
            *x == *y || paths_equal(x.as_str(), y.as_str()),
            a,
            b,
        ),
        (Value::Time(x), Value::Time(y)) => leaf_differences(
            x.seconds == y.seconds && x.nanos == y.nanos,
            a,
            b,
        ),
        (Value::Opt(x), Value::Opt(y)) => match (x, y) {
            (None, None) => {
                let r = Vec::new();
                proof {
                    assert(divergences(r@) =~= differences(*a, *b));
                }
                r
            },
            (None, Some(_)) => {
                proof {
                    reveal_strlit("none");
                }
                let field = String::from_str("none");
                proof {
                    assert(field@ =~= none_path());
                }
                one(field, a, b)
            },
            (Some(_), None) => {
                proof {
                    reveal_strlit("some");
                }
                let field = String::from_str("some");
                proof {
                    assert(field@ =~= some_path());
                }
                one(field, a, b)
            },
            (Some(p), Some(q)) => collect(&**p, &**q),
        },
        (Value::List(xs), Value::List(ys)) => {
            let n = if xs.len() <= ys.len() {
                xs.len()
            } else {
                ys.len()
            };
            collect_positional(xs, ys, n, true)
        },
        (Value::Struct(m), Value::Struct(n)) => {
            if layouts_match(m, n) {
                collect_members(m, n)
            } else {
                leaf_differences(false, a, b)
            }
        },
        (Value::Variant(v, m), Value::Variant(w, n)) => {
            if *v == *w && layouts_match(m, n) {
                let inner = collect_members(m, n);
                let mut out = Vec::new();
                push_in_variant(v.as_str(), &inner, &mut out);
                proof {
                    assert(divergences(out@) =~= differences(*a, *b));
                }
                out
            } else {
                proof {
                    reveal_strlit("self");
                }
                let field = String::from_str("self");
                proof {
                    assert(field@ =~= self_path());
                }
                one(field, a, b)
            }
        },
        _ => leaf_differences(false, a, b),
    }
}

/// The differences between two member lists of the same layout.
fn collect_members<'a>(m: &'a Members, n: &'a Members) -> (r: Vec<Difference<'a>>)
    ensures
        divergences(r@) == member_differences(*m, *n),
    decreases m, n,
{
    match (m, n) {
        (Members::Tuple(xs), Members::Tuple(ys)) => {
            if xs.len() <= ys.len() {
                collect_positional(xs, ys, xs.len(), false)
            } else {
                let r = Vec::new();
                proof {
                    assert(divergences(r@) =~= member_differences(*m, *n));
                }
                r
            }
        },
        (Members::Named(fs), Members::Named(gs)) => {
            if fs.len() <= gs.len() {
                collect_named(fs, gs, fs.len())
            } else {
                let r = Vec::new();
                proof {
                    assert(divergences(r@) =~= member_differences(*m, *n));
                }
                r
            }
        },
        _ => {
            let r = Vec::new();
            proof {
                assert(divergences(r@) =~= member_differences(*m, *n));
            }
            r
        },
    }
}

/// The differences between the first `n` members of `xs` and of `ys`.
fn collect_positional<'a>(xs: &'a Vec<Value>, ys: &'a Vec<Value>, n: usize, in_sequence: bool) -> (r:
    Vec<Difference<'a>>)
    requires
        n <= xs@.len(),
        n <= ys@.len(),
    ensures
        divergences(r@) == positional_differences(xs@, ys@, n as nat, in_sequence),
    decreases xs, ys, n,
{
    let mut out: Vec<Difference<'a>> = Vec::new();
    let mut i: usize = 0;
    proof {
        assert(divergences(out@) =~= positional_differences(xs@, ys@, 0, in_sequence));
    }
    while i < n
        invariant
            i <= n <= xs@.len(),
            n <= ys@.len(),
            divergences(out@) == positional_differences(xs@, ys@, i as nat, in_sequence),
        decreases n - i,
    {
        let child = collect(&xs[i], &ys[i]);
        let segment = if in_sequence {
            index_segment_string(i)
        } else {
            decimal_string(i)
        };
        push_prefixed(segment.as_str(), &child, &mut out);
        i = i + 1;
    }
    out
}

/// The differences between the first `n` named members of `fs` and of `gs`.
fn collect_named<'a>(fs: &'a Vec<Field>, gs: &'a Vec<Field>, n: usize) -> (r: Vec<Difference<'a>>)
    requires
        n <= fs@.len(),
        n <= gs@.len(),
    ensures
        divergences(r@) == named_differences(fs@, gs@, n as nat),
    decreases fs, gs, n,
{
    let mut out: Vec<Difference<'a>> = Vec::new();
    let mut i: usize = 0;
    proof {
        assert(divergences(out@) =~= named_differences(fs@, gs@, 0));
    }
    while i < n
        invariant
            i <= n <= fs@.len(),
            n <= gs@.len(),
            divergences(out@) == named_differences(fs@, gs@, i as nat),
        decreases n - i,
    {
        let child = collect(&fs[i].value, &gs[i].value);
        push_prefixed(fs[i].name.as_str(), &child, &mut out);
        i = i + 1;
    }
    out
}

} // verus!
