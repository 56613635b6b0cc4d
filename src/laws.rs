use vstd::prelude::*;
use crate::engine::{
    differences, found, member_differences, named_differences, none_path, positional_differences,
    same_path, self_path, some_path, Diff,
};
use crate::value::{Field, Members, Value};

verus! {

/// The value inside any ownership wrappers around it.
pub open spec fn unwrapped(v: Value) -> Value
    decreases v,
{
    match v {
        Value::Boxed(x) => unwrapped(*x),
        _ => v,
    }
}

/// Two leaves of the same kind that are not equal.
pub open spec fn distinct_leaves(a: Value, b: Value) -> bool {
    match (a, b) {
        (Value::Bool(x), Value::Bool(y)) => x != y,
        (Value::Int(x), Value::Int(y)) => x != y,
        (Value::UInt(x), Value::UInt(y)) => x != y,
        (Value::Char(x), Value::Char(y)) => x != y,
        (Value::Text(x), Value::Text(y)) => x@ != y@,
        (Value::Path(x), Value::Path(y)) => x@ != y@ && !same_path(x@, y@),
        (Value::Time(x), Value::Time(y)) => x != y,
        _ => false,
    }
}

proof fn lemma_no_differences(a: Value, b: Value)
    requires
        unwrapped(a) == unwrapped(b),
    ensures
        differences(a, b).len() == 0,
    decreases a, b,
{
    match (a, b) {
        (Value::Boxed(x), _) => lemma_no_differences(*x, b),
        (_, Value::Boxed(y)) => lemma_no_differences(a, *y),
        _ => {
            assert(a == b);
            match a {
                Value::Opt(Some(p)) => lemma_no_differences(*p, *p),
                Value::List(xs) => lemma_no_positional_differences(xs@, xs@.len(), true),
                Value::Struct(m) => lemma_no_member_differences(m),
                Value::Variant(v, m) => lemma_no_member_differences(m),
                _ => {},
            }
        },
    }
}

proof fn lemma_no_member_differences(m: Members)
    ensures
        member_differences(m, m).len() == 0,
    decreases m, m,
{
    match m {
        Members::Tuple(xs) => lemma_no_positional_differences(xs@, xs@.len(), false),
        Members::Named(fs) => lemma_no_named_differences(fs@, fs@.len()),
        Members::Unit => {},
    }
}

proof fn lemma_no_positional_differences(xs: Seq<Value>, n: nat, in_sequence: bool)
    ensures
        positional_differences(xs, xs, n, in_sequence).len() == 0,
    decreases xs, xs, n,
{
    if n == 0 || n > xs.len() {
    } else {
        let i = (n - 1) as nat;
        lemma_no_positional_differences(xs, i, in_sequence);
        lemma_no_differences(xs[i as int], xs[i as int]);
    }
}

proof fn lemma_no_named_differences(fs: Seq<Field>, n: nat)
    ensures
        named_differences(fs, fs, n).len() == 0,
    decreases fs, fs, n,
{
    if n == 0 || n > fs.len() {
    } else {
        let i = (n - 1) as nat;
        lemma_no_named_differences(fs, i);
        lemma_no_differences(fs[i as int].value, fs[i as int].value);
    }
}

/// A value compared with itself has no differences.
pub proof fn law_reflexive(x: Value)
    ensures
        x.divergences_with(&x).len() == 0,
{
    lemma_no_differences(x, x);
}

/// Ownership wrappers are looked through: they change nothing in what a
/// comparison finds, and add no path segment.
pub proof fn law_wrappers_transparent(a: Value, b: Value)
    ensures
        a.divergences_with(&b) == unwrapped(a).divergences_with(&unwrapped(b)),
    decreases a, b,
{
    match (a, b) {
        (Value::Boxed(x), _) => law_wrappers_transparent(*x, b),
        (_, Value::Boxed(y)) => law_wrappers_transparent(a, *y),
        _ => {},
    }
}

/// Two distinct leaves differ at exactly one place: the empty path, with the
/// two leaves themselves.
pub proof fn law_leaf_precision(a: Value, b: Value)
    requires
        distinct_leaves(a, b),
    ensures
        a.divergences_with(&b) == seq![found(Seq::empty(), a, b)],
{
}

/// An absent and a present value differ at `none`; a present and an absent
/// one at `some`; two present equal values do not differ.
pub proof fn law_presence(v: Value)
    ensures
        Value::Opt(None).divergences_with(&Value::Opt(Some(Box::new(v)))) == seq![
            found(none_path(), Value::Opt(None), Value::Opt(Some(Box::new(v)))),
        ],
        Value::Opt(Some(Box::new(v))).divergences_with(&Value::Opt(None)) == seq![
            found(some_path(), Value::Opt(Some(Box::new(v))), Value::Opt(None)),
        ],
        Value::Opt(Some(Box::new(v))).divergences_with(&Value::Opt(Some(Box::new(v)))).len() == 0,
{
    lemma_no_differences(v, v);
}

/// Values of two different variants differ at one place, `self`, with the
/// two whole values; neither payload is looked into.
pub proof fn law_cross_variant(v: String, m: Members, w: String, n: Members)
    requires
        v@ != w@,
    ensures
        Value::Variant(v, m).divergences_with(&Value::Variant(w, n)) == seq![
            found(self_path(), Value::Variant(v, m), Value::Variant(w, n)),
        ],
{
}

} // verus!
