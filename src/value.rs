use vstd::prelude::*;

verus! {

/// An instant as seconds and nanoseconds since the Unix epoch (UTC).
#[derive(Debug, Clone, Copy, PartialEq, Eq)]
pub struct Timestamp {
    pub seconds: i64,
    pub nanos: u32,
}

/// A value that can be compared structurally.
///
/// Leaves (`Bool` to `Time`) are compared by equality. `Opt` is an optional
/// value, `Boxed` an ownership wrapper that comparison looks through, `List` a
/// homogeneous sequence. `Struct` is a value of a product type and `Variant`
/// a value of a sum type, named by its variant; both carry the field layout
/// of their declaration.
#[derive(Debug, PartialEq)]
pub enum Value {
    Bool(bool),
    Int(i128),
    UInt(u128),
    Char(char),
    Text(String),
    Path(String),
    Time(Timestamp),
    Opt(Option<Box<Value>>),
    Boxed(Box<Value>),
    List(Vec<Value>),
    Struct(Members),
    Variant(String, Members),
}

/// The members of a struct or of an enum variant, in declaration order.
#[derive(Debug, PartialEq)]
pub enum Members {
    Unit,
    Tuple(Vec<Value>),
    Named(Vec<Field>),
}

/// A named member.
#[derive(Debug, PartialEq)]
pub struct Field {
    pub name: String,
    pub value: Value,
}

/// Two member lists have the same layout: both unit, both positional with as
/// many members, or both named with the same names in the same order.
pub open spec fn same_layout(m: Members, n: Members) -> bool {
    match (m, n) {
        (Members::Unit, Members::Unit) => true,
        (Members::Tuple(xs), Members::Tuple(ys)) => xs@.len() == ys@.len(),
        (Members::Named(fs), Members::Named(gs)) => {
            &&& fs@.len() == gs@.len()
            &&& forall|i: int| 0 <= i < fs@.len() ==> #[trigger] fs@[i].name@ == gs@[i].name@
        },
        _ => false,
    }
}

/// Tells whether two member lists have the same layout.
pub fn layouts_match(m: &Members, n: &Members) -> (r: bool)
    ensures
        r == same_layout(*m, *n),
{
    match (m, n) {
        (Members::Unit, Members::Unit) => true,
        (Members::Tuple(xs), Members::Tuple(ys)) => xs.len() == ys.len(),
        (Members::Named(fs), Members::Named(gs)) => {
            if fs.len() != gs.len() {
                return false;
            }
            let mut i: usize = 0;
            while i < fs.len()
                invariant
                    *m == Members::Named(*fs),
                    *n == Members::Named(*gs),
                    fs@.len() == gs@.len(),
                    0 <= i <= fs@.len(),
                    forall|j: int| 0 <= j < i ==> #[trigger] fs@[j].name@ == gs@[j].name@,
                decreases fs@.len() - i,
            {
                if !(fs[i].name == gs[i].name) {
                    assert(fs@[i as int].name@ != gs@[i as int].name@);
                    return false;
                }
                i = i + 1;
            }
            true
        },
        _ => false,
    }
}

} // verus!
