use vstd::prelude::*;
use crate::value::Value;

verus! {

/// One point where two compared values diverge.
///
/// `field` locates it from the root of the comparison (empty: the compared
/// values themselves differ); `left` and `right` borrow the two values found
/// there, so a difference never outlives the values it was found in.
#[derive(Debug)]
pub struct Difference<'a> {
    pub field: String,
    pub left: &'a Value,
    pub right: &'a Value,
}

/// What a `Difference` states: a path and the two values found there.
pub struct Divergence {
    pub field: Seq<char>,
    pub left: Value,
    pub right: Value,
}

impl<'a> View for Difference<'a> {
    type V = Divergence;

    open spec fn view(&self) -> Divergence {
        Divergence { field: self.field@, left: *self.left, right: *self.right }
    }
}

/// What a list of differences states, in order.
pub open spec fn divergences<'a>(ds: Seq<Difference<'a>>) -> Seq<Divergence> {
    ds.map_values(|d: Difference<'a>| d@)
}


/// One difference, as it goes into a structured log record.
pub struct SlogDifference<'a>(pub Difference<'a>);

/// The differences of one comparison, numbered in order in a log record.
pub struct Differences<'a>(pub Vec<SlogDifference<'a>>);

impl<'a> Differences<'a> {
    /// What the record states, in order.
    pub open spec fn entries(&self) -> Seq<Divergence> {
        self.0@.map_values(|s: SlogDifference<'a>| s.0@)
    }

    /// The record of a comparison's outcome: empty when nothing differs, else
    /// every difference in the order found.
    pub fn new(found: Option<Vec<Difference<'a>>>) -> (r: Differences<'a>)
        ensures
            (match found {
                None => r.entries().len() == 0,
                Some(ds) => r.entries() == divergences(ds@),
            }),
    {
        match found {
            None => Differences(Vec::new()),
            Some(ds) => {
                let ghost all = divergences(ds@);
                let mut rest = ds;
                let mut reversed: Vec<Difference<'a>> = Vec::new();
                while rest.len() > 0
                    invariant
                        all =~= divergences(rest@) + divergences(reversed@).reverse(),
                    decreases rest@.len(),
                {
                    let ghost before = rest@;
                    let d = rest.pop().unwrap();
                    proof {
                        assert(before =~= rest@.push(d));
                        assert(divergences(before) =~= divergences(rest@).push(d@));
                        assert(divergences(reversed@.push(d)) =~= divergences(reversed@).push(d@));
                        assert(divergences(reversed@).push(d@).reverse() =~= seq![d@]
                            + divergences(reversed@).reverse());
                    }
                    reversed.push(d);
                }
                let mut out: Vec<SlogDifference<'a>> = Vec::new();
                while reversed.len() > 0
                    invariant
                        all =~= Differences(out).entries() + divergences(reversed@).reverse(),
                    decreases reversed@.len(),
                {
                    let ghost before = reversed@;
                    let ghost done = Differences(out).entries();
                    let d = reversed.pop().unwrap();
                    proof {
                        assert(before =~= reversed@.push(d));
                        assert(divergences(before) =~= divergences(reversed@).push(d@));
                        assert(divergences(reversed@).push(d@).reverse() =~= seq![d@]
                            + divergences(reversed@).reverse());
                    }
                    out.push(SlogDifference(d));
                    proof {
                        assert(Differences(out).entries() =~= done.push(d@));
                    }
                }
                Differences(out)
            },
        }
    }
}

} // verus!
