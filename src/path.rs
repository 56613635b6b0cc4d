use vstd::prelude::*;

verus! {

/// The ASCII character of a decimal digit.
pub open spec fn digit_char(d: nat) -> char {
    if d == 0 { '0' }
    else if d == 1 { '1' }
    else if d == 2 { '2' }
    else if d == 3 { '3' }
    else if d == 4 { '4' }
    else if d == 5 { '5' }
    else if d == 6 { '6' }
    else if d == 7 { '7' }
    else if d == 8 { '8' }
    else { '9' }
}

/// The decimal digits of `n`, most significant first, without sign or padding.
pub open spec fn decimal(n: nat) -> Seq<char>
    decreases n,
{
    if n < 10 {
        seq![digit_char(n)]
    } else {
        decimal(n / 10).push(digit_char(n % 10))
    }
}

fn digit_str(d: usize) -> (r: &'static str)
    requires
        d < 10,
    ensures
        r@ == seq![digit_char(d as nat)],
{
    proof {
        reveal_strlit("0");
        reveal_strlit("1");
        reveal_strlit("2");
        reveal_strlit("3");
        reveal_strlit("4");
        reveal_strlit("5");
        reveal_strlit("6");
        reveal_strlit("7");
        reveal_strlit("8");
        reveal_strlit("9");
    }
    let r = if d == 0 { "0" }
    else if d == 1 { "1" }
    else if d == 2 { "2" }
    else if d == 3 { "3" }
    else if d == 4 { "4" }
    else if d == 5 { "5" }
    else if d == 6 { "6" }
    else if d == 7 { "7" }
    else if d == 8 { "8" }
    else { "9" };
    assert(r@ =~= seq![digit_char(d as nat)]);
    r
}

/// Writes `n` in decimal, as the index segments of a path show it.
pub fn decimal_string(n: usize) -> (r: String)
    ensures
        r@ == decimal(n as nat),
    decreases n,
{
    if n < 10 {
        String::from_str(digit_str(n))
    } else {
        let mut s = decimal_string(n / 10);
        s.append(digit_str(n % 10));
        s
    }
}


/// A child path under a parent segment: the segment alone when the child's
/// path is empty, else the segment, a dot and the child's path.
pub open spec fn join(segment: Seq<char>, child: Seq<char>) -> Seq<char> {
    if child.len() == 0 {
        segment
    } else {
        segment + seq!['.'] + child
    }
}

/// The segment of a sequence element: its index in brackets.
pub open spec fn index_segment(i: nat) -> Seq<char> {
    seq!['['] + decimal(i) + seq![']']
}

/// The path of a payload difference of an enum variant: the variant's name,
/// a dot, then the member's path.
pub open spec fn under_variant(name: Seq<char>, member_path: Seq<char>) -> Seq<char> {
    name + seq!['.'] + member_path
}

/// Builds `join(segment, child)`.
pub fn join_path(segment: &str, child: &str) -> (r: String)
    ensures
        r@ == join(segment@, child@),
{
    let mut s = String::from_str(segment);
    if !child.is_empty() {
        proof {
            reveal_strlit(".");
        }
        s.append(".");
        s.append(child);
    }
    s
}

/// Builds `index_segment(i)`.
pub fn index_segment_string(i: usize) -> (r: String)
    ensures
        r@ == index_segment(i as nat),
{
    proof {
        reveal_strlit("[");
        reveal_strlit("]");
    }
    let mut s = String::from_str("[");
    let digits = decimal_string(i);
    s.append(digits.as_str());
    s.append("]");
    s
}

/// Builds `under_variant(name, member_path)`.
pub fn under_variant_path(name: &str, member_path: &str) -> (r: String)
    ensures
        r@ == under_variant(name@, member_path@),
{
    proof {
        reveal_strlit(".");
    }
    let mut s = String::from_str(name);
    s.append(".");
    s.append(member_path);
    s
}

} // verus!
