//! Filling text templates: fixed pieces with holes between them.
use vstd::prelude::*;
use vstd::string::StringExecFns;

verus! {

/// The texts of string slices.
pub open spec fn views(s: Seq<&str>) -> Seq<Seq<char>> {
    s.map_values(|p: &str| p@)
}

/// The pieces with the arguments in the holes between them: `p0 a0 p1 a1 .. pn`.
pub open spec fn filled(pieces: Seq<Seq<char>>, args: Seq<Seq<char>>) -> Seq<char>
    decreases args.len(),
{
    if args.len() == 0 {
        if pieces.len() > 0 {
            pieces[0]
        } else {
            Seq::empty()
        }
    } else {
        filled(pieces.drop_last(), args.drop_last()) + args.last() + pieces.last()
    }
}

/// Fills a template: one piece more than there are arguments.
pub fn fill(pieces: &Vec<&str>, args: &Vec<&str>) -> (r: String)
    requires
        pieces@.len() == args@.len() + 1,
    ensures
        r@ == filled(views(pieces@), views(args@)),
{
    let mut s = String::new();
    s.append(pieces[0]);
    let n = args.len();
    let mut i: usize = 0;
    assert(views(pieces@.take(1)) =~= seq![pieces@[0]@]);
    while i < n
        invariant
            n == args@.len(),
            pieces@.len() == n + 1,
            i <= n,
            s@ == filled(views(pieces@.take(i + 1)), views(args@.take(i as int))),
        decreases n - i,
    {
        s.append(args[i]);
        s.append(pieces[i + 1]);
        assert(views(pieces@.take(i + 2)).drop_last() =~= views(pieces@.take(i + 1)));
        assert(views(args@.take(i + 1)).drop_last() =~= views(args@.take(i as int)));
        i = i + 1;
    }
    assert(pieces@.take(n + 1) =~= pieces@);
    assert(args@.take(n as int) =~= args@);
    s
}

} // verus!
