//! Building the one-line record of found candidates that a client
//! persists: the candidates joined by commas.

use vstd::prelude::*;

verus! {

/// The byte sequences joined by a comma between each adjacent pair.
pub open spec fn join_commas(parts: Seq<Seq<u8>>) -> Seq<u8>
    decreases parts.len(),
{
    if parts.len() == 0 {
        Seq::empty()
    } else if parts.len() == 1 {
        parts[0]
    } else {
        join_commas(parts.drop_last()) + seq![0x2Cu8] + parts.last()
    }
}

/// The byte contents of each vector in a sequence of vectors.
pub open spec fn views_of(parts: Seq<Vec<u8>>) -> Seq<Seq<u8>> {
    parts.map_values(|v: Vec<u8>| v@)
}

/// Joins the candidate strings with commas into one record line.
pub fn solution_line(parts: &Vec<Vec<u8>>) -> (r: Vec<u8>)
    ensures
        r@ == join_commas(views_of(parts@)),
{
    let mut r: Vec<u8> = Vec::new();
    let mut i: usize = 0;
    while i < parts.len()
        invariant
            i <= parts@.len(),
            r@ == join_commas(views_of(parts@).take(i as int)),
        decreases parts@.len() - i,
    {
        if i > 0 {
            r.push(0x2C);
        }
        let ghost base = r@;
        let part = &parts[i];
        let mut j: usize = 0;
        while j < part.len()
            invariant
                j <= part@.len(),
                r@ == base + part@.take(j as int),
            decreases part@.len() - j,
        {
            r.push(part[j]);
            proof {
                assert(base + part@.take(j + 1) =~= (base + part@.take(j as int)).push(
                    part@[j as int],
                ));
            }
            j = j + 1;
        }
        proof {
            let views = views_of(parts@);
            assert(part@.take(part@.len() as int) =~= part@);
            assert(views[i as int] == parts@[i as int]@);
            if i == 0 {
                assert(views.take(1)[0] == views[0]);
                assert(r@ =~= join_commas(views.take(1)));
            } else {
                assert(views.take(i + 1).drop_last() =~= views.take(i as int));
                assert(views.take(i + 1).last() == views[i as int]);
                assert(r@ =~= join_commas(views.take(i as int)) + seq![0x2Cu8] + views[i as int]);
            }
        }
        i = i + 1;
    }
    proof {
        assert(views_of(parts@).take(parts@.len() as int) =~= views_of(parts@));
    }
    r
}

} // verus!
