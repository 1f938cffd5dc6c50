//! Text form of a stack: the elements' texts from top to bottom with an arrow
//! between neighbours.

use vstd::prelude::*;
use vstd::string::StringExecFns;

verus! {

/// The token written between two neighbouring elements: `" -> "`.
pub open spec fn separator() -> Seq<char> {
    seq![' ', '-', '>', ' ']
}

/// The texts in order with a separator between each two neighbours: nothing
/// before the first, nothing after the last, and the empty text for no texts.
pub open spec fn joined(texts: Seq<Seq<char>>) -> Seq<char>
    decreases texts.len(),
{
    if texts.len() == 0 {
        Seq::empty()
    } else if texts.len() == 1 {
        texts[0]
    } else {
        joined(texts.drop_last()) + separator() + texts.last()
    }
}

/// The character sequences that the strings hold.
pub open spec fn texts_of(strings: Seq<String>) -> Seq<Seq<char>> {
    strings.map_values(|s: String| s@)
}

/// Joins the texts of the elements, given from top to bottom, into one line.
pub fn join(texts: &Vec<String>) -> (line: String)
    ensures
        line@ == joined(texts_of(texts@)),
{
    let mut line = String::new();
    let mut i: usize = 0;
    while i < texts.len()
        invariant
            i <= texts.len(),
            line@ == joined(texts_of(texts@).take(i as int)),
        decreases texts.len() - i,
    {
        let ghost before = texts_of(texts@).take(i as int);
        let ghost after = texts_of(texts@).take(i + 1);
        proof {
            reveal_strlit(" -> ");
            assert(" -> "@ =~= separator());
            assert(after.drop_last() =~= before);
            assert(after.last() == texts@[i as int]@);
        }
        if i > 0 {
            line.append(" -> ");
        }
        line.append(texts[i].as_str());
        i += 1;
    }
    proof {
        assert(texts_of(texts@).take(i as int) =~= texts_of(texts@));
    }
    line
}

} // verus!
