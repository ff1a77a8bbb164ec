//! Tidings: the items of a feed

use vstd::prelude::*;
use vstd::string::StringExecFns;

verus! {

/// Tiding
#[derive(Debug, Clone, PartialEq, Eq)]
pub struct Tiding {
    /// Title
    pub title: String,
}

impl View for Tiding {
    type V = Seq<char>;

    /// A tiding is its title
    open spec fn view(&self) -> Seq<char> {
        self.title@
    }
}

/// Mathematical value of a list of tidings: their titles
pub open spec fn tidings_view(tidings: Seq<Tiding>) -> Seq<Seq<char>> {
    tidings.map_values(|tiding: Tiding| tiding@)
}

impl Tiding {
    /// Initialize a tiding from the title
    pub fn new(title: &str) -> (res: Self)
        ensures
            res@ == title@,
    {
        Tiding { title: String::from_str(title) }
    }

    /// Update the string: an exclamation mark goes to the end of the title
    pub fn update_string(&mut self)
        ensures
            final(self)@ == old(self)@.push('!'),
    {
        self.title.append("!");
        proof {
            reveal_strlit("!");
            assert("!"@ =~= seq!['!']);
            assert(old(self)@ + seq!['!'] =~= old(self)@.push('!'));
        }
    }

    /// A copy of the tiding
    pub fn duplicate(&self) -> (res: Self)
        ensures
            res@ == self@,
    {
        Tiding { title: self.title.clone() }
    }
}

/// A copy of the tidings, in their order
pub fn duplicate_tidings(tidings: &Vec<Tiding>) -> (res: Vec<Tiding>)
    ensures
        tidings_view(res@) == tidings_view(tidings@),
{
    let mut res: Vec<Tiding> = Vec::new();
    let mut i: usize = 0;
    while i < tidings.len()
        invariant
            i <= tidings.len(),
            tidings_view(res@) == tidings_view(tidings@).take(i as int),
        decreases tidings.len() - i,
    {
        let tiding = tidings[i].duplicate();
        let ghost prior = res@;
        res.push(tiding);
        proof {
            assert(tidings_view(res@) =~= tidings_view(prior).push(tiding@));
            assert(tidings_view(tidings@).take(i + 1) =~= tidings_view(tidings@).take(i as int).push(
                tidings@[i as int]@,
            ));
        }
        i += 1;
    }
    proof {
        assert(tidings_view(tidings@).take(tidings@.len() as int) =~= tidings_view(tidings@));
    }
    res
}

} // verus!
