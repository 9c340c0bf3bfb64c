use vstd::prelude::*;
use vstd::string::*;

verus! {

/// The identifiers of the test cases that are known-inapplicable to the
/// codec under test.  Fixed for the life of a run.
pub struct SkipSet {
    ids: Vec<String>,
}

pub open spec fn ids_model(ids: Seq<String>) -> Seq<Seq<char>> {
    Seq::new(ids.len(), |i: int| ids[i]@)
}

impl View for SkipSet {
    type V = Seq<Seq<char>>;

    closed spec fn view(&self) -> Seq<Seq<char>> {
        ids_model(self.ids@)
    }
}

/// Whether `id` is present and a member of `ids`.
pub open spec fn skip_hits(ids: Seq<Seq<char>>, id: Option<Seq<char>>) -> bool {
    match id {
        Some(s) => ids.contains(s),
        None => false,
    }
}

impl SkipSet {
    pub fn new(ids: Vec<String>) -> (r: SkipSet)
        ensures
            r@ == ids_model(ids@),
    {
        SkipSet { ids }
    }

    /// A case is skipped exactly when it carries an identifier and that
    /// identifier is a member of the set.
    pub open spec fn spec_should_skip(&self, id: Option<Seq<char>>) -> bool {
        skip_hits(self@, id)
    }

    #[verifier::loop_isolation(false)]
    pub fn should_skip(&self, id: &Option<String>) -> (r: bool)
        ensures
            r == self.spec_should_skip(
                match id {
                    Some(s) => Some(s@),
                    None => None,
                },
            ),
    {
        match id {
            Some(s) => {
                let mut i: usize = 0;
                while i < self.ids.len()
                    invariant
                        0 <= i <= self.ids@.len(),
                        forall|j: int| 0 <= j < i ==> self.ids@[j]@ != s@,
                    decreases self.ids@.len() - i,
                {
                    if self.ids[i].eq(s) {
                        assert(self@[i as int] == s@);
                        return true;
                    }
                    i = i + 1;
                }
                proof {
                    assert(forall|j: int| 0 <= j < self@.len() ==> self@[j] != s@);
                }
                false
            },
            None => false,
        }
    }
}

/// The identifiers of the fixture cases that assume decoder behaviours the
/// codec under test legitimately does not support.
pub fn default_skip_ids() -> (r: Vec<String>)
    ensures
        ids_model(r@) =~= seq![
            "datetime_invalid_out"@,
            "bignum_invalid_out"@,
            "undefined_invalid_out"@,
        ],
{
    let a = "datetime_invalid_out".to_owned();
    let b = "bignum_invalid_out".to_owned();
    let c = "undefined_invalid_out".to_owned();
    let ids = vec![a, b, c];
    ids
}

} // verus!
