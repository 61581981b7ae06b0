//! Path captures: a read-only name-to-value lookup supplied by the router.
//!
//! The [`Params`] trait is the lookup interface the binding core consults;
//! [`PathCaptures`] is the library's own implementation of it, used by hosts
//! that hold the captures as plain pairs and by the test suite.

use vstd::prelude::*;

use crate::text::eq_str;

verus! {

/// First value bound to `key`, scanning the pairs in order.
pub open spec fn lookup_pairs(pairs: Seq<(String, String)>, key: Seq<char>) -> Option<Seq<char>>
    decreases pairs.len(),
{
    if pairs.len() == 0 {
        None
    } else if pairs[0].0@ == key {
        Some(pairs[0].1@)
    } else {
        lookup_pairs(pairs.drop_first(), key)
    }
}

/// A name-to-value lookup of values captured from the URL path.
pub trait Params {
    /// What the lookup returns for each name.
    spec fn param_spec(&self, key: Seq<char>) -> Option<Seq<char>>;

    /// The value captured under `key`, if any.
    fn param_(&self, key: &str) -> (r: Option<&String>)
        ensures
            match r {
                Some(v) => self.param_spec(key@) == Some(v@),
                None => self.param_spec(key@) is None,
            },
    ;
}

/// Path captures held as plain key/value pairs; a later insertion for the
/// same name shadows an earlier one.
#[derive(Debug, Clone, PartialEq)]
pub struct PathCaptures {
    pub pairs: Vec<(String, String)>,
}

impl PathCaptures {
    /// An empty capture set.
    pub fn new() -> (r: Self)
        ensures
            r.pairs@ =~= Seq::<(String, String)>::empty(),
            forall|k: Seq<char>| lookup_pairs(r.pairs@, k) is None,
    {
        let r = PathCaptures { pairs: Vec::new() };
        proof {
            assert(forall|k: Seq<char>| lookup_pairs(r.pairs@, k) is None);
        }
        r
    }

    /// Bind `value` under `key`, shadowing any earlier binding of `key`.
    pub fn insert(&mut self, key: String, value: String)
        ensures
            final(self).param_spec(key@) == Some(value@),
            forall|k: Seq<char>|
                k != key@ ==> #[trigger] lookup_pairs(final(self).pairs@, k) == lookup_pairs(
                    old(self).pairs@,
                    k,
                ),
    {
        let ghost keyv = key@;
        let ghost valv = value@;
        self.pairs.insert(0, (key, value));
        proof {
            assert(self.pairs@.drop_first() =~= old(self).pairs@);
            assert(self.pairs@[0].0@ == keyv);
            assert(lookup_pairs(self.pairs@, keyv) == Some(valv));
        }
    }
}

impl Params for PathCaptures {
    open spec fn param_spec(&self, key: Seq<char>) -> Option<Seq<char>> {
        lookup_pairs(self.pairs@, key)
    }

    fn param_(&self, key: &str) -> (r: Option<&String>) {
        let n = self.pairs.len();
        let mut i: usize = 0;
        proof {
            assert(self.pairs@.skip(0) =~= self.pairs@);
        }
        while i < n
            invariant
                i <= n,
                n == self.pairs@.len(),
                lookup_pairs(self.pairs@, key@) == lookup_pairs(
                    self.pairs@.skip(i as int),
                    key@,
                ),
            decreases n - i,
        {
            let p = &self.pairs[i];
            proof {
                assert(self.pairs@.skip(i as int)[0] == self.pairs@[i as int]);
                assert(self.pairs@.skip(i as int).drop_first() =~= self.pairs@.skip(i + 1));
            }
            if eq_str(p.0.as_str(), key) {
                return Some(&p.1);
            }
            i += 1;
        }
        proof {
            assert(self.pairs@.skip(n as int) =~= Seq::<(String, String)>::empty());
        }
        None
    }
}

} // verus!
