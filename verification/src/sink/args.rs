//! The `key=value` arguments of a sink specification string.
//!
//! A specification reads `name[,key=value[,key=value]...]`.  Pieces
//! without an `=` are skipped; when a key repeats, the last occurrence
//! wins, as collecting the pairs into a map would make it.

use vstd::prelude::*;
use crate::sink::Error;
use crate::text::{bytes_eq, bytes_of, find_byte, spec_find, spec_split, split_bytes};

verus! {

/// The key before and the value after the first `=` of a piece, when
/// the piece has one.
pub open spec fn spec_pair_of(piece: Seq<u8>) -> Option<(Seq<u8>, Seq<u8>)> {
    let i = spec_find(piece, 61);
    if i < piece.len() {
        Some((piece.take(i), piece.skip(i + 1)))
    } else {
        None
    }
}

/// The key/value pairs of the pieces, in order; pieces without an `=`
/// contribute nothing.
pub open spec fn spec_pairs(pieces: Seq<Seq<u8>>) -> Seq<(Seq<u8>, Seq<u8>)>
    decreases pieces.len(),
{
    if pieces.len() == 0 {
        Seq::empty()
    } else {
        spec_pairs(pieces.drop_last()) + match spec_pair_of(pieces.last()) {
            Some(p) => seq![p],
            None => Seq::empty(),
        }
    }
}

/// The value filed under `name`; when a key repeats, the last pair
/// wins.
pub open spec fn spec_lookup(pairs: Seq<(Seq<u8>, Seq<u8>)>, name: Seq<u8>) -> Option<Seq<u8>>
    decreases pairs.len(),
{
    if pairs.len() == 0 {
        None
    } else if pairs.last().0 == name {
        Some(pairs.last().1)
    } else {
        spec_lookup(pairs.drop_last(), name)
    }
}

/// The sink name of a specification: everything before the first comma.
pub open spec fn spec_sink_name(s: Seq<u8>) -> Seq<u8> {
    spec_split(s, 44)[0]
}

/// The arguments of a specification: the pairs of the comma-separated
/// pieces after the name.
pub open spec fn spec_sink_args(s: Seq<u8>) -> Seq<(Seq<u8>, Seq<u8>)> {
    spec_pairs(spec_split(s, 44).drop_first())
}

/// Parsed sink arguments.
pub struct Args {
    pairs: Vec<(Vec<u8>, Vec<u8>)>,
}

impl View for Args {
    type V = Seq<(Seq<u8>, Seq<u8>)>;

    closed spec fn view(&self) -> Seq<(Seq<u8>, Seq<u8>)> {
        Seq::new(self.pairs@.len(), |i: int| (self.pairs@[i].0@, self.pairs@[i].1@))
    }
}

impl Args {
    /// Split a specification into its sink name and its arguments.
    pub fn parse(spec: &[u8]) -> (r: (Vec<u8>, Args))
        ensures
            r.0@ == spec_sink_name(spec@),
            r.1@ == spec_sink_args(spec@),
    {
        let mut pieces = split_bytes(spec, 44);
        let ghost all = spec_split(spec@, 44);
        let ghost tail = all.drop_first();
        proof {
            assert(pieces.deep_view()[0] == pieces@[0]@);
        }
        let name = pieces.remove(0);
        proof {
            assert(pieces.deep_view() =~~= tail) by {
                assert(forall|i: int|
                    0 <= i < pieces@.len() ==> (#[trigger] pieces.deep_view()[i]) == pieces@[i]@);
            }
        }
        let mut pairs: Vec<(Vec<u8>, Vec<u8>)> = Vec::new();
        let mut j: usize = 0;
        let ghost pview = Seq::new(
            pairs@.len(),
            |i: int| (pairs@[i].0@, pairs@[i].1@),
        );
        while j < pieces.len()
            invariant
                j <= pieces@.len(),
                pieces.deep_view() =~~= tail,
                Seq::new(pairs@.len(), |i: int| (pairs@[i].0@, pairs@[i].1@)) =~= spec_pairs(
                    tail.take(j as int),
                ),
            decreases pieces@.len() - j,
        {
            let ghost before = Seq::new(pairs@.len(), |i: int| (pairs@[i].0@, pairs@[i].1@));
            let piece = &pieces[j];
            let i = find_byte(piece.as_slice(), 61);
            proof {
                crate::text::lemma_find(piece@, 61);
                assert(piece@ == tail[j as int]);
                assert(tail.take(j + 1).drop_last() =~= tail.take(j as int));
                assert(tail.take(j + 1).last() == tail[j as int]);
            }
            if i < piece.len() {
                let k = bytes_of(piece.as_slice(), 0, i);
                let v = bytes_of(piece.as_slice(), i + 1, piece.len());
                proof {
                    assert(k@ =~= piece@.take(i as int));
                    assert(v@ =~= piece@.skip(i + 1));
                    assert(spec_pair_of(tail[j as int]) == Some((k@, v@)));
                }
                pairs.push((k, v));
                proof {
                    assert(Seq::new(pairs@.len(), |x: int| (pairs@[x].0@, pairs@[x].1@))
                        =~= before.push((k@, v@)));
                    assert(before.push((k@, v@)) =~= spec_pairs(tail.take(j + 1)));
                }
            } else {
                proof {
                    assert(spec_pair_of(tail[j as int]) is None);
                    assert(spec_pairs(tail.take(j + 1)) =~= before);
                }
            }
            j = j + 1;
        }
        proof {
            assert(tail.take(tail.len() as int) =~= tail);
        }
        (name, Args { pairs })
    }

    /// The value of the argument `name`, when it was given.
    pub fn opt(&self, name: &[u8]) -> (r: Option<&Vec<u8>>)
        ensures
            match r {
                Some(v) => spec_lookup(self@, name@) == Some(v@),
                None => spec_lookup(self@, name@) is None,
            },
    {
        let mut i: usize = self.pairs.len();
        proof {
            assert(self@.take(i as int) =~= self@);
        }
        while i > 0
            invariant
                i <= self.pairs@.len(),
                spec_lookup(self@, name@) == spec_lookup(self@.take(i as int), name@),
            decreases i,
        {
            i = i - 1;
            proof {
                assert(self@.take(i + 1).drop_last() =~= self@.take(i as int));
                assert(self@.take(i + 1).last() == self@[i as int]);
            }
            if bytes_eq(self.pairs[i].0.as_slice(), name) {
                return Some(&self.pairs[i].1);
            }
        }
        proof {
            assert(self@.take(0) =~= Seq::<(Seq<u8>, Seq<u8>)>::empty());
        }
        None
    }

    /// The value of the argument `name`, required.
    pub fn get(&self, name: &[u8]) -> (r: Result<&Vec<u8>, Error>)
        ensures
            match r {
                Ok(v) => spec_lookup(self@, name@) == Some(v@),
                Err(e) => spec_lookup(self@, name@) is None && e@ == crate::sink::ErrorView::MissingArg(name@),
            },
    {
        match self.opt(name) {
            Some(v) => Ok(v),
            None => {
                let missing = bytes_of(name, 0, name.len());
                proof {
                    assert(missing@ =~= name@);
                }
                Err(Error::MissingArg(missing))
            },
        }
    }
}

} // verus!
