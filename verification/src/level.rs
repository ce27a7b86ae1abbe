//! The level catalog: the available level names, held sorted in
//! byte-lexicographic order, together with the currently selected index.
//! The host enumerates the level directory and hands the names in; parsing
//! the selected level's contents goes through the map loader.

use vstd::prelude::*;

verus! {

use crate::map::LoadError;
use crate::map::TileMap;
use vstd::multiset::Multiset;

/// Byte-lexicographic order on names: the empty name first, then by the
/// first differing byte.
pub open spec fn lex_le(a: Seq<u8>, b: Seq<u8>) -> bool
    decreases a.len(),
{
    if a.len() == 0 {
        true
    } else if b.len() == 0 {
        false
    } else if a[0] < b[0] {
        true
    } else if a[0] > b[0] {
        false
    } else {
        lex_le(a.drop_first(), b.drop_first())
    }
}

/// Any two names are comparable.
pub proof fn lemma_lex_total(a: Seq<u8>, b: Seq<u8>)
    ensures
        lex_le(a, b) || lex_le(b, a),
    decreases a.len(),
{
    if a.len() == 0 || b.len() == 0 {
    } else if a[0] == b[0] {
        lemma_lex_total(a.drop_first(), b.drop_first());
    }
}

/// The order is transitive.
pub proof fn lemma_lex_trans(a: Seq<u8>, b: Seq<u8>, c: Seq<u8>)
    requires
        lex_le(a, b),
        lex_le(b, c),
    ensures
        lex_le(a, c),
    decreases a.len(),
{
    if a.len() == 0 {
    } else if b.len() == 0 {
    } else if c.len() == 0 {
    } else if a[0] == b[0] && b[0] == c[0] {
        lemma_lex_trans(a.drop_first(), b.drop_first(), c.drop_first());
    }
}

/// Every name comes no later than any name after it.
pub open spec fn sorted_lex(s: Seq<Seq<u8>>) -> bool {
    forall|i: int, j: int| 0 <= i < j < s.len() ==> lex_le(s[i], s[j])
}

/// Compares two names in byte-lexicographic order.
fn lex_le_exec(a: &Vec<u8>, b: &Vec<u8>) -> (r: bool)
    ensures
        r == lex_le(a@, b@),
{
    let na = a.len();
    let nb = b.len();
    let mut i: usize = 0;
    proof {
        assert(a@.skip(0) =~= a@);
        assert(b@.skip(0) =~= b@);
    }
    while i < na && i < nb
        invariant
            i <= na,
            i <= nb,
            na == a@.len(),
            nb == b@.len(),
            lex_le(a@, b@) == lex_le(a@.skip(i as int), b@.skip(i as int)),
        decreases na - i,
    {
        proof {
            assert(a@.skip(i as int)[0] == a@[i as int]);
            assert(b@.skip(i as int)[0] == b@[i as int]);
            assert(a@.skip(i as int).drop_first() =~= a@.skip(i + 1));
            assert(b@.skip(i as int).drop_first() =~= b@.skip(i + 1));
        }
        if a[i] < b[i] {
            return true;
        }
        if a[i] > b[i] {
            return false;
        }
        i = i + 1;
    }
    i == na
}

/// Inserting an element anywhere adds exactly it to the sequence's
/// multiset.
proof fn lemma_insert_to_multiset(s: Seq<Seq<u8>>, i: int, x: Seq<u8>)
    requires
        0 <= i <= s.len(),
    ensures
        s.insert(i, x).to_multiset() =~= s.to_multiset().insert(x),
{
    broadcast use vstd::seq_lib::group_to_multiset_ensures;
    broadcast use vstd::multiset::group_multiset_axioms;

    assert(s.insert(i, x) =~= s.take(i) + (seq![x] + s.skip(i)));
    assert(s =~= s.take(i) + s.skip(i));
    vstd::seq_lib::lemma_multiset_commutative(s.take(i), seq![x] + s.skip(i));
    vstd::seq_lib::lemma_multiset_commutative(seq![x], s.skip(i));
    vstd::seq_lib::lemma_multiset_commutative(s.take(i), s.skip(i));
    assert(seq![x] =~= Seq::<Seq<u8>>::empty().push(x));
    assert(seq![x].to_multiset() =~= Multiset::<Seq<u8>>::empty().insert(x));
}

/// The position at which a name joins a sorted run: everything before it
/// comes no later, everything from it on comes no earlier.
fn insertion_index(sorted: &Vec<Vec<u8>>, name: &Vec<u8>) -> (k: usize)
    requires
        sorted_lex(sorted.deep_view()),
    ensures
        k <= sorted@.len(),
        forall|i: int| 0 <= i < k ==> lex_le(sorted.deep_view()[i], name@),
        forall|i: int| k <= i < sorted@.len() ==> lex_le(name@, sorted.deep_view()[i]),
{
    let n = sorted.len();
    let mut k: usize = 0;
    while k < n
        invariant
            k <= n,
            n == sorted@.len(),
            sorted_lex(sorted.deep_view()),
            forall|i: int| 0 <= i < k ==> lex_le(sorted.deep_view()[i], name@),
        decreases n - k,
    {
        proof {
            assert(sorted@[k as int].deep_view() =~= sorted@[k as int]@);
        }
        if !lex_le_exec(&sorted[k], name) {
            proof {
                let dv = sorted.deep_view();
                lemma_lex_total(dv[k as int], name@);
                assert forall|i: int| k <= i < dv.len() implies lex_le(name@, dv[i]) by {
                    if i > k {
                        lemma_lex_trans(name@, dv[k as int], dv[i]);
                    }
                }
            }
            return k;
        }
        k = k + 1;
    }
    n
}

/// The catalog of levels: level names in byte-lexicographic order, plus
/// the index the next game will load.
#[derive(Debug)]
pub struct LevelManager {
    pub paths: Vec<Vec<u8>>,
    pub current: usize,
}

impl LevelManager {
    pub open spec fn spec_len(&self) -> nat {
        self.paths@.len()
    }

    /// Builds the catalog from the names the host enumerated, sorting them
    /// in byte-lexicographic order while keeping every name (the multiset
    /// of names is unchanged); the selection starts at the first level.
    pub fn new(names: Vec<Vec<u8>>) -> (r: LevelManager)
        ensures
            r.current == 0,
            sorted_lex(r.paths.deep_view()),
            r.paths.deep_view().to_multiset() == names.deep_view().to_multiset(),
            r.paths@.len() == names@.len(),
    {
        broadcast use vstd::seq_lib::group_to_multiset_ensures;

        let mut names = names;
        let ghost original = names.deep_view();
        let mut sorted: Vec<Vec<u8>> = Vec::new();
        proof {
            assert(sorted.deep_view() =~= Seq::<Seq<u8>>::empty());
            assert(sorted.deep_view().to_multiset().add(original.to_multiset())
                =~= original.to_multiset());
        }
        while names.len() > 0
            invariant
                sorted_lex(sorted.deep_view()),
                sorted.deep_view().to_multiset().add(names.deep_view().to_multiset())
                    =~= original.to_multiset(),
                sorted@.len() + names@.len() == original.len(),
            decreases names.len(),
        {
            let ghost pre_names = names.deep_view();
            let name = match names.pop() {
                Some(name) => name,
                None => {
                    return LevelManager { paths: sorted, current: 0 };
                },
            };
            proof {
                broadcast use vstd::seq_lib::group_to_multiset_ensures;

                assert(names.deep_view() =~= pre_names.drop_last());
                assert(name.deep_view() =~= name@);
                assert(pre_names =~= names.deep_view().push(name@));
                assert(names.deep_view().push(name@).to_multiset() =~= names.deep_view()
                    .to_multiset().insert(name@));
                assert(pre_names.to_multiset() =~= names.deep_view().to_multiset().insert(
                    name@,
                ));
            }
            let k = insertion_index(&sorted, &name);
            let ghost pre_sorted = sorted.deep_view();
            sorted.insert(k, name);
            proof {
                let dv = sorted.deep_view();
                assert(dv =~= pre_sorted.insert(k as int, name@));
                lemma_insert_to_multiset(pre_sorted, k as int, name@);
                pre_sorted.insert_ensures(k as int, name@);
                assert forall|i: int, j: int| 0 <= i < j < dv.len() implies lex_le(
                    dv[i],
                    dv[j],
                ) by {
                    if j < k {
                    } else if i < k && j == k {
                        assert(dv[i] == pre_sorted[i]);
                    } else if i < k && j > k {
                        assert(dv[i] == pre_sorted[i]);
                        assert(dv[j] == pre_sorted[j - 1]);
                    } else if i == k {
                        assert(dv[j] == pre_sorted[j - 1]);
                    } else {
                        assert(dv[i] == pre_sorted[i - 1]);
                        assert(dv[j] == pre_sorted[j - 1]);
                    }
                }
            }
        }
        proof {
            assert(names.deep_view() =~= Seq::<Seq<u8>>::empty());
            assert(sorted.deep_view().to_multiset().add(Multiset::<Seq<u8>>::empty())
                =~= sorted.deep_view().to_multiset());
        }
        LevelManager { paths: sorted, current: 0 }
    }

    /// Records the chosen level; the caller presents only valid indices.
    pub fn set_level(&mut self, index: usize)
        requires
            index < old(self).spec_len(),
        ensures
            final(self).current == index,
            final(self).paths == old(self).paths,
    {
        self.current = index;
    }

    /// The catalog's names, in order; the host reads level files by these
    /// names and shows them in the level menu.
    pub fn iter(&self) -> (r: &Vec<Vec<u8>>)
        ensures
            r == &self.paths,
    {
        &self.paths
    }

    pub fn len(&self) -> (r: usize)
        ensures
            r == self.spec_len(),
    {
        self.paths.len()
    }

    /// The name of the currently selected level, for the host to read.
    pub fn current_path(&self) -> (r: &Vec<u8>)
        requires
            self.current < self.spec_len(),
        ensures
            r@ == self.paths@[self.current as int]@,
    {
        &self.paths[self.current]
    }

    /// Parses the contents of the currently selected level, as read by the
    /// host, into a map; exactly the map loader's contract.
    pub fn load(&self, rows: &Vec<Vec<u8>>) -> (r: Result<TileMap, LoadError>)
        ensures
            match r {
                Ok(m) => {
                    &&& crate::map::spec_load_error(rows.deep_view(), rows@.len() as int) is None
                    &&& m.wf()
                    &&& m.spec_size() == rows@.len()
                    &&& forall|x: int, y: int|
                        0 <= x < rows@.len() && 0 <= y < rows@.len() ==> m.spec_tile(x, y)
                            == crate::map::spec_field_tile(
                            crate::map::row_fields(rows.deep_view()[y])[x],
                        )->Some_0
                },
                Err(e) => crate::map::spec_load_error(rows.deep_view(), rows@.len() as int)
                    == Some(e),
            },
    {
        TileMap::load(rows)
    }
}

} // verus!
