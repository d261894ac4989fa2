//! Byte patterns with wildcard cells, and the search for their first occurrence.

use vstd::prelude::*;

verus! {

/// Whether one cell accepts a byte: a wildcard (`None`) accepts any.
pub open spec fn cell_accepts(cell: Option<u8>, b: u8) -> bool {
    match cell {
        Some(x) => x == b,
        None => true,
    }
}

/// Whether the pattern occurs in `hay` starting at offset `i`.
pub open spec fn matches_at(cells: Seq<Option<u8>>, hay: Seq<u8>, i: int) -> bool {
    &&& 0 <= i
    &&& i + cells.len() <= hay.len()
    &&& forall|j: int| 0 <= j < cells.len() ==> #[trigger] cell_accepts(cells[j], hay[i + j])
}

/// The lowest offset at or after `start` where the pattern occurs.
pub open spec fn first_match_from(cells: Seq<Option<u8>>, hay: Seq<u8>, start: int) -> Option<int>
    decreases hay.len() - start,
{
    if start < 0 || start + cells.len() > hay.len() {
        None
    } else if matches_at(cells, hay, start) {
        Some(start)
    } else {
        first_match_from(cells, hay, start + 1)
    }
}

/// The lowest offset where the pattern occurs in `hay`.
pub open spec fn first_match(cells: Seq<Option<u8>>, hay: Seq<u8>) -> Option<int> {
    first_match_from(cells, hay, 0)
}

/// A first match is a match, and no lower offset from `start` on is one.
pub proof fn lemma_first_match_from_is_least(cells: Seq<Option<u8>>, hay: Seq<u8>, start: int)
    requires
        0 <= start,
    ensures
        first_match_from(cells, hay, start) matches Some(m) ==> start <= m && matches_at(cells, hay, m)
            && forall|k: int| start <= k < m ==> !matches_at(cells, hay, k),
        first_match_from(cells, hay, start) is None ==> forall|k: int| start <= k ==> !matches_at(cells, hay, k),
    decreases hay.len() - start,
{
    if start + cells.len() <= hay.len() && !matches_at(cells, hay, start) {
        lemma_first_match_from_is_least(cells, hay, start + 1);
    }
}

/// A pattern of byte cells and wildcard cells.
#[derive(Clone, Debug, PartialEq, Eq)]
pub struct Signature {
    pub cells: Vec<Option<u8>>,
}

impl Signature {
    pub open spec fn view(&self) -> Seq<Option<u8>> {
        self.cells@
    }

    /// A pattern with the given cells, `None` standing for a wildcard.
    pub fn new(cells: Vec<Option<u8>>) -> (s: Self)
        ensures
            s.view() == cells@,
    {
        Signature { cells }
    }

    /// Whether the pattern occurs in `hay` at offset `i`.
    pub fn matches_at(&self, hay: &[u8], i: usize) -> (r: bool)
        ensures
            r == matches_at(self.view(), hay@, i as int),
    {
        let n = self.cells.len();
        if n > hay.len() || i > hay.len() - n {
            return false;
        }
        let mut j: usize = 0;
        while j < n
            invariant
                n == self.cells@.len(),
                i + n <= hay.len(),
                j <= n,
                forall|k: int| 0 <= k < j ==> #[trigger] cell_accepts(self.cells@[k], hay@[i + k]),
            decreases n - j,
        {
            let accepted = match self.cells[j] {
                Some(x) => x == hay[i + j],
                None => true,
            };
            if !accepted {
                assert(!cell_accepts(self.cells@[j as int], hay@[i + j]));
                return false;
            }
            j = j + 1;
        }
        true
    }

    /// The lowest offset in `hay` where the pattern occurs, if any.
    pub fn scan(&self, hay: &[u8]) -> (r: Option<usize>)
        ensures
            r matches Some(m) ==> first_match(self.view(), hay@) == Some(m as int),
            r is None ==> first_match(self.view(), hay@) is None,
    {
        let n = self.cells.len();
        if n > hay.len() {
            return None;
        }
        let last = hay.len() - n;
        let mut i: usize = 0;
        loop
            invariant
                n == self.view().len(),
                last + n == hay@.len(),
                i <= last,
                first_match(self.view(), hay@) == first_match_from(self.view(), hay@, i as int),
            decreases last - i,
        {
            if self.matches_at(hay, i) {
                return Some(i);
            }
            if i == last {
                assert(first_match_from(self.view(), hay@, i + 1) is None);
                return None;
            }
            i = i + 1;
        }
    }
}

/// The pattern that locates the instruction which loads the world pointer:
/// `80 7C 24 ?? 00 ?? ?? 48 8B 3D ?? ?? ?? ?? 48`.
pub open spec fn spec_world_signature() -> Seq<Option<u8>> {
    seq![
        Some(0x80u8), Some(0x7Cu8), Some(0x24u8), None, Some(0x00u8), None, None,
        Some(0x48u8), Some(0x8Bu8), Some(0x3Du8), None, None, None, None, Some(0x48u8),
    ]
}

/// Builds the world-pointer pattern.
pub fn world_signature() -> (s: Signature)
    ensures
        s.view() == spec_world_signature(),
{
    let cells = vec![
        Some(0x80u8), Some(0x7Cu8), Some(0x24u8), None, Some(0x00u8), None, None,
        Some(0x48u8), Some(0x8Bu8), Some(0x3Du8), None, None, None, None, Some(0x48u8),
    ];
    proof {
        assert(cells@ =~= spec_world_signature());
    }
    Signature::new(cells)
}

} // verus!
