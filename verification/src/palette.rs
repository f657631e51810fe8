//! The color palette: which entries of the host's color table the active
//! color classes are shown in. The core knows a color only as an index; what
//! the entry looks like is the host's affair.

use crate::random::{random_index, shuffle};
use vstd::prelude::*;

verus! {

/// The indices `0, 1, .., n - 1` in order.
pub open spec fn identity(n: nat) -> Seq<usize> {
    Seq::new(n, |i: int| i as usize)
}

/// `entries` is a palette over a table of `table_len` colors: at least one
/// class, every class shown in an entry of the table, no entry used twice.
pub open spec fn is_palette(entries: Seq<usize>, table_len: nat) -> bool {
    &&& entries.len() >= 1
    &&& forall|k: int| 0 <= k < entries.len() ==> #[trigger] entries[k] < table_len
    &&& entries.no_duplicates()
}

/// A reordering of `0 .. n` holds each of these indices once and nothing
/// else.
pub proof fn lemma_reordered_identity(s: Seq<usize>, n: usize)
    requires
        s.to_multiset() == identity(n as nat).to_multiset(),
    ensures
        s.len() == n,
        s.no_duplicates(),
        forall|k: int| 0 <= k < s.len() ==> #[trigger] s[k] < n,
{
    let id: Seq<usize> = identity(n as nat);
    s.to_multiset_ensures();
    id.to_multiset_ensures();
    assert(id.no_duplicates());
    id.lemma_multiset_has_no_duplicates();
    s.lemma_multiset_has_no_duplicates_conv();
    assert forall|k: int| 0 <= k < s.len() implies #[trigger] s[k] < n by {
        assert(s.contains(s[k]));
        assert(id.to_multiset().count(s[k]) > 0);
        assert(id.contains(s[k]));
        let i: int = choose|i: int| 0 <= i < id.len() && id[i] == s[k];
        assert(id[i] == i as usize);
    }
}

/// The first entries of a sequence without duplicates hold no duplicates.
pub proof fn lemma_prefix_is_palette(s: Seq<usize>, count: int, table_len: nat)
    requires
        1 <= count <= s.len(),
        s.no_duplicates(),
        forall|k: int| 0 <= k < s.len() ==> #[trigger] s[k] < table_len,
    ensures
        is_palette(s.subrange(0, count), table_len),
{
    let prefix: Seq<usize> = s.subrange(0, count);
    assert forall|k: int| 0 <= k < prefix.len() implies #[trigger] prefix[k] < table_len by {
        assert(prefix[k] == s[k]);
    }
    assert forall|i: int, j: int|
        0 <= i < prefix.len() && 0 <= j < prefix.len() && i != j implies prefix[i] != prefix[j] by {
        assert(prefix[i] == s[i] && prefix[j] == s[j]);
    }
}

/// The active color classes `0 .. len`, each with the entry of the host's
/// color table that it is shown in. Every value of this type is a palette in
/// the sense of `is_palette`.
#[derive(Debug)]
pub struct ColorPalette {
    entries: Vec<usize>,
    table_len: usize,
}

impl View for ColorPalette {
    type V = Seq<usize>;

    closed spec fn view(&self) -> Seq<usize> {
        self.entries@
    }
}

/// The indices `0 .. n` in order.
fn identity_order(n: usize) -> (order: Vec<usize>)
    ensures
        order@ == identity(n as nat),
{
    let mut order: Vec<usize> = Vec::new();
    let mut i: usize = 0;
    while i < n
        invariant
            i <= n,
            order@ == identity(i as nat),
        decreases n - i,
    {
        order.push(i);
        i += 1;
        assert(order@ =~= identity(i as nat));
    }
    order
}

impl ColorPalette {
    #[verifier::type_invariant]
    pub open spec fn well_formed(self) -> bool {
        is_palette(self@, self.table_size())
    }

    /// The number of colors in the host's table.
    pub closed spec fn table_size(self) -> nat {
        self.table_len as nat
    }

    /// Takes the given table entries as the palette, class `k` shown in
    /// `entries[k]`, if they are one: at least one entry, each of them an
    /// index into a table of `table_len` colors, none given twice.
    pub fn from_entries(entries: Vec<usize>, table_len: usize) -> (r: Option<Self>)
        ensures
            r is Some <==> is_palette(entries@, table_len as nat),
            r matches Some(palette) ==> palette@ == entries@ && palette.table_size() == table_len,
    {
        let n: usize = entries.len();
        if n == 0 {
            return None;
        }
        let mut k: usize = 0;
        while k < n
            invariant
                n == entries.len(),
                k <= n,
                forall|i: int| 0 <= i < k ==> #[trigger] entries@[i] < table_len,
                forall|i: int, j: int| 0 <= i < j < k ==> entries@[i] != entries@[j],
            decreases n - k,
        {
            let entry: usize = entries[k];
            if entry >= table_len {
                return None;
            }
            let mut j: usize = 0;
            while j < k
                invariant
                    n == entries.len(),
                    k < n,
                    j <= k,
                    entry == entries@[k as int],
                    forall|i: int| 0 <= i < j ==> entries@[i] != entry,
                decreases k - j,
            {
                if entries[j] == entry {
                    assert(!entries@.no_duplicates());
                    return None;
                }
                j += 1;
            }
            k += 1;
        }
        Some(ColorPalette { entries, table_len })
    }

    /// A palette of `count` classes, shown in `count` different entries of a
    /// table of `table_len` colors, picked at random: the table's indices are
    /// shuffled and the first `count` of them taken.
    pub fn pick(table_len: usize, count: usize) -> (palette: Self)
        requires
            1 <= count <= table_len,
        ensures
            is_palette(palette@, table_len as nat),
            palette@.len() == count,
            palette.table_size() == table_len,
    {
        let mut order: Vec<usize> = identity_order(table_len);
        shuffle(&mut order);
        proof {
            lemma_reordered_identity(order@, table_len);
            lemma_prefix_is_palette(order@, count as int, table_len as nat);
        }
        order.truncate(count);
        ColorPalette { entries: order, table_len }
    }

    /// Draws the number of classes uniformly from
    /// `min_colors ..= max_colors`, then picks a palette of that size.
    pub fn generate(table_len: usize, min_colors: usize, max_colors: usize) -> (palette: Self)
        requires
            1 <= min_colors <= max_colors <= table_len,
        ensures
            is_palette(palette@, table_len as nat),
            min_colors <= palette@.len() <= max_colors,
            palette.table_size() == table_len,
    {
        let count: usize = random_index(min_colors, max_colors);
        ColorPalette::pick(table_len, count)
    }

    /// The number of active color classes, `N`.
    pub fn len(&self) -> (n: usize)
        ensures
            n == self@.len(),
            n >= 1,
    {
        proof {
            use_type_invariant(self);
        }
        self.entries.len()
    }

    /// The number of colors in the host's table.
    pub fn table_len(&self) -> (n: usize)
        ensures
            n == self.table_size(),
    {
        self.table_len
    }

    /// The entry of the host's color table that `class` is shown in.
    pub fn table_entry(&self, class: usize) -> (entry: usize)
        requires
            class < self@.len(),
        ensures
            entry == self@[class as int],
            entry < self.table_size(),
    {
        proof {
            use_type_invariant(self);
        }
        self.entries[class]
    }
}

} // verus!
