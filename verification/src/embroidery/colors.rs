//! Colours, the threads of a catalog, and the search for the thread that
//! stands for a colour.

use crate::embroidery::dmc::{dmc_thread, DMC_LEN, RGB_TO_DMC};
use vstd::prelude::*;

verus! {

/// A colour as three 8-bit channels.
#[derive(Debug, Copy, Clone, PartialEq, Eq, Hash, Structural)]
pub struct RgbColor {
    pub red: u8,
    pub green: u8,
    pub blue: u8,
}

/// The Lab coordinates of a colour, each held as an integer key.
///
/// A key orders as the single-precision coordinate does: it is the
/// coordinate's bit pattern where the sign bit is clear, and the negated
/// magnitude bits where it is set, so both zeros have key 0.
#[derive(Debug, Copy, Clone, PartialEq, Eq, Hash, Structural)]
pub struct LabColor {
    pub l: i32,
    pub a: i32,
    pub b: i32,
}

/// The key of a single-precision bit pattern.
pub open spec fn key_of_bits(bits: u32) -> int {
    if bits < 0x8000_0000 {
        bits as int
    } else {
        0x8000_0000 - bits
    }
}

/// Computes the key of a single-precision bit pattern.
pub fn key_from_bits(bits: u32) -> (key: i32)
    ensures
        key == key_of_bits(bits),
{
    if bits < 0x8000_0000 {
        bits as i32
    } else {
        let magnitude: u32 = bits - 0x8000_0000;
        0 - (magnitude as i32)
    }
}

/// The bit pattern with the key `key`: the inverse of `key_of_bits` on the
/// keys it gives, and 0 for the one integer that is no key.
pub open spec fn bits_of_key(key: i32) -> u32 {
    if key >= 0 {
        key as u32
    } else if key == i32::MIN {
        0
    } else {
        (0x8000_0000 - key) as u32
    }
}

/// Computes the bit pattern with the key `key`.
pub fn key_to_bits(key: i32) -> (bits: u32)
    ensures
        bits == bits_of_key(key),
        key > i32::MIN ==> key_of_bits(bits) == key,
{
    if key >= 0 {
        key as u32
    } else if key == i32::MIN {
        0
    } else {
        let magnitude: u32 = (0 - key) as u32;
        0x8000_0000 + magnitude
    }
}

impl LabColor {
    /// Lexicographic order on (L, a, b): `self` strictly before `other`.
    pub open spec fn lt(self, other: LabColor) -> bool {
        self.l < other.l || (self.l == other.l && (self.a < other.a || (self.a == other.a
            && self.b < other.b)))
    }

    /// Lexicographic order on (L, a, b): `self` before or equal to `other`.
    pub open spec fn le(self, other: LabColor) -> bool {
        !other.lt(self)
    }

    /// The Lab colour whose coordinates have the given bit patterns.
    pub fn from_bits(l: u32, a: u32, b: u32) -> (lab: LabColor)
        ensures
            lab.l == key_of_bits(l),
            lab.a == key_of_bits(a),
            lab.b == key_of_bits(b),
    {
        LabColor { l: key_from_bits(l), a: key_from_bits(a), b: key_from_bits(b) }
    }

    /// The bit patterns of the coordinates.
    pub fn to_bits(&self) -> (bits: (u32, u32, u32))
        ensures
            bits.0 == bits_of_key(self.l),
            bits.1 == bits_of_key(self.a),
            bits.2 == bits_of_key(self.b),
    {
        (key_to_bits(self.l), key_to_bits(self.a), key_to_bits(self.b))
    }

    /// Whether `self` comes strictly before `other` in (L, a, b) order.
    pub fn precedes(&self, other: &LabColor) -> (r: bool)
        ensures
            r == self.lt(*other),
    {
        self.l < other.l || (self.l == other.l && (self.a < other.a || (self.a == other.a
            && self.b < other.b)))
    }
}

/// A thread of the catalog: its name, its colour and the colour's Lab
/// coordinates.
#[derive(Debug, Copy, Clone, PartialEq, Eq, Hash)]
pub struct DmcColor {
    pub name: &'static str,
    pub rgb: RgbColor,
    pub lab: LabColor,
}

/// The first position of the least value of `diffs`; 0 where `diffs` is empty.
pub open spec fn first_min(diffs: Seq<i32>) -> int
    decreases diffs.len(),
{
    if diffs.len() <= 1 {
        0
    } else {
        let m = first_min(diffs.drop_last());
        if diffs.last() < diffs[m] {
            diffs.len() - 1
        } else {
            m
        }
    }
}

/// `first_min` is a position of the least value, and no earlier position
/// holds a value as small.
pub proof fn lemma_first_min(diffs: Seq<i32>)
    requires
        diffs.len() > 0,
    ensures
        0 <= first_min(diffs) < diffs.len(),
        forall|j: int| 0 <= j < diffs.len() ==> diffs[first_min(diffs)] <= #[trigger] diffs[j],
        forall|j: int| 0 <= j < first_min(diffs) ==> diffs[first_min(diffs)] < #[trigger] diffs[j],
    decreases diffs.len(),
{
    if diffs.len() > 1 {
        let front = diffs.drop_last();
        lemma_first_min(front);
        assert forall|j: int| 0 <= j < diffs.len() implies diffs[first_min(diffs)]
            <= #[trigger] diffs[j] by {
            if j < diffs.len() - 1 {
                assert(front[j] == diffs[j]);
            }
        }
        assert forall|j: int| 0 <= j < first_min(diffs) implies diffs[first_min(diffs)]
            < #[trigger] diffs[j] by {
            assert(front[j] == diffs[j]);
        }
    }
}

/// Finds the first position of the least value.
pub fn first_min_index(diffs: &Vec<i32>) -> (best: usize)
    requires
        diffs.len() > 0,
    ensures
        best == first_min(diffs@),
        best < diffs.len(),
{
    let mut best: usize = 0;
    let mut i: usize = 1;
    proof {
        assert(diffs@.take(1).len() == 1);
    }
    while i < diffs.len()
        invariant
            1 <= i <= diffs.len(),
            best == first_min(diffs@.take(i as int)),
            best < i,
        decreases diffs.len() - i,
    {
        proof {
            let next = diffs@.take(i + 1);
            assert(next.drop_last() =~= diffs@.take(i as int));
            assert(next.last() == diffs@[i as int]);
            assert(next[best as int] == diffs@[best as int]);
        }
        if diffs[i] < diffs[best] {
            best = i;
        }
        i += 1;
    }
    proof {
        assert(diffs@.take(diffs.len() as int) =~= diffs@);
    }
    best
}

/// The first position of `entries` whose colour is `rgb`; the length of
/// `entries` where none is.
pub open spec fn first_match(entries: Seq<DmcColor>, rgb: RgbColor) -> int
    decreases entries.len(),
{
    if entries.len() == 0 {
        0
    } else {
        let p = first_match(entries.drop_last(), rgb);
        if p < entries.len() - 1 {
            p
        } else if entries.last().rgb == rgb {
            entries.len() - 1
        } else {
            entries.len() as int
        }
    }
}

/// `first_match` is the first position that holds `rgb`, or the length.
pub proof fn lemma_first_match(entries: Seq<DmcColor>, rgb: RgbColor)
    ensures
        0 <= first_match(entries, rgb) <= entries.len(),
        first_match(entries, rgb) < entries.len() ==> entries[first_match(entries, rgb)].rgb
            == rgb,
        forall|j: int| 0 <= j < first_match(entries, rgb) ==> (#[trigger] entries[j]).rgb != rgb,
    decreases entries.len(),
{
    if entries.len() > 0 {
        let front = entries.drop_last();
        lemma_first_match(front, rgb);
        assert forall|j: int| 0 <= j < first_match(entries, rgb) implies (#[trigger] entries[j]).rgb
            != rgb by {
            if j < entries.len() - 1 {
                assert(front[j] == entries[j]);
            }
        }
        if first_match(front, rgb) < front.len() {
            assert(front[first_match(front, rgb)] == entries[first_match(front, rgb)]);
        }
    }
}

/// The position of the thread that stands for `rgb`: the first thread of
/// exactly that colour, and where there is none, the first thread at the
/// least distance.
pub open spec fn nearest_position(entries: Seq<DmcColor>, rgb: RgbColor, diffs: Seq<i32>) -> int {
    if first_match(entries, rgb) < entries.len() {
        first_match(entries, rgb)
    } else {
        first_min(diffs)
    }
}

/// The thread that stands for a colour is a thread of the list, where the
/// list is not empty and there is a distance for each thread, or a thread of
/// exactly that colour.
pub proof fn lemma_nearest_position(entries: Seq<DmcColor>, rgb: RgbColor, diffs: Seq<i32>)
    requires
        entries.len() > 0,
        first_match(entries, rgb) == entries.len() ==> diffs.len() == entries.len(),
    ensures
        0 <= nearest_position(entries, rgb, diffs) < entries.len(),
{
    lemma_first_match(entries, rgb);
    if first_match(entries, rgb) == entries.len() {
        lemma_first_min(diffs);
    }
}

/// A fixed, non-empty list of threads.
pub struct Catalog {
    entries: Vec<DmcColor>,
}

impl Catalog {
    /// The threads, in the order in which they are searched.
    pub closed spec fn view(&self) -> Seq<DmcColor> {
        self.entries@
    }

    /// A catalog holds at least one thread.
    pub closed spec fn wf(&self) -> bool {
        self.entries@.len() > 0
    }

    /// What `wf` says of the view.
    pub proof fn lemma_wf(&self)
        ensures
            self.wf() <==> self@.len() > 0,
    {
    }

    /// A catalog of the given threads; none where there is no thread.
    pub fn new(entries: Vec<DmcColor>) -> (catalog: Option<Catalog>)
        ensures
            entries@.len() == 0 <==> catalog.is_none(),
            catalog matches Some(c) ==> c.wf() && c@ == entries@,
    {
        if entries.len() == 0 {
            None
        } else {
            Some(Catalog { entries })
        }
    }

    /// The catalog of the DMC threads, in the table's order.
    pub fn dmc() -> (catalog: Catalog)
        ensures
            catalog.wf(),
            catalog@.len() == DMC_LEN,
            forall|i: int| 0 <= i < DMC_LEN ==> catalog@[i] == dmc_thread(i),
    {
        let table = RGB_TO_DMC;
        let mut entries: Vec<DmcColor> = Vec::new();
        let mut i: usize = 0;
        while i < DMC_LEN
            invariant
                i <= DMC_LEN,
                table == RGB_TO_DMC,
                entries@.len() == i,
                forall|j: int| 0 <= j < i ==> entries@[j] == dmc_thread(j),
            decreases DMC_LEN - i,
        {
            let row = table[i];
            entries.push(
                DmcColor {
                    name: row.6,
                    rgb: RgbColor { red: row.0, green: row.1, blue: row.2 },
                    lab: LabColor { l: row.3, a: row.4, b: row.5 },
                },
            );
            i += 1;
        }
        Catalog { entries }
    }

    /// The number of threads.
    pub fn len(&self) -> (n: usize)
        ensures
            n == self@.len(),
    {
        self.entries.len()
    }

    /// The thread at position `i`.
    pub fn get(&self, i: usize) -> (thread: DmcColor)
        requires
            i < self@.len(),
        ensures
            thread == self@[i as int],
    {
        self.entries[i]
    }

    /// The position of the first thread of exactly the colour `rgb`.
    pub fn exact(&self, rgb: RgbColor) -> (found: Option<usize>)
        ensures
            found.is_some() <==> first_match(self@, rgb) < self@.len(),
            found matches Some(i) ==> i == first_match(self@, rgb),
    {
        let mut i: usize = 0;
        proof {
            assert(self.entries@.take(0).len() == 0);
        }
        while i < self.entries.len()
            invariant
                i <= self.entries.len(),
                first_match(self.entries@.take(i as int), rgb) == i,
            decreases self.entries.len() - i,
        {
            proof {
                let next = self.entries@.take(i + 1);
                assert(next.drop_last() =~= self.entries@.take(i as int));
                assert(next.last() == self.entries@[i as int]);
            }
            if self.entries[i].rgb == rgb {
                proof {
                    lemma_first_match_prefix(self.entries@, rgb, i + 1);
                }
                return Some(i);
            }
            i += 1;
        }
        proof {
            assert(self.entries@.take(self.entries.len() as int) =~= self.entries@);
        }
        None
    }

    /// The position of the thread that stands for `rgb`, given the distance
    /// from `rgb` to each thread. The distances are read only where no thread
    /// has exactly the colour `rgb`.
    pub fn nearest_index(&self, rgb: RgbColor, diffs: &Vec<i32>) -> (best: usize)
        requires
            self.wf(),
            first_match(self@, rgb) == self@.len() ==> diffs@.len() == self@.len(),
        ensures
            best == nearest_position(self@, rgb, diffs@),
            best < self@.len(),
    {
        match self.exact(rgb) {
            Some(i) => i,
            None => first_min_index(diffs),
        }
    }

    /// The thread that stands for `rgb`, given the distance from `rgb` to
    /// each thread.
    pub fn nearest(&self, rgb: RgbColor, diffs: &Vec<i32>) -> (thread: DmcColor)
        requires
            self.wf(),
            first_match(self@, rgb) == self@.len() ==> diffs@.len() == self@.len(),
        ensures
            thread == self@[nearest_position(self@, rgb, diffs@)],
    {
        let i = self.nearest_index(rgb, diffs);
        self.entries[i]
    }
}

/// A prefix that holds `rgb` fixes the first match of the whole.
pub proof fn lemma_first_match_prefix(entries: Seq<DmcColor>, rgb: RgbColor, n: int)
    requires
        0 <= n <= entries.len(),
        first_match(entries.take(n), rgb) < n,
    ensures
        first_match(entries, rgb) == first_match(entries.take(n), rgb),
    decreases entries.len() - n,
{
    if n < entries.len() {
        let next = entries.take(n + 1);
        assert(next.drop_last() =~= entries.take(n));
        lemma_first_match_prefix(entries, rgb, n + 1);
    } else {
        assert(entries.take(n) =~= entries);
    }
}

impl RgbColor {
    /// The thread of `catalog` that stands for this colour, given the
    /// distance from this colour to each thread.
    pub fn find_dmc(&self, catalog: &Catalog, diffs: &Vec<i32>) -> (thread: DmcColor)
        requires
            catalog.wf(),
            first_match(catalog@, *self) == catalog@.len() ==> diffs@.len() == catalog@.len(),
        ensures
            thread == catalog@[nearest_position(catalog@, *self, diffs@)],
    {
        catalog.nearest(*self, diffs)
    }
}

/// Every thread stands for its own colour: the thread found for the colour
/// of a catalog thread has that colour, whatever the distances, and it is
/// that very thread unless an earlier one has the same colour.
pub proof fn lemma_nearest_of_catalog_color(entries: Seq<DmcColor>, i: int, diffs: Seq<i32>)
    requires
        0 <= i < entries.len(),
    ensures
        0 <= nearest_position(entries, entries[i].rgb, diffs) <= i,
        entries[nearest_position(entries, entries[i].rgb, diffs)].rgb == entries[i].rgb,
        (forall|j: int| 0 <= j < i ==> (#[trigger] entries[j]).rgb != entries[i].rgb)
            ==> nearest_position(entries, entries[i].rgb, diffs) == i,
{
    lemma_first_match(entries, entries[i].rgb);
    let p = first_match(entries, entries[i].rgb);
    if p > i {
        assert(entries[i].rgb != entries[i].rgb);
    }
}

} // verus!
