use vstd::prelude::*;

verus! {

/// Why a color translation table was refused.
#[derive(Debug, Clone, Copy, PartialEq, Eq, Structural)]
pub enum TrnError {
    /// A TRN file is exactly 256 bytes; this many were given.
    InvalidSize(usize),
}

/// A palette index translation (TRN): `map[old_index] = new_index`.
#[derive(Debug, Clone)]
pub struct ColorTransform {
    pub map: [u8; 256],
}

/// The number of indices below `n` that the table moves to another index.
pub open spec fn count_changed(map: Seq<u8>, n: int) -> int
    decreases n,
{
    if n <= 0 {
        0
    } else {
        count_changed(map, n - 1) + if map[n - 1] != (n - 1) as u8 { 1int } else { 0int }
    }
}

/// Every index maps to itself.
pub open spec fn spec_is_identity(map: Seq<u8>) -> bool {
    forall|i: int| 0 <= i < 256 ==> #[trigger] map[i] == i as u8
}

/// A pixel after translation: transparent pixels stay transparent.
pub open spec fn spec_translate(map: Seq<u8>, p: Option<u8>) -> Option<u8> {
    match p {
        Some(v) => Some(map[v as int]),
        None => None,
    }
}

impl ColorTransform {
    /// Read a 256-byte TRN table.
    pub fn from_bytes(data: &[u8]) -> (r: Result<ColorTransform, TrnError>)
        ensures
            data@.len() != 256 <==> r is Err,
            r matches Err(e) ==> e == TrnError::InvalidSize(data@.len() as usize),
            r matches Ok(t) ==> t.map@ == data@,
    {
        if data.len() != 256 {
            return Err(TrnError::InvalidSize(data.len()));
        }
        let mut map = [0u8; 256];
        let mut i: usize = 0;
        while i < 256
            invariant
                data@.len() == 256,
                i <= 256,
                forall|k: int| 0 <= k < i ==> #[trigger] map@[k] == data@[k],
            decreases 256 - i,
        {
            map[i] = data[i];
            i += 1;
        }
        assert(map@ =~= data@);
        Ok(ColorTransform { map })
    }

    /// The table that maps every index to itself.
    pub fn identity() -> (t: ColorTransform)
        ensures
            spec_is_identity(t.map@),
    {
        let mut map = [0u8; 256];
        let mut i: usize = 0;
        while i < 256
            invariant
                i <= 256,
                forall|k: int| 0 <= k < i ==> #[trigger] map@[k] == k as u8,
            decreases 256 - i,
        {
            map[i] = i as u8;
            i += 1;
        }
        ColorTransform { map }
    }

    /// The new index of `color_index`.
    pub fn apply(&self, color_index: u8) -> (v: u8)
        ensures
            v == self.map@[color_index as int],
    {
        self.map[color_index as usize]
    }

    /// Translate every opaque pixel in place; transparent pixels (`None`) stay.
    pub fn apply_to_pixels(&self, pixels: &mut [Option<u8>])
        ensures
            final(pixels)@.len() == old(pixels)@.len(),
            forall|i: int|
                0 <= i < old(pixels)@.len() ==> #[trigger] final(pixels)@[i] == spec_translate(
                    self.map@,
                    old(pixels)@[i],
                ),
    {
        let n = pixels.len();
        let mut i: usize = 0;
        while i < n
            invariant
                n == pixels@.len(),
                n == old(pixels)@.len(),
                i <= n,
                forall|k: int| 0 <= k < i ==> #[trigger] pixels@[k] == spec_translate(self.map@, old(pixels)@[k]),
                forall|k: int| i <= k < n ==> #[trigger] pixels@[k] == old(pixels)@[k],
            decreases n - i,
        {
            if let Some(index) = pixels[i] {
                pixels[i] = Some(self.apply(index));
            }
            i += 1;
        }
    }

    /// Whether every index maps to itself.
    pub fn is_identity(&self) -> (b: bool)
        ensures
            b == spec_is_identity(self.map@),
    {
        let mut i: usize = 0;
        while i < 256
            invariant
                i <= 256,
                forall|k: int| 0 <= k < i ==> #[trigger] self.map@[k] == k as u8,
            decreases 256 - i,
        {
            if self.map[i] != i as u8 {
                return false;
            }
            i += 1;
        }
        true
    }

    /// (how many indices the table changes, 256).
    pub fn change_stats(&self) -> (r: (usize, usize))
        ensures
            r.0 == count_changed(self.map@, 256),
            r.1 == 256,
    {
        let mut changed: usize = 0;
        let mut i: usize = 0;
        while i < 256
            invariant
                i <= 256,
                changed == count_changed(self.map@, i as int),
                changed <= i,
            decreases 256 - i,
        {
            if self.map[i] != i as u8 {
                changed += 1;
            }
            i += 1;
        }
        (changed, 256)
    }
}

/// A table changes no index exactly when it is the identity.
pub proof fn lemma_no_change_iff_identity(map: Seq<u8>)
    requires
        map.len() == 256,
    ensures
        (count_changed(map, 256) == 0) == spec_is_identity(map),
{
    lemma_count_zero(map, 256);
}

/// `count_changed(map, n)` is 0 exactly when the first `n` indices map to themselves.
proof fn lemma_count_zero(map: Seq<u8>, n: int)
    requires
        0 <= n <= 256,
    ensures
        count_changed(map, n) >= 0,
        (count_changed(map, n) == 0) == (forall|i: int| 0 <= i < n ==> #[trigger] map[i] == i as u8),
    decreases n,
{
    if n > 0 {
        lemma_count_zero(map, n - 1);
        if map[n - 1] != (n - 1) as u8 {
            assert(!(forall|i: int| 0 <= i < n ==> #[trigger] map[i] == i as u8));
        }
    }
}

/// Translating with a table and then with its inverse gives every index back.
pub proof fn lemma_inverse_round_trip(forward: Seq<u8>, backward: Seq<u8>, i: u8)
    requires
        forward.len() == 256,
        backward.len() == 256,
        forall|k: int| 0 <= k < 256 ==> #[trigger] backward[forward[k] as int] == k as u8,
    ensures
        backward[forward[i as int] as int] == i,
{
}

} // verus!
