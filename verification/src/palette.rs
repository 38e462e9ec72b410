use vstd::prelude::*;
use crate::EngineError;

verus! {

/// Number of palette entries.  Fixed at construction; the palette is never
/// resized.
pub const PALETTE_ENTRIES: usize = 256;

/// A fixed-size table mapping small integer indices to RGB triples, stored
/// as consecutive `(R, G, B)` byte triples: entry `i` occupies bytes
/// `3i`, `3i + 1` and `3i + 2`.
pub struct Palette {
    pub colors: Vec<u8>,
}

/// The RGB triple stored at entry `i` of a palette byte table.
pub open spec fn rgb_at(colors: Seq<u8>, i: int) -> (u8, u8, u8) {
    (colors[3 * i], colors[3 * i + 1], colors[3 * i + 2])
}

/// The palette byte table with entry `i` overwritten by `(r, g, b)` and
/// every other byte unchanged.
pub open spec fn with_entry(colors: Seq<u8>, i: int, r: u8, g: u8, b: u8) -> Seq<u8> {
    colors.update(3 * i, r).update(3 * i + 1, g).update(3 * i + 2, b)
}

impl Palette {
    /// The palette's structural invariant: exactly three bytes per entry.
    pub open spec fn wf(&self) -> bool {
        self.colors@.len() == 3 * PALETTE_ENTRIES
    }

    /// A fresh palette with every entry zero-initialized (black).
    pub fn new() -> (p: Palette)
        ensures
            p.wf(),
            forall|i: int| 0 <= i < 3 * PALETTE_ENTRIES ==> p.colors@[i] == 0u8,
    {
        let mut colors: Vec<u8> = Vec::new();
        let mut i: usize = 0;
        while i < 3 * PALETTE_ENTRIES
            invariant
                i <= 3 * PALETTE_ENTRIES,
                colors@.len() == i,
                forall|j: int| 0 <= j < i ==> colors@[j] == 0u8,
            decreases 3 * PALETTE_ENTRIES - i,
        {
            colors.push(0);
            i = i + 1;
        }
        Palette { colors }
    }

    /// Overwrites the triple at `index`; rejects an index beyond capacity
    /// and then changes nothing.
    pub fn set_color(&mut self, index: usize, r: u8, g: u8, b: u8) -> (res: Result<
        (),
        EngineError,
    >)
        requires
            old(self).wf(),
        ensures
            final(self).wf(),
            index < PALETTE_ENTRIES ==> res == Ok::<(), EngineError>(()) && final(self).colors@
                == with_entry(old(self).colors@, index as int, r, g, b),
            index >= PALETTE_ENTRIES ==> res == Err::<(), EngineError>(EngineError::IndexOutOfRange)
                && *final(self) == *old(self),
    {
        if index >= PALETTE_ENTRIES {
            return Err(EngineError::IndexOutOfRange);
        }
        self.colors.set(3 * index, r);
        self.colors.set(3 * index + 1, g);
        self.colors.set(3 * index + 2, b);
        Ok(())
    }

    /// Reads the triple at `index`; rejects an index beyond capacity.
    pub fn lookup(&self, index: usize) -> (res: Result<(u8, u8, u8), EngineError>)
        requires
            self.wf(),
        ensures
            index < PALETTE_ENTRIES ==> res == Ok::<(u8, u8, u8), EngineError>(
                rgb_at(self.colors@, index as int),
            ),
            index >= PALETTE_ENTRIES ==> res == Err::<(u8, u8, u8), EngineError>(
                EngineError::IndexOutOfRange,
            ),
    {
        if index >= PALETTE_ENTRIES {
            return Err(EngineError::IndexOutOfRange);
        }
        let r = self.colors[3 * index];
        let g = self.colors[3 * index + 1];
        let b = self.colors[3 * index + 2];
        Ok((r, g, b))
    }
}

/// Writing an entry and reading it back returns exactly the written triple,
/// and leaves every other entry exactly as it was.
pub proof fn lemma_set_then_lookup(colors: Seq<u8>, i: int, r: u8, g: u8, b: u8)
    requires
        colors.len() == 3 * PALETTE_ENTRIES,
        0 <= i < PALETTE_ENTRIES,
    ensures
        rgb_at(with_entry(colors, i, r, g, b), i) == (r, g, b),
        forall|j: int|
            0 <= j < PALETTE_ENTRIES && j != i ==> rgb_at(with_entry(colors, i, r, g, b), j)
                == rgb_at(colors, j),
{
}

} // verus!
