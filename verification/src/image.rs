//! The table of applications embedded in the kernel image.

use crate::config::{APP_SIZE_LIMIT, MAX_APP_NUM};
use crate::words::{read_word, word_at};
use vstd::prelude::*;

verus! {

/// Why an embedded image cannot be used. Each of these is a defect of the
/// build, found at boot, after which the kernel cannot go on.
#[derive(Clone, Copy, Debug, PartialEq, Eq, Structural)]
pub enum BuildError {
    /// The declared count and the number of recorded boundaries disagree.
    CountMismatch,
    /// More applications are declared than the kernel has room for.
    TooManyApps,
    /// A boundary is not above the one before it.
    NotIncreasing,
    /// An application is larger than a slot.
    AppTooLarge,
    /// The image bytes do not span exactly the recorded boundaries.
    ImageSizeMismatch,
}

/// Application `i` ends above its start.
pub open spec fn grows_at(bounds: Seq<usize>, i: int) -> bool {
    bounds[i] < bounds[i + 1]
}

/// Application `i` is no larger than a slot.
pub open spec fn fits_at(bounds: Seq<usize>, i: int) -> bool {
    bounds[i + 1] - bounds[i] <= APP_SIZE_LIMIT
}

/// Every one of the first `n` applications ends above its start.
pub open spec fn increasing(bounds: Seq<usize>, n: int) -> bool {
    forall|i: int| 0 <= i < n ==> #[trigger] grows_at(bounds, i)
}

/// Every one of the first `n` applications fits into a slot.
pub open spec fn fits(bounds: Seq<usize>, n: int) -> bool {
    forall|i: int| 0 <= i < n ==> #[trigger] fits_at(bounds, i)
}

/// The first defect of a table made of `count`, `bounds` and an image of
/// `image_len` bytes, or `None` where it has none.
pub open spec fn table_fault(count: usize, bounds: Seq<usize>, image_len: int) -> Option<
    BuildError,
> {
    if bounds.len() != count + 1 {
        Some(BuildError::CountMismatch)
    } else if count > MAX_APP_NUM {
        Some(BuildError::TooManyApps)
    } else if !increasing(bounds, count as int) {
        Some(BuildError::NotIncreasing)
    } else if !fits(bounds, count as int) {
        Some(BuildError::AppTooLarge)
    } else if image_len != bounds[count as int] - bounds[0] {
        Some(BuildError::ImageSizeMismatch)
    } else {
        None
    }
}

/// The count that the bytes of a table declare: their first word.
pub open spec fn declared_count(bytes: Seq<u8>) -> usize {
    word_at(bytes, 0)
}

/// The bytes of a table hold a count and, after it, exactly one boundary
/// more than the count says, each as one word.
pub open spec fn well_framed(bytes: Seq<u8>) -> bool {
    bytes.len() >= 8 && bytes.len() == 8 * (declared_count(bytes) + 2)
}

/// The boundaries that the bytes of a table record after the count.
pub open spec fn recorded_bounds(bytes: Seq<u8>) -> Seq<usize> {
    Seq::new((declared_count(bytes) + 1) as nat, |i: int| word_at(bytes, i + 1))
}

/// The first defect of a table given by its bytes, with an image of
/// `image_len` bytes, or `None` where it has none.
pub open spec fn parse_fault(bytes: Seq<u8>, image_len: int) -> Option<BuildError> {
    if !well_framed(bytes) {
        Some(BuildError::CountMismatch)
    } else {
        table_fault(declared_count(bytes), recorded_bounds(bytes), image_len)
    }
}

/// The embedded applications: how many there are, the address at which each
/// begins and the last one ends, and the bytes between the first and the last
/// of these addresses.
pub struct ImageTable {
    count: usize,
    bounds: Vec<usize>,
    image: Vec<u8>,
}

impl ImageTable {
    /// Number of embedded applications.
    pub closed spec fn spec_count(&self) -> int {
        self.count as int
    }

    /// The recorded boundaries, one more than there are applications.
    pub closed spec fn spec_bounds(&self) -> Seq<usize> {
        self.bounds@
    }

    /// The bytes of all applications, from the first boundary to the last.
    pub closed spec fn spec_image(&self) -> Seq<u8> {
        self.image@
    }

    /// The table has no defect.
    pub open spec fn wf(&self) -> bool {
        &&& 0 <= self.spec_count() <= usize::MAX
        &&& table_fault(
            self.spec_count() as usize,
            self.spec_bounds(),
            self.spec_image().len() as int,
        ) is None
    }

    /// The address range `(start, end)` of application `id` in the image.
    pub open spec fn spec_range(&self, id: int) -> (usize, usize) {
        (self.spec_bounds()[id], self.spec_bounds()[id + 1])
    }

    /// Number of bytes of application `id`.
    pub open spec fn app_len(&self, id: int) -> int {
        self.spec_bounds()[id + 1] - self.spec_bounds()[id]
    }

    /// The bytes of application `id`.
    pub open spec fn app_bytes(&self, id: int) -> Seq<u8> {
        self.spec_image().subrange(
            self.spec_bounds()[id] - self.spec_bounds()[0],
            self.spec_bounds()[id + 1] - self.spec_bounds()[0],
        )
    }

    /// What a slot holds once application `id` has been loaded into it: the
    /// application's bytes, then zeros up to the slot's size.
    pub open spec fn slot_image(&self, id: int) -> Seq<u8> {
        self.app_bytes(id) + crate::region::zeros(APP_SIZE_LIMIT - self.app_len(id))
    }

    /// Boundaries of a table without defect never decrease.
    pub proof fn lemma_bounds_ordered(&self, i: int, j: int)
        requires
            self.wf(),
            0 <= i <= j <= self.spec_count(),
        ensures
            self.spec_bounds()[i] <= self.spec_bounds()[j],
            i < j ==> self.spec_bounds()[i] < self.spec_bounds()[j],
        decreases j - i,
    {
        if i < j {
            self.lemma_bounds_ordered(i, j - 1);
            assert(grows_at(self.spec_bounds(), j - 1));
        }
    }

    /// Every application of a table without defect lies inside the image and
    /// is no larger than a slot.
    pub proof fn lemma_app_in_image(&self, id: int)
        requires
            self.wf(),
            0 <= id < self.spec_count(),
        ensures
            0 < self.app_len(id) <= APP_SIZE_LIMIT,
            self.spec_bounds()[0] <= self.spec_bounds()[id],
            self.spec_bounds()[id + 1] - self.spec_bounds()[0] <= self.spec_image().len(),
            self.app_bytes(id).len() == self.app_len(id),
            self.slot_image(id).len() == APP_SIZE_LIMIT,
    {
        self.lemma_bounds_ordered(0, id);
        self.lemma_bounds_ordered(id + 1, self.spec_count());
        assert(grows_at(self.spec_bounds(), id));
        assert(fits_at(self.spec_bounds(), id));
    }

    /// Builds the table from the declared count, the recorded boundaries and
    /// the image bytes, or names the first defect found.
    pub fn new(count: usize, bounds: Vec<usize>, image: Vec<u8>) -> (r: Result<
        ImageTable,
        BuildError,
    >)
        ensures
            match r {
                Ok(t) => {
                    &&& table_fault(count, bounds@, image@.len() as int) is None
                    &&& t.wf()
                    &&& t.spec_count() == count
                    &&& t.spec_bounds() == bounds@
                    &&& t.spec_image() == image@
                },
                Err(e) => table_fault(count, bounds@, image@.len() as int) == Some(e),
            },
    {
        if bounds.len() == 0 || bounds.len() - 1 != count {
            return Err(BuildError::CountMismatch);
        }
        if count > MAX_APP_NUM {
            return Err(BuildError::TooManyApps);
        }
        let mut i: usize = 0;
        while i < count
            invariant
                i <= count,
                count <= MAX_APP_NUM,
                bounds@.len() == count + 1,
                increasing(bounds@, i as int),
            decreases count - i,
        {
            if bounds[i] >= bounds[i + 1] {
                assert(!grows_at(bounds@, i as int));
                return Err(BuildError::NotIncreasing);
            }
            i += 1;
        }
        i = 0;
        while i < count
            invariant
                i <= count,
                count <= MAX_APP_NUM,
                bounds@.len() == count + 1,
                increasing(bounds@, count as int),
                fits(bounds@, i as int),
            decreases count - i,
        {
            assert(grows_at(bounds@, i as int));
            if bounds[i + 1] - bounds[i] > APP_SIZE_LIMIT {
                assert(!fits_at(bounds@, i as int));
                return Err(BuildError::AppTooLarge);
            }
            i += 1;
        }
        let t = ImageTable { count, bounds, image };
        proof {
            if count > 0 {
                // the span from the first to the last boundary is not negative
                assert(t.spec_bounds()[0] <= t.spec_bounds()[count as int]) by {
                    Self::lemma_increasing_ordered(t.spec_bounds(), count as int, 0, count as int);
                }
            }
        }
        if t.image.len() != t.bounds[count] - t.bounds[0] {
            return Err(BuildError::ImageSizeMismatch);
        }
        Ok(t)
    }

    /// Reads the table from the bytes it occupies in the kernel image, the
    /// count first and the boundaries after it, or names the first defect
    /// found. `image` holds the bytes between the first and the last boundary.
    pub fn parse(bytes: &[u8], image: Vec<u8>) -> (r: Result<ImageTable, BuildError>)
        ensures
            match r {
                Ok(t) => {
                    &&& parse_fault(bytes@, image@.len() as int) is None
                    &&& t.wf()
                    &&& t.spec_count() == declared_count(bytes@)
                    &&& t.spec_bounds() == recorded_bounds(bytes@)
                    &&& t.spec_image() == image@
                },
                Err(e) => parse_fault(bytes@, image@.len() as int) == Some(e),
            },
    {
        let len: usize = bytes.len();
        if len < 16 || len % 8 != 0 {
            return Err(BuildError::CountMismatch);
        }
        let count: usize = read_word(bytes, 0);
        if len / 8 - 2 != count {
            return Err(BuildError::CountMismatch);
        }
        let mut bounds: Vec<usize> = Vec::new();
        let mut i: usize = 0;
        while i < count + 1
            invariant
                i <= count + 1,
                len == bytes@.len(),
                len == 8 * (count + 2),
                bounds@.len() == i,
                forall|j: int| 0 <= j < i ==> bounds@[j] == word_at(bytes@, j + 1),
            decreases count + 1 - i,
        {
            bounds.push(read_word(bytes, i + 1));
            i += 1;
        }
        assert(bounds@ =~= recorded_bounds(bytes@));
        Self::new(count, bounds, image)
    }

    proof fn lemma_increasing_ordered(bounds: Seq<usize>, n: int, i: int, j: int)
        requires
            increasing(bounds, n),
            0 <= i <= j <= n,
        ensures
            bounds[i] <= bounds[j],
        decreases j - i,
    {
        if i < j {
            Self::lemma_increasing_ordered(bounds, n, i, j - 1);
            assert(grows_at(bounds, j - 1));
        }
    }

    /// Number of embedded applications.
    pub fn application_count(&self) -> (n: usize)
        ensures
            n == self.spec_count(),
    {
        self.count
    }

    /// The address range `(start, end)` of application `id` in the image.
    pub fn image_range(&self, id: usize) -> (r: (usize, usize))
        requires
            self.wf(),
            id < self.spec_count(),
        ensures
            r == self.spec_range(id as int),
    {
        (self.bounds[id], self.bounds[id + 1])
    }

    /// The bytes of application `id`.
    pub fn app_image(&self, id: usize) -> (bytes: &[u8])
        requires
            self.wf(),
            id < self.spec_count(),
        ensures
            bytes@ == self.app_bytes(id as int),
    {
        proof {
            self.lemma_app_in_image(id as int);
        }
        let first: usize = self.bounds[0];
        let start: usize = self.bounds[id] - first;
        let end: usize = self.bounds[id + 1] - first;
        vstd::slice::slice_subrange(self.image.as_slice(), start, end)
    }
}

} // verus!
