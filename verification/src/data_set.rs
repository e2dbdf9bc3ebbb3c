//! A dense, fixed-size cuboid of cells addressed by `(x, y, z)` coordinates.
//!
//! Cells live in one contiguous vector; the coordinate `(x, y, z)` is stored
//! at linear position `x + y * width + z * width * height`, so `x` varies
//! fastest, then `y`, then `z`. All dimensions are strictly positive and the
//! storage length is exactly `width * height * depth`.

use vstd::prelude::*;
use rayon::iter::IndexedParallelIterator;
use rayon::iter::IntoParallelRefIterator;
use rayon::iter::IntoParallelRefMutIterator;
use rayon::iter::ParallelIterator;
use crate::coords::lemma_coords_of_linear;
use crate::coords::lemma_linear_bounds;
use crate::coords::lemma_linear_of_coords;
use crate::coords::linear_of;
use crate::coords::x_of;
use crate::coords::y_of;
use crate::coords::z_of;
use crate::error::PipelineError;

verus! {

/// The dense three-dimensional grid. Its view is the flat sequence of cells
/// in storage order.
pub struct DataSet<T> {
    data: Vec<T>,
    width: usize,
    height: usize,
    depth: usize,
}

impl<T> View for DataSet<T> {
    type V = Seq<T>;

    closed spec fn view(&self) -> Seq<T> {
        self.data@
    }
}

impl<T> DataSet<T> {
    /// The number of cells along the `x` axis.
    pub closed spec fn spec_width(self) -> usize {
        self.width
    }

    /// The number of cells along the `y` axis.
    pub closed spec fn spec_height(self) -> usize {
        self.height
    }

    /// The number of cells along the `z` axis.
    pub closed spec fn spec_depth(self) -> usize {
        self.depth
    }

    /// Whether `(x, y, z)` addresses a cell of this grid.
    pub open spec fn in_bounds(self, x: int, y: int, z: int) -> bool {
        &&& 0 <= x < self.spec_width()
        &&& 0 <= y < self.spec_height()
        &&& 0 <= z < self.spec_depth()
    }

    /// The linear storage position of the cell at `(x, y, z)`.
    pub open spec fn idx(self, x: int, y: int, z: int) -> int {
        linear_of(x, y, z, self.spec_width() as int, self.spec_height() as int)
    }

    /// The cell stored at `(x, y, z)`.
    pub open spec fn cell(self, x: int, y: int, z: int) -> T {
        self@[self.idx(x, y, z)]
    }

    /// Well-formedness: all dimensions are strictly positive and the storage
    /// holds exactly one cell per coordinate. Constructors establish this and
    /// every method preserves it.
    pub open spec fn wf(self) -> bool {
        &&& 0 < self.spec_width()
        &&& 0 < self.spec_height()
        &&& 0 < self.spec_depth()
        &&& self.spec_width() * self.spec_height() * self.spec_depth() <= usize::MAX
        &&& self@.len() == self.spec_width() * self.spec_height() * self.spec_depth()
    }

    /// Consumes the grid and hands back its cells as one owned vector in
    /// linear storage order.
    pub fn into_vec(self) -> (r: Vec<T>)
        ensures
            r@ == self@,
    {
        self.data
    }
}

impl<T> DataSet<T> where T: Send + Sync {
    /// Builds a grid of the given dimensions, filling the storage by calling
    /// `initializer` exactly once per coordinate, in storage order: `z`
    /// outermost, then `y`, then `x` innermost. Any zero dimension is
    /// rejected with `InvalidDimensions`.
    pub fn new<F>(width: usize, height: usize, depth: usize, initializer: F) -> (r: Result<
        Self,
        PipelineError,
    >) where F: Fn((usize, usize, usize)) -> T
        requires
            width * height * depth <= usize::MAX,
            forall|x: usize, y: usize, z: usize|
                x < width && y < height && z < depth ==> #[trigger] call_requires(
                    initializer,
                    ((x, y, z),),
                ),
        ensures
            match r {
                Ok(g) => {
                    &&& 0 < width && 0 < height && 0 < depth
                    &&& g.wf()
                    &&& g.spec_width() == width
                    &&& g.spec_height() == height
                    &&& g.spec_depth() == depth
                    &&& g@.len() == width * height * depth
                    &&& forall|x: usize, y: usize, z: usize|
                        g.in_bounds(x as int, y as int, z as int) ==> call_ensures(
                            initializer,
                            ((x, y, z),),
                            #[trigger] g.cell(x as int, y as int, z as int),
                        )
                },
                Err(e) => {
                    &&& (width == 0 || height == 0 || depth == 0)
                    &&& e == PipelineError::InvalidDimensions
                },
            },
    {
        if width == 0 || height == 0 || depth == 0 {
            return Err(PipelineError::InvalidDimensions);
        }
        proof {
            lemma_linear_bounds(0, 0, 0, width as int, height as int, depth as int);
        }
        let total: usize = width * height * depth;
        let mut data: Vec<T> = Vec::new();
        let mut i: usize = 0;
        while i < total
            invariant
                0 < width,
                0 < height,
                0 < depth,
                total == width * height * depth,
                width * height <= total,
                i <= total,
                data@.len() == i,
                forall|x: usize, y: usize, z: usize|
                    x < width && y < height && z < depth ==> #[trigger] call_requires(
                        initializer,
                        ((x, y, z),),
                    ),
                forall|j: int|
                    0 <= j < i ==> call_ensures(
                        initializer,
                        ((
                            (x_of(j, width as int) as usize),
                            (y_of(j, width as int, height as int) as usize),
                            (z_of(j, width as int, height as int) as usize),
                        ),),
                        #[trigger] data@[j],
                    ),
            decreases total - i,
        {
            proof {
                assert(0 < width * height) by (nonlinear_arith)
                    requires
                        0 < width,
                        0 < height;
                lemma_linear_of_coords(i as int, width as int, height as int, depth as int);
            }
            let x = i % width;
            let y = (i / width) % height;
            let z = i / (width * height);
            let v = initializer((x, y, z));
            data.push(v);
            i = i + 1;
        }
        let g = DataSet { data, width, height, depth };
        proof {
            assert forall|x: usize, y: usize, z: usize|
                g.in_bounds(x as int, y as int, z as int) implies call_ensures(
                initializer,
                ((x, y, z),),
                #[trigger] g.cell(x as int, y as int, z as int),
            ) by {
                lemma_linear_bounds(
                    x as int,
                    y as int,
                    z as int,
                    width as int,
                    height as int,
                    depth as int,
                );
                lemma_coords_of_linear(x as int, y as int, z as int, width as int, height as int);
            }
        }
        Ok(g)
    }

    /// Read access to the cell at `(x, y, z)`: a reference when the
    /// coordinate is in bounds, absent otherwise. This is the recoverable
    /// accessor; it never fails fatally.
    pub fn get(&self, x: usize, y: usize, z: usize) -> (r: Option<&T>)
        requires
            self.wf(),
        ensures
            self.in_bounds(x as int, y as int, z as int) ==> (r matches Some(c) && *c == self.cell(
                x as int,
                y as int,
                z as int,
            )),
            !self.in_bounds(x as int, y as int, z as int) ==> r is None,
    {
        if x < self.width && y < self.height && z < self.depth {
            let i = self.linear_index(x, y, z);
            Some(&self.data[i])
        } else {
            None
        }
    }

    /// Write access to the cell at `(x, y, z)`: a mutable reference when the
    /// coordinate is in bounds, absent otherwise. Whatever the caller stores
    /// through the reference lands in that cell and nowhere else.
    pub fn get_mut(&mut self, x: usize, y: usize, z: usize) -> (r: Option<&mut T>)
        requires
            old(self).wf(),
        ensures
            !old(self).in_bounds(x as int, y as int, z as int) ==> (r is None && *final(self)
                == *old(self)),
            old(self).in_bounds(x as int, y as int, z as int) ==> {
                &&& r is Some
                &&& *r.unwrap() == old(self).cell(x as int, y as int, z as int)
                &&& final(self).spec_width() == old(self).spec_width()
                &&& final(self).spec_height() == old(self).spec_height()
                &&& final(self).spec_depth() == old(self).spec_depth()
                &&& final(self)@ == old(self)@.update(
                    old(self).idx(x as int, y as int, z as int),
                    *final(r.unwrap()),
                )
                &&& final(self).wf()
            },
    {
        if x < self.width && y < self.height && z < self.depth {
            let i = self.linear_index(x, y, z);
            Some(&mut self.data[i])
        } else {
            None
        }
    }

    /// Indexed read access. Out-of-range coordinates are a programmer error,
    /// excluded by precondition; `get` is the recoverable alternative.
    pub fn index(&self, x: usize, y: usize, z: usize) -> (r: &T)
        requires
            self.wf(),
            self.in_bounds(x as int, y as int, z as int),
        ensures
            *r == self.cell(x as int, y as int, z as int),
    {
        let i = self.linear_index(x, y, z);
        &self.data[i]
    }

    /// Indexed write access. Out-of-range coordinates are a programmer
    /// error, excluded by precondition; `get_mut` is the recoverable
    /// alternative.
    pub fn index_mut(&mut self, x: usize, y: usize, z: usize) -> (r: &mut T)
        requires
            old(self).wf(),
            old(self).in_bounds(x as int, y as int, z as int),
        ensures
            *r == old(self).cell(x as int, y as int, z as int),
            final(self).spec_width() == old(self).spec_width(),
            final(self).spec_height() == old(self).spec_height(),
            final(self).spec_depth() == old(self).spec_depth(),
            final(self)@ == old(self)@.update(
                old(self).idx(x as int, y as int, z as int),
                *final(r),
            ),
            final(self).wf(),
    {
        let i = self.linear_index(x, y, z);
        &mut self.data[i]
    }

    /// The two height-axis neighbors of `(x, y, z)`: first the cell at
    /// `y + 1`, then the cell at `y - 1`, each at the same `x` and `z` and
    /// absent when out of range. Deliberately narrow: no other axis is
    /// sampled.
    pub fn neighbors(&self, x: usize, y: usize, z: usize) -> (r: Vec<Option<&T>>)
        requires
            self.wf(),
        ensures
            r@.len() == 2,
            self.in_bounds(x as int, y as int + 1, z as int) ==> (r@[0] matches Some(c) && *c
                == self.cell(x as int, y as int + 1, z as int)),
            !self.in_bounds(x as int, y as int + 1, z as int) ==> r@[0] is None,
            self.in_bounds(x as int, y as int - 1, z as int) ==> (r@[1] matches Some(c) && *c
                == self.cell(x as int, y as int - 1, z as int)),
            !self.in_bounds(x as int, y as int - 1, z as int) ==> r@[1] is None,
    {
        let above = if y == usize::MAX {
            None
        } else {
            self.get(x, y + 1, z)
        };
        let below = if y == 0 {
            None
        } else {
            self.get(x, y - 1, z)
        };
        let mut r: Vec<Option<&T>> = Vec::new();
        r.push(above);
        r.push(below);
        r
    }

    /// Visits every cell exactly once, in parallel, calling `f` on the cell
    /// together with its `(x, y, z)` coordinate. The visiting order is not
    /// specified.
    pub fn par_iter<F>(&self, f: F) where F: Fn(&T, usize, usize, usize) + Copy + Send + Sync
        requires
            self.wf(),
            forall|x: usize, y: usize, z: usize|
                self.in_bounds(x as int, y as int, z as int) ==> #[trigger] call_requires(
                    f,
                    (&self.cell(x as int, y as int, z as int), x, y, z),
                ),
    {
        let width = self.width;
        let height = self.height;
        let g = move |i: usize, t: &T|
            requires
                0 < width,
                0 < height,
                width * height <= usize::MAX,
                call_requires(
                    f,
                    (
                        t,
                        (x_of(i as int, width as int) as usize),
                        (y_of(i as int, width as int, height as int) as usize),
                        (z_of(i as int, width as int, height as int) as usize),
                    ),
                ),
            {
                proof {
                    assert(0 < width * height) by (nonlinear_arith)
                        requires
                            0 < width,
                            0 < height;
                }
                let x = i % width;
                let y = (i / width) % height;
                let z = i / (width * height);
                f(t, x, y, z);
            };
        proof {
            assert forall|i: int| 0 <= i < self@.len() implies #[trigger] call_requires(
                g,
                (i as usize, &self@[i]),
            ) by {
                lemma_linear_of_coords(i, width as int, height as int, self.spec_depth() as int);
                lemma_linear_bounds(
                    0,
                    0,
                    0,
                    width as int,
                    height as int,
                    self.spec_depth() as int,
                );
                let x = x_of(i, width as int) as usize;
                let y = y_of(i, width as int, height as int) as usize;
                let z = z_of(i, width as int, height as int) as usize;
                assert(self.in_bounds(x as int, y as int, z as int));
                assert(call_requires(f, (&self.cell(x as int, y as int, z as int), x, y, z)));
                assert(self.idx(x as int, y as int, z as int) == i);
                assert((i as usize) as int == i);
            }
        }
        par_visit(&self.data, g);
    }

    /// Transforms every cell exactly once, in parallel: each cell is
    /// replaced by what `f` returns for the cell's old value and its
    /// `(x, y, z)` coordinate. The visiting order is not specified; each
    /// cell is read and written by exactly one visit.
    pub fn par_iter_mut<F>(&mut self, f: F) where F: Fn(&T, usize, usize, usize) -> T + Copy + Send + Sync
        requires
            old(self).wf(),
            forall|x: usize, y: usize, z: usize|
                old(self).in_bounds(x as int, y as int, z as int) ==> #[trigger] call_requires(
                    f,
                    (&old(self).cell(x as int, y as int, z as int), x, y, z),
                ),
        ensures
            final(self).spec_width() == old(self).spec_width(),
            final(self).spec_height() == old(self).spec_height(),
            final(self).spec_depth() == old(self).spec_depth(),
            final(self)@.len() == old(self)@.len(),
            final(self).wf(),
            forall|x: usize, y: usize, z: usize|
                old(self).in_bounds(x as int, y as int, z as int) ==> call_ensures(
                    f,
                    (&old(self).cell(x as int, y as int, z as int), x, y, z),
                    #[trigger] final(self).cell(x as int, y as int, z as int),
                ),
    {
        let width = self.width;
        let height = self.height;
        let depth = self.depth;
        let g = move |i: usize, t: &T| -> (ret: T)
            requires
                0 < width,
                0 < height,
                width * height <= usize::MAX,
                call_requires(
                    f,
                    (
                        t,
                        (x_of(i as int, width as int) as usize),
                        (y_of(i as int, width as int, height as int) as usize),
                        (z_of(i as int, width as int, height as int) as usize),
                    ),
                ),
            ensures
                call_ensures(
                    f,
                    (
                        t,
                        (x_of(i as int, width as int) as usize),
                        (y_of(i as int, width as int, height as int) as usize),
                        (z_of(i as int, width as int, height as int) as usize),
                    ),
                    ret,
                ),
            {
                proof {
                    assert(0 < width * height) by (nonlinear_arith)
                        requires
                            0 < width,
                            0 < height;
                }
                let x = i % width;
                let y = (i / width) % height;
                let z = i / (width * height);
                f(t, x, y, z)
            };
        proof {
            assert forall|i: int| 0 <= i < self@.len() implies #[trigger] call_requires(
                g,
                (i as usize, &self@[i]),
            ) by {
                lemma_linear_of_coords(i, width as int, height as int, depth as int);
                lemma_linear_bounds(0, 0, 0, width as int, height as int, depth as int);
                let x = x_of(i, width as int) as usize;
                let y = y_of(i, width as int, height as int) as usize;
                let z = z_of(i, width as int, height as int) as usize;
                assert(old(self).in_bounds(x as int, y as int, z as int));
                assert(call_requires(
                    f,
                    (&old(self).cell(x as int, y as int, z as int), x, y, z),
                ));
                assert(old(self).idx(x as int, y as int, z as int) == i);
                assert((i as usize) as int == i);
            }
        }
        par_update(&mut self.data, g);
        proof {
            assert forall|x: usize, y: usize, z: usize|
                old(self).in_bounds(x as int, y as int, z as int) implies call_ensures(
                f,
                (&old(self).cell(x as int, y as int, z as int), x, y, z),
                #[trigger] self.cell(x as int, y as int, z as int),
            ) by {
                lemma_linear_bounds(
                    x as int,
                    y as int,
                    z as int,
                    width as int,
                    height as int,
                    depth as int,
                );
                lemma_coords_of_linear(x as int, y as int, z as int, width as int, height as int);
                let i = old(self).idx(x as int, y as int, z as int);
                assert(0 <= i < old(self)@.len());
                assert(call_ensures(g, (i as usize, &old(self)@[i]), self@[i]));
                assert((i as usize) as int == i);
                assert(x_of(i, width as int) == x as int);
                assert(y_of(i, width as int, height as int) == y as int);
                assert(z_of(i, width as int, height as int) == z as int);
                assert(old(self)@[i] == old(self).cell(x as int, y as int, z as int));
                assert(self@[i] == self.cell(x as int, y as int, z as int));
            }
        }
    }

    /// The linear storage position of an in-bounds coordinate, computed
    /// without overflow.
    fn linear_index(&self, x: usize, y: usize, z: usize) -> (i: usize)
        requires
            self.wf(),
            self.in_bounds(x as int, y as int, z as int),
        ensures
            i == self.idx(x as int, y as int, z as int),
            i < self@.len(),
    {
        proof {
            lemma_linear_bounds(
                x as int,
                y as int,
                z as int,
                self.width as int,
                self.height as int,
                self.depth as int,
            );
        }
        x + y * self.width + z * (self.width * self.height)
    }
}

/// Writing one cell and reading it back. When a grid's storage is the old
/// storage with the cell at `(x, y, z)` replaced by `v` — which is exactly
/// what `get_mut` and `index_mut` say of a write through the reference they
/// hand out — then reading `(x, y, z)` yields exactly `v`, and every other
/// in-bounds coordinate reads exactly as before.
pub proof fn lemma_write_then_read<T>(
    g0: DataSet<T>,
    g1: DataSet<T>,
    x: usize,
    y: usize,
    z: usize,
    v: T,
)
    requires
        g0.wf(),
        g0.in_bounds(x as int, y as int, z as int),
        g1.spec_width() == g0.spec_width(),
        g1.spec_height() == g0.spec_height(),
        g1.spec_depth() == g0.spec_depth(),
        g1@ == g0@.update(g0.idx(x as int, y as int, z as int), v),
    ensures
        g1.wf(),
        g1.cell(x as int, y as int, z as int) == v,
        forall|x2: int, y2: int, z2: int|
            g0.in_bounds(x2, y2, z2) && (x2, y2, z2) != (x as int, y as int, z as int)
                ==> g1.cell(x2, y2, z2) == g0.cell(x2, y2, z2),
{
    let w = g0.spec_width() as int;
    let h = g0.spec_height() as int;
    let d = g0.spec_depth() as int;
    lemma_linear_bounds(x as int, y as int, z as int, w, h, d);
    assert forall|x2: int, y2: int, z2: int|
        g0.in_bounds(x2, y2, z2) && (x2, y2, z2) != (x as int, y as int, z as int)
            implies g1.cell(x2, y2, z2) == g0.cell(x2, y2, z2) by {
        lemma_linear_bounds(x2, y2, z2, w, h, d);
        if g0.idx(x2, y2, z2) == g0.idx(x as int, y as int, z as int) {
            lemma_coords_of_linear(x as int, y as int, z as int, w, h);
            lemma_coords_of_linear(x2, y2, z2, w, h);
        }
    }
}

/// Relies on rayon's `par_iter`, `enumerate` and `for_each` on a vector: the
/// closure is called on every element exactly once, in parallel, together
/// with that element's index.
#[verifier::external_body]
fn par_visit<T, F>(data: &Vec<T>, f: F) where T: Sync, F: Fn(usize, &T) + Send + Sync
    requires
        forall|i: int|
            0 <= i < data@.len() ==> #[trigger] call_requires(f, (i as usize, &data@[i])),
{
    data.par_iter().enumerate().for_each(|(i, item)| f(i, item));
}

/// Relies on rayon's `par_iter_mut`, `enumerate` and `for_each` on a vector:
/// the closure is called on every element exactly once, in parallel,
/// together with that element's index, and the value it returns is stored
/// back into the same slot.
#[verifier::external_body]
fn par_update<T, F>(data: &mut Vec<T>, f: F) where
    T: Send + Sync,
    F: Fn(usize, &T) -> T + Send + Sync,

    requires
        forall|i: int|
            0 <= i < old(data)@.len() ==> #[trigger] call_requires(f, (i as usize, &old(data)@[i])),
    ensures
        final(data)@.len() == old(data)@.len(),
        forall|i: int|
            0 <= i < old(data)@.len() ==> #[trigger] call_ensures(
                f,
                (i as usize, &old(data)@[i]),
                final(data)@[i],
            ),
{
    data.par_iter_mut().enumerate().for_each(|(i, item)| {
        let v = f(i, &*item);
        *item = v;
    });
}

} // verus!
