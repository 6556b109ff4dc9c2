//! Wall textures sampled by fixed-point coordinates, and the registry that
//! binds them to tile symbols.
use vstd::prelude::*;
use crate::color::Color;
use crate::fixed::SCALE;

verus! {

/// A rectangular image, stored row by row.
pub struct Texture {
    width: usize,
    height: usize,
    pixels: Vec<Color>,
}

/// A texture bound to the tile symbol `id`.
pub struct TileTexture {
    pub id: char,
    pub texture: Texture,
}

/// The index in `[0, n)` that the fixed-point coordinate `u` selects among `n`
/// texels: `floor(u * n)`, held to the image.
pub open spec fn texel_index(u: int, n: int) -> int {
    let i = (u * n) / (SCALE as int);
    if i < 0 {
        0
    } else if i >= n {
        n - 1
    } else {
        i
    }
}

impl Texture {
    pub closed spec fn spec_width(&self) -> int {
        self.width as int
    }

    pub closed spec fn spec_height(&self) -> int {
        self.height as int
    }

    /// The pixels, row by row.
    pub closed spec fn pixels(&self) -> Seq<Color> {
        self.pixels@
    }

    pub open spec fn wf(&self) -> bool {
        &&& self.spec_width() > 0
        &&& self.spec_height() > 0
        &&& self.pixels().len() == self.spec_width() * self.spec_height()
    }

    /// The color at fixed-point coordinates `(u, v)`, each nominally in `[0, SCALE)`.
    pub open spec fn color_at(&self, u: int, v: int) -> Color {
        let tx = texel_index(u, self.spec_width());
        let ty = texel_index(v, self.spec_height());
        self.pixels()[ty * self.spec_width() + tx]
    }

    /// A texture of `width` by `height` pixels given row by row; `None` when
    /// a side is zero or the pixel count is not `width * height`.
    pub fn new(width: usize, height: usize, pixels: Vec<Color>) -> (r: Option<Texture>)
        ensures
            r.is_some() <==> (width > 0 && height > 0 && pixels@.len() == width * height),
            r matches Some(t) ==> {
                &&& t.wf()
                &&& t.spec_width() == width
                &&& t.spec_height() == height
                &&& t.pixels() == pixels@
            },
    {
        if width == 0 || height == 0 {
            return None;
        }
        proof {
            vstd::arithmetic::div_mod::lemma_fundamental_div_mod(pixels@.len() as int, width as int);
            if pixels@.len() == width * height {
                vstd::arithmetic::div_mod::lemma_div_multiples_vanish(height as int, width as int);
                vstd::arithmetic::div_mod::lemma_mod_multiples_basic(height as int, width as int);
            }
        }
        if pixels.len() / width != height || pixels.len() % width != 0 {
            return None;
        }
        Some(Texture { width, height, pixels })
    }

    /// Samples the texture at fixed-point coordinates `(u, v)`.
    pub fn sample(&self, u: i64, v: i64) -> (c: Color)
        requires
            self.wf(),
        ensures
            c == self.color_at(u as int, v as int),
    {
        let tx = texel(u, self.width);
        let ty = texel(v, self.height);
        let count = self.pixels.len();
        proof {
            assert(self.pixels@.len() == self.width * self.height);
            assert(ty * self.width + tx < self.pixels@.len()) by (nonlinear_arith)
                requires
                    0 <= tx < self.width,
                    0 <= ty < self.height,
                    self.pixels@.len() == self.width * self.height,
            ;
        }
        let row_start = ty * self.width;
        self.pixels[row_start + tx]
    }
}

fn texel(u: i64, n: usize) -> (r: usize)
    requires
        n > 0,
    ensures
        r == texel_index(u as int, n as int),
        r < n,
{
    if u <= 0 {
        proof {
            assert(u * n <= 0) by (nonlinear_arith)
                requires
                    u <= 0,
                    n > 0,
            ;
        }
        return 0;
    }
    if u as u128 >= SCALE as u128 {
        proof {
            assert(u * n >= SCALE * n) by (nonlinear_arith)
                requires
                    u >= SCALE,
                    n > 0,
            ;
            vstd::arithmetic::div_mod::lemma_div_multiples_vanish(n as int, SCALE as int);
            assert((SCALE * n) / (SCALE as int) == n);
            vstd::arithmetic::div_mod::lemma_div_is_ordered(SCALE * n, u * n, SCALE as int);
        }
        return n - 1;
    }
    proof {
        assert(u * n < SCALE * n) by (nonlinear_arith)
            requires
                0 < u < SCALE,
                n > 0,
        ;
        vstd::arithmetic::div_mod::lemma_div_multiples_vanish(n as int, SCALE as int);
        vstd::arithmetic::div_mod::lemma_div_is_ordered(u * n, SCALE * n - 1, SCALE as int);
        vstd::arithmetic::div_mod::lemma_fundamental_div_mod(u * n, SCALE as int);
        assert(u * n >= 0) by (nonlinear_arith)
            requires
                u > 0,
        ;
    }
    let p: u128 = u as u128 * n as u128;
    (p / SCALE as u128) as usize
}

/// The position of the first entry of `textures` at or after `from` that is
/// bound to `id`, or `-1` when there is none.
pub open spec fn first_bound(textures: Seq<TileTexture>, id: char, from: int) -> int
    decreases textures.len() - from,
{
    if from < 0 || from >= textures.len() {
        -1
    } else if textures[from].id == id {
        from
    } else {
        first_bound(textures, id, from + 1)
    }
}

/// `first_bound` is `-1` or the position of an entry bound to `id`.
pub proof fn lemma_first_bound(textures: Seq<TileTexture>, id: char, from: int)
    ensures
        first_bound(textures, id, from) == -1 || (from <= first_bound(textures, id, from)
            < textures.len() && textures[first_bound(textures, id, from)].id == id),
    decreases textures.len() - from,
{
    if 0 <= from < textures.len() && textures[from].id != id {
        lemma_first_bound(textures, id, from + 1);
    }
}

/// The position of the first entry of `textures` bound to `id`, if any.
pub fn find_texture(textures: &Vec<TileTexture>, id: char) -> (r: Option<usize>)
    ensures
        r matches Some(i) ==> i == first_bound(textures@, id, 0),
        r is None ==> first_bound(textures@, id, 0) == -1,
        r matches Some(i) ==> i < textures@.len() && textures@[i as int].id == id && forall|j: int|
            0 <= j < i ==> #[trigger] textures@[j].id != id,
        r is None ==> forall|j: int| 0 <= j < textures@.len() ==> #[trigger] textures@[j].id != id,
{
    let mut i: usize = 0;
    while i < textures.len()
        invariant
            i <= textures@.len(),
            forall|j: int| 0 <= j < i ==> #[trigger] textures@[j].id != id,
            first_bound(textures@, id, 0) == first_bound(textures@, id, i as int),
        decreases textures@.len() - i,
    {
        if textures[i].id == id {
            return Some(i);
        }
        proof {
            assert(first_bound(textures@, id, i as int) == first_bound(textures@, id, i + 1));
        }
        i = i + 1;
    }
    None
}

} // verus!
