use crate::canvas::{lemma_cell_in_grid, Canvas};
use crate::color::Color;
use crate::matrix::Matrix;
use crate::scalar::Scalar;
use vstd::prelude::*;

verus! {

/// Maps the scene onto a canvas that stands one unit in front of the eye.
#[derive(Clone, Copy, Debug, PartialEq, Eq)]
pub struct Camera {
    /// Width of the canvas in pixels.
    pub hsize: u16,
    /// Height of the canvas in pixels.
    pub vsize: u16,
    /// Angle that the camera sees.
    pub field_of_view: Scalar,
    /// How the world is moved relative to the camera.
    pub transform: Matrix,
    /// Width of the canvas over its height.
    pub aspect: Scalar,
    /// Half the width of the canvas in world units.
    pub half_width: Scalar,
    /// Half the height of the canvas in world units.
    pub half_height: Scalar,
    /// Width and height of one pixel in world units.
    pub pixel_size: Scalar,
}

impl Camera {
    /// How many pixels the canvas has.
    pub open spec fn pixels(&self) -> int {
        self.hsize * self.vsize
    }

    /// Whether the canvas is at least as wide as it is high: `aspect >= 1`.
    pub open spec fn wide(aspect: Scalar) -> bool {
        Scalar::one().less(aspect) || aspect.same(Scalar::one())
    }

    /// Half the width and half the height of the canvas, in this order.
    ///
    /// `half_view` is the half of the canvas along its longer side, and
    /// `narrowed` the half along the other. An aspect ratio of at least one
    /// constrains the height; any other, a NaN too, constrains the width.
    pub open spec fn spec_halves(aspect: Scalar, half_view: Scalar, narrowed: Scalar) -> (
        Scalar,
        Scalar,
    ) {
        if Camera::wide(aspect) {
            (half_view, narrowed)
        } else {
            (narrowed, half_view)
        }
    }

    /// Half the width and half the height of the canvas, in this order:
    /// see [`Camera::spec_halves`].
    pub fn halves(aspect: Scalar, half_view: Scalar, narrowed: Scalar) -> (r: (Scalar, Scalar))
        ensures
            r == Camera::spec_halves(aspect, half_view, narrowed),
    {
        if aspect.ge(Scalar::one()) {
            (half_view, narrowed)
        } else {
            (narrowed, half_view)
        }
    }

    /// A camera with the identity as its transform.
    ///
    /// `aspect` is the width of the canvas over its height, `half_view` the
    /// half of the canvas along its longer side, `narrowed` the half along
    /// the other, and `pixel_size` the width of one pixel. Half the width
    /// and half the height are placed as [`Camera::halves`] places them.
    pub fn new(
        hsize: u16,
        vsize: u16,
        field_of_view: Scalar,
        aspect: Scalar,
        half_view: Scalar,
        narrowed: Scalar,
        pixel_size: Scalar,
    ) -> (r: Camera)
        ensures
            r.hsize == hsize,
            r.vsize == vsize,
            r.field_of_view == field_of_view,
            r.aspect == aspect,
            (r.half_width, r.half_height) == Camera::spec_halves(aspect, half_view, narrowed),
            r.pixel_size == pixel_size,
            r.transform.is_identity(),
    {
        let (half_width, half_height) = Camera::halves(aspect, half_view, narrowed);
        Camera {
            hsize,
            vsize,
            field_of_view,
            transform: Matrix::I(),
            aspect,
            half_width,
            half_height,
            pixel_size,
        }
    }

    /// The pixel that is traced as number `index`: pixels are taken row by
    /// row from the top, and from left to right within a row.
    pub fn pixel_of(&self, index: usize) -> (r: (u16, u16))
        requires
            index < self.pixels(),
        ensures
            r.0 < self.hsize,
            r.1 < self.vsize,
            index == r.1 * self.hsize + r.0,
    {
        let w: usize = self.hsize as usize;
        proof {
            assert(w > 0) by (nonlinear_arith)
                requires
                    index < w * self.vsize,
                    0 <= index,
            ;
            vstd::arithmetic::div_mod::lemma_fundamental_div_mod(index as int, w as int);
            assert(index / w < self.vsize) by (nonlinear_arith)
                requires
                    index < w * self.vsize,
                    w > 0,
                    index == w * (index / w) + index % w,
                    0 <= index % w,
            ;
            assert(w * (index / w) == (index / w) * w) by (nonlinear_arith);
        }
        let x: usize = index % w;
        let y: usize = index / w;
        (x as u16, y as u16)
    }

    /// The canvas whose pixels are `colors`, taken row by row from the top.
    ///
    /// `colors` holds what the world shows through each pixel, in the order
    /// of [`Camera::pixel_of`].
    pub fn render(&self, colors: &Vec<Color>) -> (r: Canvas)
        requires
            colors@.len() == self.pixels(),
        ensures
            r.wf(),
            r.width == self.hsize,
            r.height == self.vsize,
            r.data@ == colors@,
            forall|x: int, y: int|
                0 <= x < self.hsize && 0 <= y < self.vsize ==> r.pixel(x, y) == colors@[y
                    * self.hsize + x],
    {
        let width: usize = self.hsize as usize;
        let height: usize = self.vsize as usize;
        proof {
            assert(colors@.len() == colors.len());
        }
        let mut canvas = Canvas::new(width, height);
        let mut y: usize = 0;
        while y < height
            invariant
                y <= height,
                width == self.hsize,
                height == self.vsize,
                canvas.wf(),
                canvas.width == width,
                canvas.height == height,
                colors@.len() == width * height,
                forall|k: int| 0 <= k < y * width ==> canvas.data@[k] == colors@[k],
            decreases height - y,
        {
            let mut x: usize = 0;
            while x < width
                invariant
                    x <= width,
                    y < height,
                    canvas.wf(),
                    canvas.width == width,
                    canvas.height == height,
                    colors@.len() == width * height,
                    forall|k: int| 0 <= k < y * width + x ==> canvas.data@[k] == colors@[k],
                decreases width - x,
            {
                proof {
                    lemma_cell_in_grid(x as int, y as int, width as int, height as int);
                    assert(colors@.len() == colors.len());
                }
                canvas.write_pixel(x, y, colors[y * width + x]);
                x = x + 1;
            }
            proof {
                assert(y * width + width == (y + 1) * width) by (nonlinear_arith);
            }
            y = y + 1;
        }
        proof {
            assert(canvas.data@ =~= colors@);
        }
        canvas
    }
}

} // verus!
