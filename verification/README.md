# rsdf

Multi-channel signed distance fields for vector shapes and font glyphs.

`src/` is the verified library, checked with Verus. It holds what a shape
is made of and how it is put together: colour channels and their bitwise
algebra, the segment and spline index structure of shapes and its builders,
corner detection bookkeeping, contour rotation and culling, edge colouring,
Pascal's triangle rows for polynomial work, the pixel buffer of an image and
the pixel clipping of glyph rendering. Every public function states what it
returns in its contract, and the laws the library relies on (such as
neighbouring splines sharing exactly one channel, or the colour operations
forming a boolean algebra) are proof functions.

`app/` is ordinary Rust around it: `f32` geometry, root finding, distance
sampling, SVG and PNG output and the `ab_glyph` font glue. Where a builder
needs a geometric decision (is this join a sharp corner?), `app/` makes it
and hands the answer to the library.

`tests/` runs the library on concrete inputs.
