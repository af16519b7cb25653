use vstd::prelude::*;

verus! {

/// A 3-channel 8-bit color.
#[derive(Clone, Copy, Debug, PartialEq, Eq, Structural)]
pub struct Pixel {
    pub red: u8,
    pub green: u8,
    pub blue: u8,
}

/// The color a plane is reset to.
pub open spec fn background() -> Pixel {
    Pixel { red: 0, green: 0, blue: 0 }
}

/// A plane of `n` background pixels.
pub open spec fn blank(n: nat) -> Seq<Pixel> {
    Seq::new(n, |i: int| background())
}

impl Pixel {
    pub fn new(red: u8, green: u8, blue: u8) -> (r: Pixel)
        ensures
            r == (Pixel { red, green, blue }),
    {
        Pixel { red, green, blue }
    }

    pub fn black() -> (r: Pixel)
        ensures
            r == background(),
    {
        Pixel { red: 0, green: 0, blue: 0 }
    }
}

/// The model of a double-buffered frame: two planes of `width * height`
/// pixels, row by row, and the index of the plane being drawn into.
pub struct FrameView {
    pub width: nat,
    pub height: nat,
    pub plane0: Seq<Pixel>,
    pub plane1: Seq<Pixel>,
    pub active: nat,
}

impl FrameView {
    pub open spec fn wf(self) -> bool {
        self.active < 2 && self.plane0.len() == self.width * self.height && self.plane1.len()
            == self.width * self.height
    }

    pub open spec fn plane(self, i: nat) -> Seq<Pixel> {
        if i == 0 {
            self.plane0
        } else {
            self.plane1
        }
    }

    /// The plane being drawn into, which `present` shows.
    pub open spec fn back(self) -> Seq<Pixel> {
        self.plane(self.active)
    }

    /// The plane that holds the previous frame.
    pub open spec fn front(self) -> Seq<Pixel> {
        self.plane((1 - self.active) as nat)
    }

    pub open spec fn in_bounds(self, x: int, y: int) -> bool {
        0 <= x < self.width && 0 <= y < self.height
    }

    /// The frame after `clear`: the other plane becomes active and is reset.
    pub open spec fn cleared(self) -> FrameView {
        let n = self.width * self.height;
        if self.active == 0 {
            FrameView { active: 1, plane1: blank(n), ..self }
        } else {
            FrameView { active: 0, plane0: blank(n), ..self }
        }
    }

    /// The frame after writing `p` at `(x, y)` of the active plane; nothing
    /// changes where `(x, y)` lies outside.
    pub open spec fn with_pixel(self, x: int, y: int, p: Pixel) -> FrameView {
        if !self.in_bounds(x, y) {
            self
        } else if self.active == 0 {
            FrameView { plane0: self.plane0.update(y * self.width + x, p), ..self }
        } else {
            FrameView { plane1: self.plane1.update(y * self.width + x, p), ..self }
        }
    }
}

/// Two planes of pixels; one is drawn into while the other keeps the
/// previous frame.
#[derive(Debug)]
pub struct Buffer {
    width: usize,
    height: usize,
    plane0: Vec<Pixel>,
    plane1: Vec<Pixel>,
    active: usize,
}

impl View for Buffer {
    type V = FrameView;

    closed spec fn view(&self) -> FrameView {
        FrameView {
            width: self.width as nat,
            height: self.height as nat,
            plane0: self.plane0@,
            plane1: self.plane1@,
            active: self.active as nat,
        }
    }
}

proof fn lemma_index_in_plane(x: int, y: int, w: int, h: int)
    requires
        0 <= x < w,
        0 <= y < h,
    ensures
        0 <= y * w + x < w * h,
{
    assert(0 <= y * w + x < w * h) by (nonlinear_arith)
        requires
            0 <= x < w,
            0 <= y < h,
    ;
}

/// A plane of `n` background pixels.
fn blank_plane(n: usize) -> (r: Vec<Pixel>)
    ensures
        r@ == blank(n as nat),
{
    let mut v: Vec<Pixel> = Vec::new();
    let mut i: usize = 0;
    while i < n
        invariant
            i <= n,
            v@ == blank(i as nat),
        decreases n - i,
    {
        v.push(Pixel::black());
        i = i + 1;
        assert(v@ =~= blank(i as nat));
    }
    v
}

impl Buffer {
    pub open spec fn wf(&self) -> bool {
        self@.wf()
    }

    /// Two background planes of `width * height` pixels; plane 0 is active.
    pub fn new(width: usize, height: usize) -> (r: Buffer)
        requires
            width * height <= usize::MAX,
        ensures
            r@ == (FrameView {
                width: width as nat,
                height: height as nat,
                plane0: blank((width * height) as nat),
                plane1: blank((width * height) as nat),
                active: 0,
            }),
            r.wf(),
    {
        let n = width * height;
        Buffer { width, height, plane0: blank_plane(n), plane1: blank_plane(n), active: 0 }
    }

    pub fn width(&self) -> (r: usize)
        ensures
            r == self@.width,
    {
        self.width
    }

    pub fn height(&self) -> (r: usize)
        ensures
            r == self@.height,
    {
        self.height
    }

    /// Index of the plane being drawn into.
    pub fn active_index(&self) -> (r: usize)
        ensures
            r == self@.active,
    {
        self.active
    }

    /// The pixel at `(x, y)` of the active plane, or `None` outside it.
    pub fn pixel(&self, x: usize, y: usize) -> (r: Option<Pixel>)
        requires
            self.wf(),
        ensures
            r == (if self@.in_bounds(x as int, y as int) {
                Some(self@.back()[y * self@.width + x])
            } else {
                None::<Pixel>
            }),
    {
        if x >= self.width || y >= self.height {
            return None;
        }
        let n = self.plane0.len();
        proof {
            lemma_index_in_plane(x as int, y as int, self.width as int, self.height as int);
            assert(y * self.width + x < n);
        }
        let i = y * self.width + x;
        if self.active == 0 {
            Some(self.plane0[i])
        } else {
            Some(self.plane1[i])
        }
    }

    /// Writes `p` at `(x, y)` of the active plane; returns whether `(x, y)`
    /// lies inside, and changes nothing where it does not.
    pub fn set_pixel(&mut self, x: usize, y: usize, p: Pixel) -> (r: bool)
        requires
            old(self).wf(),
        ensures
            r == old(self)@.in_bounds(x as int, y as int),
            final(self)@ == old(self)@.with_pixel(x as int, y as int, p),
            final(self).wf(),
    {
        if x >= self.width || y >= self.height {
            return false;
        }
        let n = self.plane0.len();
        proof {
            lemma_index_in_plane(x as int, y as int, self.width as int, self.height as int);
            assert(y * self.width + x < n);
        }
        let i = y * self.width + x;
        if self.active == 0 {
            self.plane0.set(i, p);
        } else {
            self.plane1.set(i, p);
        }
        true
    }

    /// Starts a new frame: the other plane becomes active and is reset to the
    /// background; the plane shown last keeps its pixels.
    pub fn clear(&mut self)
        requires
            old(self).wf(),
        ensures
            final(self)@ == old(self)@.cleared(),
            final(self).wf(),
    {
        let n = self.plane0.len();
        assert(n == self.width * self.height);
        if self.active == 0 {
            self.active = 1;
            self.plane1 = blank_plane(n);
        } else {
            self.active = 0;
            self.plane0 = blank_plane(n);
        }
    }

    /// The active plane, row by row, for handing to a display.
    pub fn active_plane(&self) -> (r: &Vec<Pixel>)
        ensures
            r@ == self@.back(),
    {
        if self.active == 0 {
            &self.plane0
        } else {
            &self.plane1
        }
    }
}

impl Buffer {
    /// The plane that holds the previous frame.
    pub fn front_plane(&self) -> (r: &Vec<Pixel>)
        requires
            self.wf(),
        ensures
            r@ == self@.front(),
    {
        if self.active == 0 {
            &self.plane1
        } else {
            &self.plane0
        }
    }
}

/// `clear` swaps the planes once: the active index changes, and the plane shown
/// before keeps its pixels while the new one is reset.
pub proof fn lemma_clear_swaps(v: FrameView)
    requires
        v.wf(),
    ensures
        v.cleared().wf(),
        v.cleared().active == 1 - v.active,
        v.cleared().front() == v.back(),
        v.cleared().back() == blank(v.width * v.height),
{
}

/// Drawing into the active plane after `clear` never changes the plane that
/// was active before: the two planes do not alias.
pub proof fn lemma_planes_apart(v: FrameView, x: int, y: int, p: Pixel)
    requires
        v.wf(),
    ensures
        v.cleared().with_pixel(x, y, p).front() == v.back(),
        v.with_pixel(x, y, p).front() == v.front(),
{
}

/// Two calls of `clear` return to the first plane, which holds the background
/// only: nothing drawn before survives.
pub proof fn lemma_clear_twice(v: FrameView)
    requires
        v.wf(),
    ensures
        v.cleared().cleared().active == v.active,
        v.cleared().cleared().back() == blank(v.width * v.height),
        v.cleared().cleared().front() == blank(v.width * v.height),
        v.cleared().cleared().wf(),
{
}

} // verus!
