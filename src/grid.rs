use vstd::prelude::*;

verus! {

/// A position on the screen grid.
#[derive(PartialEq, Eq, Structural, Clone, Copy, Debug)]
pub struct Pos {
    pub x: i32,
    pub y: i32,
}

/// A size on the screen grid.
#[derive(PartialEq, Eq, Structural, Clone, Copy, Debug)]
pub struct Size {
    pub w: u32,
    pub h: u32,
}

/// A region of the screen grid.
#[derive(PartialEq, Eq, Structural, Clone, Copy, Debug)]
pub struct Rect {
    pub pos: Pos,
    pub size: Size,
}

impl Pos {
    /// The origin.
    pub fn new() -> (p: Pos)
        ensures
            p == (Pos { x: 0, y: 0 }),
    {
        Pos { x: 0, y: 0 }
    }

    /// This position moved on by `size`.
    pub fn add(&self, size: Size) -> (p: Pos)
        requires
            self.x + size.w <= i32::MAX,
            self.y + size.h <= i32::MAX,
        ensures
            p.x == self.x + size.w,
            p.y == self.y + size.h,
    {
        Pos { x: (self.x as i64 + size.w as i64) as i32, y: (self.y as i64 + size.h as i64) as i32 }
    }

    /// This position moved back by `size`.
    pub fn subtract(&self, size: Size) -> (p: Pos)
        requires
            self.x - size.w >= i32::MIN,
            self.y - size.h >= i32::MIN,
        ensures
            p.x == self.x - size.w,
            p.y == self.y - size.h,
    {
        Pos { x: (self.x as i64 - size.w as i64) as i32, y: (self.y as i64 - size.h as i64) as i32 }
    }

    /// The offset of this position from the origin, as a size.
    pub fn to_size(self) -> (s: Size)
        requires
            self.x >= 0,
            self.y >= 0,
        ensures
            s.w == self.x,
            s.h == self.y,
    {
        Size { w: self.x as u32, h: self.y as u32 }
    }
}

impl Size {
    /// The empty size.
    pub fn new() -> (s: Size)
        ensures
            s == (Size { w: 0, h: 0 }),
    {
        Size { w: 0, h: 0 }
    }

    pub fn add(&self, s: Size) -> (r: Size)
        requires
            self.w + s.w <= u32::MAX,
            self.h + s.h <= u32::MAX,
        ensures
            r.w == self.w + s.w,
            r.h == self.h + s.h,
    {
        Size { w: self.w + s.w, h: self.h + s.h }
    }

    pub fn subtract(&self, s: Size) -> (r: Size)
        requires
            self.w >= s.w,
            self.h >= s.h,
        ensures
            r.w == self.w - s.w,
            r.h == self.h - s.h,
    {
        Size { w: self.w - s.w, h: self.h - s.h }
    }
}

} // verus!
