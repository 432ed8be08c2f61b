//! The picture that an image node draws.

use vstd::prelude::*;

verus! {

/// The colours of a pixel.
#[derive(Debug, PartialEq, Eq, Clone, Copy, Structural)]
pub enum Color {
    Black,
    DarkGrey,
    BrightGrey,
    White,
    Red,
}

impl Color {
    /// The colour that the number `value` stands for: 1 to 4 are the four
    /// colours after black, every other number is black.
    pub open spec fn spec_from_isize(value: isize) -> Color {
        if value == 1 {
            Color::DarkGrey
        } else if value == 2 {
            Color::BrightGrey
        } else if value == 3 {
            Color::White
        } else if value == 4 {
            Color::Red
        } else {
            Color::Black
        }
    }

    /// Returns the colour that the number `value` stands for.
    pub fn from_isize(value: isize) -> (c: Color)
        ensures
            c == Color::spec_from_isize(value),
    {
        match value {
            1 => Color::DarkGrey,
            2 => Color::BrightGrey,
            3 => Color::White,
            4 => Color::Red,
            _ => Color::Black,
        }
    }
}

/// What an image makes of the next number it gets.
#[derive(Debug, PartialEq, Eq, Clone, Copy, Structural)]
pub enum ImageMode {
    /// The number is a coordinate: first the row, then the column.
    Move,
    /// The number is a colour.
    Paint,
}

/// The colours that the numbers in `values` stand for.
pub open spec fn colors_of(values: Seq<isize>) -> Seq<Color> {
    Seq::new(values.len(), |i: int| Color::spec_from_isize(values[i]))
}

/// An image as a mathematical value. The pixels stand row after row.
#[verifier::ext_equal]
pub ghost struct Picture {
    pub width: usize,
    pub height: usize,
    pub data: Seq<Color>,
    pub mode: ImageMode,
    pub position: Seq<isize>,
    pub offset: usize,
}

impl Picture {
    /// The image of the given size that shows `data` and waits for a
    /// position.
    pub open spec fn showing(data: Seq<Color>, width: usize, height: usize) -> Picture {
        Picture { width, height, data, mode: ImageMode::Move, position: Seq::empty(), offset: 0 }
    }

    /// The black image of the given size.
    pub open spec fn blank(width: usize, height: usize) -> Picture {
        Picture::showing(Seq::new((width * height) as nat, |i: int| Color::Black), width, height)
    }

    /// What holds of every image: it has a pixel for every place, its
    /// coordinates are not negative, and it paints once it has two of them.
    pub open spec fn wf(self) -> bool {
        &&& self.data.len() == self.width * self.height
        &&& forall|i: int| 0 <= i < self.position.len() ==> self.position[i] >= 0
        &&& self.mode == ImageMode::Move ==> self.position.len() < 2
        &&& self.mode == ImageMode::Paint ==> self.position.len() == 2
    }

    /// The image after it got the number `value`. A negative number makes it
    /// forget its position and wait for a new one. While it waits, the number
    /// is the next coordinate, and with the second one it starts to paint.
    /// While it paints, the number is the colour of the pixel in the row it
    /// was given, as many columns right of the column it was given as it has
    /// painted since; a pixel outside the image is not painted.
    pub open spec fn write(self, value: isize) -> Picture {
        if value < 0 {
            Picture { position: Seq::empty(), mode: ImageMode::Move, offset: 0, ..self }
        } else if self.mode == ImageMode::Move {
            Picture {
                position: self.position.push(value),
                mode: if self.position.len() + 1 == 2 {
                    ImageMode::Paint
                } else {
                    ImageMode::Move
                },
                ..self
            }
        } else {
            let row = self.position[0] as int;
            let col = self.position[1] + self.offset;
            Picture {
                data: if row < self.height && col < self.width {
                    self.data.update(row * self.width + col, Color::spec_from_isize(value))
                } else {
                    self.data
                },
                offset: if self.offset < usize::MAX {
                    (self.offset + 1) as usize
                } else {
                    self.offset
                },
                ..self
            }
        }
    }
}

/// A picture that a node draws pixel by pixel. It first takes a row and a
/// column, then colours for the pixels from there to the right, and starts
/// over at any negative number.
#[derive(Debug)]
pub struct Image {
    width: usize,
    height: usize,
    data: Vec<Color>,
    mode: ImageMode,
    position: Vec<isize>,
    offset: usize,
}

impl View for Image {
    type V = Picture;

    closed spec fn view(&self) -> Picture {
        Picture {
            width: self.width,
            height: self.height,
            data: self.data@,
            mode: self.mode,
            position: self.position@,
            offset: self.offset,
        }
    }
}

impl Image {
    /// Makes a black image of the given size.
    pub fn new(width: usize, height: usize) -> (image: Image)
        requires
            width * height <= usize::MAX,
        ensures
            image@ == Picture::blank(width, height),
            image@.wf(),
    {
        let size = width * height;
        let mut data: Vec<Color> = Vec::with_capacity(size);
        let mut i: usize = 0;
        while i < size
            invariant
                i <= size,
                data@ == Seq::new(i as nat, |k: int| Color::Black),
            decreases size - i,
        {
            data.push(Color::Black);
            i += 1;
        }
        Image {
            width: width,
            height: height,
            data: data,
            mode: ImageMode::Move,
            position: Vec::new(),
            offset: 0,
        }
    }

    /// Makes an image of the given size from one number for each pixel, row
    /// after row.
    pub fn with_data(data: &Vec<isize>, width: usize, height: usize) -> (image: Image)
        requires
            data@.len() == width * height,
        ensures
            image@ == Picture::showing(colors_of(data@), width, height),
            image@.wf(),
    {
        let mut colors: Vec<Color> = Vec::with_capacity(data.len());
        let mut i: usize = 0;
        while i < data.len()
            invariant
                i <= data.len(),
                colors@ == colors_of(data@.take(i as int)),
            decreases data.len() - i,
        {
            colors.push(Color::from_isize(data[i]));
            assert(data@.take(i + 1) == data@.take(i as int).push(data@[i as int]));
            i += 1;
        }
        assert(data@.take(data@.len() as int) == data@);
        Image {
            width: width,
            height: height,
            data: colors,
            mode: ImageMode::Move,
            position: Vec::new(),
            offset: 0,
        }
    }

    /// The pixels, row after row.
    pub fn data(&self) -> (pixels: &Vec<Color>)
        ensures
            pixels@ == self@.data,
    {
        &self.data
    }

    /// Tells whether two images show the same picture.
    pub fn same_picture(&self, other: &Image) -> (r: bool)
        ensures
            r == (self@.data == other@.data),
    {
        if self.data.len() != other.data.len() {
            return false;
        }
        let mut i: usize = 0;
        while i < self.data.len()
            invariant
                i <= self.data.len(),
                self.data.len() == other.data.len(),
                forall|k: int| 0 <= k < i ==> self.data@[k] == other.data@[k],
            decreases self.data.len() - i,
        {
            if self.data[i] != other.data[i] {
                return false;
            }
            i += 1;
        }
        assert(self.data@ =~= other.data@);
        true
    }

    /// Hands the image the next number: a coordinate, a colour, or, if
    /// negative, the order to start over.
    pub fn write(&mut self, value: isize)
        requires
            old(self)@.wf(),
        ensures
            final(self)@ == old(self)@.write(value),
            final(self)@.wf(),
    {
        if value < 0 {
            self.position.clear();
            self.mode = ImageMode::Move;
            self.offset = 0;
            return ;
        }
        if self.mode == ImageMode::Move {
            self.position.push(value);
            if self.position.len() == 2 {
                self.mode = ImageMode::Paint;
            }
            return ;
        }
        let row = self.position[0] as usize;
        if row < self.height {
            let first = self.position[1] as usize;
            if first < self.width && self.offset < self.width - first {
                let col = first + self.offset;
                proof {
                    let w = self.width as int;
                    let h = self.height as int;
                    let r = row as int;
                    let c = col as int;
                    assert(self.data.len() == w * h);
                    assert(0 <= r * w && r * w + c < w * h) by (nonlinear_arith)
                        requires
                            0 <= r < h,
                            0 <= c < w,
                    ;
                }
                let index = row * self.width + col;
                self.data.set(index, Color::from_isize(value));
            }
        }
        if self.offset < usize::MAX {
            self.offset += 1;
        }
    }
}

} // verus!
