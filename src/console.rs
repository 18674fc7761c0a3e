use vstd::prelude::*;

use crate::buffer2d::{source_rect_ok, B2D, B2DO};
use crate::input::{Input, InputCode};
use crate::text::{blit_char, blit_str_wrap, Font};

verus! {

/// The console's background color.
pub const CONSOLE_COLOR: u16 = 0;

/// The space between two lines of output.
pub const CONSOLE_LINE_SPACING: i32 = 4;

/// How far the console slides in one second, in pixels.
pub const CONSOLE_SPEED: i32 = 700;

/// A console that slides in from the left: lines of output above a line of
/// input. Its visible width moves toward the full width while opening and
/// toward 0 while closing.
pub struct Console {
    pub width: i32,
    pub font: Font,
    pub is_open: bool,
    pub current_width: i32,
    pub is_moving: bool,
    pub output_next_y: i32,
    pub output_buffer: B2DO,
    pub input_y: i32,
    pub input_char_x: i32,
    pub input_buffer: B2DO,
    pub input_string: Vec<char>,
}

/// The largest size the console takes.
pub const CONSOLE_LIMIT: i32 = 0x4000;

impl Console {
    pub open spec fn wf(&self) -> bool {
        &&& self.font.wf()
        &&& 0 <= self.width <= CONSOLE_LIMIT
        &&& 0 <= self.current_width <= self.width
        &&& self.output_buffer.wf()
        &&& self.input_buffer.wf()
        &&& self.output_buffer.width == self.width
        &&& self.input_buffer.width == self.width
        &&& self.font.glyph_size.0 <= CONSOLE_LIMIT
        &&& self.font.glyph_size.1 <= CONSOLE_LIMIT
        &&& -CONSOLE_LIMIT <= self.input_y <= CONSOLE_LIMIT
        &&& -CONSOLE_LIMIT * 0x1000 <= self.input_char_x <= CONSOLE_LIMIT * 0x1000
        &&& -0x4000_0000 <= self.output_next_y <= 0x4000_0000
    }

    /// A closed console of `width` by `height` pixels writing with `font`.
    pub fn new(width: i32, height: i32, font: Font) -> (r: Self)
        requires
            font.wf(),
            font.glyph_size.0 <= CONSOLE_LIMIT,
            font.glyph_size.1 <= CONSOLE_LIMIT,
            0 <= width <= CONSOLE_LIMIT,
            font.glyph_size.0 + font.glyph_size.1 <= height <= CONSOLE_LIMIT,
        ensures
            r.wf(),
            r.width == width,
            !r.is_open && !r.is_moving,
            r.current_width == 0,
            r.output_next_y == font.glyph_size.0,
            r.output_buffer.height == height - (font.glyph_size.0 + font.glyph_size.1),
            r.input_buffer.height == font.glyph_size.0 + font.glyph_size.1,
            r.input_y == height - font.glyph_size.0 - font.glyph_size.1,
            r.input_char_x == 0,
            r.input_string@.len() == 0,
    {
        let input_height = font.glyph_size.0 + font.glyph_size.1;
        let output_next_y = font.glyph_size.0;
        let output_height = height - input_height;
        assert(width * output_height <= CONSOLE_LIMIT * CONSOLE_LIMIT) by (nonlinear_arith)
            requires
                0 <= width <= CONSOLE_LIMIT,
                0 <= output_height <= CONSOLE_LIMIT,
        ;
        assert(width * input_height <= CONSOLE_LIMIT * CONSOLE_LIMIT) by (nonlinear_arith)
            requires
                0 <= width <= CONSOLE_LIMIT,
                0 <= input_height <= CONSOLE_LIMIT,
        ;
        let output_buffer = B2D::new(width, output_height);
        let mut input_buffer = B2D::new(width, input_height);
        blit_char(&font, &mut input_buffer, ']', (0, 0));
        Console {
            width,
            font,
            is_open: false,
            current_width: 0,
            is_moving: false,
            output_next_y,
            output_buffer,
            input_y: height - input_height,
            input_char_x: 0,
            input_buffer,
            input_string: Vec::new(),
        }
    }

    /// Writes `text` below the output so far, wrapped to the console's width.
    pub fn put_line(&mut self, text: &str)
        requires
            old(self).wf(),
        ensures
            final(self).wf(),
            final(self).width == old(self).width,
            final(self).is_open == old(self).is_open,
            final(self).current_width == old(self).current_width,
            final(self).input_string == old(self).input_string,
    {
        let down = blit_str_wrap(
            &self.font,
            &mut self.output_buffer,
            text,
            (self.font.glyph_size.0, self.output_next_y),
            2,
            true,
        );
        let next = self.output_next_y as i64 + down as i64 + self.font.glyph_size.1 as i64
            + CONSOLE_LINE_SPACING as i64;
        self.output_next_y = if next > 0x4000_0000 {
            0x4000_0000
        } else if next < -0x4000_0000 {
            -0x4000_0000
        } else {
            next as i32
        };
    }

    /// Writes `string` as a line of output.
    pub fn put_string(&mut self, string: String)
        requires
            old(self).wf(),
        ensures
            final(self).wf(),
            final(self).width == old(self).width,
            final(self).is_open == old(self).is_open,
            final(self).current_width == old(self).current_width,
            final(self).input_string == old(self).input_string,
    {
        self.put_line(string.as_str());
    }

    /// Opens a closed console or closes an open one; it starts to slide.
    pub fn toggle(&mut self)
        ensures
            *final(self) == (Console { is_open: !old(self).is_open, is_moving: true, ..*old(self) }),
    {
        self.is_open = !self.is_open;
        self.is_moving = true;
    }

    /// One frame: the console slides by `step` pixels, stopping at either
    /// end; then the grave key toggles it, and while open the backspace key
    /// deletes a character, the return key sends the input line to the
    /// output, and a typed character is added. The result is whether the
    /// console is open.
    pub fn update(&mut self, step: i32, input: &Input) -> (r: bool)
        requires
            old(self).wf(),
            0 <= step,
        ensures
            final(self).wf(),
            final(self).width == old(self).width,
            r == final(self).is_open,
            old(self).is_moving ==> final(self).current_width == if old(self).is_open {
                crate::math::min_int(old(self).current_width + step, old(self).width as int)
            } else {
                crate::math::max_int(old(self).current_width - step, 0)
            },
            !old(self).is_moving ==> final(self).current_width == old(self).current_width,
            final(self).is_open == (old(self).is_open != input.is_pressed_spec(InputCode::Grave)),
    {
        if self.is_moving {
            let w = if self.is_open {
                if self.current_width as i64 + step as i64 > self.width as i64 {
                    self.width
                } else {
                    self.current_width + step
                }
            } else {
                if (self.current_width as i64) - (step as i64) < 0 {
                    0
                } else {
                    self.current_width - step
                }
            };
            self.current_width = w;
            if self.current_width >= self.width || self.current_width <= 0 {
                self.is_moving = false;
            }
        }
        if input.is_pressed(InputCode::Grave) {
            self.toggle();
        } else if self.is_open {
            if input.is_pressed(InputCode::Back) {
                self.input_string.pop();
                let gs = self.font.glyph_size;
                self.input_buffer.blit_fill(
                    (if self.input_char_x < 0 { 0 } else { self.input_char_x }, 0),
                    gs,
                    0,
                );
                if self.input_char_x > -CONSOLE_LIMIT * 0x1000 + CONSOLE_LIMIT {
                    self.input_char_x = self.input_char_x - self.font.glyph_size.0;
                }
            } else if input.is_pressed(InputCode::Return) {
                if self.input_string.len() != 0 {
                    let line = chars_to_string(&self.input_string);
                    self.input_string = Vec::new();
                    self.put_line(line.as_str());
                    let h = self.input_buffer.height;
                    self.input_buffer.blit_fill((0, 0), (self.width, h), 0);
                    blit_char(&self.font, &mut self.input_buffer, ']', (0, 0));
                    self.input_char_x = 0;
                }
            } else if input.last_char.is_some() {
                let c = input.last_char.unwrap();
                self.input_string.push(c);
                let x = self.input_char_x as i64 + self.font.glyph_size.0 as i64;
                if x <= i32::MAX as i64 {
                    blit_char(&self.font, &mut self.input_buffer, c, (x as i32, 0));
                }
                if self.input_char_x < CONSOLE_LIMIT * 0x1000 - CONSOLE_LIMIT {
                    self.input_char_x = self.input_char_x + self.font.glyph_size.0;
                }
            }
        }
        self.is_open
    }

    /// Draws the visible part of the console at the left edge of `buffer`.
    pub fn blit(&mut self, buffer: &mut B2D)
        requires
            old(self).wf(),
            old(buffer).wf(),
        ensures
            final(buffer).wf(),
            final(buffer).width == old(buffer).width,
            final(buffer).height == old(buffer).height,
            old(self).current_width == 0 ==> final(buffer).pixels@ == old(buffer).pixels@,
    {
        if self.current_width <= 0 {
            return;
        }
        let cw = self.current_width;
        let w = self.width;
        proof {
            assert(self.output_buffer.height * w == w * self.output_buffer.height) by (nonlinear_arith);
            assert(self.input_buffer.height * w == w * self.input_buffer.height) by (nonlinear_arith);
        }
        buffer.blit_region_copy(
            self.output_buffer.pixels.as_slice(),
            (w - cw, 0),
            (cw, self.output_buffer.height),
            w,
            (0, 0),
        );
        buffer.blit_region_copy(
            self.input_buffer.pixels.as_slice(),
            (w - cw, 0),
            (cw, self.input_buffer.height),
            w,
            (0, self.input_y),
        );
    }
}

/// Relies on `String::from_iter`: the string holds the characters in order.
#[verifier::external_body]
fn chars_to_string(chars: &Vec<char>) -> (r: String)
    ensures
        r@ == chars@,
{
    String::from_iter(chars.iter())
}

} // verus!
