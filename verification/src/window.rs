//! The window-geometry store: read once at startup, written once at
//! shutdown, and harmless to lose — a missing or unreadable file simply
//! yields no saved state.

use vstd::prelude::*;
use crate::codec::{
    lemma_dec_enc_flag, lemma_dec_enc_i32, read_flag, read_i32, spec_dec_flag, spec_dec_i32,
    spec_enc_flag, spec_enc_i32, write_flag, write_i32,
};

verus! {

/// Where the main window stood when the application last shut down.
#[derive(Debug, Clone, Copy, PartialEq, Eq, Structural)]
pub struct WindowState {
    pub x: i32,
    pub y: i32,
    pub width: i32,
    pub height: i32,
    pub is_maximized: bool,
    pub is_fullscreen: bool,
}

/// The geometry used when no saved state exists.
pub open spec fn spec_default_window() -> WindowState {
    WindowState { x: 300, y: 300, width: 860, height: 600, is_maximized: false, is_fullscreen: false }
}

impl Default for WindowState {
    /// The geometry used when no saved state exists.
    fn default() -> (r: WindowState)
        ensures
            r == spec_default_window(),
    {
        WindowState {
            x: 300,
            y: 300,
            width: 860,
            height: 600,
            is_maximized: false,
            is_fullscreen: false,
        }
    }
}

/// Window geometry on the wire, field by field.
pub open spec fn spec_enc_window(w: WindowState) -> Seq<u8> {
    spec_enc_i32(w.x) + (spec_enc_i32(w.y) + (spec_enc_i32(w.width) + (spec_enc_i32(w.height) + (
    spec_enc_flag(w.is_maximized) + spec_enc_flag(w.is_fullscreen)))))
}

/// Reads a whole geometry record, with nothing after it.
pub open spec fn spec_dec_window(b: Seq<u8>) -> Option<WindowState> {
    match spec_dec_i32(b) {
        Option::None => Option::None,
        Option::Some((x, b1)) => match spec_dec_i32(b1) {
            Option::None => Option::None,
            Option::Some((y, b2)) => match spec_dec_i32(b2) {
                Option::None => Option::None,
                Option::Some((width, b3)) => match spec_dec_i32(b3) {
                    Option::None => Option::None,
                    Option::Some((height, b4)) => match spec_dec_flag(b4) {
                        Option::None => Option::None,
                        Option::Some((is_maximized, b5)) => match spec_dec_flag(b5) {
                            Option::None => Option::None,
                            Option::Some((is_fullscreen, b6)) => if b6.len() == 0 {
                                Option::Some(
                                    WindowState {
                                        x,
                                        y,
                                        width,
                                        height,
                                        is_maximized,
                                        is_fullscreen,
                                    },
                                )
                            } else {
                                Option::None
                            },
                        },
                    },
                },
            },
        },
    }
}

/// The round trip of the window-geometry store: a record written with
/// `write` reads back as exactly the same record.
pub proof fn lemma_window_round_trip(w: WindowState)
    ensures
        spec_dec_window(spec_enc_window(w)) == Option::Some(w),
{
    let t5 = spec_enc_flag(w.is_fullscreen) + Seq::<u8>::empty();
    let t4 = spec_enc_flag(w.is_maximized) + t5;
    let t3 = spec_enc_i32(w.height) + t4;
    let t2 = spec_enc_i32(w.width) + t3;
    let t1 = spec_enc_i32(w.y) + t2;
    assert(spec_enc_window(w) =~= spec_enc_i32(w.x) + t1);
    lemma_dec_enc_i32(w.x, t1);
    lemma_dec_enc_i32(w.y, t2);
    lemma_dec_enc_i32(w.width, t3);
    lemma_dec_enc_i32(w.height, t4);
    lemma_dec_enc_flag(w.is_maximized, t5);
    lemma_dec_enc_flag(w.is_fullscreen, Seq::<u8>::empty());
}

impl WindowState {
    /// Builds the record from the measurements the caller took of the
    /// live window at shutdown.
    pub fn from_window(
        x: i32,
        y: i32,
        width: i32,
        height: i32,
        is_maximized: bool,
        is_fullscreen: bool,
    ) -> (r: WindowState)
        ensures
            r == (WindowState { x, y, width, height, is_maximized, is_fullscreen }),
    {
        WindowState { x, y, width, height, is_maximized, is_fullscreen }
    }

    /// Serializes the record so the caller can replace the backing file
    /// with it; the bytes are the wire form of the whole record.
    pub fn write(&self) -> (out: Vec<u8>)
        ensures
            out@ == spec_enc_window(*self),
    {
        let mut out: Vec<u8> = Vec::new();
        write_i32(&mut out, self.x);
        write_i32(&mut out, self.y);
        write_i32(&mut out, self.width);
        write_i32(&mut out, self.height);
        write_flag(&mut out, self.is_maximized);
        write_flag(&mut out, self.is_fullscreen);
        proof {
            assert(out@ =~= spec_enc_window(*self));
        }
        out
    }

    /// Opens the store from what the backing file held. Absent or
    /// malformed bytes yield no saved state rather than an error: losing
    /// window geometry is harmless.
    pub fn open(stored: Option<&Vec<u8>>) -> (r: Option<WindowState>)
        ensures
            stored is None ==> r is None,
            stored matches Option::Some(b) ==> r == spec_dec_window(b@),
    {
        match stored {
            Option::None => Option::None,
            Option::Some(stored_bytes) => {
                let b = stored_bytes.as_slice();
                proof {
                    assert(b@.skip(0) =~= b@);
                }
                match read_i32(b, 0) {
                    Option::None => Option::None,
                    Option::Some((x, p1)) => match read_i32(b, p1) {
                        Option::None => Option::None,
                        Option::Some((y, p2)) => match read_i32(b, p2) {
                            Option::None => Option::None,
                            Option::Some((width, p3)) => match read_i32(b, p3) {
                                Option::None => Option::None,
                                Option::Some((height, p4)) => match read_flag(b, p4) {
                                    Option::None => Option::None,
                                    Option::Some((is_maximized, p5)) => match read_flag(b, p5) {
                                        Option::None => Option::None,
                                        Option::Some((is_fullscreen, p6)) => {
                                            if p6 != b.len() {
                                                Option::None
                                            } else {
                                                proof {
                                                    assert(b@.skip(p6 as int).len() == 0);
                                                }
                                                Option::Some(
                                                    WindowState {
                                                        x,
                                                        y,
                                                        width,
                                                        height,
                                                        is_maximized,
                                                        is_fullscreen,
                                                    },
                                                )
                                            }
                                        },
                                    },
                                },
                            },
                        },
                    },
                }
            },
        }
    }
}

} // verus!
