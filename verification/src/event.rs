//! What one executed instruction asks of the peripherals.
//!
//! The processor touches neither screen nor keypad nor speaker: it reports
//! what should happen to them, at most one thing per instruction, and
//! whoever drives it carries that out.
use crate::display::{DrawRequest, DrawRequestView};
use vstd::prelude::*;

verus! {

/// The request that an executed instruction leaves behind.
#[derive(Clone, Debug, PartialEq, Eq)]
pub enum Event {
    /// Nothing is asked.
    Nothing,
    /// Blank the screen.
    ClearScreen,
    /// XOR a sprite onto the screen.
    Draw(DrawRequest),
    /// The program waits for a key, whose code is to go into register `x`;
    /// the instruction will be executed again.
    WaitKey { x: u8 },
    /// The sound timer was set: the tone is to be switched on or off.
    Tone { on: bool },
    /// The word at the program counter encodes no instruction; it was
    /// skipped.
    UnknownOpcode { word: u16 },
}

/// An event as a mathematical value.
pub enum EventView {
    Nothing,
    ClearScreen,
    Draw(DrawRequestView),
    WaitKey { x: u8 },
    Tone { on: bool },
    UnknownOpcode { word: u16 },
}

impl View for Event {
    type V = EventView;

    open spec fn view(&self) -> EventView {
        match self {
            Event::Nothing => EventView::Nothing,
            Event::ClearScreen => EventView::ClearScreen,
            Event::Draw(request) => EventView::Draw(request@),
            Event::WaitKey { x } => EventView::WaitKey { x: *x },
            Event::Tone { on } => EventView::Tone { on: *on },
            Event::UnknownOpcode { word } => EventView::UnknownOpcode { word: *word },
        }
    }
}

} // verus!
