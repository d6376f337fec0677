use crate::address::{convert_addr, spec_address};
use crate::display::{decimal_text, format_decimal};
use crate::mode::{parse_mode, spec_mode_of, Mode};
use vstd::prelude::*;

verus! {

/// What the page shows: the text last typed, the last address that parsed,
/// and the selected mode.
pub struct AddrState {
    /// The text as typed, kept even when it does not parse.
    pub raw: String,
    /// The last address that parsed, widened to 64 bits.
    pub addr: u64,
    /// The selected addressing mode.
    pub mode: Mode,
}

impl AddrState {
    /// The initial state: text `0x0`, address 0, 32-bit mode.
    pub fn new() -> (r: AddrState)
        ensures
            r.raw@ == seq!['0', 'x', '0'],
            r.addr == 0,
            r.mode == Mode::RV32,
    {
        proof {
            reveal_strlit("0x0");
        }
        AddrState { raw: String::from_str("0x0"), addr: 0, mode: Mode::RV32 }
    }

    /// A text edit: the text is always kept; the address changes only when
    /// the text parses under the current mode.
    pub fn on_input(&mut self, text: String)
        ensures
            final(self).raw@ == text@,
            final(self).mode == old(self).mode,
            final(self).addr == match spec_address(text@, old(self).mode) {
                Some(n) => n as u64,
                None => old(self).addr,
            },
    {
        match convert_addr(text.as_str(), self.mode) {
            Ok(v) => {
                self.addr = v;
            },
            Err(_) => {},
        }
        self.raw = text;
    }

    /// A mode selection: an unknown name leaves the mode as it was. The
    /// text already entered is not parsed again under the new mode; the
    /// next edit is.
    pub fn on_mode_select(&mut self, name: &str)
        ensures
            final(self).mode == match spec_mode_of(name@) {
                Some(m) => m,
                None => old(self).mode,
            },
            final(self).raw@ == old(self).raw@,
            final(self).addr == old(self).addr,
    {
        match parse_mode(name) {
            Ok(m) => {
                self.mode = m;
            },
            Err(_) => {},
        }
    }

    /// The address as the read-only display renders it, in decimal.
    pub fn addr_text(&self) -> (r: String)
        ensures
            r@ == decimal_text(self.addr as nat),
    {
        format_decimal(self.addr)
    }

    /// The selected mode's display name.
    pub fn mode_text(&self) -> (r: String)
        ensures
            r@ == crate::mode::spec_name(self.mode),
    {
        self.mode.to_string()
    }
}

} // verus!
