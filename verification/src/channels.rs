//! Bookkeeping of the dynamic virtual channels an RDP session has opened.
//!
//! A channel is known by the address of its FreeRDP client context, which
//! the channel-connected callback hands over; the channels are initialized
//! after the connection is created, so they are tracked separately.

use vstd::prelude::*;

verus! {

/// The display-control channel (`DispClientContext`).
#[derive(Debug, Clone, Copy, PartialEq, Eq, Structural)]
pub struct DispChannel {
    ptr: usize,
}

/// The clipboard channel (`CliprdrClientContext`).
#[derive(Debug, Clone, Copy, PartialEq, Eq, Structural)]
pub struct RdpClipboard {
    ptr: usize,
}

/// The remote-application channel (`RailClientContext`).
#[derive(Debug, Clone, Copy, PartialEq, Eq, Structural)]
pub struct RailChannel {
    ptr: usize,
}

/// The graphics pipeline channel (`RdpgfxClientContext`).
#[derive(Debug, Clone, Copy, PartialEq, Eq, Structural)]
pub struct GfxChannel {
    ptr: usize,
}

impl DispChannel {
    /// The address of the channel's client context.
    pub closed spec fn addr(&self) -> usize {
        self.ptr
    }

    pub fn new(ptr: usize) -> (c: Self)
        ensures
            c.addr() == ptr,
    {
        DispChannel { ptr }
    }

    pub fn ptr(&self) -> (r: usize)
        ensures
            r == self.addr(),
    {
        self.ptr
    }
}

impl RdpClipboard {
    /// The address of the channel's client context.
    pub closed spec fn addr(&self) -> usize {
        self.ptr
    }

    pub fn new(ptr: usize) -> (c: Self)
        ensures
            c.addr() == ptr,
    {
        RdpClipboard { ptr }
    }

    pub fn ptr(&self) -> (r: usize)
        ensures
            r == self.addr(),
    {
        self.ptr
    }
}

impl RailChannel {
    /// The address of the channel's client context.
    pub closed spec fn addr(&self) -> usize {
        self.ptr
    }

    pub fn new(ptr: usize) -> (c: Self)
        ensures
            c.addr() == ptr,
    {
        RailChannel { ptr }
    }

    pub fn ptr(&self) -> (r: usize)
        ensures
            r == self.addr(),
    {
        self.ptr
    }
}

impl GfxChannel {
    /// The address of the channel's client context.
    pub closed spec fn addr(&self) -> usize {
        self.ptr
    }

    pub fn new(ptr: usize) -> (c: Self)
        ensures
            c.addr() == ptr,
    {
        GfxChannel { ptr }
    }

    pub fn ptr(&self) -> (r: usize)
        ensures
            r == self.addr(),
    {
        self.ptr
    }
}

/// Which channels are open, each by the address of its client context.
pub struct ChannelsView {
    pub disp: Option<usize>,
    pub cliprdr: Option<usize>,
    pub rail: Option<usize>,
    pub gfx: Option<usize>,
}

/// The open channels of a session.
#[derive(Clone, Debug)]
pub struct RdpChannels {
    disp: Option<DispChannel>,
    cliprdr: Option<RdpClipboard>,
    rail: Option<RailChannel>,
    gfx: Option<GfxChannel>,
}

/// The address a channel slot holds, if any.
pub open spec fn slot<T>(c: Option<T>, addr: spec_fn(T) -> usize) -> Option<usize> {
    match c {
        Some(ch) => Some(addr(ch)),
        None => None,
    }
}

impl View for RdpChannels {
    type V = ChannelsView;

    closed spec fn view(&self) -> ChannelsView {
        ChannelsView {
            disp: slot(self.disp, |c: DispChannel| c.addr()),
            cliprdr: slot(self.cliprdr, |c: RdpClipboard| c.addr()),
            rail: slot(self.rail, |c: RailChannel| c.addr()),
            gfx: slot(self.gfx, |c: GfxChannel| c.addr()),
        }
    }
}

impl RdpChannels {
    /// No channel is open.
    pub fn new() -> (c: Self)
        ensures
            c@ == (ChannelsView { disp: None, cliprdr: None, rail: None, gfx: None }),
    {
        RdpChannels { disp: None, cliprdr: None, rail: None, gfx: None }
    }

    /// Open the display control channel at the given client context address.
    pub fn set_disp_ptr(&mut self, disp: usize)
        ensures
            final(self)@ == (ChannelsView { disp: Some(disp), ..old(self)@ }),
    {
        self.disp = Some(DispChannel::new(disp));
    }

    /// Close the display control channel.
    pub fn clear_disp(&mut self)
        ensures
            final(self)@ == (ChannelsView { disp: None, ..old(self)@ }),
    {
        self.disp = None;
    }

    /// The display control channel, if open.
    pub fn disp(&self) -> (r: Option<DispChannel>)
        ensures
            slot(r, |c: DispChannel| c.addr()) == self@.disp,
    {
        self.disp
    }

    /// Open the clipboard channel at the given client context address.
    pub fn set_cliprdr_ptr(&mut self, cliprdr: usize)
        ensures
            final(self)@ == (ChannelsView { cliprdr: Some(cliprdr), ..old(self)@ }),
    {
        let clipboard = RdpClipboard::new(cliprdr);
        self.cliprdr = Some(clipboard);
    }

    /// Close the clipboard channel.
    pub fn clear_cliprdr(&mut self)
        ensures
            final(self)@ == (ChannelsView { cliprdr: None, ..old(self)@ }),
    {
        self.cliprdr = None;
    }

    /// The clipboard channel, if open.
    pub fn cliprdr(&self) -> (r: Option<RdpClipboard>)
        ensures
            slot(r, |c: RdpClipboard| c.addr()) == self@.cliprdr,
    {
        self.cliprdr
    }

    /// Open the remote applications (RAIL) channel at the given client context address.
    pub fn set_rail_ptr(&mut self, rail: usize)
        ensures
            final(self)@ == (ChannelsView { rail: Some(rail), ..old(self)@ }),
    {
        self.rail = Some(RailChannel::new(rail));
    }

    /// Close the remote applications channel.
    pub fn clear_rail(&mut self)
        ensures
            final(self)@ == (ChannelsView { rail: None, ..old(self)@ }),
    {
        self.rail = None;
    }

    /// The remote applications channel, if open.
    pub fn rail(&self) -> (r: Option<RailChannel>)
        ensures
            slot(r, |c: RailChannel| c.addr()) == self@.rail,
    {
        self.rail
    }

    /// Open the graphics pipeline channel at the given client context address.
    pub fn set_gfx_ptr(&mut self, gfx: usize)
        ensures
            final(self)@ == (ChannelsView { gfx: Some(gfx), ..old(self)@ }),
    {
        self.gfx = Some(GfxChannel::new(gfx));
    }

    /// Close the graphics pipeline channel.
    pub fn clear_gfx(&mut self)
        ensures
            final(self)@ == (ChannelsView { gfx: None, ..old(self)@ }),
    {
        self.gfx = None;
    }

    /// The graphics pipeline channel, if open.
    pub fn gfx(&self) -> (r: Option<GfxChannel>)
        ensures
            slot(r, |c: GfxChannel| c.addr()) == self@.gfx,
    {
        self.gfx
    }
}

impl Default for RdpChannels {
    /// No channel is open.
    fn default() -> (c: Self)
        ensures
            c@ == (ChannelsView { disp: None, cliprdr: None, rail: None, gfx: None }),
    {
        Self::new()
    }
}

} // verus!
