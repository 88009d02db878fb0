//! One display surface per output: the owned protocol objects, the
//! configure/acknowledge handshake, and the request sequences that set the
//! surface up, attach a rendered buffer, and tear everything down.

use vstd::prelude::*;

verus! {

/// A request to send to the display server, named by the object it targets.
/// Object identities are plain numbers; the transport owns the real handles.
#[derive(Clone, Copy, Debug, PartialEq, Eq)]
pub enum Request {
    /// Restrict pointer input to the given (empty) region: the background
    /// must never receive input.
    SetInputRegion { surface: u64, region: u64 },
    /// Destroy the one-shot input region right after applying it.
    DestroyRegion { region: u64 },
    /// Anchor the layer surface to the named edges.
    SetAnchor { layer_surface: u64, top: bool, bottom: bool, left: bool, right: bool },
    /// Reserve no screen space for other surfaces.
    SetExclusiveZone { layer_surface: u64, zone: i32 },
    /// Margins from the anchored edges.
    SetMargin { layer_surface: u64, top: i32, right: i32, bottom: i32, left: i32 },
    /// Whether the layer surface may take keyboard focus.
    SetKeyboardInteractivity { layer_surface: u64, enabled: bool },
    /// Size hint for the handshake; zero lets the server decide.
    SetSize { layer_surface: u64, width: u32, height: u32 },
    /// Commit pending surface state.
    Commit { surface: u64 },
    /// Confirm receipt of a configure event.
    AckConfigure { layer_surface: u64, serial: u32 },
    /// Attach a buffer to the surface at the given offset.
    Attach { surface: u64, buffer: u64, x: i32, y: i32 },
    /// Mark an area of the surface as needing redraw.
    Damage { surface: u64, x: i32, y: i32, width: u32, height: u32 },
    /// Destroy an owned object.
    DestroySurface { surface: u64 },
    DestroyLayerSurface { layer_surface: u64 },
    DestroyViewport { viewport: u64 },
    DestroyBuffer { buffer: u64 },
}

/// The size proposal of the most recent configure event, awaiting
/// acknowledgment.
#[derive(Clone, Copy, Debug, PartialEq, Eq)]
pub struct PendingConfigure {
    pub serial: u32,
    pub width: u32,
    pub height: u32,
}

/// The long-lived record of one output's background surface.
#[derive(Clone, Copy, Debug, PartialEq)]
pub struct DisplaySurface {
    /// Identity of the output this surface covers.
    pub output_id: u64,
    /// The registry name the output was advertised under; retraction notices
    /// carry it.
    pub global_name: u32,
    /// Owned surface object.
    pub surface_id: u64,
    /// Owned layer-surface object; configure and closed events carry it.
    pub layer_surface_id: u64,
    /// Owned viewport object, when the scaling capability is present.
    pub viewport_id: Option<u64>,
    /// Negotiated width; zero until the first handshake completes.
    pub width: u32,
    /// Negotiated height; zero until the first handshake completes.
    pub height: u32,
    /// The most recent configure not yet acknowledged; a newer configure
    /// replaces an older pending one.
    pub pending: Option<PendingConfigure>,
    /// Whether at least one configure has been acknowledged.
    pub configured: bool,
    /// Whether the surface must be re-rendered at the negotiated size.
    pub dirty: bool,
    /// The currently attached buffer, if any.
    pub buffer_id: Option<u64>,
}

/// A proposed dimension clamped to at least one pixel.
pub open spec fn clamp_dim(v: u32) -> u32 {
    if v == 0 {
        1u32
    } else {
        v
    }
}

impl DisplaySurface {
    /// The negotiated size is real once configured, the sentinel zero size
    /// means unconfigured, pending proposals are already clamped, and a
    /// buffer is only attached after an acknowledged configure.
    pub open spec fn wf(self) -> bool {
        &&& self.configured ==> self.width >= 1 && self.height >= 1
        &&& !self.configured ==> self.width == 0 && self.height == 0 && self.buffer_id is None
            && !self.dirty
        &&& self.pending matches Some(p) ==> p.width >= 1 && p.height >= 1
    }

    /// The record a fresh surface starts from: nothing negotiated, nothing
    /// pending, nothing attached.
    pub open spec fn initial(
        output_id: u64,
        global_name: u32,
        surface_id: u64,
        layer_surface_id: u64,
        viewport_id: Option<u64>,
    ) -> DisplaySurface {
        DisplaySurface {
            output_id,
            global_name,
            surface_id,
            layer_surface_id,
            viewport_id,
            width: 0,
            height: 0,
            pending: None,
            configured: false,
            dirty: false,
            buffer_id: None,
        }
    }

    /// A configure proposal lands: the clamped size replaces any pending one,
    /// latest wins; nothing else moves until the acknowledgment phase.
    pub open spec fn configure_step(self, serial: u32, width: u32, height: u32) -> DisplaySurface {
        DisplaySurface {
            pending: Some(
                PendingConfigure { serial, width: clamp_dim(width), height: clamp_dim(height) },
            ),
            ..self
        }
    }

    /// The acknowledgment phase: a pending proposal becomes the negotiated
    /// size, the surface counts as configured and needs a render; without a
    /// pending proposal nothing changes.
    pub open spec fn ack_step(self) -> DisplaySurface {
        match self.pending {
            Some(p) => DisplaySurface {
                width: p.width,
                height: p.height,
                pending: None,
                configured: true,
                dirty: true,
                ..self
            },
            None => self,
        }
    }

    /// A render completed and its buffer was attached: the surface is clean
    /// until the next configure.
    pub open spec fn rendered_step(self, buffer: u64) -> DisplaySurface {
        DisplaySurface { dirty: false, buffer_id: Some(buffer), ..self }
    }

    /// The acknowledgment request owed for a pending configure, if any.
    pub open spec fn ack_request(self) -> Seq<Request> {
        match self.pending {
            Some(p) => seq![
                Request::AckConfigure { layer_surface: self.layer_surface_id, serial: p.serial },
            ],
            None => seq![],
        }
    }

    /// The requests that take a fresh surface through its handshake start:
    /// an empty input region applied and destroyed, the layer surface
    /// anchored to all four edges reserving no space, no margins, no
    /// keyboard, size left to the server, and one commit.
    pub open spec fn setup_seq(self, region_id: u64) -> Seq<Request> {
        seq![
            Request::SetInputRegion { surface: self.surface_id, region: region_id },
            Request::DestroyRegion { region: region_id },
            Request::SetAnchor {
                layer_surface: self.layer_surface_id,
                top: true,
                bottom: true,
                left: true,
                right: true,
            },
            Request::SetExclusiveZone { layer_surface: self.layer_surface_id, zone: -1i32 },
            Request::SetMargin {
                layer_surface: self.layer_surface_id,
                top: 0i32,
                right: 0i32,
                bottom: 0i32,
                left: 0i32,
            },
            Request::SetKeyboardInteractivity { layer_surface: self.layer_surface_id, enabled: false },
            Request::SetSize { layer_surface: self.layer_surface_id, width: 0u32, height: 0u32 },
            Request::Commit { surface: self.surface_id },
        ]
    }

    /// The requests that put a rendered buffer on screen: attach at the
    /// origin, damage the full negotiated area, commit.
    pub open spec fn attach_seq(self, buffer: u64) -> Seq<Request> {
        seq![
            Request::Attach { surface: self.surface_id, buffer, x: 0i32, y: 0i32 },
            Request::Damage {
                surface: self.surface_id,
                x: 0i32,
                y: 0i32,
                width: self.width,
                height: self.height,
            },
            Request::Commit { surface: self.surface_id },
        ]
    }

    /// The requests that destroy every owned object: layer surface, viewport
    /// when present, attached buffer when present, and the surface itself.
    pub open spec fn teardown_seq(self) -> Seq<Request> {
        seq![Request::DestroyLayerSurface { layer_surface: self.layer_surface_id }] + (
        match self.viewport_id {
            Some(v) => seq![Request::DestroyViewport { viewport: v }],
            None => seq![],
        }) + (match self.buffer_id {
            Some(b) => seq![Request::DestroyBuffer { buffer: b }],
            None => seq![],
        }) + seq![Request::DestroySurface { surface: self.surface_id }]
    }

    /// Builds the fresh record for an output's surface and the request
    /// sequence that begins its handshake. The transport has already created
    /// the surface, the one-shot input region, the layer surface and, when
    /// scaling is available, the viewport.
    pub fn create(
        output_id: u64,
        global_name: u32,
        surface_id: u64,
        region_id: u64,
        layer_surface_id: u64,
        viewport_id: Option<u64>,
    ) -> (r: (DisplaySurface, Vec<Request>))
        ensures
            r.0 == DisplaySurface::initial(
                output_id,
                global_name,
                surface_id,
                layer_surface_id,
                viewport_id,
            ),
            r.0.wf(),
            r.1@ == r.0.setup_seq(region_id),
    {
        let d = DisplaySurface {
            output_id,
            global_name,
            surface_id,
            layer_surface_id,
            viewport_id,
            width: 0,
            height: 0,
            pending: None,
            configured: false,
            dirty: false,
            buffer_id: None,
        };
        let mut reqs: Vec<Request> = Vec::new();
        reqs.push(Request::SetInputRegion { surface: surface_id, region: region_id });
        reqs.push(Request::DestroyRegion { region: region_id });
        reqs.push(
            Request::SetAnchor {
                layer_surface: layer_surface_id,
                top: true,
                bottom: true,
                left: true,
                right: true,
            },
        );
        reqs.push(Request::SetExclusiveZone { layer_surface: layer_surface_id, zone: -1 });
        reqs.push(
            Request::SetMargin { layer_surface: layer_surface_id, top: 0, right: 0, bottom: 0, left: 0 },
        );
        reqs.push(
            Request::SetKeyboardInteractivity { layer_surface: layer_surface_id, enabled: false },
        );
        reqs.push(Request::SetSize { layer_surface: layer_surface_id, width: 0, height: 0 });
        reqs.push(Request::Commit { surface: surface_id });
        proof {
            assert(reqs@ =~= d.setup_seq(region_id));
        }
        (d, reqs)
    }

    /// Builds the teardown requests for this surface's owned objects.
    pub fn teardown_requests(&self) -> (r: Vec<Request>)
        ensures
            r@ == self.teardown_seq(),
    {
        let mut reqs: Vec<Request> = Vec::new();
        reqs.push(Request::DestroyLayerSurface { layer_surface: self.layer_surface_id });
        match self.viewport_id {
            Some(v) => reqs.push(Request::DestroyViewport { viewport: v }),
            None => {},
        }
        match self.buffer_id {
            Some(b) => reqs.push(Request::DestroyBuffer { buffer: b }),
            None => {},
        }
        reqs.push(Request::DestroySurface { surface: self.surface_id });
        proof {
            assert(reqs@ =~= self.teardown_seq());
        }
        reqs
    }

    /// Records a configure proposal, clamping a zero width or height to one
    /// pixel before any buffer could be allocated for it; a newer proposal
    /// replaces a pending older one.
    pub fn handle_configure(&mut self, serial: u32, width: u32, height: u32)
        requires
            old(self).wf(),
        ensures
            *final(self) == old(self).configure_step(serial, width, height),
            final(self).wf(),
    {
        let w = if width == 0 { 1u32 } else { width };
        let h = if height == 0 { 1u32 } else { height };
        self.pending = Some(PendingConfigure { serial, width: w, height: h });
    }

    /// A buffer is attached only after at least one configure was
    /// acknowledged: a well-formed surface holding a buffer has completed
    /// the handshake, at a clamped size of at least one pixel each way.
    pub proof fn lemma_attach_only_after_ack(self)
        requires
            self.wf(),
            self.buffer_id is Some,
        ensures
            self.configured,
            self.width >= 1,
            self.height >= 1,
    {
    }

    /// Of any sequence of configures received before one acknowledgment
    /// phase, only the most recently received survives: the negotiated size
    /// after the acknowledgment is the last proposal's clamped size, so a
    /// stale size is never the one rendered.
    pub proof fn lemma_latest_configure_wins(
        self,
        s1: u32,
        w1: u32,
        h1: u32,
        s2: u32,
        w2: u32,
        h2: u32,
    )
        ensures
            ({
                let after = self.configure_step(s1, w1, h1).configure_step(s2, w2, h2).ack_step();
                &&& after.width == clamp_dim(w2)
                &&& after.height == clamp_dim(h2)
                &&& after.configured
                &&& after.dirty
                &&& after.pending is None
            }),
    {
    }

    /// A configure proposal with a zero width or height is clamped to one
    /// pixel, and a positive proposal is kept exactly.
    pub proof fn lemma_configure_clamped(self, serial: u32, width: u32, height: u32)
        ensures
            ({
                let p = self.configure_step(serial, width, height).pending;
                &&& p matches Some(q) && q.width >= 1 && q.height >= 1 && q.serial == serial
                &&& width >= 1 ==> (p matches Some(q) && q.width == width)
                &&& height >= 1 ==> (p matches Some(q) && q.height == height)
            }),
    {
    }

    /// The teardown of a surface destroys every owned object: the layer
    /// surface, the surface, and the viewport and attached buffer when
    /// present.
    pub proof fn lemma_teardown_covers_owned(self)
        ensures
            self.teardown_seq().contains(
                Request::DestroyLayerSurface { layer_surface: self.layer_surface_id },
            ),
            self.teardown_seq().contains(Request::DestroySurface { surface: self.surface_id }),
            self.viewport_id matches Some(v) ==> self.teardown_seq().contains(
                Request::DestroyViewport { viewport: v },
            ),
            self.buffer_id matches Some(b) ==> self.teardown_seq().contains(
                Request::DestroyBuffer { buffer: b },
            ),
    {
        let s = self.teardown_seq();
        assert(s[0] == Request::DestroyLayerSurface { layer_surface: self.layer_surface_id });
        assert(s[s.len() - 1] == Request::DestroySurface { surface: self.surface_id });
        match self.viewport_id {
            Some(v) => {
                assert(s[1] == Request::DestroyViewport { viewport: v });
                match self.buffer_id {
                    Some(b) => {
                        assert(s[2] == Request::DestroyBuffer { buffer: b });
                    },
                    None => {},
                }
            },
            None => {
                match self.buffer_id {
                    Some(b) => {
                        assert(s[1] == Request::DestroyBuffer { buffer: b });
                    },
                    None => {},
                }
            },
        }
    }

    /// Takes the acknowledgment owed for a pending configure: the proposal
    /// becomes the negotiated size and the surface is marked dirty. Returns
    /// the serial to acknowledge, or nothing when no configure is pending.
    pub fn take_ack(&mut self) -> (r: Option<u32>)
        requires
            old(self).wf(),
        ensures
            *final(self) == old(self).ack_step(),
            final(self).wf(),
            r == (match old(self).pending {
                Some(p) => Some(p.serial),
                None => None::<u32>,
            }),
    {
        match self.pending {
            Some(p) => {
                self.width = p.width;
                self.height = p.height;
                self.pending = None;
                self.configured = true;
                self.dirty = true;
                Some(p.serial)
            },
            None => None,
        }
    }
}

} // verus!
