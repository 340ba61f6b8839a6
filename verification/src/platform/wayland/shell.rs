//! Wayland connection decisions: which globals to bind, how output events add
//! up to monitors, and the fallbacks while running.

use crate::capture::MonitorInfo;
use crate::geometry::{narrow_i32, sat_i32, sat_u32, Rect};
use crate::text::{decimal, join_path, joined, push_decimal, push_text, same_text};
use vstd::prelude::*;

verus! {

/// Lock file name inside the runtime directory.
pub const LOCK_FILE_NAME: &'static str = "spotfreeze.lock";

/// Highest wl_output version to bind.
pub const OUTPUT_VERSION: u32 = 4;

/// A global the compositor advertises.
pub struct GlobalInfo {
    pub name: u32,
    pub interface: String,
    pub version: u32,
}

/// A global the shell binds.
#[derive(Clone, Copy, PartialEq, Eq, Structural, Debug)]
pub enum Required {
    Compositor,
    Shm,
    Seat,
    LayerShell,
    Screencopy,
    DataDeviceManager,
    /// Output names and positions; not required.
    XdgOutputManager,
}

impl Required {
    /// Interface name.
    pub open spec fn interface(self) -> Seq<char> {
        match self {
            Required::Compositor => "wl_compositor"@,
            Required::Shm => "wl_shm"@,
            Required::Seat => "wl_seat"@,
            Required::LayerShell => "zwlr_layer_shell_v1"@,
            Required::Screencopy => "zwlr_screencopy_manager_v1"@,
            Required::DataDeviceManager => "wl_data_device_manager"@,
            Required::XdgOutputManager => "zxdg_output_manager_v1"@,
        }
    }

    /// Highest version to bind.
    pub open spec fn max_version(self) -> u32 {
        match self {
            Required::Compositor => 4,
            Required::Shm => 1,
            Required::Seat => 8,
            Required::LayerShell => 4,
            Required::Screencopy => 3,
            Required::DataDeviceManager => 3,
            Required::XdgOutputManager => 3,
        }
    }

    /// Interface name and highest version to bind.
    pub fn binding(self) -> (r: (&'static str, u32))
        ensures
            r.0@ == self.interface(),
            r.1 == self.max_version(),
    {
        match self {
            Required::Compositor => ("wl_compositor", 4),
            Required::Shm => ("wl_shm", 1),
            Required::Seat => ("wl_seat", 8),
            Required::LayerShell => ("zwlr_layer_shell_v1", 4),
            Required::Screencopy => ("zwlr_screencopy_manager_v1", 3),
            Required::DataDeviceManager => ("wl_data_device_manager", 3),
            Required::XdgOutputManager => ("zxdg_output_manager_v1", 3),
        }
    }
}

/// The version two sides agree on.
pub open spec fn agreed(advertised: u32, highest: u32) -> u32 {
    if advertised < highest {
        advertised
    } else {
        highest
    }
}

/// Version to bind of the first advertised global with `interface`, from `i`
/// on; `None` when there is none or it has version 0.
pub open spec fn bound_version(
    globals: Seq<GlobalInfo>,
    i: int,
    interface: Seq<char>,
    highest: u32,
) -> Option<u32>
    decreases globals.len() - i,
{
    if i >= globals.len() {
        None
    } else if globals[i].interface@ == interface {
        if globals[i].version == 0 {
            None
        } else {
            Some(agreed(globals[i].version, highest))
        }
    } else {
        bound_version(globals, i + 1, interface, highest)
    }
}

fn find_version(globals: &[GlobalInfo], required: Required) -> (r: Option<u32>)
    ensures
        r == bound_version(globals@, 0, required.interface(), required.max_version()),
{
    let (interface, highest): (&'static str, u32) = required.binding();
    let mut i: usize = 0;
    while i < globals.len()
        invariant
            i <= globals@.len(),
            interface@ == required.interface(),
            highest == required.max_version(),
            bound_version(globals@, 0, interface@, highest) == bound_version(
                globals@,
                i as int,
                interface@,
                highest,
            ),
        decreases globals@.len() - i,
    {
        if same_text(globals[i].interface.as_str(), interface) {
            let version: u32 = globals[i].version;
            if version == 0 {
                return None;
            }
            return Some(
                if version < highest {
                    version
                } else {
                    highest
                },
            );
        }
        i += 1;
    }
    None
}

/// Why a connection cannot be used.
#[derive(Clone, Copy, PartialEq, Eq, Structural, Debug)]
pub enum ConnectError {
    /// A required global is not advertised.
    Missing(Required),
    /// An output reported no usable size.
    NoUsableSize(u32),
    /// No output is advertised.
    NoOutputs,
}

impl ConnectError {
    /// What the error says.
    pub open spec fn text(self) -> Seq<char> {
        match self {
            ConnectError::Missing(r) => r.interface() + " is not available"@ + (match r {
                Required::LayerShell | Required::Screencopy => " — SpotFreeze needs a wlroots-based compositor (Hyprland, Sway, …)"@,
                _ => ""@,
            }),
            ConnectError::NoUsableSize(name) => "Wayland output "@ + decimal(name as nat)
                + " reported no usable size"@,
            ConnectError::NoOutputs => "the compositor advertised no wl_output globals"@,
        }
    }

    /// What the error says.
    pub fn message(self) -> (r: String)
        ensures
            r@ == self.text(),
    {
        match self {
            ConnectError::Missing(required) => {
                let mut out: String = required.binding().0.to_owned();
                push_text(&mut out, " is not available");
                match required {
                    Required::LayerShell | Required::Screencopy => push_text(
                        &mut out,
                        " — SpotFreeze needs a wlroots-based compositor (Hyprland, Sway, …)",
                    ),
                    _ => push_text(&mut out, ""),
                }
                out
            },
            ConnectError::NoUsableSize(name) => {
                let mut out: String = "Wayland output ".to_owned();
                push_decimal(&mut out, name as u64);
                push_text(&mut out, " reported no usable size");
                out
            },
            ConnectError::NoOutputs => "the compositor advertised no wl_output globals".to_owned(),
        }
    }
}

/// Versions to bind.
#[derive(Clone, Copy, PartialEq, Eq, Structural, Debug)]
pub struct GlobalVersions {
    pub compositor: u32,
    pub shm: u32,
    pub seat: u32,
    pub layer_shell: u32,
    pub screencopy: u32,
    pub data_device_manager: u32,
    /// `None` when output names and positions come from wl_output alone.
    pub xdg_output_manager: Option<u32>,
}

/// Version to bind of `required` among `globals`.
pub open spec fn version_of(globals: Seq<GlobalInfo>, required: Required) -> Option<u32> {
    bound_version(globals, 0, required.interface(), required.max_version())
}

/// The required globals, in the order they are asked for.
pub open spec fn required_order() -> Seq<Required> {
    seq![
        Required::Compositor,
        Required::Shm,
        Required::Seat,
        Required::LayerShell,
        Required::Screencopy,
        Required::DataDeviceManager,
    ]
}

/// The first required global, from position `i` of the order on, that is
/// missing.
pub open spec fn first_missing(globals: Seq<GlobalInfo>, i: int) -> Option<Required>
    decreases 6 - i,
{
    if i >= 6 {
        None
    } else if version_of(globals, required_order()[i]) is None {
        Some(required_order()[i])
    } else {
        first_missing(globals, i + 1)
    }
}

/// Choose the version of every global to bind; the first missing required one
/// is the error.
pub fn plan_globals(globals: &[GlobalInfo]) -> (r: Result<GlobalVersions, ConnectError>)
    ensures
        match r {
            Ok(v) => {
                &&& first_missing(globals@, 0) is None
                &&& version_of(globals@, Required::Compositor) == Some(v.compositor)
                &&& version_of(globals@, Required::Shm) == Some(v.shm)
                &&& version_of(globals@, Required::Seat) == Some(v.seat)
                &&& version_of(globals@, Required::LayerShell) == Some(v.layer_shell)
                &&& version_of(globals@, Required::Screencopy) == Some(v.screencopy)
                &&& version_of(globals@, Required::DataDeviceManager) == Some(
                    v.data_device_manager,
                )
                &&& version_of(globals@, Required::XdgOutputManager) == v.xdg_output_manager
            },
            Err(e) => first_missing(globals@, 0) matches Some(m) && e == ConnectError::Missing(m),
        },
{
    proof {
        reveal_with_fuel(first_missing, 7);
    }
    let compositor: u32 = match find_version(globals, Required::Compositor) {
        Some(v) => v,
        None => return Err(ConnectError::Missing(Required::Compositor)),
    };
    let shm: u32 = match find_version(globals, Required::Shm) {
        Some(v) => v,
        None => return Err(ConnectError::Missing(Required::Shm)),
    };
    let seat: u32 = match find_version(globals, Required::Seat) {
        Some(v) => v,
        None => return Err(ConnectError::Missing(Required::Seat)),
    };
    let layer_shell: u32 = match find_version(globals, Required::LayerShell) {
        Some(v) => v,
        None => return Err(ConnectError::Missing(Required::LayerShell)),
    };
    let screencopy: u32 = match find_version(globals, Required::Screencopy) {
        Some(v) => v,
        None => return Err(ConnectError::Missing(Required::Screencopy)),
    };
    let data_device_manager: u32 = match find_version(globals, Required::DataDeviceManager) {
        Some(v) => v,
        None => return Err(ConnectError::Missing(Required::DataDeviceManager)),
    };
    Ok(
        GlobalVersions {
            compositor,
            shm,
            seat,
            layer_shell,
            screencopy,
            data_device_manager,
            xdg_output_manager: find_version(globals, Required::XdgOutputManager),
        },
    )
}

/// The outputs among the first `n` globals: name and version to bind, in the
/// order advertised.
pub open spec fn outputs_among(globals: Seq<GlobalInfo>, n: int) -> Seq<(u32, u32)>
    decreases n,
{
    if n <= 0 {
        Seq::empty()
    } else if globals[n - 1].interface@ == "wl_output"@ {
        outputs_among(globals, n - 1).push(
            (globals[n - 1].name, agreed(globals[n - 1].version, OUTPUT_VERSION)),
        )
    } else {
        outputs_among(globals, n - 1)
    }
}

/// Every advertised output: its name and the version to bind.
pub fn plan_outputs(globals: &[GlobalInfo]) -> (r: Vec<(u32, u32)>)
    ensures
        r@ == outputs_among(globals@, globals@.len() as int),
{
    let mut out: Vec<(u32, u32)> = Vec::new();
    let mut i: usize = 0;
    while i < globals.len()
        invariant
            i <= globals@.len(),
            out@ == outputs_among(globals@, i as int),
        decreases globals@.len() - i,
    {
        if same_text(globals[i].interface.as_str(), "wl_output") {
            let version: u32 = globals[i].version;
            out.push(
                (
                    globals[i].name,
                    if version < OUTPUT_VERSION {
                        version
                    } else {
                        OUTPUT_VERSION
                    },
                ),
            );
        }
        i += 1;
    }
    out
}

/// What the events of one output add up to.
pub struct OutputDraft {
    /// Position from the output's geometry.
    pub geometry_pos: (i32, i32),
    /// Current mode's pixel size.
    pub mode_size: Option<(u32, u32)>,
    /// Scale factor; 0 = not received yet, which counts as 1.
    pub scale: u32,
    pub wl_name: Option<String>,
    /// Logical position.
    pub xdg_pos: Option<(i32, i32)>,
    /// Logical size.
    pub xdg_size: Option<(u32, u32)>,
    pub xdg_name: Option<String>,
}

impl Default for OutputDraft {
    fn default() -> (r: Self)
        ensures
            r == (OutputDraft {
                geometry_pos: (0, 0),
                mode_size: None,
                scale: 0,
                wl_name: None,
                xdg_pos: None,
                xdg_size: None,
                xdg_name: None,
            }),
    {
        Self {
            geometry_pos: (0, 0),
            mode_size: None,
            scale: 0,
            wl_name: None,
            xdg_pos: None,
            xdg_size: None,
            xdg_name: None,
        }
    }
}

/// An event of one output.
pub enum OutputEvent {
    Geometry { x: i32, y: i32 },
    Mode { current: bool, width: i32, height: i32 },
    Scale { factor: i32 },
    Name { name: String },
    LogicalPosition { x: i32, y: i32 },
    LogicalSize { width: i32, height: i32 },
    LogicalName { name: String },
    Other,
}

/// A size with negative sides read as 0.
pub open spec fn size_of_event(width: i32, height: i32) -> (u32, u32) {
    (
        if width > 0 {
            width as u32
        } else {
            0
        },
        if height > 0 {
            height as u32
        } else {
            0
        },
    )
}

fn event_size(width: i32, height: i32) -> (r: (u32, u32))
    ensures
        r == size_of_event(width, height),
{
    (
        if width > 0 {
            width as u32
        } else {
            0
        },
        if height > 0 {
            height as u32
        } else {
            0
        },
    )
}

impl OutputDraft {
    /// The draft after an event. The current mode wins over others; the first
    /// mode counts until a current one comes.
    pub open spec fn after(self, event: OutputEvent) -> OutputDraft {
        match event {
            OutputEvent::Geometry { x, y } => OutputDraft { geometry_pos: (x, y), ..self },
            OutputEvent::Mode { current, width, height } => if current || self.mode_size is None {
                OutputDraft { mode_size: Some(size_of_event(width, height)), ..self }
            } else {
                self
            },
            OutputEvent::Scale { factor } => OutputDraft {
                scale: if factor > 1 {
                    factor as u32
                } else {
                    1
                },
                ..self
            },
            OutputEvent::Name { name } => OutputDraft { wl_name: Some(name), ..self },
            OutputEvent::LogicalPosition { x, y } => OutputDraft { xdg_pos: Some((x, y)), ..self },
            OutputEvent::LogicalSize { width, height } => OutputDraft {
                xdg_size: Some(size_of_event(width, height)),
                ..self
            },
            OutputEvent::LogicalName { name } => OutputDraft { xdg_name: Some(name), ..self },
            OutputEvent::Other => self,
        }
    }

    /// Take an event in.
    pub fn apply(&mut self, event: OutputEvent)
        ensures
            *final(self) == old(self).after(event),
    {
        match event {
            OutputEvent::Geometry { x, y } => {
                self.geometry_pos = (x, y);
            },
            OutputEvent::Mode { current, width, height } => {
                if current || self.mode_size.is_none() {
                    self.mode_size = Some(event_size(width, height));
                }
            },
            OutputEvent::Scale { factor } => {
                self.scale = if factor > 1 {
                    factor as u32
                } else {
                    1
                };
            },
            OutputEvent::Name { name } => {
                self.wl_name = Some(name);
            },
            OutputEvent::LogicalPosition { x, y } => {
                self.xdg_pos = Some((x, y));
            },
            OutputEvent::LogicalSize { width, height } => {
                self.xdg_size = Some(event_size(width, height));
            },
            OutputEvent::LogicalName { name } => {
                self.xdg_name = Some(name);
            },
            OutputEvent::Other => {},
        }
    }

    /// `scale`, at least 1.
    pub open spec fn real_scale(self) -> u32 {
        if self.scale > 1 {
            self.scale
        } else {
            1
        }
    }

    /// Logical position: the xdg-output's where known.
    pub open spec fn logical_pos(self) -> (i32, i32) {
        match self.xdg_pos {
            Some(p) => p,
            None => self.geometry_pos,
        }
    }

    /// Logical size: the xdg-output's where known, else the mode's divided by
    /// the scale, else nothing.
    pub open spec fn logical_size(self) -> (u32, u32) {
        match self.xdg_size {
            Some(s) => s,
            None => match self.mode_size {
                Some(m) => (
                    (m.0 as int / self.real_scale() as int) as u32,
                    (m.1 as int / self.real_scale() as int) as u32,
                ),
                None => (0, 0),
            },
        }
    }
}

/// Fold a draft into logical position, logical size and scale.
pub fn resolve_geometry(draft: &OutputDraft) -> (r: ((i32, i32), (u32, u32), u32))
    ensures
        r == (draft.logical_pos(), draft.logical_size(), draft.real_scale()),
{
    let scale: u32 = if draft.scale > 1 {
        draft.scale
    } else {
        1
    };
    let size: (u32, u32) = match draft.xdg_size {
        Some(s) => s,
        None => match draft.mode_size {
            Some((w, h)) => {
                proof {
                    assert(0 <= w as int / scale as int <= w) by (nonlinear_arith)
                        requires
                            0 <= w,
                            1 <= scale,
                    ;
                    assert(0 <= h as int / scale as int <= h) by (nonlinear_arith)
                        requires
                            0 <= h,
                            1 <= scale,
                    ;
                }
                (w / scale, h / scale)
            },
            None => (0, 0),
        },
    };
    let pos: (i32, i32) = match draft.xdg_pos {
        Some(p) => p,
        None => draft.geometry_pos,
    };
    (pos, size, scale)
}

/// One output as it was when the connection was made.
pub struct OutputRecord {
    /// Registry name.
    pub global_name: u32,
    pub name: String,
    /// Logical position in compositor space.
    pub logical_pos: (i32, i32),
    pub logical_size: (u32, u32),
    /// Integer output scale (at least 1).
    pub scale: u32,
    /// Current mode size in physical pixels.
    pub mode_size: (u32, u32),
}

/// The monitor rectangle in virtual physical pixels: logical geometry times
/// the scale, positions included.
pub open spec fn scaled_rect(pos: (i32, i32), size: (u32, u32), scale: u32) -> Rect {
    let s = if scale > 1 {
        scale as int
    } else {
        1
    };
    Rect {
        x: sat_i32(pos.0 * s),
        y: sat_i32(pos.1 * s),
        width: sat_u32(size.0 * s),
        height: sat_u32(size.1 * s),
    }
}

fn scale_pos(v: i32, s: u32) -> (r: i32)
    ensures
        r == sat_i32(v * s),
{
    proof {
        assert(-0x8000_0000 * 0xffff_ffff <= v * s <= 0x7fff_ffff * 0xffff_ffff)
            by (nonlinear_arith)
            requires
                -0x8000_0000 <= v <= 0x7fff_ffff,
                0 <= s <= 0xffff_ffff,
        ;
    }
    narrow_i32(v as i64 * s as i64)
}

fn scale_size(v: u32, s: u32) -> (r: u32)
    ensures
        r == sat_u32(v * s),
{
    proof {
        assert(0 <= v * s <= 0xffff_ffff * 0xffff_ffff) by (nonlinear_arith)
            requires
                0 <= v <= 0xffff_ffff,
                0 <= s <= 0xffff_ffff,
        ;
    }
    let p: u64 = v as u64 * s as u64;
    if p > 0xffff_ffff {
        u32::MAX
    } else {
        p as u32
    }
}

/// The monitor rectangle in virtual physical pixels: logical geometry times
/// the scale (at least 1), positions included.
pub fn physical_rect(logical_pos: (i32, i32), logical_size: (u32, u32), scale: u32) -> (r: Rect)
    ensures
        r == scaled_rect(logical_pos, logical_size, scale),
{
    let s: u32 = if scale > 1 {
        scale
    } else {
        1
    };
    Rect {
        x: scale_pos(logical_pos.0, s),
        y: scale_pos(logical_pos.1, s),
        width: scale_size(logical_size.0, s),
        height: scale_size(logical_size.1, s),
    }
}

impl OutputRecord {
    /// Dots per inch: 96 times the scale.
    pub open spec fn dpi(self) -> u32 {
        sat_u32(
            96 * (if self.scale > 1 {
                self.scale as int
            } else {
                1
            }),
        )
    }

    /// The monitor's description: rectangle in virtual physical pixels, 96 DPI
    /// per unit of scale, never primary.
    pub fn monitor_info(&self) -> (r: MonitorInfo)
        ensures
            r.rect == scaled_rect(self.logical_pos, self.logical_size, self.scale),
            r.dpi_x == self.dpi(),
            r.dpi_y == self.dpi(),
            !r.is_primary,
            r.device_name@ == self.name@,
    {
        let scale: u32 = if self.scale > 1 {
            self.scale
        } else {
            1
        };
        let dpi: u32 = scale_size(96, scale);
        MonitorInfo {
            rect: physical_rect(self.logical_pos, self.logical_size, scale),
            dpi_x: dpi,
            dpi_y: dpi,
            is_primary: false,
            device_name: self.name.clone(),
        }
    }
}

/// Name of an output: the xdg-output's, else the output's own, else one made
/// from its registry name.
pub open spec fn display_name(draft: OutputDraft, global_name: u32) -> Seq<char> {
    match draft.xdg_name {
        Some(n) => n@,
        None => match draft.wl_name {
            Some(n) => n@,
            None => "output-"@ + decimal(global_name as nat),
        },
    }
}

/// `record` is the snapshot of an output's draft.
pub open spec fn snapshot_of(global_name: u32, draft: OutputDraft, record: OutputRecord) -> bool {
    &&& record.global_name == global_name
    &&& record.name@ == display_name(draft, global_name)
    &&& record.logical_pos == draft.logical_pos()
    &&& record.logical_size == draft.logical_size()
    &&& record.scale == draft.real_scale()
    &&& record.mode_size == (match draft.mode_size {
        Some(m) => m,
        None => (0u32, 0u32),
    })
}

/// The first output, from `i` on, without a usable size.
pub open spec fn first_unusable(outputs: Seq<(u32, OutputDraft)>, i: int) -> Option<u32>
    decreases outputs.len() - i,
{
    if i >= outputs.len() {
        None
    } else if outputs[i].1.logical_size().0 == 0 || outputs[i].1.logical_size().1 == 0 {
        Some(outputs[i].0)
    } else {
        first_unusable(outputs, i + 1)
    }
}

/// A connection's outputs, as they were when it was made.
pub struct Shell {
    pub outputs: Vec<OutputRecord>,
}

impl Shell {
    /// The output snapshot of a connection from the drafts of the bound outputs,
    /// in binding order. Every output needs a usable size, and there must be one.
    pub fn connect(outputs: &[(u32, OutputDraft)]) -> (r: Result<Shell, ConnectError>)
        ensures
            match r {
                Ok(shell) => {
                    &&& outputs@.len() > 0
                    &&& first_unusable(outputs@, 0) is None
                    &&& shell.outputs@.len() == outputs@.len()
                    &&& forall|i: int|
                        0 <= i < outputs@.len() ==> snapshot_of(
                            outputs@[i].0,
                            outputs@[i].1,
                            #[trigger] shell.outputs@[i],
                        )
                },
                Err(e) => match first_unusable(outputs@, 0) {
                    Some(name) => e == ConnectError::NoUsableSize(name),
                    None => e == ConnectError::NoOutputs && outputs@.len() == 0,
                },
            },
    {
        let mut records: Vec<OutputRecord> = Vec::new();
        let mut i: usize = 0;
        while i < outputs.len()
            invariant
                i <= outputs@.len(),
                records@.len() == i,
                first_unusable(outputs@, 0) == first_unusable(outputs@, i as int),
                forall|k: int|
                    0 <= k < i ==> snapshot_of(outputs@[k].0, outputs@[k].1, #[trigger] records@[k]),
            decreases outputs@.len() - i,
        {
            let global_name: u32 = outputs[i].0;
            let draft: &OutputDraft = &outputs[i].1;
            let (logical_pos, logical_size, scale): ((i32, i32), (u32, u32), u32) = resolve_geometry(
                draft,
            );
            if logical_size.0 == 0 || logical_size.1 == 0 {
                return Err(ConnectError::NoUsableSize(global_name));
            }
            let mode_size: (u32, u32) = match draft.mode_size {
                Some(m) => m,
                None => (0, 0),
            };
            let name: String = match &draft.xdg_name {
                Some(n) => n.clone(),
                None => match &draft.wl_name {
                    Some(n) => n.clone(),
                    None => {
                        let mut made: String = "output-".to_owned();
                        push_decimal(&mut made, global_name as u64);
                        made
                    },
                },
            };
            records.push(
                OutputRecord { global_name, name, logical_pos, logical_size, scale, mode_size },
            );
            i += 1;
        }
        if records.len() == 0 {
            return Err(ConnectError::NoOutputs);
        }
        Ok(Shell { outputs: records })
    }

    /// The output overlay `monitor_index` belongs on, or the message when there
    /// is none.
    pub fn output(&self, monitor_index: usize) -> (r: Result<&OutputRecord, String>)
        ensures
            match r {
                Ok(o) => monitor_index < self.outputs@.len() && *o == self.outputs@[monitor_index as int],
                Err(m) => {
                    &&& monitor_index >= self.outputs@.len()
                    &&& m@ == "monitor index "@ + decimal(monitor_index as nat)
                        + " out of range ("@ + decimal(self.outputs@.len()) + " outputs)"@
                },
            },
    {
        if monitor_index < self.outputs.len() {
            return Ok(&self.outputs[monitor_index]);
        }
        let mut message: String = "monitor index ".to_owned();
        push_decimal(&mut message, monitor_index as u64);
        push_text(&mut message, " out of range (");
        push_decimal(&mut message, self.outputs.len() as u64);
        push_text(&mut message, " outputs)");
        Err(message)
    }

    /// Every monitor's description, in output order.
    pub fn make_capturer(&self) -> (r: Vec<MonitorInfo>)
        ensures
            r@.len() == self.outputs@.len(),
            forall|i: int|
                0 <= i < r@.len() ==> {
                    let o = self.outputs@[i];
                    &&& (#[trigger] r@[i]).rect == scaled_rect(
                        o.logical_pos,
                        o.logical_size,
                        o.scale,
                    )
                    &&& r@[i].dpi_x == o.dpi()
                    &&& r@[i].dpi_y == o.dpi()
                    &&& r@[i].device_name@ == o.name@
                    &&& !r@[i].is_primary
                },
    {
        let mut out: Vec<MonitorInfo> = Vec::new();
        let mut i: usize = 0;
        while i < self.outputs.len()
            invariant
                i <= self.outputs@.len(),
                out@.len() == i,
                forall|k: int|
                    0 <= k < i ==> {
                        let o = self.outputs@[k];
                        &&& (#[trigger] out@[k]).rect == scaled_rect(
                            o.logical_pos,
                            o.logical_size,
                            o.scale,
                        )
                        &&& out@[k].dpi_x == o.dpi()
                        &&& out@[k].dpi_y == o.dpi()
                        &&& out@[k].device_name@ == o.name@
                        &&& !out@[k].is_primary
                    },
            decreases self.outputs@.len() - i,
        {
            out.push(self.outputs[i].monitor_info());
            i += 1;
        }
        out
    }
}

/// When no output is unusable, every output has a size on both axes.
pub proof fn lemma_monitors_are_not_empty(outputs: Seq<(u32, OutputDraft)>, i: int, k: int)
    requires
        0 <= i <= k < outputs.len(),
        first_unusable(outputs, i) is None,
    ensures
        outputs[k].1.logical_size().0 > 0,
        outputs[k].1.logical_size().1 > 0,
    decreases outputs.len() - i,
{
    if i < k {
        lemma_monitors_are_not_empty(outputs, i + 1, k);
    }
}

/// Without scaling, a monitor's rectangle is its logical geometry.
pub proof fn lemma_unscaled_is_logical(pos: (i32, i32), size: (u32, u32))
    ensures
        scaled_rect(pos, size, 1) == (Rect { x: pos.0, y: pos.1, width: size.0, height: size.1 }),
        scaled_rect(pos, size, 0) == scaled_rect(pos, size, 1),
{
}

/// The lock file in the runtime directory.
pub fn lock_path(runtime_dir: &str) -> (r: String)
    ensures
        r@ == joined(runtime_dir@, LOCK_FILE_NAME@),
{
    join_path(runtime_dir, LOCK_FILE_NAME)
}

/// The lock file to take; `None` when the runtime directory is unset or empty.
pub fn acquire_instance_lock(runtime_dir: Option<&str>) -> (r: Option<String>)
    ensures
        match (runtime_dir, r) {
            (Some(dir), Some(path)) => dir@.len() > 0 && path@ == joined(dir@, LOCK_FILE_NAME@),
            (Some(dir), None) => dir@.len() == 0,
            (None, None) => true,
            _ => false,
        },
{
    match runtime_dir {
        Some(dir) => {
            if dir.is_empty() {
                None
            } else {
                Some(lock_path(dir))
            }
        },
        None => None,
    }
}

/// What to do about keyboard focus after a freeze.
#[derive(Clone, Copy, PartialEq, Eq, Structural, Debug)]
pub enum FocusStep {
    /// An overlay has the focus, or there is none to have it.
    Nothing,
    /// Ask for click-to-focus on every overlay.
    OnDemand,
    /// Tell the user that keys will not reach the overlay.
    Warn,
}

/// Layer-shell version from which on-demand keyboard focus exists.
pub const ON_DEMAND_VERSION: u32 = 4;

/// Decide the focus fallback: `focused[i]` tells whether overlay `i` got the
/// keyboard focus, `version` is the bound layer-shell version.
pub fn ensure_keyboard_focus(focused: &[bool], version: u32) -> (r: FocusStep)
    ensures
        r == (if focused@.len() == 0 || focused@.contains(true) {
            FocusStep::Nothing
        } else if version >= ON_DEMAND_VERSION {
            FocusStep::OnDemand
        } else {
            FocusStep::Warn
        }),
{
    let mut i: usize = 0;
    while i < focused.len()
        invariant
            i <= focused@.len(),
            forall|k: int| 0 <= k < i ==> !focused@[k],
        decreases focused@.len() - i,
    {
        if focused[i] {
            proof {
                assert(focused@[i as int] == true);
            }
            return FocusStep::Nothing;
        }
        i += 1;
    }
    if focused.len() == 0 {
        FocusStep::Nothing
    } else if version >= ON_DEMAND_VERSION {
        FocusStep::OnDemand
    } else {
        FocusStep::Warn
    }
}

/// How waiting for the compositor goes on.
#[derive(Clone, Copy, PartialEq, Eq, Structural, Debug)]
pub enum PumpStep {
    /// What was waited for has come.
    Done,
    /// Make another round trip.
    RoundTrip,
    /// The compositor did not answer.
    GiveUp,
}

/// Round trips to make at most.
pub const MAX_ROUNDTRIPS: u32 = 10;

/// Decide whether to wait on after `made` round trips.
pub fn pump_until(done: bool, made: u32) -> (r: PumpStep)
    ensures
        r == (if done {
            PumpStep::Done
        } else if made < MAX_ROUNDTRIPS {
            PumpStep::RoundTrip
        } else {
            PumpStep::GiveUp
        }),
{
    if done {
        PumpStep::Done
    } else if made < MAX_ROUNDTRIPS {
        PumpStep::RoundTrip
    } else {
        PumpStep::GiveUp
    }
}

} // verus!
