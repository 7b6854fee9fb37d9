//! The scene rendering subsystem: projects world-space sprites and text
//! through the camera onto screen-space rectangles and issues draw
//! commands. Purely a projection and draw step — no interaction, no layout.

use vstd::prelude::*;
use crate::events::EventQueue;
use crate::geometry::PixelPoint;
use crate::geometry::PixelRect;
use crate::geometry::PixelSize;
use crate::geometry::WorldDim;
use crate::geometry::WorldVec;
use crate::input::InputEventQueue;
use crate::input::Key;
use crate::input::KeysRes;
use crate::layout::LayoutError;
use crate::layout::RenderCmd;
use crate::layout::RenderCmdView;
use crate::layout::UIEvent;
use crate::layout::UiElement;
use crate::layout::cmd_views;
use crate::layout::elem_views;
use crate::layout::event_views;
use crate::layout::run_ui_frame;
use crate::layout::ui_run;
use crate::world::World;

verus! {

/// The camera: world-space position of the view centre, zoom as the exact
/// rational `zoom_num / zoom_den` (pixels per world unit), and the screen
/// extent in pixels.
#[derive(Clone, Copy, Debug, PartialEq, Eq, Structural)]
pub struct CameraRes {
    pub pos: WorldVec,
    pub zoom_num: u32,
    pub zoom_den: u32,
    pub screen: PixelSize,
}

impl CameraRes {
    pub fn new(pos: WorldVec, zoom_num: u32, zoom_den: u32, screen: PixelSize) -> (r: CameraRes)
        ensures
            r == (CameraRes { pos, zoom_num, zoom_den, screen }),
    {
        CameraRes { pos, zoom_num, zoom_den, screen }
    }
}

impl Default for CameraRes {
    /// Camera at the origin, zoom one, a 800 by 600 screen.
    fn default() -> (r: CameraRes)
        ensures
            r == (CameraRes {
                pos: WorldVec { x: 0, y: 0 },
                zoom_num: 1,
                zoom_den: 1,
                screen: PixelSize { w: 800, h: 600 },
            }),
    {
        CameraRes {
            pos: WorldVec { x: 0, y: 0 },
            zoom_num: 1,
            zoom_den: 1,
            screen: PixelSize { w: 800, h: 600 },
        }
    }
}

/// A world-space sprite attached to an entity.
pub struct SpriteCom {
    pub name: String,
    pub dim: WorldDim,
}

/// Mathematical image of a sprite component.
pub ghost struct SpriteComView {
    pub name: Seq<char>,
    pub dim: WorldDim,
}

impl View for SpriteCom {
    type V = SpriteComView;

    open spec fn view(&self) -> SpriteComView {
        SpriteComView { name: self.name@, dim: self.dim }
    }
}

impl SpriteCom {
    pub fn new(name: &str, dim: WorldDim) -> (r: SpriteCom)
        ensures
            r.name@ == name@,
            r.dim == dim,
    {
        SpriteCom { name: name.to_owned(), dim }
    }

    /// Copy the component.
    pub fn duplicate(&self) -> (r: SpriteCom)
        ensures
            r@ == self@,
    {
        SpriteCom { name: self.name.clone(), dim: self.dim }
    }
}

/// World-space text attached to an entity.
pub struct TextCom {
    pub text: String,
    pub font: String,
    pub dim: WorldDim,
}

/// Mathematical image of a text component.
pub ghost struct TextComView {
    pub text: Seq<char>,
    pub font: Seq<char>,
    pub dim: WorldDim,
}

impl View for TextCom {
    type V = TextComView;

    open spec fn view(&self) -> TextComView {
        TextComView { text: self.text@, font: self.font@, dim: self.dim }
    }
}

impl TextCom {
    pub fn new(text: &str, font: &str, dim: WorldDim) -> (r: TextCom)
        ensures
            r.text@ == text@,
            r.font@ == font@,
            r.dim == dim,
    {
        TextCom { text: text.to_owned(), font: font.to_owned(), dim }
    }

    /// Copy the component.
    pub fn duplicate(&self) -> (r: TextCom)
        ensures
            r@ == self@,
    {
        TextCom { text: self.text.clone(), font: self.font.clone(), dim: self.dim }
    }
}

/// Scale a signed world distance by the rational zoom, rounding the
/// magnitude down (truncating division).
pub open spec fn scaled(v: int, num: nat, den: nat) -> int
    recommends
        den > 0,
{
    if v >= 0 {
        v * num / den as int
    } else {
        -((-v) * num / den as int)
    }
}

/// The projected screen x of a world x: camera-relative offset scaled by
/// the zoom, from the screen centre.
pub open spec fn project_x(cam: CameraRes, wx: int) -> int {
    scaled(wx - cam.pos.x, cam.zoom_num as nat, cam.zoom_den as nat) + cam.screen.w as int / 2
}

/// The projected screen y of a world y.
pub open spec fn project_y(cam: CameraRes, wy: int) -> int {
    scaled(wy - cam.pos.y, cam.zoom_num as nat, cam.zoom_den as nat) + cam.screen.h as int / 2
}

/// A world extent scaled to pixels.
pub open spec fn project_len(cam: CameraRes, l: nat) -> int {
    (l * (cam.zoom_num as nat)) as int / cam.zoom_den as int
}

/// The projection of this position and extent fits the pixel ranges.
pub open spec fn project_ok(cam: CameraRes, pos: WorldVec, dim: WorldDim) -> bool {
    &&& cam.zoom_den != 0
    &&& i32::MIN <= project_x(cam, pos.x as int) <= i32::MAX
    &&& i32::MIN <= project_y(cam, pos.y as int) <= i32::MAX
    &&& project_len(cam, dim.w as nat) <= u32::MAX
    &&& project_len(cam, dim.h as nat) <= u32::MAX
}

/// The projected screen rectangle. Meaningful when `project_ok` holds.
pub open spec fn project_rect(cam: CameraRes, pos: WorldVec, dim: WorldDim) -> PixelRect
    recommends
        project_ok(cam, pos, dim),
{
    PixelRect {
        pos: PixelPoint {
            x: project_x(cam, pos.x as int) as i32,
            y: project_y(cam, pos.y as int) as i32,
        },
        size: PixelSize {
            w: project_len(cam, dim.w as nat) as u32,
            h: project_len(cam, dim.h as nat) as u32,
        },
    }
}

/// Project one world-space rectangle through the camera, or report that it
/// leaves the representable pixel ranges.
pub fn project(cam: &CameraRes, pos: WorldVec, dim: WorldDim) -> (r: Option<PixelRect>)
    ensures
        r is Some <==> project_ok(*cam, pos, dim),
        r is Some ==> r->0 == project_rect(*cam, pos, dim),
{
    if cam.zoom_den == 0 {
        return None;
    }
    let dx: i128 = pos.x as i128 - cam.pos.x as i128;
    let dy: i128 = pos.y as i128 - cam.pos.y as i128;
    proof {
        assert(dx * (cam.zoom_num as int) <= 0xffff_ffff_ffff_ffff_ffff_ffff_ffffint && dx * (
        cam.zoom_num as int) >= -0xffff_ffff_ffff_ffff_ffff_ffff_ffffint && (-dx) * (
        cam.zoom_num as int) <= 0xffff_ffff_ffff_ffff_ffff_ffff_ffffint && (-dx) * (
        cam.zoom_num as int) >= -0xffff_ffff_ffff_ffff_ffff_ffff_ffffint) by (nonlinear_arith)
            requires
                -0x1_0000_0000_0000_0000 <= dx <= 0x1_0000_0000_0000_0000,
                0 <= cam.zoom_num as int <= 0xffff_ffff,
        ;
        assert(dy * (cam.zoom_num as int) <= 0xffff_ffff_ffff_ffff_ffff_ffff_ffffint && dy * (
        cam.zoom_num as int) >= -0xffff_ffff_ffff_ffff_ffff_ffff_ffffint && (-dy) * (
        cam.zoom_num as int) <= 0xffff_ffff_ffff_ffff_ffff_ffff_ffffint && (-dy) * (
        cam.zoom_num as int) >= -0xffff_ffff_ffff_ffff_ffff_ffff_ffffint) by (nonlinear_arith)
            requires
                -0x1_0000_0000_0000_0000 <= dy <= 0x1_0000_0000_0000_0000,
                0 <= cam.zoom_num as int <= 0xffff_ffff,
        ;
    }
    let sx: i128 = if dx >= 0 {
        dx * (cam.zoom_num as i128) / (cam.zoom_den as i128)
    } else {
        -((-dx) * (cam.zoom_num as i128) / (cam.zoom_den as i128))
    } + (cam.screen.w / 2) as i128;
    let sy: i128 = if dy >= 0 {
        dy * (cam.zoom_num as i128) / (cam.zoom_den as i128)
    } else {
        -((-dy) * (cam.zoom_num as i128) / (cam.zoom_den as i128))
    } + (cam.screen.h / 2) as i128;
    proof {
        assert((dim.w as int) * (cam.zoom_num as int) <= 0xffff_ffff_ffff_ffff_ffff_ffffint)
            by (nonlinear_arith)
            requires
                0 <= dim.w as int <= 0xffff_ffff_ffff_ffff,
                0 <= cam.zoom_num as int <= 0xffff_ffff,
        ;
        assert((dim.h as int) * (cam.zoom_num as int) <= 0xffff_ffff_ffff_ffff_ffff_ffffint)
            by (nonlinear_arith)
            requires
                0 <= dim.h as int <= 0xffff_ffff_ffff_ffff,
                0 <= cam.zoom_num as int <= 0xffff_ffff,
        ;
    }
    let w: u128 = (dim.w as u128) * (cam.zoom_num as u128) / (cam.zoom_den as u128);
    let h: u128 = (dim.h as u128) * (cam.zoom_num as u128) / (cam.zoom_den as u128);
    if sx < i32::MIN as i128 || sx > i32::MAX as i128 || sy < i32::MIN as i128 || sy > i32::MAX as i128
        || w > u32::MAX as u128 || h > u32::MAX as u128 {
        return None;
    }
    Some(
        PixelRect {
            pos: PixelPoint { x: sx as i32, y: sy as i32 },
            size: PixelSize { w: w as u32, h: h as u32 },
        },
    )
}


/// The sprite draw commands of the first `n` slots: one per entity that
/// carries both a transform and a sprite and projects into range.
pub open spec fn sprite_cmds(w: World, cam: CameraRes, n: int) -> Seq<RenderCmdView>
    decreases n,
{
    if n <= 0 {
        Seq::<RenderCmdView>::empty()
    } else {
        let rest = sprite_cmds(w, cam, n - 1);
        match (w.transforms@[n - 1], w.sprites@[n - 1]) {
            (Some(t), Some(s)) => if project_ok(cam, t.pos, s.dim) {
                rest.push(
                    RenderCmdView::Sprite { key: s.name@, rect: project_rect(cam, t.pos, s.dim) },
                )
            } else {
                rest
            },
            _ => rest,
        }
    }
}

/// The text draw commands of the first `n` slots, likewise.
pub open spec fn text_cmds(w: World, cam: CameraRes, n: int) -> Seq<RenderCmdView>
    decreases n,
{
    if n <= 0 {
        Seq::<RenderCmdView>::empty()
    } else {
        let rest = text_cmds(w, cam, n - 1);
        match (w.transforms@[n - 1], w.texts@[n - 1]) {
            (Some(t), Some(s)) => if project_ok(cam, t.pos, s.dim) {
                rest.push(
                    RenderCmdView::Text {
                        text: s.text@,
                        font: s.font@,
                        rect: project_rect(cam, t.pos, s.dim),
                    },
                )
            } else {
                rest
            },
            _ => rest,
        }
    }
}

/// Draw the world scene: for every entity carrying both a transform and a
/// sprite, a sprite draw at its projected rectangle, then the same for
/// world text. An entity whose projection leaves the pixel range is
/// skipped.
pub fn scene_render(w: &World, cam: &CameraRes) -> (r: Vec<RenderCmd>)
    requires
        w.wf(),
    ensures
        cmd_views(r@) == sprite_cmds(*w, *cam, w.slots@.len() as int) + text_cmds(
            *w,
            *cam,
            w.slots@.len() as int,
        ),
{
    let mut out: Vec<RenderCmd> = Vec::new();
    let n = w.num_slots();
    proof {
        assert(cmd_views(out@) =~= sprite_cmds(*w, *cam, 0));
    }
    let mut x: usize = 0;
    while x < n
        invariant
            w.wf(),
            n == w.slots@.len(),
            x <= n,
            cmd_views(out@) == sprite_cmds(*w, *cam, x as int),
        decreases n - x,
    {
        match (&w.transforms[x], &w.sprites[x]) {
            (Some(t), Some(s)) => {
                match project(cam, t.pos, s.dim) {
                    Some(rect) => {
                        out.push(RenderCmd::Sprite { key: s.name.clone(), rect });
                        proof {
                            assert(cmd_views(out@) =~= sprite_cmds(*w, *cam, x as int + 1));
                        }
                    },
                    None => {},
                }
            },
            _ => {},
        }
        x += 1;
    }
    let ghost scene_part = sprite_cmds(*w, *cam, n as int);
    proof {
        assert(cmd_views(out@) + text_cmds(*w, *cam, 0) =~= cmd_views(out@));
    }
    let mut x: usize = 0;
    while x < n
        invariant
            w.wf(),
            n == w.slots@.len(),
            x <= n,
            scene_part == sprite_cmds(*w, *cam, n as int),
            cmd_views(out@) == scene_part + text_cmds(*w, *cam, x as int),
        decreases n - x,
    {
        match (&w.transforms[x], &w.texts[x]) {
            (Some(t), Some(s)) => {
                match project(cam, t.pos, s.dim) {
                    Some(rect) => {
                        out.push(
                            RenderCmd::Text { text: s.text.clone(), font: s.font.clone(), rect },
                        );
                        proof {
                            assert((scene_part + text_cmds(*w, *cam, x as int)).push(
                                out@[out@.len() - 1]@,
                            ) =~= scene_part + text_cmds(*w, *cam, x as int + 1));
                            assert(cmd_views(out@) =~= (scene_part + text_cmds(
                                *w,
                                *cam,
                                x as int,
                            )).push(out@[out@.len() - 1]@));
                        }
                    },
                    None => {},
                }
            },
            _ => {},
        }
        x += 1;
    }
    out
}

/// The UI event queue resource, filled by the render system's pass and
/// drained by downstream consumers.
pub type UIEventQueue = EventQueue<UIEvent>;

/// One whole render-system run: the scene's sprite and text draws, then
/// the UI engine pass over the document. The UI event queue is cleared
/// unconditionally at the start of the run and then holds exactly this
/// frame's synthesized events; the returned draw commands are the scene's
/// followed by the UI's, in issue order, ready for the backend bracketed
/// between its begin-frame and end-frame calls.
pub fn render_system_run(
    w: &World,
    cam: &CameraRes,
    doc: &mut Vec<UiElement>,
    input: &InputEventQueue,
    keys: &KeysRes,
    ui_events: &mut UIEventQueue,
) -> (r: Result<Vec<RenderCmd>, LayoutError>)
    requires
        w.wf(),
    ensures
        ({
            let run = ui_run(
                elem_views(old(doc)@),
                cam.screen,
                input@,
                keys@.contains(Key::Shift),
            );
            &&& elem_views(final(doc)@) == run.0.elems
            &&& match r {
                Ok(cmds) => run.1 is None && cmd_views(cmds@) == sprite_cmds(
                    *w,
                    *cam,
                    w.slots@.len() as int,
                ) + text_cmds(*w, *cam, w.slots@.len() as int) + run.0.cmds && event_views(
                    final(ui_events)@,
                ) == run.0.events,
                Err(e) => run.1 == Some(e) && final(ui_events)@ == Seq::<UIEvent>::empty(),
            }
        }),
{
    ui_events.clear();
    let mut cmds = scene_render(w, cam);
    let entries = input.entries();
    match run_ui_frame(doc, cam.screen, entries, keys) {
        Ok(mut out) => {
            cmds.append(&mut out.commands);
            ui_events.replace(out.events);
            Ok(cmds)
        },
        Err(e) => Err(e),
    }
}

} // verus!
