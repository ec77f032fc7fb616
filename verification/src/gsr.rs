//! GoldSrc engine State Recording: the console commands that start and
//! stop a recording, and the decision, each frame, of what the recording
//! does with it.

use vstd::prelude::*;
use vstd::utf8::encode_utf8;
use crate::c_str::{c_str_bytes, c_str_to_bytes, has_nul};
use crate::recorder::{decal_cache_map, fresh_recorder, frame_step, header_bytes, FrameSnapshot, Recorder};
use crate::message::frame_bytes;

verus! {

/// The module.
pub struct GSR;

/// Which of the engine functions and variables the module needs were found,
/// and whether the console commands work.
#[derive(Clone, Copy, Debug)]
pub struct GsrEngine {
    pub commands: bool,
    pub r_load_skys: bool,
    pub movevars: bool,
    pub r_draw_t_entities_on_list: bool,
    pub num_trans_objs: bool,
    pub r_render_view: bool,
    pub cls: bool,
    pub cl: bool,
    pub draw_decal_count: bool,
    pub decal_names: bool,
    pub draw_decal_index: bool,
    pub mod_numknown: bool,
    pub mod_known: bool,
    pub r_refdef_vieworg: bool,
    pub r_refdef_viewangles: bool,
    pub scr_fov_value: bool,
    pub cl_numvisedicts: bool,
    pub cl_visedicts: bool,
    pub trans_objects: bool,
    pub gp_active_beams: bool,
    pub cl_numbeamentities: bool,
    pub cl_beamentities: bool,
    pub g_decal_pool: bool,
    pub cl_lightstyle: bool,
    pub cl_disconnect: bool,
}

impl GsrEngine {
    /// The console commands work and every engine item the module needs
    /// was found.
    pub open spec fn all_found(self) -> bool {
        &&& self.commands
        &&& self.r_load_skys
        &&& self.movevars
        &&& self.r_draw_t_entities_on_list
        &&& self.num_trans_objs
        &&& self.r_render_view
        &&& self.cls
        &&& self.cl
        &&& self.draw_decal_count
        &&& self.decal_names
        &&& self.draw_decal_index
        &&& self.mod_numknown
        &&& self.mod_known
        &&& self.r_refdef_vieworg
        &&& self.r_refdef_viewangles
        &&& self.scr_fov_value
        &&& self.cl_numvisedicts
        &&& self.cl_visedicts
        &&& self.trans_objects
        &&& self.gp_active_beams
        &&& self.cl_numbeamentities
        &&& self.cl_beamentities
        &&& self.g_decal_pool
        &&& self.cl_lightstyle
        &&& self.cl_disconnect
    }
}

impl GSR {
    /// The module's name.
    pub fn name(&self) -> (r: &'static str)
        ensures
            r@ == "GoldSrc engine State Recording"@,
    {
        "GoldSrc engine State Recording"
    }

    /// What the module does, in one line.
    pub fn description(&self) -> (r: &'static str)
        ensures
            r@ == "Records the state of the engine every frame"@,
    {
        "Records the state of the engine every frame"
    }

    /// The module works when the console commands work and every engine
    /// item it needs was found.
    pub fn is_enabled(&self, engine: &GsrEngine) -> (r: bool)
        ensures
            r == engine.all_found(),
    {
        engine.commands && engine.r_load_skys && engine.movevars && engine.r_draw_t_entities_on_list
            && engine.num_trans_objs && engine.r_render_view && engine.cls && engine.cl
            && engine.draw_decal_count && engine.decal_names && engine.draw_decal_index
            && engine.mod_numknown && engine.mod_known && engine.r_refdef_vieworg
            && engine.r_refdef_viewangles && engine.scr_fov_value && engine.cl_numvisedicts
            && engine.cl_visedicts && engine.trans_objects && engine.gp_active_beams
            && engine.cl_numbeamentities && engine.cl_beamentities && engine.g_decal_pool
            && engine.cl_lightstyle && engine.cl_disconnect
    }
}

/// Where the recording is.
pub enum State {
    /// Not recording.
    Idle,
    /// A recording to this file was asked for; it starts with the next
    /// frame the client is active in.
    Starting(String),
    /// Recording.
    Recording(Recorder),
}

/// What the module keeps between engine calls.
pub struct GsrState {
    pub state: State,
    /// The name of the current sky, without its NUL, once the engine loaded
    /// one.
    pub skyname: Option<Vec<u8>>,
    /// The number of translucent objects of the frame being drawn.
    pub trans_obj_count: i32,
}

impl GsrState {
    /// The state before any engine call: idle, no sky name, no translucent
    /// object.
    pub fn new() -> (r: GsrState)
        ensures
            r.state is Idle,
            r.skyname is None,
            r.trans_obj_count == 0,
            r.wf(),
    {
        GsrState { state: State::Idle, skyname: None, trans_obj_count: 0 }
    }

    /// A recording asked for names a file ending with ".gsr", and a
    /// recorder in use is well formed.
    pub open spec fn wf(self) -> bool {
        match self.state {
            State::Starting(name) => has_gsr_extension(name@),
            State::Recording(r) => r@.wf(),
            State::Idle => true,
        }
    }
}

/// How a request to start a recording ended.
#[derive(PartialEq, Eq, Structural, Debug, Clone, Copy)]
pub enum StartOutcome {
    /// The module is not enabled: nothing happened.
    Disabled,
    /// The file name does not end with ".gsr": nothing happened.
    BadFilename,
    /// A recording is already starting or under way: nothing happened.
    AlreadyActive,
    /// The recording starts with the next active frame.
    Started,
}

/// The bytes of ".gsr".
pub open spec fn gsr_extension() -> Seq<u8> {
    seq![46u8, 103u8, 115u8, 114u8]
}

/// The UTF-8 encoding of `name` ends with ".gsr".
pub open spec fn has_gsr_extension(name: Seq<char>) -> bool {
    let b = encode_utf8(name);
    b.len() >= 4 && b.subrange(b.len() - 4, b.len() as int) == gsr_extension()
}

/// How a request to start recording to a file named `filename` ends.
pub open spec fn start_outcome(state: State, enabled: bool, filename: Seq<char>) -> StartOutcome {
    if !enabled {
        StartOutcome::Disabled
    } else if !has_gsr_extension(filename) {
        StartOutcome::BadFilename
    } else if !(state is Idle) {
        StartOutcome::AlreadyActive
    } else {
        StartOutcome::Started
    }
}

/// Whether `filename` ends with ".gsr".
fn ends_with_gsr(filename: &String) -> (r: bool)
    ensures
        r == has_gsr_extension(filename@),
{
    let bytes = filename.as_str().as_bytes();
    let n = bytes.len();
    if n < 4 {
        return false;
    }
    let r = bytes[n - 4] == 46u8 && bytes[n - 3] == 103u8 && bytes[n - 2] == 115u8 && bytes[n - 1] == 114u8;
    let ghost tail = bytes@.subrange(n - 4, n as int);
    assert(r == (tail =~= gsr_extension()));
    r
}

/// `bxt_gsr_start filename`: asks for a recording to `filename`, which
/// starts with the next frame the client is active in. Only a name ending
/// with ".gsr" is taken, and only when no recording is starting or under
/// way; otherwise nothing changes.
pub fn gsr_start_with_filename(gsr: &mut GsrState, engine: &GsrEngine, filename: String) -> (r: StartOutcome)
    ensures
        r == start_outcome(old(gsr).state, engine.all_found(), filename@),
        r is Started ==> (final(gsr).state matches State::Starting(name) && name@ == filename@),
        !(r is Started) ==> final(gsr).state == old(gsr).state,
        final(gsr).skyname == old(gsr).skyname,
        final(gsr).trans_obj_count == old(gsr).trans_obj_count,
        old(gsr).wf() ==> final(gsr).wf(),
{
    if !GSR.is_enabled(engine) {
        return StartOutcome::Disabled;
    }
    if !ends_with_gsr(&filename) {
        return StartOutcome::BadFilename;
    }
    if !matches!(gsr.state, State::Idle) {
        return StartOutcome::AlreadyActive;
    }
    gsr.state = State::Starting(filename);
    StartOutcome::Started
}

/// `bxt_gsr_start`: asks for a recording to "recording.gsr", the default
/// file name.
pub fn gsr_start(gsr: &mut GsrState, engine: &GsrEngine) -> (r: StartOutcome)
    ensures
        r == start_outcome(old(gsr).state, engine.all_found(), "recording.gsr"@),
        r != StartOutcome::BadFilename,
        r is Started ==> (final(gsr).state matches State::Starting(name) && name@ == "recording.gsr"@),
        !(r is Started) ==> final(gsr).state == old(gsr).state,
        final(gsr).skyname == old(gsr).skyname,
        final(gsr).trans_obj_count == old(gsr).trans_obj_count,
        old(gsr).wf() ==> final(gsr).wf(),
{
    proof {
        reveal_strlit("recording.gsr");
        let chars = "recording.gsr"@;
        assert(vstd::utf8::is_ascii_chars(chars));
        vstd::utf8::is_ascii_chars_encode_utf8(chars);
        let b = encode_utf8(chars);
        assert(b[9] == 46u8 && b[10] == 103u8 && b[11] == 115u8 && b[12] == 114u8);
        assert(b.subrange(9, 13) =~= gsr_extension());
    }
    gsr_start_with_filename(gsr, engine, "recording.gsr".to_owned())
}

/// `bxt_gsr_stop`: ends a recording under way; a recording that is only
/// starting goes on starting. Returns whether a recording ended.
pub fn gsr_stop(gsr: &mut GsrState) -> (stopped: bool)
    ensures
        stopped == (old(gsr).state is Recording),
        stopped ==> final(gsr).state is Idle,
        !stopped ==> final(gsr).state == old(gsr).state,
        final(gsr).skyname == old(gsr).skyname,
        final(gsr).trans_obj_count == old(gsr).trans_obj_count,
        old(gsr).wf() ==> final(gsr).wf(),
{
    if matches!(gsr.state, State::Recording(_)) {
        gsr.state = State::Idle;
        true
    } else {
        false
    }
}

/// The client disconnected: with the module enabled, a recording under way
/// ends.
pub fn on_cl_disconnect(gsr: &mut GsrState, engine: &GsrEngine)
    ensures
        engine.all_found() && old(gsr).state is Recording ==> final(gsr).state is Idle,
        !(engine.all_found() && old(gsr).state is Recording) ==> final(gsr).state == old(gsr).state,
        final(gsr).skyname == old(gsr).skyname,
        final(gsr).trans_obj_count == old(gsr).trans_obj_count,
        old(gsr).wf() ==> final(gsr).wf(),
{
    if !GSR.is_enabled(engine) {
        return;
    }
    gsr_stop(gsr);
}

/// The engine loaded a sky: remembers its name, `sky_name` up to its NUL.
pub fn update_skyname(gsr: &mut GsrState, sky_name: &[i8])
    requires
        has_nul(sky_name@),
    ensures
        final(gsr).skyname matches Some(s) && s@ == c_str_bytes(sky_name@),
        final(gsr).state == old(gsr).state,
        final(gsr).trans_obj_count == old(gsr).trans_obj_count,
{
    gsr.skyname = Some(c_str_to_bytes(sky_name));
}

/// Remembers the number of translucent objects of the frame being drawn.
pub fn save_trans_obj_count(gsr: &mut GsrState, num_trans_objs: i32)
    ensures
        final(gsr).trans_obj_count == num_trans_objs,
        final(gsr).state == old(gsr).state,
        final(gsr).skyname == old(gsr).skyname,
{
    gsr.trans_obj_count = num_trans_objs;
}

/// What a frame does with the recording.
#[derive(PartialEq, Eq, Structural, Debug, Clone, Copy)]
pub enum FrameAction {
    /// Nothing.
    Skip,
    /// The recording asked for starts: its file is created, its header
    /// written, then the frame recorded.
    Start,
    /// The frame is recorded.
    Record,
}

/// What a frame does with the recording: nothing when the module is not
/// enabled, when no recording is asked for or when the client is not
/// active; otherwise it starts the recording asked for, or records.
pub fn frame_action(gsr: &GsrState, engine: &GsrEngine, client_active: bool) -> (r: FrameAction)
    ensures
        r == if !engine.all_found() || gsr.state is Idle || !client_active {
            FrameAction::Skip
        } else if gsr.state is Starting {
            FrameAction::Start
        } else {
            FrameAction::Record
        },
{
    if !GSR.is_enabled(engine) {
        return FrameAction::Skip;
    }
    if matches!(gsr.state, State::Idle) {
        return FrameAction::Skip;
    }
    if !client_active {
        return FrameAction::Skip;
    }
    match gsr.state {
        State::Starting(_) => FrameAction::Start,
        _ => FrameAction::Record,
    }
}

/// The recording could not be started (its file could not be created):
/// nothing is recorded.
pub fn abandon_start(gsr: &mut GsrState)
    ensures
        final(gsr).state is Idle,
        final(gsr).skyname == old(gsr).skyname,
        final(gsr).trans_obj_count == old(gsr).trans_obj_count,
        final(gsr).wf(),
{
    gsr.state = State::Idle;
}

/// Starts the recording asked for: appends its header to `header` and
/// takes a fresh recorder. The map name, the sky name and the decal names
/// and numbers are those `Recorder::init` takes.
pub fn begin_recording(
    gsr: &mut GsrState,
    map_name: &[i8],
    decal_names: &Vec<Vec<i8>>,
    decal_indices: &Vec<i32>,
    header: &mut Vec<u8>,
)
    requires
        old(gsr).state is Starting,
        old(gsr).skyname is Some,
        has_nul(map_name@),
        decal_indices@.len() == decal_names@.len(),
        forall|i: int| 0 <= i < decal_names@.len() ==> has_nul(#[trigger] decal_names@[i]@),
    ensures
        final(header)@ == old(header)@ + header_bytes(
            map_name@,
            old(gsr).skyname->0@,
            decal_names@.map_values(|n: Vec<i8>| n@),
        ),
        final(gsr).state matches State::Recording(r) && fresh_recorder(
            r@,
            decal_cache_map(decal_indices@, decal_indices@.len()),
        ),
        final(gsr).skyname == old(gsr).skyname,
        final(gsr).trans_obj_count == old(gsr).trans_obj_count,
        final(gsr).wf(),
{
    let recorder = match &gsr.skyname {
        Some(skyname) => Recorder::init(map_name, skyname.as_slice(), decal_names, decal_indices, header),
        None => {
            proof {
                assert(false);
            }
            return;
        },
    };
    gsr.state = State::Recording(recorder);
}

/// Whether a recording is under way and can record `frame` (see
/// `Recorder::can_record_frame`).
pub fn can_record(gsr: &GsrState, frame: &FrameSnapshot) -> (r: bool)
    requires
        gsr.wf(),
    ensures
        r == (gsr.state matches State::Recording(rec) && frame_step(rec@, *frame).2),
{
    match &gsr.state {
        State::Recording(recorder) => recorder.can_record_frame(frame),
        _ => false,
    }
}

/// Over any sequence of commands and frames from `GsrState::new`, a
/// recording asked for names a file ending with ".gsr": the new state is
/// well formed and each function keeps it so (see their `ensures`), and a
/// well-formed state that is starting names such a file.
pub proof fn lemma_starting_names_a_gsr_file(gsr: GsrState)
    requires
        gsr.wf(),
    ensures
        gsr.state matches State::Starting(name) ==> has_gsr_extension(name@),
{
}

/// Once a recording is asked for, asking again keeps the first file name:
/// a request made while not idle changes nothing.
pub proof fn lemma_first_name_is_kept(state: State, enabled: bool, filename: Seq<char>)
    requires
        !(state is Idle),
    ensures
        start_outcome(state, enabled, filename) != StartOutcome::Started,
{
}

/// Records a frame of the recording under way, appending it to `writer`.
pub fn record_frame(gsr: &mut GsrState, frame: &FrameSnapshot, writer: &mut Vec<u8>)
    requires
        old(gsr).wf(),
        old(gsr).state matches State::Recording(r) && frame_step(r@, *frame).2,
    ensures
        final(gsr).state matches State::Recording(r) && old(gsr).state matches State::Recording(r0)
            && r@ == frame_step(r0@, *frame).0 && final(writer)@ == old(writer)@ + frame_bytes(
            frame.time,
            frame_step(r0@, *frame).1,
        ),
        final(gsr).skyname == old(gsr).skyname,
        final(gsr).trans_obj_count == old(gsr).trans_obj_count,
        final(gsr).wf(),
{
    match &mut gsr.state {
        State::Recording(recorder) => {
            recorder.record_frame(frame, writer);
        },
        _ => {},
    }
}

} // verus!
