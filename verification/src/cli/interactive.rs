//! The interactive session's menu dialog as a state machine: each answer
//! read from the user moves the session on and yields the text to write
//! and what the caller does next (read the next answer, run a calculation
//! over the chosen bands, or stop).
use crate::app::{self, band_select};
use crate::bands::{self, ITURegion};
use crate::cli;
use crate::text;
use vstd::prelude::*;

verus! {

// ---------------------------------------------------------------------------
// Types
// ---------------------------------------------------------------------------

/// Where the dialog stands: which answer it waits for.
#[derive(Debug, Clone, Copy, PartialEq, Eq, Structural)]
pub enum SessionPhase {
    /// The region prompt; `switching` when it was reached from the menu.
    ChooseRegion { switching: bool },
    /// The main menu.
    Menu,
    /// A band prompt: one band when `quick`, a selection otherwise.
    ChooseBands { quick: bool },
    /// The user left the dialog.
    Finished,
}

/// Facts about the program shown in the banner and under "About".
#[derive(Debug, Clone)]
pub struct ProjectInfo {
    pub version: String,
    pub authors: String,
    pub repository: String,
    pub license: String,
    pub os: String,
    pub arch: String,
}

/// What the caller does after writing a step's text.
#[derive(Debug, Clone)]
pub enum SessionAction {
    /// Read the next answer and hand it to `step`.
    ReadLine,
    /// Ask the calculation parameters, run the calculation over these
    /// 1-based band indices, then call `resume`.
    Calculate { indices: Vec<usize>, quick: bool },
    /// The dialog is over.
    Exit,
}

/// A `SessionAction` with its indices as a sequence.
pub enum ActionView {
    ReadLine,
    Calculate { indices: Seq<usize>, quick: bool },
    Exit,
}

impl View for SessionAction {
    type V = ActionView;

    open spec fn view(&self) -> ActionView {
        match self {
            SessionAction::ReadLine => ActionView::ReadLine,
            SessionAction::Calculate { indices, quick } => ActionView::Calculate {
                indices: indices@,
                quick: *quick,
            },
            SessionAction::Exit => ActionView::Exit,
        }
    }
}

/// The text to write and the next action.
#[derive(Debug, Clone)]
pub struct SessionOutput {
    pub text: String,
    pub action: SessionAction,
}

/// The state of an interactive session.
#[derive(Debug, Clone)]
pub struct InteractiveSession {
    /// The ITU region bands are listed and resolved in.
    pub region: ITURegion,
    /// The last band answer that was accepted, trimmed.
    pub last_bands: Option<String>,
    /// Which answer the dialog waits for.
    pub phase: SessionPhase,
    /// What "About" shows.
    pub info: ProjectInfo,
}

/// The outcome of one step: the session's parts after it, the text and the
/// action.
pub struct StepView {
    pub region: ITURegion,
    pub last_bands: Option<Seq<char>>,
    pub phase: SessionPhase,
    pub text: Seq<char>,
    pub action: ActionView,
}

/// An optional text as a character sequence.
pub open spec fn opt_view(o: Option<String>) -> Option<Seq<char>> {
    match o {
        Some(s) => Some(s@),
        None => None,
    }
}

// ---------------------------------------------------------------------------
// Texts
// ---------------------------------------------------------------------------

/// The banner written when the session starts.
pub open spec fn banner_text(version: Seq<char>) -> Seq<char> {
    "============================================================\n"@ + "Rusty Wire v"@ + version
        + " - Resonant Length and Skip Distance Calculator\n"@
        + "============================================================\n\n"@
}

/// The "About" text.
pub open spec fn info_text(info: ProjectInfo) -> Seq<char> {
    "Project info:\n"@ + "  Version: "@ + info.version@ + "\n"@ + "  Author: "@ + info.authors@
        + "\n"@ + "  GitHub: "@ + info.repository@ + "\n"@ + "  License: "@ + info.license@
        + "\n"@ + "  Platform: "@ + info.os@ + "/"@ + info.arch@ + "\n"@
}

/// The main menu with its prompt.
pub open spec fn menu_text(region: ITURegion) -> Seq<char> {
    "Menu:\n"@ + "  1) List all bands (for Region "@ + bands::region_short(region) + ")\n"@
        + "  2) Calculate selected bands\n"@ + "  3) Quick single-band calculation\n"@
        + "  4) Change ITU Region\n"@ + "  5) About / project info\n"@ + "  6) Exit\n"@
        + "\nSelect option (1-6): "@
}

/// The listing of a region's bands.
pub open spec fn listing_text(region: ITURegion) -> Seq<char> {
    text::lines_text(
        band_select::listing_lines(
            bands::region_short(region),
            bands::region_long(region),
            band_select::listing_rows(region),
        ),
    )
}

/// The region prompt.
pub open spec fn region_prompt_text() -> Seq<char> {
    text::concat(cli::region_prompt_spec())
}

/// The band prompt, showing the last accepted answer when there is one.
pub open spec fn band_prompt_text(last: Option<Seq<char>>, quick: bool) -> Seq<char> {
    if quick {
        match last {
            Some(l) => "Enter one band (e.g. 20m) ["@ + l + "]: "@,
            None => "Enter one band (e.g. 20m): "@,
        }
    } else {
        match last {
            Some(l) => "Enter bands (e.g. 40m,20m,10m-15m; Enter for default set) ["@ + l + "]: "@,
            None => "Enter bands (e.g. 40m,20m,10m-15m; Enter for default set): "@,
        }
    }
}

/// The farewell line.
pub open spec fn exit_text() -> Seq<char> {
    "Exiting Rusty Wire.\n"@
}

// ---------------------------------------------------------------------------
// The dialog
// ---------------------------------------------------------------------------

/// The band text a band answer stands for: the answer trimmed, or the last
/// accepted answer when it is blank.
pub open spec fn band_answer(line: Seq<char>, last: Option<Seq<char>>) -> Seq<char> {
    let t = text::trim(line);
    if t.len() == 0 {
        match last {
            Some(l) => l,
            None => Seq::empty(),
        }
    } else {
        t
    }
}

/// The last accepted band answer after an accepted answer `line`.
pub open spec fn remembered(line: Seq<char>, last: Option<Seq<char>>) -> Option<Seq<char>> {
    let t = text::trim(line);
    if t.len() == 0 {
        last
    } else {
        Some(t)
    }
}

/// One step of the dialog: the session in `phase` reads `line` (as read,
/// newline included; the empty text at the end of input).
pub open spec fn step_spec(
    region: ITURegion,
    last: Option<Seq<char>>,
    phase: SessionPhase,
    info: ProjectInfo,
    line: Seq<char>,
) -> StepView {
    match phase {
        SessionPhase::ChooseRegion { switching } => {
            let (r, msg) = cli::region_choice_spec(line);
            let note = match msg {
                Some(m) => m,
                None => Seq::empty(),
            };
            let switched = if switching {
                "Switched to ITU Region "@ + bands::region_short(r) + ".\n\n"@
            } else {
                Seq::empty()
            };
            StepView {
                region: r,
                last_bands: last,
                phase: SessionPhase::Menu,
                text: note + switched + menu_text(r),
                action: ActionView::ReadLine,
            }
        },
        SessionPhase::Menu => {
            let t = text::trim(line);
            if line.len() == 0 || t == "6"@ {
                StepView {
                    region,
                    last_bands: last,
                    phase: SessionPhase::Finished,
                    text: exit_text(),
                    action: ActionView::Exit,
                }
            } else if t == "1"@ {
                StepView {
                    region,
                    last_bands: last,
                    phase: SessionPhase::Menu,
                    text: listing_text(region) + menu_text(region),
                    action: ActionView::ReadLine,
                }
            } else if t == "2"@ || t == "3"@ {
                let quick = t == "3"@;
                StepView {
                    region,
                    last_bands: last,
                    phase: SessionPhase::ChooseBands { quick },
                    text: listing_text(region) + band_prompt_text(last, quick),
                    action: ActionView::ReadLine,
                }
            } else if t == "4"@ {
                StepView {
                    region,
                    last_bands: last,
                    phase: SessionPhase::ChooseRegion { switching: true },
                    text: region_prompt_text(),
                    action: ActionView::ReadLine,
                }
            } else if t == "5"@ {
                StepView {
                    region,
                    last_bands: last,
                    phase: SessionPhase::Menu,
                    text: info_text(info) + "\n"@ + menu_text(region),
                    action: ActionView::ReadLine,
                }
            } else {
                StepView {
                    region,
                    last_bands: last,
                    phase: SessionPhase::Menu,
                    text: "Invalid option. Try again.\n\n"@ + menu_text(region),
                    action: ActionView::ReadLine,
                }
            }
        },
        SessionPhase::ChooseBands { quick } => {
            let sel = band_answer(line, last);
            let rejected = StepView {
                region,
                last_bands: last,
                phase: SessionPhase::Menu,
                text: (if quick {
                    "Invalid band. Use a single band name like 20m.\n\n"@
                } else {
                    "Invalid input. Use band names/ranges like 40m,20m,10m-15m.\n\n"@
                }) + menu_text(region),
                action: ActionView::ReadLine,
            };
            let accepted = |indices: Seq<usize>|
                StepView {
                    region,
                    last_bands: remembered(line, last),
                    phase: SessionPhase::Menu,
                    text: Seq::empty(),
                    action: ActionView::Calculate { indices, quick },
                };
            if quick {
                match band_select::single_token_spec(sel, region) {
                    Ok(i) => accepted(seq![i]),
                    Err(_) => rejected,
                }
            } else if sel.len() == 0 {
                accepted(app::default_selection_spec())
            } else {
                match band_select::parse_selection_spec(sel, region) {
                    Ok(v) => accepted(v),
                    Err(_) => rejected,
                }
            }
        },
        SessionPhase::Finished => StepView {
            region,
            last_bands: last,
            phase: SessionPhase::Finished,
            text: Seq::empty(),
            action: ActionView::Exit,
        },
    }
}

/// What the dialog writes when a calculation is over: the menu again.
pub open spec fn resume_spec(region: ITURegion, phase: SessionPhase) -> (Seq<char>, ActionView) {
    match phase {
        SessionPhase::Menu => (menu_text(region), ActionView::ReadLine),
        SessionPhase::Finished => (Seq::empty(), ActionView::Exit),
        _ => (Seq::empty(), ActionView::ReadLine),
    }
}

/// The session seen through its step outcome.
pub open spec fn outcome(s: InteractiveSession, out: SessionOutput) -> StepView {
    StepView {
        region: s.region,
        last_bands: opt_view(s.last_bands),
        phase: s.phase,
        text: out.text@,
        action: out.action@,
    }
}

// ---------------------------------------------------------------------------
// Executable code
// ---------------------------------------------------------------------------

fn push_menu(v: &mut Vec<char>, region: ITURegion)
    ensures
        final(v)@ == old(v)@ + menu_text(region),
{
    text::push_str(v, "Menu:\n");
    text::push_str(v, "  1) List all bands (for Region ");
    text::push_str(v, region.short_name());
    text::push_str(v, ")\n");
    text::push_str(v, "  2) Calculate selected bands\n");
    text::push_str(v, "  3) Quick single-band calculation\n");
    text::push_str(v, "  4) Change ITU Region\n");
    text::push_str(v, "  5) About / project info\n");
    text::push_str(v, "  6) Exit\n");
    text::push_str(v, "\nSelect option (1-6): ");
    assert(v@ =~= old(v)@ + menu_text(region));
}

fn push_listing(v: &mut Vec<char>, region: ITURegion)
    ensures
        final(v)@ == old(v)@ + listing_text(region),
{
    let view = band_select::band_listing_view(region);
    let lines = band_select::band_listing_display_lines(&view);
    text::push_lines(v, &lines);
    assert(lines@.map_values(|p: String| p@) =~= band_select::lines_view(lines@));
}

fn push_region_prompt(v: &mut Vec<char>)
    ensures
        final(v)@ == old(v)@ + region_prompt_text(),
{
    let chunks = cli::itu_region_prompt_text();
    text::push_chunks(v, &chunks);
    assert(chunks@.map_values(|p: String| p@) =~= cli::chunks_view(chunks@));
}

fn push_info(v: &mut Vec<char>, info: &ProjectInfo)
    ensures
        final(v)@ == old(v)@ + info_text(*info),
{
    text::push_str(v, "Project info:\n");
    text::push_str(v, "  Version: ");
    text::push_str(v, info.version.as_str());
    text::push_str(v, "\n");
    text::push_str(v, "  Author: ");
    text::push_str(v, info.authors.as_str());
    text::push_str(v, "\n");
    text::push_str(v, "  GitHub: ");
    text::push_str(v, info.repository.as_str());
    text::push_str(v, "\n");
    text::push_str(v, "  License: ");
    text::push_str(v, info.license.as_str());
    text::push_str(v, "\n");
    text::push_str(v, "  Platform: ");
    text::push_str(v, info.os.as_str());
    text::push_str(v, "/");
    text::push_str(v, info.arch.as_str());
    text::push_str(v, "\n");
    assert(v@ =~= old(v)@ + info_text(*info));
}

fn push_band_prompt(v: &mut Vec<char>, last: &Option<String>, quick: bool)
    ensures
        final(v)@ == old(v)@ + band_prompt_text(opt_view(*last), quick),
{
    if quick {
        match last {
            Some(l) => {
                text::push_str(v, "Enter one band (e.g. 20m) [");
                text::push_str(v, l.as_str());
                text::push_str(v, "]: ");
            },
            None => text::push_str(v, "Enter one band (e.g. 20m): "),
        }
    } else {
        match last {
            Some(l) => {
                text::push_str(v, "Enter bands (e.g. 40m,20m,10m-15m; Enter for default set) [");
                text::push_str(v, l.as_str());
                text::push_str(v, "]: ");
            },
            None => text::push_str(v, "Enter bands (e.g. 40m,20m,10m-15m; Enter for default set): "),
        }
    }
    assert(v@ =~= old(v)@ + band_prompt_text(opt_view(*last), quick));
}

/// The banner and "About" text followed by a blank line, as written when a
/// session starts.
pub fn opening_text(info: &ProjectInfo) -> (s: String)
    ensures
        s@ == banner_text(info.version@) + info_text(*info) + "\n"@,
{
    let mut v: Vec<char> = Vec::new();
    text::push_str(&mut v, "============================================================\n");
    text::push_str(&mut v, "Rusty Wire v");
    text::push_str(&mut v, info.version.as_str());
    text::push_str(&mut v, " - Resonant Length and Skip Distance Calculator\n");
    text::push_str(&mut v, "============================================================\n\n");
    push_info(&mut v, info);
    text::push_str(&mut v, "\n");
    assert(v@ =~= banner_text(info.version@) + info_text(*info) + "\n"@);
    text::string_of(&v)
}

/// The "About" text.
pub fn project_info_text(info: &ProjectInfo) -> (s: String)
    ensures
        s@ == info_text(*info),
{
    let mut v: Vec<char> = Vec::new();
    push_info(&mut v, info);
    assert(v@ =~= info_text(*info));
    text::string_of(&v)
}

impl InteractiveSession {
    /// A new session waiting for the region answer, with the opening text
    /// and the region prompt.
    pub fn start(info: ProjectInfo) -> (r: (InteractiveSession, SessionOutput))
        ensures
            r.0.region == ITURegion::Region1,
            r.0.last_bands is None,
            r.0.phase == (SessionPhase::ChooseRegion { switching: false }),
            r.0.info == info,
            r.1.text@ == banner_text(info.version@) + info_text(info) + "\n"@ + region_prompt_text(),
            r.1.action@ == ActionView::ReadLine,
    {
        let opening = opening_text(&info);
        let mut v: Vec<char> = Vec::new();
        text::push_str(&mut v, opening.as_str());
        push_region_prompt(&mut v);
        assert(v@ =~= banner_text(info.version@) + info_text(info) + "\n"@ + region_prompt_text());
        let session = InteractiveSession {
            region: ITURegion::Region1,
            last_bands: None,
            phase: SessionPhase::ChooseRegion { switching: false },
            info,
        };
        (session, SessionOutput { text: text::string_of(&v), action: SessionAction::ReadLine })
    }

    /// The text written after a calculation: the menu again.
    pub fn resume(&self) -> (out: SessionOutput)
        ensures
            (out.text@, out.action@) == resume_spec(self.region, self.phase),
    {
        match self.phase {
            SessionPhase::Menu => {
                let mut v: Vec<char> = Vec::new();
                push_menu(&mut v, self.region);
                assert(v@ =~= menu_text(self.region));
                SessionOutput { text: text::string_of(&v), action: SessionAction::ReadLine }
            },
            SessionPhase::Finished => SessionOutput { text: String::new(), action: SessionAction::Exit },
            _ => SessionOutput { text: String::new(), action: SessionAction::ReadLine },
        }
    }

    /// Moves the dialog on by one answer (`line` as read, newline included;
    /// the empty text at the end of input).
    pub fn step(&mut self, line: &str) -> (out: SessionOutput)
        ensures
            outcome(*final(self), out) == step_spec(
                old(self).region,
                opt_view(old(self).last_bands),
                old(self).phase,
                old(self).info,
                line@,
            ),
            final(self).info == old(self).info,
    {
        match self.phase {
            SessionPhase::ChooseRegion { switching } => self.step_region(line, switching),
            SessionPhase::Menu => self.step_menu(line),
            SessionPhase::ChooseBands { quick } => self.step_bands(line, quick),
            SessionPhase::Finished => SessionOutput { text: String::new(), action: SessionAction::Exit },
        }
    }

    fn step_region(&mut self, line: &str, switching: bool) -> (out: SessionOutput)
        requires
            old(self).phase == (SessionPhase::ChooseRegion { switching }),
        ensures
            outcome(*final(self), out) == step_spec(
                old(self).region,
                opt_view(old(self).last_bands),
                old(self).phase,
                old(self).info,
                line@,
            ),
            final(self).info == old(self).info,
    {
        let (r, msg) = cli::prompt_itu_region(line);
        let mut v: Vec<char> = Vec::new();
        match &msg {
            Some(m) => text::push_str(&mut v, m.as_str()),
            None => {},
        }
        let ghost note = v@;
        if switching {
            text::push_str(&mut v, "Switched to ITU Region ");
            text::push_str(&mut v, r.short_name());
            text::push_str(&mut v, ".\n\n");
        }
        let ghost mid = v@;
        push_menu(&mut v, r);
        proof {
            let switched = if switching {
                "Switched to ITU Region "@ + bands::region_short(r) + ".\n\n"@
            } else {
                Seq::<char>::empty()
            };
            assert(mid =~= note + switched);
            assert(v@ =~= note + switched + menu_text(r));
        }
        self.region = r;
        self.phase = SessionPhase::Menu;
        SessionOutput { text: text::string_of(&v), action: SessionAction::ReadLine }
    }

    fn step_menu(&mut self, line: &str) -> (out: SessionOutput)
        requires
            old(self).phase == SessionPhase::Menu,
        ensures
            outcome(*final(self), out) == step_spec(
                old(self).region,
                opt_view(old(self).last_bands),
                old(self).phase,
                old(self).info,
                line@,
            ),
            final(self).info == old(self).info,
    {
        let raw = text::chars_of(line);
        let t = text::trim_chars(&raw);
        let mut v: Vec<char> = Vec::new();
        if raw.len() == 0 || text::chars_eq_str(&t, "6") {
            text::push_str(&mut v, "Exiting Rusty Wire.\n");
            self.phase = SessionPhase::Finished;
            return SessionOutput { text: text::string_of(&v), action: SessionAction::Exit };
        }
        if text::chars_eq_str(&t, "1") {
            push_listing(&mut v, self.region);
            push_menu(&mut v, self.region);
            assert(v@ =~= listing_text(self.region) + menu_text(self.region));
        } else if text::chars_eq_str(&t, "2") || text::chars_eq_str(&t, "3") {
            let quick = text::chars_eq_str(&t, "3");
            push_listing(&mut v, self.region);
            push_band_prompt(&mut v, &self.last_bands, quick);
            assert(v@ =~= listing_text(self.region) + band_prompt_text(opt_view(self.last_bands), quick));
            self.phase = SessionPhase::ChooseBands { quick };
        } else if text::chars_eq_str(&t, "4") {
            push_region_prompt(&mut v);
            assert(v@ =~= region_prompt_text());
            self.phase = SessionPhase::ChooseRegion { switching: true };
        } else if text::chars_eq_str(&t, "5") {
            push_info(&mut v, &self.info);
            text::push_str(&mut v, "\n");
            push_menu(&mut v, self.region);
            assert(v@ =~= info_text(self.info) + "\n"@ + menu_text(self.region));
        } else {
            text::push_str(&mut v, "Invalid option. Try again.\n\n");
            push_menu(&mut v, self.region);
            assert(v@ =~= "Invalid option. Try again.\n\n"@ + menu_text(self.region));
        }
        SessionOutput { text: text::string_of(&v), action: SessionAction::ReadLine }
    }

    fn step_bands(&mut self, line: &str, quick: bool) -> (out: SessionOutput)
        requires
            old(self).phase == (SessionPhase::ChooseBands { quick }),
        ensures
            outcome(*final(self), out) == step_spec(
                old(self).region,
                opt_view(old(self).last_bands),
                old(self).phase,
                old(self).info,
                line@,
            ),
            final(self).info == old(self).info,
    {
        let ghost last = opt_view(self.last_bands);
        let t = text::trim_chars(&text::chars_of(line));
        let mut sel: Vec<char> = Vec::new();
        if t.len() == 0 {
            match &self.last_bands {
                Some(l) => text::push_str(&mut sel, l.as_str()),
                None => {},
            }
        } else {
            text::push_all(&mut sel, &t);
        }
        assert(sel@ =~= band_answer(line@, last));
        let sel_text = text::string_of(&sel);
        let region = self.region;
        let picked: Option<Vec<usize>> = if quick {
            match band_select::parse_single_band_token(sel_text.as_str(), region) {
                Ok(i) => {
                    let mut ix: Vec<usize> = Vec::new();
                    ix.push(i);
                    assert(ix@ =~= seq![i]);
                    Some(ix)
                },
                Err(_) => None,
            }
        } else if sel.len() == 0 {
            Some(app::default_band_selection())
        } else {
            match band_select::parse_band_selection(sel_text.as_str(), region) {
                Ok(v) => Some(v),
                Err(_) => None,
            }
        };
        self.phase = SessionPhase::Menu;
        match picked {
            Some(indices) => {
                if t.len() > 0 {
                    self.last_bands = Some(text::string_of(&t));
                }
                SessionOutput { text: String::new(), action: SessionAction::Calculate { indices, quick } }
            },
            None => {
                let mut v: Vec<char> = Vec::new();
                if quick {
                    text::push_str(&mut v, "Invalid band. Use a single band name like 20m.\n\n");
                } else {
                    text::push_str(
                        &mut v,
                        "Invalid input. Use band names/ranges like 40m,20m,10m-15m.\n\n",
                    );
                }
                push_menu(&mut v, region);
                SessionOutput { text: text::string_of(&v), action: SessionAction::ReadLine }
            },
        }
    }
}

// ---------------------------------------------------------------------------
// Laws of the dialog
// ---------------------------------------------------------------------------

/// A remembered band answer is trimmed and not empty.
pub open spec fn remembered_ok(last: Option<Seq<char>>) -> bool {
    match last {
        Some(l) => l.len() > 0 && text::trim(l) == l,
        None => true,
    }
}

/// Every step keeps the remembered band answer trimmed and non-empty.
pub proof fn lemma_step_keeps_remembered_answer_trimmed(
    region: ITURegion,
    last: Option<Seq<char>>,
    phase: SessionPhase,
    info: ProjectInfo,
    line: Seq<char>,
)
    requires
        remembered_ok(last),
    ensures
        remembered_ok(step_spec(region, last, phase, info, line).last_bands),
{
    text::lemma_trim_idempotent(line);
}

/// A blank answer to a band prompt stands for the last accepted answer:
/// the step goes exactly as if that answer had been typed again.
pub proof fn lemma_blank_band_answer_reuses_last(
    region: ITURegion,
    l: Seq<char>,
    quick: bool,
    info: ProjectInfo,
    line: Seq<char>,
)
    requires
        remembered_ok(Some(l)),
        text::trim(line).len() == 0,
    ensures
        step_spec(region, Some(l), SessionPhase::ChooseBands { quick }, info, line)
            == step_spec(region, Some(l), SessionPhase::ChooseBands { quick }, info, l),
{
    assert(band_answer(line, Some(l)) == l);
    assert(band_answer(l, Some(l)) == l);
    assert(remembered(line, Some(l)) == remembered(l, Some(l)));
}

/// The region changes only on an answer to the region prompt.
pub proof fn lemma_region_changes_only_at_region_prompt(
    region: ITURegion,
    last: Option<Seq<char>>,
    phase: SessionPhase,
    info: ProjectInfo,
    line: Seq<char>,
)
    requires
        !(phase is ChooseRegion),
    ensures
        step_spec(region, last, phase, info, line).region == region,
{
}

/// At the menu the end of input, or "6", ends the dialog; once ended it
/// stays ended.
pub proof fn lemma_menu_end_of_input_exits(
    region: ITURegion,
    last: Option<Seq<char>>,
    phase: SessionPhase,
    info: ProjectInfo,
    line: Seq<char>,
)
    requires
        phase == SessionPhase::Menu && (line.len() == 0 || text::trim(line) == "6"@)
            || phase == SessionPhase::Finished,
    ensures
        step_spec(region, last, phase, info, line).action is Exit,
        step_spec(region, last, phase, info, line).phase == SessionPhase::Finished,
{
}

/// At the menu the answer "1" writes the band listing of the session's own
/// region (its short and long names and the bands the region listing holds,
/// numbered from 1) and then the menu again; nothing else changes.
pub proof fn lemma_menu_lists_current_region(
    region: ITURegion,
    last: Option<Seq<char>>,
    info: ProjectInfo,
    line: Seq<char>,
)
    requires
        text::trim(line) == "1"@,
    ensures
        step_spec(region, last, SessionPhase::Menu, info, line).text == text::lines_text(
            band_select::listing_lines(
                bands::region_short(region),
                bands::region_long(region),
                band_select::listing_rows(region),
            ),
        ) + menu_text(region),
        step_spec(region, last, SessionPhase::Menu, info, line).region == region,
        step_spec(region, last, SessionPhase::Menu, info, line).last_bands == last,
        step_spec(region, last, SessionPhase::Menu, info, line).phase == SessionPhase::Menu,
        step_spec(region, last, SessionPhase::Menu, info, line).action is ReadLine,
{
    reveal_strlit("1");
    reveal_strlit("6");
    text::lemma_trim_shape(line);
    let t = text::trim(line);
    assert(t[0] == '1');
    assert(t != "6"@);
}

/// At the menu "2" (a selection) and "3" (a single band) write the band
/// listing of the session's own region and then the matching band prompt,
/// and wait for the band answer.
pub proof fn lemma_menu_band_prompts_list_current_region(
    region: ITURegion,
    last: Option<Seq<char>>,
    info: ProjectInfo,
    line: Seq<char>,
)
    requires
        text::trim(line) == "2"@ || text::trim(line) == "3"@,
    ensures
        step_spec(region, last, SessionPhase::Menu, info, line).text == text::lines_text(
            band_select::listing_lines(
                bands::region_short(region),
                bands::region_long(region),
                band_select::listing_rows(region),
            ),
        ) + band_prompt_text(last, text::trim(line) == "3"@),
        step_spec(region, last, SessionPhase::Menu, info, line).region == region,
        step_spec(region, last, SessionPhase::Menu, info, line).phase == (SessionPhase::ChooseBands {
            quick: text::trim(line) == "3"@,
        }),
        step_spec(region, last, SessionPhase::Menu, info, line).action is ReadLine,
{
    reveal_strlit("1");
    reveal_strlit("2");
    reveal_strlit("3");
    reveal_strlit("6");
    text::lemma_trim_shape(line);
    let t = text::trim(line);
    assert(t.len() == 1);
    assert(t != "6"@ && t != "1"@) by {
        assert(t[0] == '2' || t[0] == '3');
    }
}

/// The bands listed after a region is chosen are those of the chosen
/// region: an answer to the region prompt followed by "1" at the menu
/// lists the region that answer picked.
pub proof fn lemma_listing_follows_chosen_region(
    region: ITURegion,
    last: Option<Seq<char>>,
    switching: bool,
    info: ProjectInfo,
    answer: Seq<char>,
    line: Seq<char>,
)
    requires
        text::trim(line) == "1"@,
    ensures
        ({
            let first = step_spec(
                region,
                last,
                SessionPhase::ChooseRegion { switching },
                info,
                answer,
            );
            let second = step_spec(first.region, first.last_bands, first.phase, info, line);
            &&& first.region == cli::region_choice_spec(answer).0
            &&& second.text == listing_text(cli::region_choice_spec(answer).0) + menu_text(
                cli::region_choice_spec(answer).0,
            )
        }),
{
    let first = step_spec(region, last, SessionPhase::ChooseRegion { switching }, info, answer);
    lemma_menu_lists_current_region(first.region, first.last_bands, info, line);
}

/// Every calculation the dialog asks for covers at least one band, names
/// each band once, and only bands of the catalog (1-based indices).
pub proof fn lemma_calculated_bands_in_catalog(
    region: ITURegion,
    last: Option<Seq<char>>,
    phase: SessionPhase,
    info: ProjectInfo,
    line: Seq<char>,
)
    ensures
        step_spec(region, last, phase, info, line).action matches ActionView::Calculate {
            indices,
            ..
        } ==> indices.len() > 0 && indices.no_duplicates() && forall|k: int|
            0 <= k < indices.len() ==> 1 <= #[trigger] indices[k] <= bands::BAND_COUNT,
{
    let sel = band_answer(line, last);
    band_select::lemma_selection_unique_and_in_catalog(sel, region);
    band_select::lemma_single_token_in_catalog(sel, region);
    let d = app::default_selection_spec();
    assert forall|i: int, j: int| 0 <= i < d.len() && 0 <= j < d.len() && i != j implies d[i]
        != d[j] by {}
}

} // verus!
