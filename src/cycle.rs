//! The decisions of the page cycle: which page set stays in effect, which
//! page comes next, when to switch the display, and how long to wait.

use crate::pages::{page_views, PageDesc, PageKind};
use vstd::prelude::*;

verus! {

/// The page set in effect after a rebuild: the rebuilt one, unless it is
/// empty, in which case the current one stays.
pub open spec fn kept_pages(current: Seq<PageDesc>, rebuilt: Seq<PageDesc>) -> Seq<PageDesc> {
    if rebuilt.len() > 0 {
        rebuilt
    } else {
        current
    }
}

/// Chooses the page set that stays in effect after a rebuild.
pub fn refresh_pages(current: Vec<PageKind>, rebuilt: Vec<PageKind>) -> (r: Vec<PageKind>)
    ensures
        page_views(r@) == kept_pages(page_views(current@), page_views(rebuilt@)),
{
    if rebuilt.len() > 0 {
        rebuilt
    } else {
        current
    }
}

/// A rebuild never empties a page set that had pages: an empty rebuild
/// leaves the current set as it was.
pub proof fn lemma_empty_rebuild_keeps_pages(current: Seq<PageDesc>, rebuilt: Seq<PageDesc>)
    requires
        current.len() > 0,
    ensures
        kept_pages(current, rebuilt).len() > 0,
        rebuilt.len() == 0 ==> kept_pages(current, rebuilt) == current,
{
}

/// The first build found nothing to show.
pub struct NoPages;

/// Accepts the pages of the first build, which must not be empty.
pub fn initial_pages(pages: Vec<PageKind>) -> (r: Result<Vec<PageKind>, NoPages>)
    ensures
        r is Err <==> pages@.len() == 0,
        r matches Ok(p) ==> p@ == pages@,
{
    if pages.len() == 0 {
        Err(NoPages)
    } else {
        Ok(pages)
    }
}

/// The index of the page to show: `index`, or the first page where a
/// rebuild left fewer pages than that.
pub fn current_page_index(index: usize, len: usize) -> (r: usize)
    ensures
        r == if index < len { index } else { 0 },
{
    if index >= len {
        0
    } else {
        index
    }
}

/// The index of the page shown after the page at `index`, wrapping to the
/// first page after the last.
pub fn next_page_index(index: usize, len: usize) -> (r: usize)
    requires
        index < len,
    ensures
        r < len,
        r == (index + 1) % (len as int),
{
    (index + 1) % len
}

/// What one tick of the page cycle does to the display.
pub enum TickAction {
    /// Scheduled off, and the display is on: switch it off, then wait.
    SwitchOffAndWait,
    /// Scheduled off, and the display is already off: wait.
    Wait,
    /// Scheduled on, and the display is off: switch it on, then render.
    SwitchOnAndRender,
    /// Scheduled on, and the display is on: render.
    Render,
}

/// Decides a tick from whether the display is off and whether the schedule
/// wants it active.
pub fn tick_action(display_off: bool, active: bool) -> (r: TickAction)
    ensures
        !active && !display_off <==> r is SwitchOffAndWait,
        !active && display_off <==> r is Wait,
        active && display_off <==> r is SwitchOnAndRender,
        active && !display_off <==> r is Render,
{
    if !active {
        if display_off {
            TickAction::Wait
        } else {
            TickAction::SwitchOffAndWait
        }
    } else if display_off {
        TickAction::SwitchOnAndRender
    } else {
        TickAction::Render
    }
}

/// Whether the display is off after a tick.
pub fn display_off_after(action: &TickAction) -> (r: bool)
    ensures
        r <==> (action is SwitchOffAndWait || action is Wait),
{
    match action {
        TickAction::SwitchOffAndWait => true,
        TickAction::Wait => true,
        TickAction::SwitchOnAndRender => false,
        TickAction::Render => false,
    }
}

/// How long to wait after work that took `elapsed` for ticks to keep an
/// `interval` apart: the rest of the interval, or nothing once it has passed.
pub fn pause_after(interval: u64, elapsed: u64) -> (r: u64)
    ensures
        interval > elapsed ==> r == interval - elapsed,
        interval <= elapsed ==> r == 0,
{
    if interval > elapsed {
        interval - elapsed
    } else {
        0
    }
}

/// Whether a page shown for `elapsed` has had its `duration`.
pub fn page_done(elapsed: u64, duration: u64) -> (r: bool)
    ensures
        r == (elapsed >= duration),
{
    elapsed >= duration
}

/// Whether the slower refresh of the costlier sensors is due: once more
/// than `interval` has passed since the last one.
pub fn slow_refresh_due(since_last: u64, interval: u64) -> (r: bool)
    ensures
        r == (since_last > interval),
{
    since_last > interval
}

/// Whether the page set is rebuilt before showing the page at `index`: each
/// time the cycle comes back to the first page.
pub fn needs_rebuild(index: usize) -> (r: bool)
    ensures
        r == (index == 0),
{
    index == 0
}

/// How long a page stays: sensor pages and the time page each have their
/// own duration.
pub fn page_duration(page: &PageKind, sensor_page_time: u64, time_page_time: u64) -> (r: u64)
    ensures
        page is Sensor ==> r == sensor_page_time,
        page is Time ==> r == time_page_time,
{
    match page {
        PageKind::Sensor(_) => sensor_page_time,
        PageKind::Time(_) => time_page_time,
    }
}

} // verus!
