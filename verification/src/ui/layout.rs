//! The saved arrangement of the windows.
use vstd::prelude::*;

use crate::browser::{is_page_path, text_view, text_views, url_parse, NomadUrl};
use crate::text::{
    chars_of, digit_char, find_char, find_in, is_digit_char, lemma_find_char, same_text,
};
use crate::ui::state::place_of;

verus! {

pub const MAX_LAYOUT_BYTES: usize = 1048576;

pub const MAX_SAVED_WINDOWS: usize = 128;

#[derive(Debug)]
pub struct SavedWindow {
    pub key: String,
    pub x: i32,
    pub y: i32,
    pub width: i32,
    pub height: i32,
    pub url: Option<String>,
}

#[derive(Debug)]
pub struct Layout {
    pub version: u32,
    pub active: Option<String>,
    pub windows: Vec<SavedWindow>,
    pub requested_focus: Option<String>,
}

impl Default for Layout {
    fn default() -> (r: Self)
        ensures
            r.version == 1,
            r.active.is_none(),
            r.windows@.len() == 0,
            r.requested_focus.is_none(),
    {
        Layout { version: 1, active: None, windows: Vec::new(), requested_focus: None }
    }
}

/// Why a saved layout is refused.
#[derive(Debug, Clone, Copy, PartialEq, Eq, Structural)]
pub enum LayoutError {
    TooLarge,
    UnsupportedVersion(u32),
    TooManyWindows,
}

pub open spec fn window_keys(windows: Seq<SavedWindow>) -> Seq<Seq<char>> {
    windows.map_values(|window: SavedWindow| window.key@)
}

/// The place of a window, or the number of them.
fn find_window(windows: &Vec<SavedWindow>, key: &str) -> (r: usize)
    ensures
        r == place_of(window_keys(windows@), key@),
        r <= windows@.len(),
        r < windows@.len() ==> windows@[r as int].key@ == key@,
        r == windows@.len() ==> forall|i: int|
            0 <= i < windows@.len() ==> (#[trigger] windows@[i]).key@ != key@,
{
    let mut i: usize = 0;
    while i < windows.len() && !same_text(windows[i].key.as_str(), key)
        invariant
            i <= windows@.len(),
            forall|j: int| 0 <= j < i ==> (#[trigger] windows@[j]).key@ != key@,
        decreases windows@.len() - i,
    {
        i = i + 1;
    }
    proof {
        assert forall|j: int| 0 <= j < i implies #[trigger] window_keys(windows@)[j] != key@ by {
            assert(windows@[j].key@ != key@);
        }
        crate::ui::state::lemma_place_at(window_keys(windows@), key@, i as int);
    }
    i
}

pub open spec fn is_lower_hex(c: char) -> bool {
    is_digit_char(c) || 'a' <= c <= 'f'
}

/// The keys that windows have: one of the three fixed ones, or a kind and an
/// address in lower case.
pub open spec fn is_window_key(key: Seq<char>) -> bool {
    let n = find_char(key, ':') as int;
    let kind = key.take(n);
    let hash = key.skip(n + 1);
    if key == "network"@ || key == "directory"@ || key == "conversations"@ {
        true
    } else if n >= key.len() {
        false
    } else {
        &&& kind == "node"@ || kind == "rrc"@ || kind == "lxmf"@
        &&& hash.len() == 32
        &&& forall|i: int| 0 <= i < hash.len() ==> is_lower_hex(#[trigger] hash[i])
    }
}

pub fn valid_key(key: &str) -> (r: bool)
    ensures
        r == is_window_key(key@),
{
    if same_text(key, "network") || same_text(key, "directory") || same_text(
        key,
        "conversations",
    ) {
        return true;
    }
    let all = chars_of(key);
    proof {
        lemma_find_char(key@, ':');
    }
    let n: usize = find_in(&all, ':');
    if n >= all.len() {
        return false;
    }
    let kind_chars = vstd::slice::slice_subrange(&all, 0, n);
    assert(kind_chars@ =~= key@.take(n as int));
    let kind = crate::text::string_of(kind_chars);
    if !(same_text(kind.as_str(), "node") || same_text(kind.as_str(), "rrc") || same_text(
        kind.as_str(),
        "lxmf",
    )) {
        return false;
    }
    let hash = vstd::slice::slice_subrange(&all, n + 1, all.len());
    assert(hash@ =~= key@.skip(n + 1));
    if hash.len() != 32 {
        return false;
    }
    for i in 0..hash.len()
        invariant
            hash@ == key@.skip(n + 1),
            n == find_char(key@, ':'),
            n < key@.len(),
            forall|j: int| 0 <= j < i ==> is_lower_hex(#[trigger] hash@[j]),
            key@ != "network"@,
            key@ != "directory"@,
            key@ != "conversations"@,
    {
        let c = hash[i];
        if !(digit_char(c) || ('a' <= c && c <= 'f')) {
            assert(!is_lower_hex(key@.skip(n + 1)[i as int]));
            return false;
        }
    }
    true
}

/// The address of a window that shows a page; nothing where it is none of a page.
pub open spec fn kept_url(url: Option<Seq<char>>) -> Option<Seq<char>> {
    match url {
        Some(text) => match url_parse(text) {
            Ok(parsed) => if is_page_path(parsed.path) {
                Some(text)
            } else {
                None
            },
            Err(_) => None,
        },
        None => None,
    }
}

fn keep_url(url: Option<String>) -> (r: Option<String>)
    ensures
        text_view(r) == kept_url(text_view(url)),
{
    match url {
        Some(text) => {
            let keep = match NomadUrl::parse(text.as_str()) {
                Ok(parsed) => parsed.is_page(),
                Err(_) => false,
            };
            if keep {
                Some(text)
            } else {
                None
            }
        },
        None => None,
    }
}

/// The windows that are opened again: those with a valid key, each key once, in
/// order.
pub open spec fn kept_windows(windows: Seq<SavedWindow>) -> Seq<SavedWindow>
    decreases windows.len(),
{
    if windows.len() == 0 {
        Seq::empty()
    } else {
        let before = kept_windows(windows.drop_last());
        let last = windows.last();
        if is_window_key(last.key@) && !window_keys(before).contains(last.key@) {
            before.push(last)
        } else {
            before
        }
    }
}

pub open spec fn is_kept_as(window: SavedWindow, kept: SavedWindow) -> bool {
    kept == (SavedWindow { url: kept.url, ..window }) && text_view(kept.url) == kept_url(
        text_view(window.url),
    )
}

/// The fault of a saved layout, if it has one.
pub open spec fn layout_fault(layout: Layout) -> Option<LayoutError> {
    if layout.version != 1 {
        Some(LayoutError::UnsupportedVersion(layout.version))
    } else if layout.windows@.len() > MAX_SAVED_WINDOWS {
        Some(LayoutError::TooManyWindows)
    } else {
        None
    }
}

/// Checks the size of a saved layout before it is read.
pub fn check_size(bytes: usize) -> (r: Result<(), LayoutError>)
    ensures
        r is Ok == (bytes <= MAX_LAYOUT_BYTES),
        r is Err ==> r->Err_0 == LayoutError::TooLarge,
{
    if bytes <= MAX_LAYOUT_BYTES {
        Ok(())
    } else {
        Err(LayoutError::TooLarge)
    }
}

/// Checks a saved layout and drops what cannot be opened again.
pub fn load(layout: Layout) -> (r: Result<Layout, LayoutError>)
    ensures
        r is Ok == layout_fault(layout).is_none(),
        r is Err ==> r->Err_0 == layout_fault(layout).unwrap(),
        r is Ok ==> {
            let kept = kept_windows(layout.windows@);
            &&& r->Ok_0.windows@.len() == kept.len()
            &&& forall|i: int|
                0 <= i < kept.len() ==> is_kept_as(kept[i], #[trigger] r->Ok_0.windows@[i])
            &&& r->Ok_0 == (Layout { windows: r->Ok_0.windows, ..layout })
        },
{
    if layout.version != 1 {
        return Err(LayoutError::UnsupportedVersion(layout.version));
    }
    if layout.windows.len() > MAX_SAVED_WINDOWS {
        return Err(LayoutError::TooManyWindows);
    }
    let ghost all = layout.windows@;
    let mut rest = layout.windows;
    let mut kept: Vec<SavedWindow> = Vec::new();
    let ghost mut done: int = 0;
    assert(all.take(0) =~= Seq::empty());
    while rest.len() > 0
        invariant
            0 <= done <= all.len(),
            rest@ == all.skip(done),
            kept@.len() == kept_windows(all.take(done)).len(),
            forall|i: int|
                0 <= i < kept@.len() ==> is_kept_as(
                    kept_windows(all.take(done))[i],
                    #[trigger] kept@[i],
                ),
        decreases rest@.len(),
    {
        let ghost before = kept_windows(all.take(done));
        let window = rest.remove(0);
        proof {
            assert(window == all[done]);
            assert(all.take(done + 1).drop_last() =~= all.take(done));
            assert(rest@ =~= all.skip(done + 1));
        }
        let place = find_window(&kept, window.key.as_str());
        proof {
            assert(window_keys(kept@) =~= window_keys(before)) by {
                assert forall|i: int| 0 <= i < kept@.len() implies window_keys(kept@)[i]
                    == window_keys(before)[i] by {
                    assert(is_kept_as(before[i], kept@[i]));
                }
            }
            crate::ui::state::lemma_place_of(window_keys(kept@), window.key@);
        }
        if valid_key(window.key.as_str()) && place >= kept.len() {
            let url = keep_url(window.url);
            kept.push(
                SavedWindow {
                    key: window.key,
                    x: window.x,
                    y: window.y,
                    width: window.width,
                    height: window.height,
                    url,
                },
            );
        }
        proof {
            done = done + 1;
        }
    }
    assert(all.take(done) =~= all);
    Ok(
        Layout {
            version: layout.version,
            active: layout.active,
            windows: kept,
            requested_focus: layout.requested_focus,
        },
    )
}

/// The windows once one of them was recorded: in the place of the one with its key, or
/// behind all others.
pub open spec fn recorded(windows: Seq<SavedWindow>, entry: SavedWindow) -> Seq<SavedWindow> {
    let n = place_of(window_keys(windows), entry.key@) as int;
    if n < windows.len() {
        windows.update(n, entry)
    } else {
        windows.push(entry)
    }
}

/// The windows without the one of a key.
pub open spec fn forgotten(windows: Seq<SavedWindow>, key: Seq<char>) -> Seq<SavedWindow> {
    windows.filter(|window: SavedWindow| window.key@ != key)
}

impl Layout {
    /// Asks for the focus for an open window. Says whether it is open.
    pub fn focus_existing(&mut self, key: &str) -> (r: bool)
        ensures
            r == window_keys(old(self).windows@).contains(key@),
            final(self).version == old(self).version,
            final(self).active == old(self).active,
            final(self).windows == old(self).windows,
            r ==> text_view(final(self).requested_focus) == Some(key@),
            !r ==> final(self).requested_focus == old(self).requested_focus,
    {
        proof {
            crate::ui::state::lemma_place_of(window_keys(self.windows@), key@);
        }
        if find_window(&self.windows, key) < self.windows.len() {
            self.requested_focus = Some(key.to_string());
            true
        } else {
            false
        }
    }

    /// Whether a window asked for the focus; if so it no longer does.
    pub fn take_focus(&mut self, key: &str) -> (r: bool)
        ensures
            r == (text_view(old(self).requested_focus) == Some(key@)),
            *final(self) == (Layout {
                requested_focus: if r {
                    None
                } else {
                    old(self).requested_focus
                },
                ..*old(self)
            }),
    {
        let wanted = match &self.requested_focus {
            Some(focus) => same_text(focus.as_str(), key),
            None => false,
        };
        if wanted {
            self.requested_focus = None;
        }
        wanted
    }

    /// Notes where a window is. A new one goes to the end.
    pub fn record(&mut self, entry: SavedWindow, is_active: bool)
        ensures
            final(self).windows@ == recorded(old(self).windows@, entry),
            ({
                let n = place_of(window_keys(old(self).windows@), entry.key@) as int;
                final(self).windows@ == if n < old(self).windows@.len() {
                    old(self).windows@.update(n, entry)
                } else {
                    old(self).windows@.push(entry)
                }
            }),
            is_active ==> text_view(final(self).active) == Some(entry.key@),
            !is_active ==> final(self).active == old(self).active,
            final(self).version == old(self).version,
            final(self).requested_focus == old(self).requested_focus,
    {
        let key = entry.key.clone();
        let i = find_window(&self.windows, key.as_str());
        if i < self.windows.len() {
            self.windows[i] = entry;
        } else {
            self.windows.push(entry);
        }
        if is_active {
            self.active = Some(key);
        }
    }

    /// Forgets a window that was closed.
    pub fn forget(&mut self, key: &str)
        ensures
            final(self).windows@ == forgotten(old(self).windows@, key@),
            final(self).windows@ == old(self).windows@.filter(
                |window: SavedWindow| window.key@ != key@,
            ),
            final(self).active == if text_view(old(self).active) == Some(key@) {
                None
            } else {
                old(self).active
            },
            final(self).version == old(self).version,
            final(self).requested_focus == old(self).requested_focus,
    {
        let ghost p = |window: SavedWindow| window.key@ != key@;
        let ghost all = self.windows@;
        let ghost mut done: int = 0;
        let mut i: usize = 0;
        proof {
            assert(all.take(0).filter(p) =~= Seq::empty());
            assert(Seq::<SavedWindow>::empty() + all.skip(0) =~= all);
        }
        while i < self.windows.len()
            invariant
                p == (|window: SavedWindow| window.key@ != key@),
                0 <= done <= all.len(),
                i <= self.windows@.len(),
                i == all.take(done).filter(p).len(),
                self.windows@ == all.take(done).filter(p) + all.skip(done),
                self.version == old(self).version,
                self.active == old(self).active,
                self.requested_focus == old(self).requested_focus,
            decreases self.windows@.len() - i,
        {
            proof {
                assert(self.windows@[i as int] == all[done]);
                assert(all.take(done + 1).drop_last() =~= all.take(done));
                reveal(Seq::filter);
            }
            if same_text(self.windows[i].key.as_str(), key) {
                let ghost before = self.windows@;
                let _ = self.windows.remove(i);
                assert(self.windows@ =~= all.take(done + 1).filter(p) + all.skip(done + 1));
            } else {
                assert(self.windows@ =~= all.take(done + 1).filter(p) + all.skip(done + 1));
                i = i + 1;
            }
            proof {
                done = done + 1;
            }
        }
        proof {
            assert(self.windows@.len() == i + (all.len() - done));
            assert(all.take(done) =~= all);
            assert(self.windows@ =~= all.filter(p));
        }
        let was_active = match &self.active {
            Some(active) => same_text(active.as_str(), key),
            None => false,
        };
        if was_active {
            self.active = None;
        }
    }
}

#[derive(Debug, Clone, Copy, PartialEq, Eq, Structural)]
pub struct Point {
    pub x: i32,
    pub y: i32,
}

/// A rectangle from its upper left corner to behind its lower right one.
#[derive(Debug, Clone, Copy, PartialEq, Eq, Structural)]
pub struct Rect {
    pub a: Point,
    pub b: Point,
}

pub open spec fn at_least(value: int, low: int) -> int {
    if value < low {
        low
    } else {
        value
    }
}

pub open spec fn at_most(value: int, high: int) -> int {
    if value > high {
        high
    } else {
        value
    }
}

/// Where a saved extent goes: no smaller than asked for, no larger than what is
/// there, and within it.
pub open spec fn fitted(saved: int, size: int, least: int, available: int) -> (int, int) {
    let fitted_size = at_most(at_least(size, at_most(at_least(least, 1), available)), available);
    (at_most(at_least(saved, 0), available - fitted_size), fitted_size)
}

fn fit_extent(saved: i32, size: i32, least: i32, available: i32) -> (r: (i32, i32))
    requires
        available >= 1,
    ensures
        (r.0 as int, r.1 as int) == fitted(
            saved as int,
            size as int,
            least as int,
            available as int,
        ),
        0 <= r.0,
        1 <= r.1,
        r.0 + r.1 <= available,
{
    let floor: i32 = if least < 1 {
        1
    } else {
        least
    };
    let low: i32 = if floor > available {
        available
    } else {
        floor
    };
    let fitted_size: i32 = if size < low {
        low
    } else if size > available {
        available
    } else {
        size
    };
    let room: i32 = available - fitted_size;
    let start: i32 = if saved < 0 {
        0
    } else if saved > room {
        room
    } else {
        saved
    };
    (start, fitted_size)
}

/// How large a new window is: it leaves a cell on each side of the desktop, but is
/// neither smaller nor larger than it may be.
pub open spec fn sized(extent: int, least: int, most: int) -> int {
    at_most(at_least(extent - 2, least), most)
}

fn size_within(extent: i32, least: i32, most: i32) -> (r: i32)
    requires
        least <= most,
        i32::MIN <= extent - 2,
    ensures
        r == sized(extent as int, least as int, most as int),
{
    if extent - 2 < least {
        least
    } else if extent - 2 > most {
        most
    } else {
        extent - 2
    }
}

/// The size of a new window on a desktop of a size.
pub fn window_size(desktop: Point, least: Point, most: Point) -> (r: Point)
    requires
        least.x <= most.x,
        least.y <= most.y,
        i32::MIN <= desktop.x - 2,
        i32::MIN <= desktop.y - 2,
    ensures
        r.x == sized(desktop.x as int, least.x as int, most.x as int),
        r.y == sized(desktop.y as int, least.y as int, most.y as int),
{
    Point {
        x: size_within(desktop.x, least.x, most.x),
        y: size_within(desktop.y, least.y, most.y),
    }
}

/// Whether a new window on a desktop ends at a number of 32 bits.
pub open spec fn has_corner(from: int, to: int, least: int, most: int) -> bool {
    &&& i32::MIN <= to - from - 2
    &&& to - from <= i32::MAX
    &&& i32::MIN <= from + 1 + sized(to - from, least, most) <= i32::MAX
    &&& from < i32::MAX
}

/// The place of a new window: a cell away from the upper left corner of the desktop.
pub open spec fn is_placed(desktop: Rect, least: Point, most: Point, r: Rect) -> bool {
    &&& r.a.x == desktop.a.x + 1
    &&& r.a.y == desktop.a.y + 1
    &&& r.b.x == r.a.x + sized(desktop.b.x - desktop.a.x, least.x as int, most.x as int)
    &&& r.b.y == r.a.y + sized(desktop.b.y - desktop.a.y, least.y as int, most.y as int)
}

pub fn new_window(desktop: Rect, least: Point, most: Point) -> (r: Rect)
    requires
        least.x <= most.x,
        least.y <= most.y,
        has_corner(desktop.a.x as int, desktop.b.x as int, least.x as int, most.x as int),
        has_corner(desktop.a.y as int, desktop.b.y as int, least.y as int, most.y as int),
    ensures
        is_placed(desktop, least, most, r),
{
    let extent = Point { x: desktop.b.x - desktop.a.x, y: desktop.b.y - desktop.a.y };
    let size = window_size(extent, least, most);
    let corner = Point { x: desktop.a.x + 1, y: desktop.a.y + 1 };
    Rect { a: corner, b: Point { x: corner.x + size.x, y: corner.y + size.y } }
}

/// The place of a new chat window: at least 50 by 12 cells, at most 110 by 30.
pub fn chat_window(desktop: Rect) -> (r: Rect)
    requires
        has_corner(desktop.a.x as int, desktop.b.x as int, 50, 110),
        has_corner(desktop.a.y as int, desktop.b.y as int, 12, 30),
    ensures
        is_placed(desktop, (Point { x: 50, y: 12 }), (Point { x: 110, y: 30 }), r),
{
    new_window(desktop, Point { x: 50, y: 12 }, Point { x: 110, y: 30 })
}

/// The place of a new page browser: at least 44 by 10 cells, at most 100 by 32.
pub fn browser_window(desktop: Rect) -> (r: Rect)
    requires
        has_corner(desktop.a.x as int, desktop.b.x as int, 44, 100),
        has_corner(desktop.a.y as int, desktop.b.y as int, 10, 32),
    ensures
        is_placed(desktop, (Point { x: 44, y: 10 }), (Point { x: 100, y: 32 }), r),
{
    new_window(desktop, Point { x: 44, y: 10 }, Point { x: 100, y: 32 })
}

/// What a desktop has room for, at least one cell.
pub open spec fn room(from: int, to: int) -> int {
    at_least(to - from, 1)
}

/// The place of a saved window on a desktop.
pub fn fit(saved: &SavedWindow, desktop: Rect, minimum: Point) -> (r: Rect)
    requires
        i32::MIN <= desktop.b.x - desktop.a.x <= i32::MAX,
        i32::MIN <= desktop.b.y - desktop.a.y <= i32::MAX,
    ensures
        ({
            let h = fitted(
                saved.x as int,
                saved.width as int,
                minimum.x as int,
                room(desktop.a.x as int, desktop.b.x as int),
            );
            let v = fitted(
                saved.y as int,
                saved.height as int,
                minimum.y as int,
                room(desktop.a.y as int, desktop.b.y as int),
            );
            &&& r.a.x == h.0
            &&& r.b.x == h.0 + h.1
            &&& r.a.y == v.0
            &&& r.b.y == v.0 + v.1
        }),
{
    let wide: i32 = desktop.b.x - desktop.a.x;
    let high: i32 = desktop.b.y - desktop.a.y;
    let (x, width) = fit_extent(
        saved.x,
        saved.width,
        minimum.x,
        if wide < 1 {
            1
        } else {
            wide
        },
    );
    let (y, height) = fit_extent(
        saved.y,
        saved.height,
        minimum.y,
        if high < 1 {
            1
        } else {
            high
        },
    );
    Rect { a: Point { x, y }, b: Point { x: x + width, y: y + height } }
}

/// Whether the network screen says that the client is online.
pub fn online(network: &Vec<String>) -> (r: bool)
    ensures
        r == text_views(network@).contains("State: Online"@),
{
    for i in 0..network.len()
        invariant
            forall|j: int| 0 <= j < i ==> #[trigger] text_views(network@)[j] != "State: Online"@,
    {
        if same_text(network[i].as_str(), "State: Online") {
            assert(text_views(network@)[i as int] == "State: Online"@);
            return true;
        }
    }
    false
}

/// A restored window always lies within the desktop, whatever was saved.
pub proof fn law_restored_windows_are_visible(saved: int, size: int, least: int, available: int)
    requires
        available >= 1,
    ensures
        0 <= fitted(saved, size, least, available).0,
        1 <= fitted(saved, size, least, available).1,
        fitted(saved, size, least, available).0 + fitted(saved, size, least, available).1
            <= available,
{
}

/// A window that is saved where it fits is restored where it was.
pub proof fn law_fitting_windows_stay(saved: int, size: int, least: int, available: int)
    requires
        0 <= saved,
        1 <= size,
        least <= size,
        saved + size <= available,
    ensures
        fitted(saved, size, least, available) == (saved, size),
{
}

/// No key is opened twice.
pub proof fn law_kept_keys_are_distinct(windows: Seq<SavedWindow>)
    ensures
        forall|i: int, j: int|
            0 <= i < j < kept_windows(windows).len() ==> kept_windows(windows)[i].key@
                != kept_windows(windows)[j].key@,
        forall|i: int|
            0 <= i < kept_windows(windows).len() ==> is_window_key(
                (#[trigger] kept_windows(windows)[i]).key@,
            ),
    decreases windows.len(),
{
    if windows.len() > 0 {
        law_kept_keys_are_distinct(windows.drop_last());
        let before = kept_windows(windows.drop_last());
        let after = kept_windows(windows);
        assert forall|i: int, j: int| 0 <= i < j < after.len() implies after[i].key@
            != after[j].key@ by {
            if j == before.len() {
                assert(window_keys(before)[i] == before[i].key@);
            }
        }
    }
}

} // verus!
