//! What can be captured.
use crate::protocol::session::{CaptureSource, CaptureSourceInfo};
use crate::text::{decimal, push_decimal, same_text, trim, trimmed};
use vstd::prelude::*;

verus! {

/// A window that some application has on the screen.
#[derive(Debug)]
pub struct WindowFacts {
    pub window_id: u32,
    pub owner: Option<WindowOwner>,
    pub title: Option<String>,
    /// Less than two points wide or high.
    pub tiny: bool,
    /// The size in pixels.
    pub size: (u32, u32),
}

#[derive(Debug)]
pub struct WindowOwner {
    pub process_id: i32,
    pub application: String,
}

/// A window is offered when it has an owner other than this program, a title that is not blank, and
/// a size worth showing.
pub open spec fn offered_window(window: WindowFacts, own_pid: i32) -> bool {
    &&& window.owner is Some
    &&& window.owner->0.process_id != own_pid
    &&& window.title is Some
    &&& trimmed(window.title->0@).len() > 0
    &&& !window.tiny
}

/// A display of the host.
#[derive(Debug, Clone, Copy, PartialEq, Eq, Structural)]
pub struct DisplayFacts {
    pub display_id: u32,
    pub width: u32,
    pub height: u32,
}

/// The screen as the host sees it.
pub enum Screen {
    /// It can only be captured as a whole.
    Whole,
    /// Its displays and windows can be captured each.
    Parts { displays: Vec<DisplayFacts>, windows: Vec<WindowFacts>, main_id: u32, own_pid: i32 },
}

/// The windows that are offered, among the first `n`.
pub open spec fn offered(windows: Seq<WindowFacts>, own_pid: i32, n: int) -> Seq<WindowFacts>
    decreases n,
{
    if n <= 0 {
        Seq::empty()
    } else if offered_window(windows[n - 1], own_pid) {
        offered(windows, own_pid, n - 1).push(windows[n - 1])
    } else {
        offered(windows, own_pid, n - 1)
    }
}

/// Whether an entry of the list stands for a display.
pub open spec fn stands_for_display(
    info: CaptureSourceInfo,
    display: DisplayFacts,
    main_id: u32,
) -> bool {
    &&& info.source == CaptureSource::Display(display.display_id)
    &&& info.title@ == "Display "@ + decimal(display.display_id as nat)
    &&& info.application@ == Seq::<char>::empty()
    &&& info.process_id is None
    &&& info.width == display.width
    &&& info.height == display.height
    &&& info.supports_input == (display.display_id == main_id)
}

/// Whether an entry of the list stands for a window. That the screen may be captured does not mean
/// that input may go to one window.
pub open spec fn stands_for_window(info: CaptureSourceInfo, window: WindowFacts) -> bool {
    &&& info.source == CaptureSource::Window(window.window_id)
    &&& info.title@ == window.title->0@
    &&& info.application@ == window.owner->0.application@
    &&& info.process_id == Some(window.owner->0.process_id)
    &&& (info.width, info.height) == window.size
    &&& !info.supports_input
}

/// Whether an entry of the list stands for the whole desktop.
pub open spec fn stands_for_desktop(info: CaptureSourceInfo) -> bool {
    &&& info.source is MainDisplay
    &&& info.title@ == "Desktop"@
    &&& info.application@ == Seq::<char>::empty()
    &&& info.process_id is None
    &&& info.width == 0
    &&& info.height == 0
    &&& info.supports_input
}

/// What is told of the screen: its displays, and then its windows that are offered; or the desktop.
pub open spec fn lists(screen: Screen, infos: Seq<CaptureSourceInfo>) -> bool {
    match screen {
        Screen::Whole => infos.len() == 1 && stands_for_desktop(infos[0]),
        Screen::Parts { displays, windows, main_id, own_pid } => {
            let shown = offered(windows@, own_pid, windows@.len() as int);
            &&& infos.len() == displays@.len() + shown.len()
            &&& forall|i: int|
                0 <= i < displays@.len() ==> stands_for_display(
                    #[trigger] infos[i],
                    displays@[i],
                    main_id,
                )
            &&& forall|i: int|
                0 <= i < shown.len() ==> stands_for_window(
                    infos[displays@.len() + i],
                    #[trigger] shown[i],
                )
        },
    }
}

fn desktop_source() -> (r: CaptureSourceInfo)
    ensures
        stands_for_desktop(r),
{
    CaptureSourceInfo {
        source: CaptureSource::MainDisplay,
        title: "Desktop".to_owned(),
        application: String::new(),
        process_id: None,
        width: 0,
        height: 0,
        supports_input: true,
    }
}

fn display_source(display: DisplayFacts, main_id: u32) -> (r: CaptureSourceInfo)
    ensures
        stands_for_display(r, display, main_id),
{
    let mut title = "Display ".to_owned();
    push_decimal(&mut title, display.display_id as u64);
    CaptureSourceInfo {
        source: CaptureSource::Display(display.display_id),
        title,
        application: String::new(),
        process_id: None,
        width: display.width,
        height: display.height,
        supports_input: display.display_id == main_id,
    }
}

fn window_source(window: &WindowFacts, own_pid: i32) -> (r: Option<CaptureSourceInfo>)
    ensures
        match r {
            Some(info) => offered_window(*window, own_pid) && stands_for_window(info, *window),
            None => !offered_window(*window, own_pid),
        },
{
    match (&window.owner, &window.title) {
        (Some(owner), Some(title)) => {
            if owner.process_id == own_pid || window.tiny {
                return None;
            }
            let bare = trim(title.as_str());
            if bare.as_str().unicode_len() == 0 {
                return None;
            }
            Some(
                CaptureSourceInfo {
                    source: CaptureSource::Window(window.window_id),
                    title: title.as_str().to_owned(),
                    application: owner.application.as_str().to_owned(),
                    process_id: Some(owner.process_id),
                    width: window.size.0,
                    height: window.size.1,
                    supports_input: false,
                },
            )
        },
        _ => None,
    }
}

/// What can be captured: the displays, and then the windows that are offered; or the desktop.
pub fn list(screen: &Screen) -> (r: Vec<CaptureSourceInfo>)
    ensures
        lists(*screen, r@),
{
    let mut sources: Vec<CaptureSourceInfo> = Vec::new();
    match screen {
        Screen::Whole => {
            sources.push(desktop_source());
        },
        Screen::Parts { displays, windows, main_id, own_pid } => {
            let mut i: usize = 0;
            while i < displays.len()
                invariant
                    i <= displays@.len(),
                    sources@.len() == i,
                    forall|j: int|
                        0 <= j < i ==> stands_for_display(
                            #[trigger] sources@[j],
                            displays@[j],
                            *main_id,
                        ),
                decreases displays.len() - i,
            {
                sources.push(display_source(displays[i], *main_id));
                i += 1;
            }
            let mut k: usize = 0;
            while k < windows.len()
                invariant
                    k <= windows@.len(),
                    sources@.len() == displays@.len() + offered(
                        windows@,
                        *own_pid,
                        k as int,
                    ).len(),
                    forall|j: int|
                        0 <= j < displays@.len() ==> stands_for_display(
                            #[trigger] sources@[j],
                            displays@[j],
                            *main_id,
                        ),
                    forall|j: int|
                        0 <= j < offered(windows@, *own_pid, k as int).len()
                            ==> stands_for_window(
                            sources@[displays@.len() + j],
                            #[trigger] offered(windows@, *own_pid, k as int)[j],
                        ),
                decreases windows.len() - k,
            {
                if let Some(info) = window_source(&windows[k], *own_pid) {
                    sources.push(info);
                }
                k += 1;
            }
        },
    }
    sources
}

/// Why a source cannot be captured.
#[derive(Debug, Clone, Copy, PartialEq, Eq, Structural)]
pub enum SourceGone {
    Window,
    Display,
}

impl SourceGone {
    pub open spec fn text(self) -> Seq<char> {
        match self {
            SourceGone::Window => "selected window is no longer available"@,
            SourceGone::Display => "selected display is no longer available"@,
        }
    }

    pub fn message(&self) -> (r: &'static str)
        ensures
            r@ == self.text(),
    {
        match self {
            SourceGone::Window => "selected window is no longer available",
            SourceGone::Display => "selected display is no longer available",
        }
    }
}

/// The display that a source means, if it means one.
pub open spec fn meant_display(source: CaptureSource, main_id: u32) -> Option<u32> {
    match source {
        CaptureSource::Window(_) => None,
        CaptureSource::Display(id) => Some(id),
        CaptureSource::MainDisplay => Some(main_id),
    }
}

fn find_window(windows: &Vec<WindowFacts>, id: u32) -> (r: Option<usize>)
    ensures
        match r {
            Some(i) => {
                &&& i < windows@.len()
                &&& windows@[i as int].window_id == id
                &&& forall|j: int| 0 <= j < i ==> (#[trigger] windows@[j]).window_id != id
            },
            None => forall|j: int|
                0 <= j < windows@.len() ==> (#[trigger] windows@[j]).window_id != id,
        },
{
    let mut i: usize = 0;
    while i < windows.len()
        invariant
            i <= windows@.len(),
            forall|j: int| 0 <= j < i ==> (#[trigger] windows@[j]).window_id != id,
        decreases windows.len() - i,
    {
        if windows[i].window_id == id {
            return Some(i);
        }
        i += 1;
    }
    None
}

fn find_display(displays: &Vec<DisplayFacts>, id: u32) -> (r: Option<usize>)
    ensures
        match r {
            Some(i) => {
                &&& i < displays@.len()
                &&& displays@[i as int].display_id == id
                &&& forall|j: int| 0 <= j < i ==> (#[trigger] displays@[j]).display_id != id
            },
            None => forall|j: int|
                0 <= j < displays@.len() ==> (#[trigger] displays@[j]).display_id != id,
        },
{
    let mut i: usize = 0;
    while i < displays.len()
        invariant
            i <= displays@.len(),
            forall|j: int| 0 <= j < i ==> (#[trigger] displays@[j]).display_id != id,
        decreases displays.len() - i,
    {
        if displays[i].display_id == id {
            return Some(i);
        }
        i += 1;
    }
    None
}

/// What looking for a source gives: the first window or display that it means, with its size in
/// pixels, or that there is none.
pub open spec fn finds(
    source: CaptureSource,
    displays: Seq<DisplayFacts>,
    windows: Seq<WindowFacts>,
    main_id: u32,
    r: Result<(usize, (u32, u32)), SourceGone>,
) -> bool {
    match (source, r) {
        (CaptureSource::Window(id), Ok((i, size))) => {
            &&& i < windows.len()
            &&& windows[i as int].window_id == id
            &&& size == windows[i as int].size
            &&& forall|j: int| 0 <= j < i ==> (#[trigger] windows[j]).window_id != id
        },
        (CaptureSource::Window(id), Err(gone)) => {
            &&& gone is Window
            &&& forall|j: int|
                0 <= j < windows.len() ==> (#[trigger] windows[j]).window_id != id
        },
        (_, Ok((i, size))) => {
            &&& i < displays.len()
            &&& Some(displays[i as int].display_id) == meant_display(source, main_id)
            &&& size == (displays[i as int].width, displays[i as int].height)
            &&& forall|j: int|
                0 <= j < i ==> Some((#[trigger] displays[j]).display_id) != meant_display(
                    source,
                    main_id,
                )
        },
        (_, Err(gone)) => {
            &&& gone is Display
            &&& forall|j: int|
                0 <= j < displays.len() ==> Some((#[trigger] displays[j]).display_id)
                    != meant_display(source, main_id)
        },
    }
}

/// Where a source stands among the windows or the displays, with its size in pixels; or that it has
/// gone.
pub fn find(
    source: CaptureSource,
    displays: &Vec<DisplayFacts>,
    windows: &Vec<WindowFacts>,
    main_id: u32,
) -> (r: Result<(usize, (u32, u32)), SourceGone>)
    ensures
        finds(source, displays@, windows@, main_id, r),
{
    let id: u32 = match source {
        CaptureSource::Window(id) => {
            return match find_window(windows, id) {
                Some(i) => Ok((i, windows[i].size)),
                None => Err(SourceGone::Window),
            };
        },
        CaptureSource::Display(id) => id,
        CaptureSource::MainDisplay => main_id,
    };
    match find_display(displays, id) {
        Some(i) => Ok((i, (displays[i].width, displays[i].height))),
        None => Err(SourceGone::Display),
    }
}

/// A window as accessibility sees it: its title, and its size where it tells one.
#[derive(Debug)]
pub struct TitledWindow<T> {
    pub title: Option<String>,
    pub size: Option<T>,
}

pub open spec fn is_titled<T>(window: TitledWindow<T>, title: Seq<char>) -> bool {
    window.title is Some && window.title->0@ == title
}

/// The size of the only window with that title. Two windows of one title cannot be told apart, so
/// neither counts.
pub fn unique_window_size<T: Copy>(windows: &Vec<TitledWindow<T>>, title: &str) -> (r: Option<T>)
    ensures
        match r {
            Some(size) => exists|i: int|
                {
                    &&& 0 <= i < windows@.len()
                    &&& is_titled(#[trigger] windows@[i], title@)
                    &&& windows@[i].size == Some(size)
                    &&& forall|j: int|
                        0 <= j < windows@.len() && j != i ==> !is_titled(
                            #[trigger] windows@[j],
                            title@,
                        )
                },
            None => forall|i: int|
                0 <= i < windows@.len() && is_titled(#[trigger] windows@[i], title@)
                    && windows@[i].size is Some ==> exists|j: int|
                    0 <= j < windows@.len() && j != i && is_titled(#[trigger] windows@[j], title@),
        },
{
    let mut matched: Option<usize> = None;
    let mut i: usize = 0;
    while i < windows.len()
        invariant
            i <= windows@.len(),
            match matched {
                Some(m) => {
                    &&& m < i
                    &&& is_titled(windows@[m as int], title@)
                    &&& forall|j: int|
                        0 <= j < i && j != m ==> !is_titled(#[trigger] windows@[j], title@)
                },
                None => forall|j: int| 0 <= j < i ==> !is_titled(#[trigger] windows@[j], title@),
            },
        decreases windows.len() - i,
    {
        let titled = match &windows[i].title {
            Some(name) => same_text(name.as_str(), title),
            None => false,
        };
        if titled {
            if let Some(m) = matched {
                proof {
                    assert(is_titled(windows@[m as int], title@) && is_titled(
                        windows@[i as int],
                        title@,
                    ));
                    assert forall|k: int|
                        0 <= k < windows@.len() && is_titled(#[trigger] windows@[k], title@)
                            && windows@[k].size is Some implies exists|j: int|
                        0 <= j < windows@.len() && j != k && is_titled(
                            #[trigger] windows@[j],
                            title@,
                        ) by {
                        if k == m {
                            assert(is_titled(windows@[i as int], title@));
                        } else {
                            assert(is_titled(windows@[m as int], title@));
                        }
                    }
                }
                return None;
            }
            matched = Some(i);
        }
        i += 1;
    }
    match matched {
        Some(m) => windows[m].size,
        None => None,
    }
}

proof fn lemma_offered_is_there(windows: Seq<WindowFacts>, own_pid: i32, n: int, i: int)
    requires
        0 <= n <= windows.len(),
        0 <= i < offered(windows, own_pid, n).len(),
    ensures
        exists|j: int| 0 <= j < n && windows[j] == offered(windows, own_pid, n)[i],
    decreases n,
{
    let before = offered(windows, own_pid, n - 1);
    if i < before.len() {
        lemma_offered_is_there(windows, own_pid, n - 1, i);
        let j = choose|j: int| 0 <= j < n - 1 && windows[j] == before[i];
        assert(windows[j] == offered(windows, own_pid, n)[i]);
    } else {
        assert(windows[n - 1] == offered(windows, own_pid, n)[i]);
    }
}

/// Whatever is listed can be captured while the screen stays as it is.
pub proof fn listed_sources_are_found(
    displays: Vec<DisplayFacts>,
    windows: Vec<WindowFacts>,
    main_id: u32,
    own_pid: i32,
    infos: Seq<CaptureSourceInfo>,
    i: int,
    r: Result<(usize, (u32, u32)), SourceGone>,
)
    requires
        lists(Screen::Parts { displays, windows, main_id, own_pid }, infos),
        0 <= i < infos.len(),
        finds(infos[i].source, displays@, windows@, main_id, r),
    ensures
        r is Ok,
{
    if i < displays@.len() {
        assert(stands_for_display(infos[i], displays@[i], main_id));
    } else {
        let shown = offered(windows@, own_pid, windows@.len() as int);
        let k = i - displays@.len();
        assert(stands_for_window(infos[displays@.len() + k], shown[k]));
        lemma_offered_is_there(windows@, own_pid, windows@.len() as int, k);
        let j = choose|j: int| 0 <= j < windows@.len() && windows@[j] == shown[k];
        assert(windows@[j].window_id == shown[k].window_id);
    }
}

/// A window is offered, in the order of the windows, exactly if another program has it, it has a
/// title that is not blank, and it is large enough to be seen.
pub proof fn visible_windows_are_offered(windows: Seq<WindowFacts>, own_pid: i32, n: int)
    requires
        0 <= n < windows.len(),
    ensures
        ({
            let window = windows[n];
            let seen = window.owner is Some && window.owner->0.process_id != own_pid
                && window.title is Some && trimmed(window.title->0@).len() != 0 && !window.tiny;
            &&& offered(windows, own_pid, 0).len() == 0
            &&& seen ==> offered(windows, own_pid, n + 1) == offered(windows, own_pid, n).push(
                window,
            )
            &&& !seen ==> offered(windows, own_pid, n + 1) == offered(windows, own_pid, n)
        }),
{
}

/// What is listed is as it is on the screen: first every display, under its own number and with its
/// own size, of which only the main one takes input, then every window that is offered, under its
/// own title, which takes none. A screen that has no parts is listed as one desktop.
pub proof fn sources_are_listed_as_they_are(
    displays: Vec<DisplayFacts>,
    windows: Vec<WindowFacts>,
    main_id: u32,
    own_pid: i32,
    infos: Seq<CaptureSourceInfo>,
    i: int,
)
    ensures
        lists(Screen::Parts { displays, windows, main_id, own_pid }, infos) ==> {
            let shown = offered(windows@, own_pid, windows@.len() as int);
            &&& infos.len() == displays@.len() + shown.len()
            &&& 0 <= i < displays@.len() ==> {
                &&& infos[i].source == CaptureSource::Display(displays@[i].display_id)
                &&& infos[i].width == displays@[i].width
                &&& infos[i].height == displays@[i].height
                &&& infos[i].supports_input == (displays@[i].display_id == main_id)
                &&& infos[i].process_id is None
                &&& infos[i].title@ == "Display "@ + decimal(displays@[i].display_id as nat)
            }
            &&& displays@.len() <= i < infos.len() ==> {
                let window = shown[i - displays@.len()];
                &&& infos[i].source == CaptureSource::Window(window.window_id)
                &&& infos[i].width == window.size.0
                &&& infos[i].height == window.size.1
                &&& !infos[i].supports_input
                &&& infos[i].process_id == Some(window.owner->0.process_id)
                &&& infos[i].title@ == window.title->0@
                &&& infos[i].application@ == window.owner->0.application@
            }
        },
        lists(Screen::Whole, infos) ==> {
            &&& infos.len() == 1
            &&& infos[0].source == CaptureSource::MainDisplay
            &&& infos[0].supports_input
            &&& infos[0].process_id is None
        },
{
    if lists(Screen::Parts { displays, windows, main_id, own_pid }, infos) {
        let shown = offered(windows@, own_pid, windows@.len() as int);
        if 0 <= i < displays@.len() {
            assert(stands_for_display(infos[i], displays@[i], main_id));
        }
        if displays@.len() <= i < infos.len() {
            let k = i - displays@.len();
            assert(stands_for_window(infos[displays@.len() + k], shown[k]));
        }
    }
}

/// A source is found by its own number, the main display by that of the main display, with its own
/// size; it is gone exactly if nothing on the screen has that number.
pub proof fn sources_are_found_by_their_number(
    source: CaptureSource,
    displays: Seq<DisplayFacts>,
    windows: Seq<WindowFacts>,
    main_id: u32,
    r: Result<(usize, (u32, u32)), SourceGone>,
    j: int,
)
    requires
        finds(source, displays, windows, main_id, r),
    ensures
        match source {
            CaptureSource::Window(id) => {
                &&& r is Ok ==> (r->Ok_0).0 < windows.len() && windows[(r->Ok_0).0 as int].window_id
                    == id && (r->Ok_0).1 == windows[(r->Ok_0).0 as int].size
                &&& r is Err ==> r->Err_0 is Window
                &&& r is Err && 0 <= j < windows.len() ==> windows[j].window_id != id
            },
            CaptureSource::Display(id) => {
                &&& r is Ok ==> (r->Ok_0).0 < displays.len() && displays[(
                r->Ok_0).0 as int].display_id == id && ((r->Ok_0).1).0 == displays[(
                r->Ok_0).0 as int].width && ((r->Ok_0).1).1 == displays[(r->Ok_0).0 as int].height
                &&& r is Err ==> r->Err_0 is Display
                &&& r is Err && 0 <= j < displays.len() ==> displays[j].display_id != id
            },
            CaptureSource::MainDisplay => {
                &&& r is Ok ==> (r->Ok_0).0 < displays.len() && displays[(
                r->Ok_0).0 as int].display_id == main_id && ((r->Ok_0).1).0 == displays[(
                r->Ok_0).0 as int].width && ((r->Ok_0).1).1 == displays[(r->Ok_0).0 as int].height
                &&& r is Err ==> r->Err_0 is Display
                &&& r is Err && 0 <= j < displays.len() ==> displays[j].display_id != main_id
            },
        },
{
}

/// A source that is gone is told by its kind.
pub proof fn gone_sources_are_told_by_kind()
    ensures
        SourceGone::Window.text() == "selected window is no longer available"@,
        SourceGone::Display.text() == "selected display is no longer available"@,
        forall|main_id: u32, id: u32|
            #[trigger] meant_display(CaptureSource::Display(id), main_id) == Some(id),
        forall|main_id: u32| #[trigger]
            meant_display(CaptureSource::MainDisplay, main_id) == Some(main_id),
{
}

} // verus!
