//! The viewer controller: owns the current page, the page count and the
//! window geometry, applies navigation intents, runs scheduler passes and
//! consumes completed renders.
//!
//! The controller never talks to the rendering engine or the windowing layer
//! itself: a key press or a finished render goes in as a plain value, and
//! what comes back is what the host must do — render requests to enqueue, a
//! quit flag, a window resize to ask for.

use crate::cache::{insert_post, PageCache, RenderedPage, within_window};
use crate::input::{key_step, KeyHandler, KeyInput, NavigationAction, NavigationMode};
use crate::scheduler::{compute_render_requests, prefetch_set, scheduler_requests_ok, RenderRequest};
use vstd::prelude::*;

verus! {

/// Pages on each side of the current page protected from eviction and
/// eligible for prefetch.
pub const DEFAULT_WINDOW_RADIUS: usize = 2;

/// Configuration for the viewer.
#[derive(Debug, Clone, Copy, PartialEq, Eq, Structural)]
pub struct ViewerConfig {
    /// Window width before the first render arrives, in pixels.
    pub initial_window_width: u32,
    /// Window height before the first render arrives, in pixels.
    pub initial_window_height: u32,
    /// Soft upper bound on the number of cached rendered pages.
    pub cache_size: usize,
    /// How many pages a half-page scroll moves.
    pub half_page_scroll_amount: usize,
    /// Desired displayed height; width follows the page's aspect ratio.
    pub target_render_height: u32,
}

/// The configuration the viewer starts from when none is given.
pub open spec fn default_config() -> ViewerConfig {
    ViewerConfig {
        initial_window_width: 800,
        initial_window_height: 600,
        cache_size: 5,
        half_page_scroll_amount: 5,
        target_render_height: 800,
    }
}

impl Default for ViewerConfig {
    fn default() -> (r: Self)
        ensures
            r == default_config(),
    {
        ViewerConfig {
            initial_window_width: 800,
            initial_window_height: 600,
            cache_size: 5,
            half_page_scroll_amount: 5,
            target_render_height: 800,
        }
    }
}

/// A completed render: raw RGBA pixels for one page.
pub struct RenderResult {
    pub page_index: usize,
    pub pixels: Vec<u8>,
    pub width: u32,
    pub height: u32,
}

impl RenderResult {
    /// The buffer holds exactly 4 bytes for each of `width x height` pixels.
    pub open spec fn wf(&self) -> bool {
        self.pixels@.len() == self.width as int * self.height as int * 4
    }
}

/// A desired window size, handed to the presentation layer, which is free to
/// ignore or clamp it.
#[derive(Debug, Clone, Copy, PartialEq, Eq, Structural)]
pub struct ResizeRequest {
    pub width: u32,
    pub height: u32,
}

/// What a key press asks the host to do.
pub struct NavEffects {
    /// The host should shut the viewer down.
    pub quit: bool,
    /// Render requests to enqueue, in order.
    pub requests: Vec<RenderRequest>,
}

/// A window dimension reduced to what a render request can carry.
pub open spec fn clamp_u16(v: u32) -> u16 {
    if v > u16::MAX as u32 {
        u16::MAX
    } else {
        v as u16
    }
}

fn clamp_dim(v: u32) -> (r: u16)
    ensures
        r == clamp_u16(v),
{
    if v > 65535 {
        65535
    } else {
        v as u16
    }
}

/// The width that keeps a rendered page's aspect ratio at the target height:
/// `target_height * width / height`, saturated to fit.
pub open spec fn resize_width_spec(target_height: u32, width: u32, height: u32) -> u32
    recommends
        height > 0,
{
    let v = target_height as int * width as int / height as int;
    if v > u32::MAX as int {
        u32::MAX
    } else {
        v as u32
    }
}

fn resize_width(target_height: u32, width: u32, height: u32) -> (r: u32)
    requires
        height > 0,
    ensures
        r == resize_width_spec(target_height, width, height),
{
    proof {
        assert((target_height as u64) as int * (width as u64) as int <= u64::MAX as int)
            by (nonlinear_arith)
            requires
                target_height <= u32::MAX,
                width <= u32::MAX,
        ;
    }
    let v = (target_height as u64) * (width as u64) / (height as u64);
    if v > 0xffff_ffff {
        u32::MAX
    } else {
        v as u32
    }
}

/// Where a navigation action moves the current page — always clamped to the
/// valid range, with out-of-range jumps ignored — and whether it triggers a
/// scheduler pass. Moving past the first or last page does not wrap: the
/// page stays put, but the pass still runs (and is itself a no-op when
/// everything it would ask for is already at hand).
pub open spec fn nav_step(
    current: usize,
    total_pages: u16,
    scroll: usize,
    action: NavigationAction,
) -> (usize, bool) {
    match action {
        NavigationAction::NextPage => (
            if current as int + 1 < total_pages as int {
                (current + 1) as usize
            } else {
                current
            },
            true,
        ),
        NavigationAction::PrevPage => (
            if current > 0 {
                (current - 1) as usize
            } else {
                current
            },
            true,
        ),
        NavigationAction::FirstPage => (0usize, true),
        NavigationAction::LastPage => (
            if total_pages == 0 {
                0usize
            } else {
                (total_pages - 1) as usize
            },
            true,
        ),
        NavigationAction::HalfPageDown => if total_pages == 0 {
            (current, false)
        } else {
            (
                if current as int + scroll as int <= total_pages as int - 1 {
                    (current + scroll) as usize
                } else {
                    (total_pages - 1) as usize
                },
                true,
            )
        },
        NavigationAction::HalfPageUp => (
            if current >= scroll {
                (current - scroll) as usize
            } else {
                0usize
            },
            true,
        ),
        NavigationAction::JumpToPage(n) => {
            let target = if n > 0 {
                (n - 1) as usize
            } else {
                0usize
            };
            if (target as int) < total_pages as int {
                (target, true)
            } else {
                (current, false)
            }
        },
        _ => (current, false),
    }
}

/// Two rapid jumps to the same 1-based page number `n` land on the same
/// target `n - 1` and each trigger their own scheduler pass. While the
/// target is missing from the cache at both passes, each pass issues exactly
/// one render request for it: duplicate in-flight requests are allowed
/// rather than suppressed across passes, and a later result for the target
/// replaces its cache entry wholesale (see `insert_post`), so duplicates
/// cannot corrupt the cache.
pub proof fn lemma_repeated_jump_requests(
    current: usize,
    total_pages: u16,
    scroll: usize,
    n: usize,
    cache: PageCache,
    reqs1: Seq<RenderRequest>,
    reqs2: Seq<RenderRequest>,
    width: u16,
    height: u16,
)
    requires
        n >= 1,
        ((n - 1) as int) < (total_pages as int),
        !cache.contains_page((n - 1) as usize),
        scheduler_requests_ok(reqs1, (n - 1) as usize, total_pages, cache, width, height),
        scheduler_requests_ok(reqs2, (n - 1) as usize, total_pages, cache, width, height),
    ensures
        // the first jump lands on the target; the second stays there, and
        // both trigger a pass
        nav_step(current, total_pages, scroll, NavigationAction::JumpToPage(n)) == (
            ((n - 1) as usize),
            true,
        ),
        nav_step((n - 1) as usize, total_pages, scroll, NavigationAction::JumpToPage(n)) == (
            ((n - 1) as usize),
            true,
        ),
        // each pass issues a request for the target ...
        exists|i: int|
            0 <= i < reqs1.len() && (#[trigger] reqs1[i]).page_index == (n - 1) as usize,
        exists|i: int|
            0 <= i < reqs2.len() && (#[trigger] reqs2[i]).page_index == (n - 1) as usize,
        // ... and no pass issues it twice
        forall|i: int, j: int|
            #![trigger reqs1[i], reqs1[j]]
            0 <= i < reqs1.len() && 0 <= j < reqs1.len() && reqs1[i].page_index == (n - 1) as usize
                && reqs1[j].page_index == (n - 1) as usize ==> i == j,
        forall|i: int, j: int|
            #![trigger reqs2[i], reqs2[j]]
            0 <= i < reqs2.len() && 0 <= j < reqs2.len() && reqs2[i].page_index == (n - 1) as usize
                && reqs2[j].page_index == (n - 1) as usize ==> i == j,
{
    let t = (n - 1) as usize;
    assert(prefetch_set(t, total_pages).contains(t));
    assert(!cache.contains_page(t));
    assert forall|i: int, j: int|
        #![trigger reqs1[i], reqs1[j]]
        0 <= i < reqs1.len() && 0 <= j < reqs1.len() && reqs1[i].page_index == t
            && reqs1[j].page_index == t implies i == j by {
        if i < j {
            assert(reqs1[i].page_index != reqs1[j].page_index);
        }
        if j < i {
            assert(reqs1[j].page_index != reqs1[i].page_index);
        }
    }
    assert forall|i: int, j: int|
        #![trigger reqs2[i], reqs2[j]]
        0 <= i < reqs2.len() && 0 <= j < reqs2.len() && reqs2[i].page_index == t
            && reqs2[j].page_index == t implies i == j by {
        if i < j {
            assert(reqs2[i].page_index != reqs2[j].page_index);
        }
        if j < i {
            assert(reqs2[j].page_index != reqs2[i].page_index);
        }
    }
}

/// Main viewer state: what the viewer shows and what it knows.
pub struct ViewerApp {
    current_page_index: usize,
    total_pages: u16,
    window_width: u32,
    window_height: u32,
    displayed_page: Option<usize>,
    cache: PageCache,
    key_handler: KeyHandler,
    config: ViewerConfig,
}

impl ViewerApp {
    pub closed spec fn current_spec(&self) -> usize {
        self.current_page_index
    }

    pub closed spec fn total_spec(&self) -> u16 {
        self.total_pages
    }

    pub closed spec fn window_width_spec(&self) -> u32 {
        self.window_width
    }

    pub closed spec fn window_height_spec(&self) -> u32 {
        self.window_height
    }

    /// The page whose image is currently displayed, if any.
    pub closed spec fn displayed_spec(&self) -> Option<usize> {
        self.displayed_page
    }

    pub closed spec fn cache_spec(&self) -> PageCache {
        self.cache
    }

    pub closed spec fn key_handler_spec(&self) -> KeyHandler {
        self.key_handler
    }

    pub closed spec fn config_spec(&self) -> ViewerConfig {
        self.config
    }

    /// The current page is valid whenever the document has pages, and the
    /// cache is well formed and configured as asked.
    pub open spec fn wf(&self) -> bool {
        &&& self.cache_spec().wf()
        &&& self.cache_spec().max_size_spec() == self.config_spec().cache_size
        &&& self.cache_spec().window_radius_spec() == DEFAULT_WINDOW_RADIUS
        &&& if self.total_spec() == 0 {
            self.current_spec() == 0
        } else {
            (self.current_spec() as int) < self.total_spec() as int
        }
    }

    /// A viewer on the first page of a document of `total_pages` pages, with
    /// the default configuration, together with the initial render request.
    pub fn new(total_pages: u16) -> (r: (Self, Vec<RenderRequest>))
        ensures
            r.0.wf(),
            r.0.config_spec() == default_config(),
            new_viewer_post(r.0, r.1@, total_pages, default_config()),
    {
        Self::with_config(total_pages, ViewerConfig::default())
    }

    /// A viewer on the first page, with the given configuration, together
    /// with the initial render request for page 0 (none for an empty
    /// document).
    pub fn with_config(total_pages: u16, config: ViewerConfig) -> (r: (Self, Vec<RenderRequest>))
        ensures
            r.0.wf(),
            r.0.config_spec() == config,
            new_viewer_post(r.0, r.1@, total_pages, config),
    {
        let app = ViewerApp {
            current_page_index: 0,
            total_pages,
            window_width: config.initial_window_width,
            window_height: config.initial_window_height,
            displayed_page: None,
            cache: PageCache::new(config.cache_size, DEFAULT_WINDOW_RADIUS),
            key_handler: KeyHandler::new(),
            config,
        };
        let mut requests: Vec<RenderRequest> = Vec::new();
        if total_pages > 0 {
            requests.push(
                RenderRequest {
                    page_index: 0,
                    width: clamp_dim(config.initial_window_width),
                    height: clamp_dim(config.initial_window_height),
                },
            );
        }
        (app, requests)
    }

    pub fn current_page_index(&self) -> (r: usize)
        ensures
            r == self.current_spec(),
    {
        self.current_page_index
    }

    pub fn total_pages(&self) -> (r: u16)
        ensures
            r == self.total_spec(),
    {
        self.total_pages
    }

    pub fn displayed_page(&self) -> (r: Option<usize>)
        ensures
            r == self.displayed_spec(),
    {
        self.displayed_page
    }

    pub fn key_handler(&self) -> (r: &KeyHandler)
        ensures
            *r == self.key_handler_spec(),
    {
        &self.key_handler
    }

    /// Read a cached page, for the host to turn into a displayable image.
    pub fn cached_page(&self, index: usize) -> (r: Option<&RenderedPage>)
        requires
            self.wf(),
        ensures
            r is Some <==> self.cache_spec().contains_page(index),
            r matches Some(p) ==> *p == self.cache_spec().page_at(index) && p.wf(),
    {
        self.cache.get(index)
    }

    /// Record the window size the presentation layer reports.
    pub fn set_window_size(&mut self, width: u32, height: u32)
        requires
            old(self).wf(),
        ensures
            final(self).wf(),
            final(self).window_width_spec() == width,
            final(self).window_height_spec() == height,
            final(self).current_spec() == old(self).current_spec(),
            final(self).total_spec() == old(self).total_spec(),
            final(self).displayed_spec() == old(self).displayed_spec(),
            final(self).cache_spec() == old(self).cache_spec(),
            final(self).key_handler_spec() == old(self).key_handler_spec(),
            final(self).config_spec() == old(self).config_spec(),
    {
        self.window_width = width;
        self.window_height = height;
    }

    /// Feed one key press through the navigation state machine and apply the
    /// intent it produces: the current page moves as `nav_step` says, a
    /// navigation intent triggers a scheduler pass — also at a boundary,
    /// where the page stays put — whose requests come back to the host, and
    /// a cached current page is adopted for display at once.
    pub fn handle_key_press(&mut self, key: &KeyInput) -> (r: NavEffects)
        requires
            old(self).wf(),
        ensures
            final(self).wf(),
            final(self).total_spec() == old(self).total_spec(),
            final(self).config_spec() == old(self).config_spec(),
            final(self).window_width_spec() == old(self).window_width_spec(),
            final(self).window_height_spec() == old(self).window_height_spec(),
            final(self).cache_spec() == old(self).cache_spec(),
            ({
                let (m, b, a) = key_step(
                    old(self).key_handler_spec().mode_spec(),
                    old(self).key_handler_spec().buffer_view(),
                    *key,
                );
                let (cur, pass) = nav_step(
                    old(self).current_spec(),
                    old(self).total_spec(),
                    old(self).config_spec().half_page_scroll_amount,
                    a,
                );
                &&& final(self).key_handler_spec().mode_spec() == m
                &&& final(self).key_handler_spec().buffer_view() == b
                &&& final(self).current_spec() == cur
                &&& r.quit == (a is Quit)
                &&& pass ==> {
                    &&& scheduler_requests_ok(
                        r.requests@,
                        cur,
                        old(self).total_spec(),
                        old(self).cache_spec(),
                        clamp_u16(old(self).window_width_spec()),
                        clamp_u16(old(self).window_height_spec()),
                    )
                    &&& final(self).displayed_spec() == (if old(self).cache_spec().contains_page(
                        cur,
                    ) {
                        Some(cur)
                    } else {
                        old(self).displayed_spec()
                    })
                }
                &&& !pass ==> r.requests@.len() == 0 && final(self).displayed_spec() == old(
                    self,
                ).displayed_spec()
            }),
    {
        let action = self.key_handler.handle_key(key);
        let mut quit = false;
        let mut pass = false;
        match action {
            NavigationAction::NextPage => {
                if self.total_pages > 0 && self.current_page_index < (self.total_pages as usize)
                    - 1 {
                    self.current_page_index = self.current_page_index + 1;
                }
                pass = true;
            },
            NavigationAction::PrevPage => {
                if self.current_page_index > 0 {
                    self.current_page_index = self.current_page_index - 1;
                }
                pass = true;
            },
            NavigationAction::FirstPage => {
                self.current_page_index = 0;
                pass = true;
            },
            NavigationAction::LastPage => {
                self.current_page_index = if self.total_pages == 0 {
                    0
                } else {
                    (self.total_pages - 1) as usize
                };
                pass = true;
            },
            NavigationAction::HalfPageDown => {
                if self.total_pages > 0 {
                    let last = (self.total_pages - 1) as usize;
                    let amount = self.config.half_page_scroll_amount;
                    let room = last - self.current_page_index;
                    self.current_page_index = if amount <= room {
                        self.current_page_index + amount
                    } else {
                        last
                    };
                    pass = true;
                }
            },
            NavigationAction::HalfPageUp => {
                let amount = self.config.half_page_scroll_amount;
                self.current_page_index = if self.current_page_index >= amount {
                    self.current_page_index - amount
                } else {
                    0
                };
                pass = true;
            },
            NavigationAction::JumpToPage(n) => {
                let target = if n > 0 {
                    n - 1
                } else {
                    0
                };
                if target < self.total_pages as usize {
                    self.current_page_index = target;
                    pass = true;
                }
            },
            NavigationAction::Quit => {
                quit = true;
            },
            NavigationAction::EnterCommandMode => {},
            NavigationAction::NoAction => {},
        }
        let requests = if pass {
            self.render_current_and_adjacent_pages()
        } else {
            Vec::new()
        };
        NavEffects { quit, requests }
    }

    /// A scheduler pass: adopt the current page from the cache when it is
    /// there, and request every missing page of the prefetch set at the
    /// current window dimensions.
    fn render_current_and_adjacent_pages(&mut self) -> (r: Vec<RenderRequest>)
        requires
            old(self).wf(),
        ensures
            final(self).wf(),
            final(self).total_spec() == old(self).total_spec(),
            final(self).config_spec() == old(self).config_spec(),
            final(self).window_width_spec() == old(self).window_width_spec(),
            final(self).window_height_spec() == old(self).window_height_spec(),
            final(self).cache_spec() == old(self).cache_spec(),
            final(self).key_handler_spec() == old(self).key_handler_spec(),
            final(self).current_spec() == old(self).current_spec(),
            scheduler_requests_ok(
                r@,
                old(self).current_spec(),
                old(self).total_spec(),
                old(self).cache_spec(),
                clamp_u16(old(self).window_width_spec()),
                clamp_u16(old(self).window_height_spec()),
            ),
            final(self).displayed_spec() == (if old(self).cache_spec().contains_page(
                old(self).current_spec(),
            ) {
                Some(old(self).current_spec())
            } else {
                old(self).displayed_spec()
            }),
    {
        let width = clamp_dim(self.window_width);
        let height = clamp_dim(self.window_height);
        match self.cache.get(self.current_page_index) {
            Some(_) => {
                self.displayed_page = Some(self.current_page_index);
            },
            None => {},
        }
        compute_render_requests(self.current_page_index, self.total_pages, &self.cache, width, height)
    }

    /// Consume one completed render: the page goes into the cache under the
    /// eviction policy whatever happens; only a result for the page that is
    /// still current updates the displayed image and asks the presentation
    /// layer to match the page's aspect ratio at the configured height.
    pub fn handle_render_result(&mut self, result: RenderResult) -> (resize: Option<ResizeRequest>)
        requires
            old(self).wf(),
            result.wf(),
        ensures
            final(self).wf(),
            final(self).total_spec() == old(self).total_spec(),
            final(self).config_spec() == old(self).config_spec(),
            final(self).window_width_spec() == old(self).window_width_spec(),
            final(self).window_height_spec() == old(self).window_height_spec(),
            final(self).key_handler_spec() == old(self).key_handler_spec(),
            final(self).current_spec() == old(self).current_spec(),
            insert_post(
                old(self).cache_spec(),
                final(self).cache_spec(),
                result.page_index,
                RenderedPage { pixels: result.pixels, width: result.width, height: result.height },
                old(self).current_spec(),
            ),
            // a result for the current page is displayed and sizes the window
            result.page_index == old(self).current_spec() ==> {
                &&& final(self).displayed_spec() == Some(result.page_index)
                &&& resize == (if result.height > 0 {
                    Some(
                        ResizeRequest {
                            width: resize_width_spec(
                                old(self).config_spec().target_render_height,
                                result.width,
                                result.height,
                            ),
                            height: old(self).config_spec().target_render_height,
                        },
                    )
                } else {
                    None::<ResizeRequest>
                })
            },
            // a stale result is cached but neither displays nor resizes
            result.page_index != old(self).current_spec() ==> final(self).displayed_spec() == old(
                self,
            ).displayed_spec() && resize is None,
    {
        let is_current = result.page_index == self.current_page_index;
        let page_index = result.page_index;
        let res_width = result.width;
        let res_height = result.height;
        let entry = RenderedPage { pixels: result.pixels, width: result.width, height: result.height };
        self.cache.insert(page_index, entry, self.current_page_index);
        if is_current {
            self.displayed_page = Some(page_index);
            if res_height > 0 {
                let new_width = resize_width(self.config.target_render_height, res_width, res_height);
                return Some(
                    ResizeRequest { width: new_width, height: self.config.target_render_height },
                );
            }
        }
        None
    }
}

/// What a fresh viewer looks like: first page current, nothing displayed,
/// an empty cache, the input machine in `Normal` mode, the window at its
/// configured initial size, and one render request for page 0 whenever the
/// document has any page.
pub open spec fn new_viewer_post(
    app: ViewerApp,
    requests: Seq<RenderRequest>,
    total_pages: u16,
    config: ViewerConfig,
) -> bool {
    &&& app.current_spec() == 0
    &&& app.total_spec() == total_pages
    &&& app.window_width_spec() == config.initial_window_width
    &&& app.window_height_spec() == config.initial_window_height
    &&& app.displayed_spec() is None
    &&& app.cache_spec().len_spec() == 0
    &&& forall|j: usize| !(#[trigger] app.cache_spec().contains_page(j))
    &&& app.key_handler_spec().mode_spec() == NavigationMode::Normal
    &&& app.key_handler_spec().buffer_view() == Seq::<char>::empty()
    &&& total_pages > 0 ==> requests =~= seq![
        RenderRequest {
            page_index: 0usize,
            width: clamp_u16(config.initial_window_width),
            height: clamp_u16(config.initial_window_height),
        },
    ]
    &&& total_pages == 0 ==> requests.len() == 0
}

} // verus!
